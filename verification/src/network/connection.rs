//! The per-connection state machine: buffers, write progress, timing
//! and keep-alive state.  The socket itself lives outside the
//! library; bytes read from it are handed in, and bytes to write are
//! handed out, as plain values.

use vstd::prelude::*;

verus! {

/// The three-state connection lifecycle.
#[derive(Debug, Clone, Copy, PartialEq, Eq, Structural)]
pub enum ConnState {
    /// Waiting for request bytes.
    Reading,
    /// Holding a response, waiting to write it.
    Writing,
    /// Done; to be torn down.
    Closing,
}

/// Why a connection must be discarded.
#[derive(Debug, Clone, Copy, PartialEq, Eq, Structural)]
pub enum ConnectionError {
    Closed,
    IoError,
    Timeout,
}

/// State of one client connection.  Times are milliseconds since the
/// Unix epoch, handed in by the caller at each event.
#[derive(Debug)]
pub struct ClientConnection {
    pub state: ConnState,
    pub read_buffer: Vec<u8>,
    pub write_buffer: Vec<u8>,
    pub bytes_written: usize,
    pub connected_at: u64,
    pub last_activity: u64,
    pub request_started_at: Option<u64>,
    pub keep_alive: bool,
    pub requests_handled: u32,
}

impl ClientConnection {
    /// The invariant the event loop maintains between events: the
    /// write cursor never passes the buffer, and a writing connection
    /// has bytes left to write.
    pub open spec fn wf(&self) -> bool {
        &&& self.bytes_written <= self.write_buffer@.len()
        &&& (self.state is Writing ==> self.bytes_written < self.write_buffer@.len())
    }

    /// The connection waits for request bytes.
    pub open spec fn spec_wants_read(&self) -> bool {
        self.state is Reading
    }

    /// The connection has unwritten response bytes.
    pub open spec fn spec_wants_write(&self) -> bool {
        self.state is Writing && self.bytes_written < self.write_buffer@.len()
    }

    /// The connection is to be torn down.
    pub open spec fn spec_must_close(&self) -> bool {
        self.state is Closing
    }

    /// A fresh connection: reading, empty buffers, both clocks at the
    /// accept time, keep-alive on.
    pub fn new(now_ms: u64) -> (r: Self)
        ensures
            r.wf(),
            r.state is Reading,
            r.read_buffer@ == Seq::<u8>::empty(),
            r.write_buffer@ == Seq::<u8>::empty(),
            r.bytes_written == 0,
            r.connected_at == now_ms,
            r.last_activity == now_ms,
            r.request_started_at is None,
            r.keep_alive,
            r.requests_handled == 0,
    {
        Self {
            state: ConnState::Reading,
            read_buffer: Vec::new(),
            write_buffer: Vec::new(),
            bytes_written: 0,
            connected_at: now_ms,
            last_activity: now_ms,
            request_started_at: None,
            keep_alive: true,
            requests_handled: 0,
        }
    }

    /// Absorbs bytes read from the socket: appends them, refreshes the
    /// activity clock, and starts the per-request clock on the first
    /// byte of a request.
    pub fn on_read_data(&mut self, data: &[u8], now_ms: u64)
        requires
            old(self).wf(),
        ensures
            final(self).wf(),
            final(self).read_buffer@ == old(self).read_buffer@ + data@,
            final(self).last_activity == now_ms,
            final(self).request_started_at == (if old(self).request_started_at is None {
                Some(now_ms)
            } else {
                old(self).request_started_at
            }),
            final(self).state == old(self).state,
            final(self).write_buffer == old(self).write_buffer,
            final(self).bytes_written == old(self).bytes_written,
            final(self).keep_alive == old(self).keep_alive,
            final(self).requests_handled == old(self).requests_handled,
            final(self).connected_at == old(self).connected_at,
    {
        self.read_buffer.extend_from_slice(data);
        self.last_activity = now_ms;
        if self.request_started_at.is_none() {
            self.request_started_at = Some(now_ms);
        }
    }

    /// Queues a serialized response and switches to writing.
    pub fn queue_response(&mut self, data: Vec<u8>)
        requires
            data@.len() > 0,
        ensures
            final(self).wf(),
            final(self).write_buffer == data,
            final(self).bytes_written == 0,
            final(self).state is Writing,
            final(self).read_buffer == old(self).read_buffer,
            final(self).keep_alive == old(self).keep_alive,
            final(self).requests_handled == old(self).requests_handled,
            final(self).last_activity == old(self).last_activity,
            final(self).request_started_at == old(self).request_started_at,
            final(self).connected_at == old(self).connected_at,
    {
        self.write_buffer = data;
        self.bytes_written = 0;
        self.state = ConnState::Writing;
    }

    /// Advances the write cursor after `n` bytes reached the socket;
    /// returns whether the response is fully sent.  A finished write
    /// must at once be followed by a reset or by closing.
    pub fn on_wrote(&mut self, n: usize, now_ms: u64) -> (complete: bool)
        requires
            old(self).wf(),
            n <= old(self).write_buffer@.len() - old(self).bytes_written,
        ensures
            final(self).bytes_written == old(self).bytes_written + n,
            final(self).last_activity == now_ms,
            complete == (final(self).bytes_written == final(self).write_buffer@.len()),
            !complete ==> final(self).wf(),
            final(self).state == old(self).state,
            final(self).write_buffer == old(self).write_buffer,
            final(self).read_buffer == old(self).read_buffer,
            final(self).keep_alive == old(self).keep_alive,
            final(self).requests_handled == old(self).requests_handled,
            final(self).request_started_at == old(self).request_started_at,
            final(self).connected_at == old(self).connected_at,
    {
        let buffered = self.write_buffer.len();
        self.bytes_written = self.bytes_written + n;
        self.last_activity = now_ms;
        self.bytes_written == buffered
    }

    /// Clears the buffers for the next request on a kept-alive
    /// connection.
    pub fn reset_for_next_request(&mut self)
        requires
            old(self).requests_handled < u32::MAX,
        ensures
            final(self).wf(),
            final(self).state is Reading,
            final(self).read_buffer@ == Seq::<u8>::empty(),
            final(self).write_buffer@ == Seq::<u8>::empty(),
            final(self).bytes_written == 0,
            final(self).requests_handled == old(self).requests_handled + 1,
            final(self).request_started_at is None,
            final(self).keep_alive == old(self).keep_alive,
            final(self).last_activity == old(self).last_activity,
            final(self).connected_at == old(self).connected_at,
    {
        self.read_buffer.clear();
        self.write_buffer.clear();
        self.bytes_written = 0;
        self.state = ConnState::Reading;
        self.requests_handled = self.requests_handled + 1;
        self.request_started_at = None;
    }

    /// Marks the connection for teardown.
    pub fn mark_closing(&mut self)
        requires
            old(self).bytes_written <= old(self).write_buffer@.len(),
        ensures
            final(self).wf(),
            final(self).state is Closing,
            final(self).read_buffer == old(self).read_buffer,
            final(self).write_buffer == old(self).write_buffer,
            final(self).bytes_written == old(self).bytes_written,
            final(self).keep_alive == old(self).keep_alive,
            final(self).requests_handled == old(self).requests_handled,
            final(self).last_activity == old(self).last_activity,
            final(self).request_started_at == old(self).request_started_at,
            final(self).connected_at == old(self).connected_at,
    {
        self.state = ConnState::Closing;
    }

    /// Milliseconds elapsed since an instant, saturating at zero.
    pub open spec fn spec_elapsed_ms(now_ms: u64, since_ms: u64) -> u64 {
        if now_ms >= since_ms {
            (now_ms - since_ms) as u64
        } else {
            0
        }
    }

    /// Has the connection been idle longer than the timeout?
    pub fn is_idle_timeout(&self, now_ms: u64, timeout_secs: u64) -> (r: bool)
        ensures
            r == (Self::spec_elapsed_ms(now_ms, self.last_activity) / 1000 > timeout_secs),
    {
        let elapsed = if now_ms >= self.last_activity {
            now_ms - self.last_activity
        } else {
            0
        };
        elapsed / 1000 > timeout_secs
    }

    /// Has the current request been incomplete longer than the
    /// timeout?  Only a connection still reading can time out here.
    pub fn is_request_timeout(&self, now_ms: u64, timeout_secs: u64) -> (r: bool)
        ensures
            r == (self.request_started_at matches Some(started) && self.state is Reading
                && Self::spec_elapsed_ms(now_ms, started) / 1000 > timeout_secs),
    {
        match self.request_started_at {
            Some(started) => {
                if matches!(self.state, ConnState::Reading) {
                    let elapsed = if now_ms >= started {
                        now_ms - started
                    } else {
                        0
                    };
                    elapsed / 1000 > timeout_secs
                } else {
                    false
                }
            },
            None => false,
        }
    }

    /// Is the queued response fully written?
    pub fn write_complete(&self) -> (r: bool)
        ensures
            r == (self.bytes_written >= self.write_buffer@.len()),
    {
        self.bytes_written >= self.write_buffer.len()
    }

    /// Does the connection wait for request bytes?
    pub fn wants_read(&self) -> (r: bool)
        ensures
            r == self.spec_wants_read(),
    {
        matches!(self.state, ConnState::Reading)
    }

    /// Does the connection hold unwritten response bytes?
    pub fn wants_write(&self) -> (r: bool)
        ensures
            r == self.spec_wants_write(),
    {
        matches!(self.state, ConnState::Writing) && !self.write_complete()
    }
}

/// Between events, a well-formed connection is in exactly one
/// condition: it wants to read, it wants to write, or it must close.
pub proof fn lemma_exactly_one_intent(c: ClientConnection)
    requires
        c.wf(),
    ensures
        c.spec_wants_read() || c.spec_wants_write() || c.spec_must_close(),
        !(c.spec_wants_read() && c.spec_wants_write()),
        !(c.spec_wants_read() && c.spec_must_close()),
        !(c.spec_wants_write() && c.spec_must_close()),
{
}

} // verus!
