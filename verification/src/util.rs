//! Byte-sequence utilities: comparison, search, case folding, trimming,
//! splitting, and decimal / hexadecimal conversion, each with an exact
//! contract over `Seq<u8>`.

use vstd::prelude::*;

verus! {

/// Equality of two byte slices.
pub fn bytes_eq(a: &[u8], b: &[u8]) -> (r: bool)
    ensures
        r == (a@ == b@),
{
    if a.len() != b.len() {
        assert(a@.len() != b@.len());
        return false;
    }
    let mut i: usize = 0;
    while i < a.len()
        invariant
            0 <= i <= a.len(),
            a@.len() == b@.len(),
            forall|j: int| 0 <= j < i ==> a@[j] == b@[j],
        decreases a.len() - i,
    {
        if a[i] != b[i] {
            return false;
        }
        i = i + 1;
    }
    assert(a@ =~= b@);
    true
}

/// Does `s` begin with `p`?
pub fn starts_with(s: &[u8], p: &[u8]) -> (r: bool)
    ensures
        r == p@.is_prefix_of(s@),
{
    if p.len() > s.len() {
        return false;
    }
    let head = vstd::slice::slice_subrange(s, 0, p.len());
    bytes_eq(head, p)
}

/// Does `s` end with `p`?
pub fn ends_with(s: &[u8], p: &[u8]) -> (r: bool)
    ensures
        r == p@.is_suffix_of(s@),
{
    if p.len() > s.len() {
        return false;
    }
    let tail = vstd::slice::slice_subrange(s, s.len() - p.len(), s.len());
    bytes_eq(tail, p)
}

/// `p` occurs in `s` at position `i`.
pub open spec fn match_at(s: Seq<u8>, p: Seq<u8>, i: int) -> bool {
    0 <= i && i + p.len() <= s.len() && s.subrange(i, i + p.len() as int) == p
}

/// First position at or after `from` where `p` occurs in `s`.
pub fn find_at(s: &[u8], p: &[u8], from: usize) -> (r: Option<usize>)
    ensures
        match r {
            Some(i) => from <= i && match_at(s@, p@, i as int) && (forall|j: int|
                from <= j < i ==> !match_at(s@, p@, j)),
            None => forall|j: int| from <= j ==> !match_at(s@, p@, j),
        },
{
    if p.len() == 0 {
        if from <= s.len() {
            assert(match_at(s@, p@, from as int)) by {
                assert(s@.subrange(from as int, from as int) =~= p@);
            }
            return Some(from);
        }
        return None;
    }
    if p.len() > s.len() || from > s.len() - p.len() {
        return None;
    }
    let last = s.len() - p.len();
    let mut i: usize = from;
    while i <= last
        invariant
            from <= i <= last + 1,
            last == s@.len() - p@.len(),
            0 < p@.len() <= s@.len(),
            s@.len() <= usize::MAX,
            forall|j: int| from <= j < i ==> !match_at(s@, p@, j),
        decreases last + 1 - i,
    {
        let window = vstd::slice::slice_subrange(s, i, i + p.len());
        if bytes_eq(window, p) {
            return Some(i);
        }
        assert(!match_at(s@, p@, i as int));
        i = i + 1;
    }
    assert(forall|j: int| from <= j ==> !match_at(s@, p@, j)) by {
        assert(forall|j: int| j > last ==> !match_at(s@, p@, j));
    }
    None
}

/// Does `p` occur anywhere in `s`?
pub fn contains_seq(s: &[u8], p: &[u8]) -> (r: bool)
    ensures
        r == exists|i: int| match_at(s@, p@, i),
{
    match find_at(s, p, 0) {
        Some(i) => {
            assert(match_at(s@, p@, i as int));
            true
        },
        None => false,
    }
}

/// Does byte `b` occur in `s`?
pub fn contains_byte(s: &[u8], b: u8) -> (r: bool)
    ensures
        r == s@.contains(b),
{
    let mut i: usize = 0;
    while i < s.len()
        invariant
            0 <= i <= s.len(),
            forall|j: int| 0 <= j < i ==> s@[j] != b,
        decreases s.len() - i,
    {
        if s[i] == b {
            return true;
        }
        i = i + 1;
    }
    assert(!s@.contains(b));
    false
}

/// First position at or after `from` holding byte `b`.
pub fn index_of(s: &[u8], b: u8, from: usize) -> (r: Option<usize>)
    ensures
        match r {
            Some(i) => from <= i < s@.len() && s@[i as int] == b && (forall|j: int|
                from <= j < i ==> s@[j] != b),
            None => forall|j: int| from <= j < s@.len() ==> s@[j] != b,
        },
{
    let mut i: usize = from;
    if from > s.len() {
        return None;
    }
    while i < s.len()
        invariant
            from <= i <= s.len(),
            forall|j: int| from <= j < i ==> s@[j] != b,
        decreases s.len() - i,
    {
        if s[i] == b {
            return Some(i);
        }
        i = i + 1;
    }
    None
}

/// ASCII lower-casing of one byte.
pub open spec fn spec_lower_byte(b: u8) -> u8 {
    if 'A' as u8 <= b && b <= 'Z' as u8 {
        (b + 32) as u8
    } else {
        b
    }
}

/// ASCII lower-casing of a byte sequence.
pub open spec fn spec_lower(s: Seq<u8>) -> Seq<u8> {
    s.map_values(|b: u8| spec_lower_byte(b))
}

/// ASCII lower-casing of one byte.
pub fn lower_byte(b: u8) -> (r: u8)
    ensures
        r == spec_lower_byte(b),
{
    if b >= 'A' as u8 && b <= 'Z' as u8 {
        b + 32
    } else {
        b
    }
}

/// ASCII lower-casing of a byte slice.
pub fn to_lower(s: &[u8]) -> (r: Vec<u8>)
    ensures
        r@ == spec_lower(s@),
{
    let mut r: Vec<u8> = Vec::new();
    let mut i: usize = 0;
    while i < s.len()
        invariant
            0 <= i <= s.len(),
            r@.len() == i,
            forall|j: int| 0 <= j < i ==> r@[j] == spec_lower_byte(s@[j]),
        decreases s.len() - i,
    {
        r.push(lower_byte(s[i]));
        i = i + 1;
    }
    assert(r@ =~= spec_lower(s@));
    r
}

/// ASCII upper-casing of one byte.
pub open spec fn spec_upper_byte(b: u8) -> u8 {
    if 'a' as u8 <= b && b <= 'z' as u8 {
        (b - 32) as u8
    } else {
        b
    }
}

/// ASCII upper-casing of a byte sequence.
pub open spec fn spec_upper(s: Seq<u8>) -> Seq<u8> {
    s.map_values(|b: u8| spec_upper_byte(b))
}

/// ASCII upper-casing of a byte slice.
pub fn to_upper(s: &[u8]) -> (r: Vec<u8>)
    ensures
        r@ == spec_upper(s@),
{
    let mut r: Vec<u8> = Vec::new();
    let mut i: usize = 0;
    while i < s.len()
        invariant
            0 <= i <= s.len(),
            r@.len() == i,
            forall|j: int| 0 <= j < i ==> r@[j] == spec_upper_byte(s@[j]),
        decreases s.len() - i,
    {
        let b = s[i];
        if b >= 'a' as u8 && b <= 'z' as u8 {
            r.push(b - 32);
        } else {
            r.push(b);
        }
        i = i + 1;
    }
    assert(r@ =~= spec_upper(s@));
    r
}

/// Case-insensitive ASCII equality of two byte slices.
pub fn eq_ignore_case(a: &[u8], b: &[u8]) -> (r: bool)
    ensures
        r == (spec_lower(a@) == spec_lower(b@)),
{
    if a.len() != b.len() {
        assert(spec_lower(a@).len() != spec_lower(b@).len());
        return false;
    }
    let mut i: usize = 0;
    while i < a.len()
        invariant
            0 <= i <= a.len(),
            a@.len() == b@.len(),
            forall|j: int| 0 <= j < i ==> spec_lower_byte(a@[j]) == spec_lower_byte(b@[j]),
        decreases a.len() - i,
    {
        if lower_byte(a[i]) != lower_byte(b[i]) {
            assert(spec_lower(a@)[i as int] != spec_lower(b@)[i as int]);
            return false;
        }
        i = i + 1;
    }
    assert(spec_lower(a@) =~= spec_lower(b@));
    true
}

/// ASCII whitespace.
pub open spec fn is_ws(b: u8) -> bool {
    b == ' ' as u8 || b == 9u8 || b == 13u8 || b == 10u8
}

/// Executable ASCII whitespace test.
pub fn is_ws_byte(b: u8) -> (r: bool)
    ensures
        r == is_ws(b),
{
    b == ' ' as u8 || b == 9u8 || b == 13u8 || b == 10u8
}

/// The sequence with leading ASCII whitespace removed.
pub open spec fn spec_trim_front(s: Seq<u8>) -> Seq<u8>
    decreases s.len(),
{
    if s.len() > 0 && is_ws(s[0]) {
        spec_trim_front(s.skip(1))
    } else {
        s
    }
}

/// The sequence with trailing ASCII whitespace removed.
pub open spec fn spec_trim_back(s: Seq<u8>) -> Seq<u8>
    decreases s.len(),
{
    if s.len() > 0 && is_ws(s.last()) {
        spec_trim_back(s.drop_last())
    } else {
        s
    }
}

/// The sequence with whitespace removed on both sides.
pub open spec fn spec_trim(s: Seq<u8>) -> Seq<u8> {
    spec_trim_back(spec_trim_front(s))
}

proof fn lemma_trim_front_skip(s: Seq<u8>, i: int)
    requires
        0 <= i <= s.len(),
        forall|k: int| 0 <= k < i ==> is_ws(s[k]),
        i == s.len() || !is_ws(s[i]),
    ensures
        spec_trim_front(s) == s.skip(i),
    decreases i,
{
    if i == 0 {
        assert(s.skip(0) =~= s);
    } else {
        assert(is_ws(s[0]));
        lemma_trim_front_skip(s.skip(1), i - 1);
        assert(s.skip(1).skip(i - 1) =~= s.skip(i));
    }
}

proof fn lemma_trim_back_take(s: Seq<u8>, b: int)
    requires
        0 <= b <= s.len(),
        forall|k: int| b <= k < s.len() ==> is_ws(s[k]),
        b == 0 || !is_ws(s[b - 1]),
    ensures
        spec_trim_back(s) == s.take(b),
    decreases s.len(),
{
    if b == s.len() {
        if s.len() > 0 {
            assert(!is_ws(s.last()));
        }
        assert(s.take(b) =~= s);
    } else {
        assert(is_ws(s.last()));
        lemma_trim_back_take(s.drop_last(), b);
        assert(s.drop_last().take(b) =~= s.take(b));
    }
}

/// Copy of `s` with ASCII whitespace removed on both sides.
pub fn trim(s: &[u8]) -> (r: Vec<u8>)
    ensures
        r@ == spec_trim(s@),
{
    let mut a: usize = 0;
    while a < s.len() && is_ws_byte(s[a])
        invariant
            0 <= a <= s.len(),
            forall|k: int| 0 <= k < a ==> is_ws(s@[k]),
        decreases s.len() - a,
    {
        a = a + 1;
    }
    proof {
        lemma_trim_front_skip(s@, a as int);
    }
    let mut b: usize = s.len();
    while b > a && is_ws_byte(s[b - 1])
        invariant
            a <= b <= s.len(),
            forall|k: int| b <= k < s.len() ==> is_ws(s@[k]),
        decreases b,
    {
        b = b - 1;
    }
    proof {
        let f = s@.skip(a as int);
        assert(forall|k: int| b - a <= k < f.len() ==> is_ws(#[trigger] f[k]));
        lemma_trim_back_take(f, b - a);
        assert(f.take(b - a) =~= s@.subrange(a as int, b as int));
    }
    let part = vstd::slice::slice_subrange(s, a, b);
    vstd::slice::slice_to_vec(part)
}

/// Splitting at every occurrence of `sep`; the result always has at
/// least one part, and parts do not contain `sep`.
pub open spec fn spec_split(s: Seq<u8>, sep: u8) -> Seq<Seq<u8>>
    decreases s.len(),
{
    if s.len() == 0 {
        seq![Seq::<u8>::empty()]
    } else if s[0] == sep {
        seq![Seq::<u8>::empty()] + spec_split(s.skip(1), sep)
    } else {
        let rest = spec_split(s.skip(1), sep);
        seq![seq![s[0]] + rest[0]] + rest.skip(1)
    }
}

pub proof fn lemma_split_len(s: Seq<u8>, sep: u8)
    ensures
        spec_split(s, sep).len() >= 1,
    decreases s.len(),
{
    if s.len() > 0 {
        lemma_split_len(s.skip(1), sep);
    }
}

/// Splits `s` at every occurrence of `sep`.
pub fn split_byte(s: &[u8], sep: u8) -> (r: Vec<Vec<u8>>)
    ensures
        r.deep_view() == spec_split(s@, sep),
{
    let mut done: Vec<Vec<u8>> = Vec::new();
    let mut cur: Vec<u8> = Vec::new();
    let mut i: usize = 0;
    proof {
        lemma_split_len(s@, sep);
        assert(s@.skip(0) =~= s@);
        assert(done.deep_view() =~~= Seq::<Seq<u8>>::empty());
        assert(cur@ + spec_split(s@, sep)[0] =~= spec_split(s@, sep)[0]);
        assert(spec_split(s@, sep) =~~= done.deep_view() + seq![cur@ + spec_split(s@, sep)[0]]
            + spec_split(s@, sep).skip(1));
    }
    while i < s.len()
        invariant
            0 <= i <= s.len(),
            spec_split(s@.skip(i as int), sep).len() >= 1,
            spec_split(s@, sep) == done.deep_view() + seq![cur@ + spec_split(
                s@.skip(i as int),
                sep,
            )[0]] + spec_split(s@.skip(i as int), sep).skip(1),
        decreases s.len() - i,
    {
        let ghost pre = s@.skip(i as int);
        let ghost rest = s@.skip(i as int + 1);
        proof {
            lemma_split_len(rest, sep);
            assert(pre.len() > 0);
            assert(pre[0] == s@[i as int]);
            assert(pre.skip(1) =~= rest);
        }
        if s[i] == sep {
            assert(spec_split(pre, sep) == seq![Seq::<u8>::empty()] + spec_split(rest, sep));
            let ghost old_done = done.deep_view();
            let ghost old_cur = cur@;
            done.push(cur);
            cur = Vec::new();
            proof {
                assert(done.deep_view() =~~= old_done.push(old_cur));
                assert(old_done.push(old_cur) =~~= old_done + seq![old_cur]);
                assert(spec_split(s@, sep) =~~= done.deep_view() + seq![cur@ + spec_split(
                    rest,
                    sep,
                )[0]] + spec_split(rest, sep).skip(1));
            }
        } else {
            let ghost r0 = spec_split(rest, sep);
            assert(spec_split(pre, sep) == seq![seq![s@[i as int]] + r0[0]] + r0.skip(1));
            let ghost old_cur = cur@;
            cur.push(s[i]);
            proof {
                assert(cur@ =~= old_cur + seq![s@[i as int]]);
                assert(old_cur + (seq![s@[i as int]] + r0[0]) =~= cur@ + r0[0]);
                assert(spec_split(pre, sep).skip(1) =~= r0.skip(1));
                assert(spec_split(s@, sep) =~~= done.deep_view() + seq![cur@ + r0[0]]
                    + r0.skip(1));
            }
        }
        i = i + 1;
    }
    proof {
        assert(s@.skip(i as int) =~= Seq::<u8>::empty());
        assert(spec_split(s@.skip(i as int), sep) == seq![Seq::<u8>::empty()]);
        assert(cur@ + Seq::<u8>::empty() =~= cur@);
    }
    let ghost old_done = done.deep_view();
    let ghost old_cur = cur@;
    done.push(cur);
    proof {
        assert(done.deep_view() =~~= old_done.push(old_cur));
        assert(spec_split(s@, sep) =~~= done.deep_view());
    }
    done
}

/// Copy of `s@.subrange(a, b)`.
pub fn subvec(s: &[u8], a: usize, b: usize) -> (r: Vec<u8>)
    requires
        a <= b <= s@.len(),
    ensures
        r@ == s@.subrange(a as int, b as int),
{
    vstd::slice::slice_to_vec(vstd::slice::slice_subrange(s, a, b))
}

/// The non-empty elements of a sequence of parts, in order.
pub open spec fn spec_nonempty_parts(parts: Seq<Seq<u8>>) -> Seq<Seq<u8>>
    decreases parts.len(),
{
    if parts.len() == 0 {
        Seq::empty()
    } else if parts[0].len() > 0 {
        seq![parts[0]] + spec_nonempty_parts(parts.skip(1))
    } else {
        spec_nonempty_parts(parts.skip(1))
    }
}

/// Whitespace bytes collapsed to a space, other bytes kept.
pub open spec fn spec_norm_ws(s: Seq<u8>) -> Seq<u8> {
    s.map_values(|b: u8| if is_ws(b) { ' ' as u8 } else { b })
}

/// The whitespace-separated tokens of `s`, in order.
pub open spec fn spec_ws_tokens(s: Seq<u8>) -> Seq<Seq<u8>> {
    spec_nonempty_parts(spec_split(spec_norm_ws(s), ' ' as u8))
}

/// Splits `s` into its whitespace-separated tokens.
pub fn ws_tokens(s: &[u8]) -> (r: Vec<Vec<u8>>)
    ensures
        r.deep_view() == spec_ws_tokens(s@),
{
    let mut norm: Vec<u8> = Vec::new();
    let mut i: usize = 0;
    while i < s.len()
        invariant
            0 <= i <= s.len(),
            norm@.len() == i,
            forall|j: int| 0 <= j < i ==> norm@[j] == spec_norm_ws(s@)[j],
        decreases s.len() - i,
    {
        if is_ws_byte(s[i]) {
            norm.push(' ' as u8);
        } else {
            norm.push(s[i]);
        }
        i = i + 1;
    }
    assert(norm@ =~= spec_norm_ws(s@));
    let parts = split_byte(norm.as_slice(), ' ' as u8);
    let ghost all = parts.deep_view();
    let mut out: Vec<Vec<u8>> = Vec::new();
    let mut k: usize = 0;
    proof {
        assert(all.skip(0) =~~= all);
        assert(out.deep_view() =~~= Seq::<Seq<u8>>::empty());
    }
    while k < parts.len()
        invariant
            0 <= k <= parts.len(),
            all == parts.deep_view(),
            all.len() == parts@.len(),
            spec_nonempty_parts(all) == out.deep_view() + spec_nonempty_parts(
                all.skip(k as int),
            ),
        decreases parts.len() - k,
    {
        let ghost rest = all.skip(k as int);
        proof {
            assert(rest.len() > 0);
            assert(rest[0] == parts@[k as int]@);
            assert(rest.skip(1) =~~= all.skip(k as int + 1));
        }
        if parts[k].len() > 0 {
            let ghost old_out = out.deep_view();
            let part = vstd::slice::slice_to_vec(parts[k].as_slice());
            out.push(part);
            proof {
                assert(out.deep_view() =~~= old_out.push(rest[0]));
                assert(spec_nonempty_parts(rest) == seq![rest[0]] + spec_nonempty_parts(
                    rest.skip(1),
                ));
                assert(out.deep_view() + spec_nonempty_parts(all.skip(k as int + 1))
                    =~~= old_out + spec_nonempty_parts(rest));
            }
        }
        k = k + 1;
    }
    proof {
        assert(all.skip(k as int) =~~= Seq::<Seq<u8>>::empty());
        assert(out.deep_view() =~~= spec_nonempty_parts(all));
    }
    out
}

/// ASCII decimal digit.
pub open spec fn is_digit(b: u8) -> bool {
    '0' as u8 <= b && b <= '9' as u8
}

/// Every byte is a decimal digit.
pub open spec fn all_digits(s: Seq<u8>) -> bool {
    forall|i: int| 0 <= i < s.len() ==> is_digit(#[trigger] s[i])
}

/// Value of one decimal digit byte.
pub open spec fn dval(b: u8) -> nat {
    if is_digit(b) {
        (b - '0' as u8) as nat
    } else {
        0
    }
}

/// The number a decimal digit string denotes.
pub open spec fn dec_value(s: Seq<u8>) -> nat
    decreases s.len(),
{
    if s.len() == 0 {
        0
    } else {
        dec_value(s.drop_last()) * 10 + dval(s.last())
    }
}

proof fn lemma_dec_value_prefix(s: Seq<u8>, i: int)
    requires
        0 <= i <= s.len(),
    ensures
        dec_value(s) >= dec_value(s.take(i)),
    decreases s.len(),
{
    if i < s.len() {
        lemma_dec_value_prefix(s.drop_last(), i);
        assert(s.drop_last().take(i) =~= s.take(i));
        assert(dec_value(s) >= dec_value(s.drop_last()));
    } else {
        assert(s.take(i) =~= s);
    }
}

/// Parses an unsigned decimal integer; fails on a non-digit, on the
/// empty string, and on overflow.
pub fn parse_dec_usize(s: &[u8]) -> (r: Option<usize>)
    ensures
        r is Some <==> (s@.len() > 0 && all_digits(s@) && dec_value(s@) <= usize::MAX),
        r matches Some(v) ==> v == dec_value(s@),
{
    if s.len() == 0 {
        return None;
    }
    let mut acc: usize = 0;
    let mut i: usize = 0;
    assert(s@.take(0) =~= Seq::<u8>::empty());
    while i < s.len()
        invariant
            0 <= i <= s.len(),
            forall|j: int| 0 <= j < i ==> is_digit(#[trigger] s@[j]),
            acc == dec_value(s@.take(i as int)),
        decreases s.len() - i,
    {
        let b = s[i];
        if b < '0' as u8 || b > '9' as u8 {
            assert(!is_digit(s@[i as int]));
            assert(!all_digits(s@));
            return None;
        }
        let d = (b - '0' as u8) as usize;
        if acc > (usize::MAX - d) / 10 {
            proof {
                assert(acc * 10 + d > usize::MAX) by (nonlinear_arith)
                    requires
                        acc > (usize::MAX - d) / 10,
                        d <= 9,
                        acc >= 0,
                ;
                assert(s@.take(i as int + 1).drop_last() =~= s@.take(i as int));
                assert(s@.take(i as int + 1).last() == s@[i as int]);
                assert(dec_value(s@.take(i as int + 1)) > usize::MAX);
                lemma_dec_value_prefix(s@, i as int + 1);
            }
            return None;
        }
        proof {
            assert(acc * 10 + d <= usize::MAX) by (nonlinear_arith)
                requires
                    acc <= (usize::MAX - d) / 10,
                    d <= 9,
                    acc >= 0,
            ;
            assert(s@.take(i as int + 1).drop_last() =~= s@.take(i as int));
            assert(s@.take(i as int + 1).last() == s@[i as int]);
        }
        acc = acc * 10 + d;
        i = i + 1;
    }
    assert(s@.take(i as int) =~= s@);
    Some(acc)
}

/// Decimal digit string of a number, most significant digit first.
pub open spec fn spec_dec_digits(n: nat) -> Seq<u8>
    decreases n,
{
    if n < 10 {
        seq![(n + '0' as u8) as u8]
    } else {
        spec_dec_digits(n / 10).push((n % 10 + '0' as u8) as u8)
    }
}

/// Writes `n` in decimal.
pub fn usize_to_dec(n: usize) -> (r: Vec<u8>)
    ensures
        r@ == spec_dec_digits(n as nat),
    decreases n,
{
    if n < 10 {
        let d: u8 = (n as u8) + '0' as u8;
        let r: Vec<u8> = vec![d];
        assert(r@ =~= spec_dec_digits(n as nat));
        r
    } else {
        let mut r = usize_to_dec(n / 10);
        r.push((n % 10) as u8 + '0' as u8);
        r
    }
}

/// The decimal digit string of `n` evaluates back to `n`.
pub proof fn lemma_dec_digits_value(n: nat)
    ensures
        spec_dec_digits(n).len() >= 1,
        all_digits(spec_dec_digits(n)),
        dec_value(spec_dec_digits(n)) == n,
    decreases n,
{
    if n < 10 {
        let s = spec_dec_digits(n);
        assert(s =~= seq![(n + '0' as u8) as u8]);
        assert(s.drop_last() =~= Seq::<u8>::empty());
        assert(dec_value(s.drop_last()) == 0);
        assert(s.last() == (n + '0' as u8) as u8);
        assert(dval(s.last()) == n);
        assert(dec_value(s) == dec_value(s.drop_last()) * 10 + dval(s.last()));
    } else {
        lemma_dec_digits_value(n / 10);
        let s = spec_dec_digits(n);
        assert(s.drop_last() =~= spec_dec_digits(n / 10));
        assert(s.last() == (n % 10 + '0' as u8) as u8);
        assert(dec_value(s) == (n / 10) * 10 + n % 10);
        assert((n / 10) * 10 + n % 10 == n) by (nonlinear_arith);
    }
}

/// ASCII hexadecimal digit.
pub open spec fn is_hex_digit(b: u8) -> bool {
    is_digit(b) || ('a' as u8 <= b && b <= 'f' as u8) || ('A' as u8 <= b && b <= 'F' as u8)
}

/// Every byte is a hexadecimal digit.
pub open spec fn all_hex_digits(s: Seq<u8>) -> bool {
    forall|i: int| 0 <= i < s.len() ==> is_hex_digit(#[trigger] s[i])
}

/// Value of one hexadecimal digit byte.
pub open spec fn hval(b: u8) -> nat {
    if is_digit(b) {
        (b - '0' as u8) as nat
    } else if 'a' as u8 <= b && b <= 'f' as u8 {
        (b - 'a' as u8 + 10) as nat
    } else if 'A' as u8 <= b && b <= 'F' as u8 {
        (b - 'A' as u8 + 10) as nat
    } else {
        0
    }
}

/// The number a hexadecimal digit string denotes.
pub open spec fn hex_value(s: Seq<u8>) -> nat
    decreases s.len(),
{
    if s.len() == 0 {
        0
    } else {
        hex_value(s.drop_last()) * 16 + hval(s.last())
    }
}

proof fn lemma_hex_value_prefix(s: Seq<u8>, i: int)
    requires
        0 <= i <= s.len(),
    ensures
        hex_value(s) >= hex_value(s.take(i)),
    decreases s.len(),
{
    if i < s.len() {
        lemma_hex_value_prefix(s.drop_last(), i);
        assert(s.drop_last().take(i) =~= s.take(i));
        assert(hex_value(s) >= hex_value(s.drop_last()));
    } else {
        assert(s.take(i) =~= s);
    }
}

/// Value of one hexadecimal digit byte, or `None`.
pub fn hex_digit_value(b: u8) -> (r: Option<usize>)
    ensures
        r is Some <==> is_hex_digit(b),
        r matches Some(v) ==> v == hval(b) && v <= 15,
{
    if b >= '0' as u8 && b <= '9' as u8 {
        Some((b - '0' as u8) as usize)
    } else if b >= 'a' as u8 && b <= 'f' as u8 {
        Some((b - 'a' as u8) as usize + 10)
    } else if b >= 'A' as u8 && b <= 'F' as u8 {
        Some((b - 'A' as u8) as usize + 10)
    } else {
        None
    }
}

/// Parses an unsigned hexadecimal integer; fails on a non-digit, on
/// the empty string, and on overflow.
pub fn parse_hex_usize(s: &[u8]) -> (r: Option<usize>)
    ensures
        r is Some <==> (s@.len() > 0 && all_hex_digits(s@) && hex_value(s@) <= usize::MAX),
        r matches Some(v) ==> v == hex_value(s@),
{
    if s.len() == 0 {
        return None;
    }
    let mut acc: usize = 0;
    let mut i: usize = 0;
    assert(s@.take(0) =~= Seq::<u8>::empty());
    while i < s.len()
        invariant
            0 <= i <= s.len(),
            forall|j: int| 0 <= j < i ==> is_hex_digit(#[trigger] s@[j]),
            acc == hex_value(s@.take(i as int)),
        decreases s.len() - i,
    {
        let d: usize = match hex_digit_value(s[i]) {
            Some(v) => v,
            None => {
                assert(!is_hex_digit(s@[i as int]));
                assert(!all_hex_digits(s@));
                return None;
            },
        };
        if acc > (usize::MAX - d) / 16 {
            proof {
                assert(acc * 16 + d > usize::MAX) by (nonlinear_arith)
                    requires
                        acc > (usize::MAX - d) / 16,
                        d <= 15,
                        acc >= 0,
                ;
                assert(s@.take(i as int + 1).drop_last() =~= s@.take(i as int));
                assert(s@.take(i as int + 1).last() == s@[i as int]);
                assert(hex_value(s@.take(i as int + 1)) > usize::MAX);
                lemma_hex_value_prefix(s@, i as int + 1);
            }
            return None;
        }
        proof {
            assert(acc * 16 + d <= usize::MAX) by (nonlinear_arith)
                requires
                    acc <= (usize::MAX - d) / 16,
                    d <= 15,
                    acc >= 0,
            ;
            assert(s@.take(i as int + 1).drop_last() =~= s@.take(i as int));
            assert(s@.take(i as int + 1).last() == s@[i as int]);
        }
        acc = acc * 16 + d;
        i = i + 1;
    }
    assert(s@.take(i as int) =~= s@);
    Some(acc)
}

} // verus!
