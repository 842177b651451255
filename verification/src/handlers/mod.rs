//! Request handlers: uploads, deletes, directory listings, session
//! cookies, and CGI output parsing.

pub mod cgi;
pub mod directory;
pub mod remove_file;
pub mod session;
pub mod upload_file;

pub use directory::list_directory;
pub use remove_file::delete_target;
pub use session::{create_session_id, get_session_id};
pub use upload_file::{upload_file, UploadOutcome};
