//! Server configuration: types and the configuration-text parser.

pub mod parser;
pub mod types;

pub use parser::parse_config_string;
pub use types::{RouteConfig, ServerConfig, VHost};
