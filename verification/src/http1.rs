//! HTTP 1.x parser, states, errors, and the callback interface.

pub mod debug_handler;
pub mod http_handler;
pub mod parser_error;
pub mod parser_state;

pub use self::debug_handler::DebugHandler;
pub use self::http_handler::HttpHandler;
pub use self::parser_error::ParserError;
pub use self::parser_state::{ParserState, State};
pub mod parser;
pub use self::parser::{Parser, ParserType};
