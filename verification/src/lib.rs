//! A push oriented HTTP 1.x and 2.x parser.

pub mod byte;
pub mod cookie;
pub mod extra;
pub mod field;
pub mod handler;
pub mod fsm;
pub mod http1;
pub mod http2;
pub mod stream;
pub mod text;
pub mod util;
