//! Extra handler implementations.

pub mod http1;

pub use self::http1::url_encoded::UrlEncodedHandler;
