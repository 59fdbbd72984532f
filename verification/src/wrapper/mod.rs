pub mod error;
pub mod log;
pub mod ptr;
pub mod wl;
pub mod wlr;

pub use error::{NulError, Utf8Error, WrapperError};
