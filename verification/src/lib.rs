//! Backend commands of the streaming-qr desktop application: a greeting, the
//! bookkeeping around saving a decoded stream, and statistics over a text.

pub mod decimal;
pub mod greeting;
pub mod json;
pub mod report;
pub mod save;
pub mod text;
pub mod utf8;
pub mod whitespace;

pub use crate::greeting::{greet, ping};
pub use crate::report::{validate_data, DataReport};
pub use crate::save::save_decoded_data;
