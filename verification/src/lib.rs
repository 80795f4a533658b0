pub mod decoder;
pub mod header;
pub mod version;

pub use crate::decoder::decode;
pub use crate::decoder::DecodeError;
