pub mod bits;
pub mod capacity;
pub mod codec;
pub mod convert;
pub mod error;
pub mod header;
pub mod image;
pub mod stego;
