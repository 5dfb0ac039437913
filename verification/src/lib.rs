//! Decoder for the QOI ("Quite OK Image") binary image format.
//!
//! The crate validates the fixed 14-byte QOI header and reconstructs the raw
//! pixel buffer from the opcode stream, maintaining the running previous
//! color, the 64-entry color cache, and run-length expansion that the format
//! prescribes.

pub mod color;
pub mod decode;
pub mod header;
pub mod laws;
pub mod model;

pub use color::QoiColor;
pub use decode::decode_qoi;
pub use decode::QoiImage;
pub use header::validate;
pub use header::FormatError;
pub use header::QoiHeader;
