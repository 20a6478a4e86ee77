//! Conversion of camera RAW images to common raster formats: the protocol
//! of a decoder session, the transform stage, the encoding, the bookkeeping
//! of a batch, and the metadata browser, each with its contract.
//!
//! The library makes no native call, reads no file and starts no thread:
//! it says what is to be done next and what follows from each answer.

pub mod brightness;
pub mod browser;
pub mod codec;
pub mod exif;
pub mod exiftool;
pub mod inputs;
pub mod native;
pub mod number;
pub mod ordering;
pub mod orientation;
pub mod pipeline;
pub mod progress;
pub mod protocol;
pub mod raster;
pub mod resize;
pub mod rotation;
pub mod scheduler;
pub mod session;
pub mod sniff;
pub mod text;
