//! Embedded thumbnails, located without a full decode of the source.
pub mod audio;
pub mod exif;
pub mod steps;
pub mod tiff;
pub mod zip;
