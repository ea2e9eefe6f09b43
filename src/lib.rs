//! Pixel data of a decoded image turned into lines of decimal text.
//!
//! Decoding, resizing and colour conversion happen outside this library;
//! what comes back is held as an [`Image`] of plain bytes. The library
//! checks a request's parameters, decides which conversion it needs and
//! which error status a failure gets, and renders the pixels as the text
//! that is printed: an alpha mask ([`silhouette`]) or channel values in a
//! chosen colour space ([`decode`]).

pub mod image;
pub mod text;
pub mod silhouette;
pub mod decode;

pub use image::Image;
