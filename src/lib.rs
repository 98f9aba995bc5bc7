//! Conversion of GPS image metadata into a KML document.
mod outside;
pub mod decimal;
pub mod structures;
pub mod decode;
pub mod kml;
pub mod utils;
pub mod writer;
pub mod lemmas;
