//! Video: capture, color conversion, encoding and display selection.

pub mod capture;
pub mod codec;
pub mod color_convert;
pub mod display;
pub mod encoder;
pub mod media;
pub mod rates;
pub mod virtual_display;
