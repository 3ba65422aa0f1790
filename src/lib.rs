//! Renders short strings into grayscale CAPTCHA rasters: glyph lookup,
//! canvas layout and compositing, and blending with a noise field.

pub mod canvas;
pub mod character;
pub mod error;
pub mod noise;
pub mod raster;
