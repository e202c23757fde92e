//! Sparkline rendering: range normalisation, glyph themes and a raster bar theme.
//!
//! Samples are IEEE-754 doubles held by their bit patterns, so that ordering,
//! finiteness and range selection are checked here exactly; the arithmetic on
//! their values is done by the caller, which hands each theme a [`Reading`].

pub mod glyph;
pub mod image;
pub mod range;
pub mod theme;
pub mod types;

pub use glyph::{classic_sparks, colorise, colour_sparks, MappingTheme};
pub use image::{image_payload, image_result, ImageTheme};
pub use range::{min_max_for_data, Sample};
pub use theme::{default_file_name, gap_string, is_known_theme, select_sparkline, Theme};
pub use types::{
    bucket_index, effective_output, output_options_compatible, OutputType, Reading, Scaled,
    SparkError, SparkTheme,
};
