//! Line-oriented text display: numbering, blank-line squeezing, visible tabs
//! and end-of-line markers, as pure functions from input lines to output text.

pub mod laws;
pub mod line;
pub mod options;
pub mod source;
pub mod stream;
pub mod text;

pub use crate::line::output_line;
pub use crate::options::{PrintOptions, RawFlags};
pub use crate::source::{plan_sources, Source};
pub use crate::stream::{cat_lines, cat_sources, LineState};
