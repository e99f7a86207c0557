//! Invoice generation library: worklog aggregation, tag-based position
//! mapping, fixed-point money arithmetic, locale-aware number formatting
//! and a line-oriented LaTeX template engine.

pub mod dates;
pub mod generate_tex;
pub mod helpers;
pub mod invoice;
pub mod invoicer;
pub mod locale;
pub mod recipient;
pub mod text;
pub mod worklog;
