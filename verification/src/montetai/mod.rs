//! Monte Tai Scanlator: a source read from the site's HTML pages.

pub mod chapters;
pub mod details;
pub mod elements;
pub mod entries;
pub mod numbers;
pub mod source;
pub mod utils;
