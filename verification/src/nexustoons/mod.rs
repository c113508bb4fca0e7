//! NexusToons: a source backed by a JSON listing API and a web view for series
//! details and chapter pages.

pub mod api;
pub mod manga;
pub mod utils;
pub mod webview;
