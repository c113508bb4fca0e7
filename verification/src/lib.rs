//! Verified core of the Portuguese-language (pt-BR) Aidoku sources.

pub mod digest;
pub mod listing;
pub mod model;
pub mod montetai;
pub mod nexustoons;
pub mod number;
pub mod text;
pub mod toonlivre;
pub mod unicode;
pub mod url;
pub mod webview;
