pub mod utils;
pub mod manifest;
pub mod api;
pub mod manga;
pub mod webview;
pub mod token_server;
pub mod calendar;
