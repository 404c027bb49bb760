pub mod ai;
pub mod encoding;
pub mod engine;
pub mod json;
pub mod logging;
pub mod maps;
pub mod streaming;
pub mod text;
pub mod time;
pub mod types;
