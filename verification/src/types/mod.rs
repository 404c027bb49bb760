pub mod ai;
pub mod lifecycle;
pub mod streaming;
