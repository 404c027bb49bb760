pub mod bundle;
pub mod memo;
pub mod retry;
pub mod tip;
pub mod tracker;
pub mod tracker_laws;
