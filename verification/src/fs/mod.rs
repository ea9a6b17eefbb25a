//! Where downloaded galleries are stored.
pub mod local;
