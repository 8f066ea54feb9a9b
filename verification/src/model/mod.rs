pub mod hist;
pub mod snapshot;
