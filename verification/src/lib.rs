pub mod archive;
pub mod batch;
pub mod classify;
pub mod paths;
pub mod resolve;
pub mod tags;
