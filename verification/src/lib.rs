pub mod args;
pub mod bytes;
pub mod cache;
pub mod errors;
pub mod gate;
pub mod key;
pub mod merge;
pub mod output;
pub mod scheduler;
pub mod segment;
pub mod urls;
