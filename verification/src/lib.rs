pub mod bridge;
pub mod config;
pub mod datetime;
pub mod error;
pub mod heuristic;
pub mod session;
pub mod value;
