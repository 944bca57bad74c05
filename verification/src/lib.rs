//! Configuration model and build/release orchestration logic for a kernel CI driver.
pub mod config;
pub mod pipeline;
pub mod release;
pub mod slug;
pub mod text;
pub mod util;
