pub mod fatal;
pub mod memory;
pub mod task;
