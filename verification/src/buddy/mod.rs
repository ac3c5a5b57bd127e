pub mod types;
pub mod state;
pub mod allocator;
pub mod stress;
