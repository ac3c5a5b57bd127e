pub mod error;
pub mod handle;
pub mod modules;
pub mod object_type;
pub mod types;
pub mod utils;
