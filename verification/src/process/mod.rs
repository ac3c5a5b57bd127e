pub mod attributes;
pub mod builder;
pub mod environment;
pub mod error;
pub mod params;
