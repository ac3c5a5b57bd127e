pub mod extended;
pub mod features;
pub mod info;
pub mod leaves;
