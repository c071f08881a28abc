pub mod executor;
pub mod guards;
pub mod risk;
