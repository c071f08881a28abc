pub mod clob;
pub mod gamma;
pub mod events;
