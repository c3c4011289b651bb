pub mod closed_range;
pub mod command;
pub mod decimal;
