pub mod denormalize_function;
pub mod error;
pub mod normalized_command;
