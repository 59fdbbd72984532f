pub mod listener;
pub mod ptr;
pub mod syntax;
