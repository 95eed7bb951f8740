pub mod classify;
pub mod number;
pub mod processed;
