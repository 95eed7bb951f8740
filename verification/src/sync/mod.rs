pub mod stack;
pub mod lifo;
pub mod mpsc;
