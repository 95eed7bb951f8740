pub mod segments;
