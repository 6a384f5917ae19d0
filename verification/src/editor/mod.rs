pub mod buffer;
pub mod highlight;
pub mod lines;
pub mod rope;
