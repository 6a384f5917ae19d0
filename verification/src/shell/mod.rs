pub mod cwd;
pub mod laws;
pub mod screen;
