pub mod clipboard;
pub mod file_system;
