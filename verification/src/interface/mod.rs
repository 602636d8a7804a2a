pub mod app;
pub mod keyboard;

pub use keyboard::KeyboardController;
