pub mod clipboard_port;
pub mod file_port;
pub mod render_port;

pub use clipboard_port::Clipboard;
pub use file_port::FileRepository;
pub use render_port::Renderer;
