pub mod editor_service;

pub use editor_service::EditorService;
pub mod file_service;

pub use file_service::FileService;
