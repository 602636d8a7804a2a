//! A text editor core: character buffers, cursors and selections, edit
//! histories, find and replace, and the editing commands built on them.

pub mod app;
pub mod application;
pub mod domain;
pub mod editor;
pub mod error;
pub mod features;
pub mod infrastructure;
pub mod interface;
pub mod menu;
pub mod ports;
pub mod text;
