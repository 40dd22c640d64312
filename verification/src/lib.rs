//! Core logic of the `tide` terminal IDE: layout arithmetic, list menus,
//! the command-line editor, the file tree, search result ranking and the
//! application's event handling, each with a contract checked by Verus.

pub mod geometry;
pub mod popup_menu;
pub mod events;
pub mod text;
pub mod input;
pub mod search;
pub mod file_system;
pub mod shell;
pub mod application;
pub mod tidy;
pub mod laws;
