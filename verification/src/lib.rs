//! Text, menu and list logic of a terminal TO-DO list manager.
pub mod unicode;
pub mod paint;
pub mod text;
pub mod words;
pub mod menu;
pub mod todos;
pub mod screens;
pub mod files;
