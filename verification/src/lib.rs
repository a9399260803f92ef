//! A small immediate GUI toolkit: keys, images, fonts, controls and the system that routes
//! input events to them.

pub mod keys;
pub mod color;
pub mod image;
pub mod job_system;
pub mod font;
pub mod clipboard;
pub mod draw_context;
pub mod gui;
pub mod gui_helper;
pub mod menus;
pub mod config;
pub mod options_menu;
pub mod bottom_panel;
pub mod cells;
pub mod document;
pub mod spans;
pub mod screen;
pub mod picts;
pub mod wide_strings;
pub mod history;
pub mod editor;
