//! Verified core of the Rove browser and file plugins.

pub mod cdp;
pub mod chrome;
pub mod command;
pub mod connect;
pub mod connect_laws;
pub mod form;
pub mod form_laws;
pub mod fs_editor;
pub mod idle;
pub mod json;
pub mod laws;
pub mod literal;
pub mod navigation;
pub mod operation;
pub mod page;
pub mod page_text;
pub mod reply;
pub mod script_laws;
pub mod scripts;
pub mod session;
pub mod state;
pub mod step;
pub mod text;
pub mod tool;
pub mod tools;
