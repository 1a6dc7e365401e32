//! The tools that work on an open session.

pub mod basic;
pub mod scripts;
pub mod smart;
pub mod utils;
