//! Verified core of a terminal front end for gdb.
pub mod app;
pub mod buffer;
pub mod event;
pub mod history;
pub mod input;
pub mod keys;
pub mod line;
pub mod mapping;
pub mod mi;
pub mod mode;
pub mod path;
pub mod scroll;
pub mod text;
pub mod title;
