//! Control core of an interactive terminal process dashboard.
//!
//! The crate holds the parts of the dashboard that decide something: which
//! processes are shown and in what order, how key presses change the view,
//! where the panels go, and how a run time is broken into clock fields.
//! Reading the operating system and drawing on the terminal are left to the
//! program that links this library.

pub mod control;
pub mod detail;
pub mod frame;
pub mod layout;
pub mod process;
pub mod snapshot;
pub mod table;
pub mod table_laws;
pub mod text;
