//! The state of the terminal user interface and what each key does to it.
pub mod event;
pub mod state;
pub mod ui;
