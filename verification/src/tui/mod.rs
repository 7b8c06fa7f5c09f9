//! State of the interactive terminal interface, apart from drawing and input devices.
pub mod app;
pub mod completion;
pub mod tasks;
pub mod event;
pub mod metadata;
pub mod screens;
pub mod ui;
