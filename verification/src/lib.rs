pub mod actions;
pub mod app;
pub mod background_loader;
pub mod event;
pub mod gentoo;
pub mod screens;
pub mod signal;
pub mod text;
pub mod widgets;
