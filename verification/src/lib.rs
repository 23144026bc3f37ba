pub mod text;
pub mod model;
pub mod collector;
pub mod net;
pub mod command;
pub mod route_inspector;
pub mod tools;
pub mod update;
pub mod app;
pub mod view;
pub mod screen;
pub mod panes;
pub mod raw_view;
pub mod keys;
pub mod updater;
