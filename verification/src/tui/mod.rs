pub mod app;
pub mod display;
pub mod tabs;
