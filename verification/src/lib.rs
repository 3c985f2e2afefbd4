pub mod app;
pub mod diff;
pub mod edit;
pub mod event;
pub mod filetree;
pub mod git;
pub mod recent;
pub mod terminal;
pub mod text;
pub mod ui;
pub mod watcher;
