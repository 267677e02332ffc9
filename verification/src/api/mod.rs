//! The logic behind the application's commands.
pub mod storage;
pub mod download;
pub mod helpers;
pub mod updater;
pub mod library;
