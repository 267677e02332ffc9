//! The scraping, resolution and download engine.
pub mod host_detector;
pub mod library_tracker;
pub mod download_tracker;
pub mod natord;
pub mod archive_extractor;
pub mod executable_detector;
pub mod download_manager;
pub mod transformer;
pub mod tags;
pub mod extractor;
pub mod navigator;
pub mod link_resolver;
pub mod html_parser;
pub mod json_parser;
pub mod loader;
pub mod scraper;
pub mod webview_scripts;
pub mod webview_downloader;
pub mod detail_extractor;
pub mod host_resolution;
