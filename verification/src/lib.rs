//! ScrapStation's engine: the verified logic of a configuration-driven game
//! browser and downloader (host detection, value transformation, tag and
//! metadata extraction, link-resolution paths, download and library state).
use vstd::prelude::*;

pub mod text;
pub mod order;
pub mod dict;
pub mod json;
pub mod unicode;
pub mod regex_ext;
pub mod url_ext;
pub mod dates;
pub mod html;
pub mod config;
pub mod engine;
pub mod auth;
pub mod types;
pub mod api;
pub mod utils;
pub mod settings;

verus! {

} // verus!
