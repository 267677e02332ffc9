//! The data model of a source configuration (the YAML files that describe a site).
pub mod auth;
pub mod extraction;
pub mod hosts;
pub mod link_resolution;
pub mod paths;
pub mod settings;
pub mod source;
pub mod tags;
pub mod transformations;
