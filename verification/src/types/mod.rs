//! Types shared with the user interface.
pub mod detail_section;
