//! Progress of an installer download.
use vstd::prelude::*;

verus! {

/// How far an installer download has come (the percentage is computed in
/// floating point by the application).
#[derive(Debug, Clone)]
pub struct InstallerProgress {
    pub downloaded: u64,
    pub total: Option<u64>,
    pub percent: Option<u32>,
}

} // verus!
