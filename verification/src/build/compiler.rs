//! Release build information.
use vstd::prelude::*;

verus! {

/// What a release build produced.
#[derive(Debug, Clone)]
pub struct BuildInfo {
    pub version: String,
    pub binary_path: String,
    pub original_size: usize,
    pub compressed_size: Option<usize>,
    pub sha256: String,
    pub md5: String,
    pub build_time: String,
    pub build_duration_secs: u64,
}

impl BuildInfo {
    /// The size of the binary that is shipped: compressed if it was.
    pub fn final_size(&self) -> (r: usize)
        ensures
            r == match self.compressed_size {
                Some(c) => c,
                None => self.original_size,
            },
    {
        match self.compressed_size {
            Some(c) => c,
            None => self.original_size,
        }
    }
}

} // verus!
