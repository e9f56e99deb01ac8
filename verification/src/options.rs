use vstd::prelude::*;

verus! {

/// What a caller hands a source when extracting: which user's list to
/// fetch, and whether cached results must be skipped.
#[derive(Clone, Copy, PartialEq, Eq, Structural, Debug)]
pub struct ExtractOptions {
    pub user_id: Option<u64>,
    pub skip_cache: Option<bool>,
}

/// What a caller hands the pipeline for one run.
#[derive(Clone, Copy, PartialEq, Eq, Structural, Debug)]
pub struct RunOptions {
    pub user_id: Option<u64>,
}

} // verus!
