//! Editor descriptors and content pipeline reports.
pub mod animation_pipeline;
pub mod asset_studio;
pub mod atlas_pipeline;
pub mod character_lab;
pub mod counts;
pub mod export_pipeline;
pub mod mode;
pub mod native_shell;

use vstd::prelude::*;

verus! {

/// Starts the editor core; it holds no state, so this always succeeds.
pub fn init() -> (r: Result<(), String>)
    ensures
        r is Ok,
{
    Ok(())
}

} // verus!
