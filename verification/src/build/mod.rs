//! The `build` command: finding the Solana programs of a project, preparing their
//! debug build settings, summarising build results and checking debug files.
use vstd::prelude::*;

pub mod results;
pub mod debug_check;
pub mod debug_flag;
pub mod project;

verus! {

/// Options of the `build` command.
#[derive(Clone, Copy, Debug, PartialEq, Eq, Structural)]
pub struct BuildArgs {
    /// Remove the generated `seer.toml` files once the build is done.
    pub cleanup_seer: bool,
    /// Build programs without showing the build output.
    pub silent: bool,
}

} // verus!
