//! The block executor's interface.

use vstd::prelude::*;

verus! {

/// Runs a block's script to completion and hands back the 32-byte post-state
/// root it committed — all zero when the script never saved one. An embedder
/// implements this around its Wasm engine, driving the script's `main` and
/// serving its host calls from a [`crate::RootRuntime`].
pub trait Execute {
    /// Runs `main` and returns the post-state root.
    fn execute(&mut self) -> [u8; 32];
}

} // verus!
