//! The failure taxonomy of the host interface.

use vstd::prelude::*;

verus! {

/// A fatal condition raised by a host call. Any of these aborts the block:
/// the host interface offers no partial recovery.
#[derive(Debug, Clone, Copy, PartialEq, Eq, Structural)]
pub enum HostError {
    /// A guest pointer/length pair reaches outside the linear memory it
    /// refers to.
    OutOfBoundsMemory,
    /// A name argument read from guest memory is not valid UTF-8.
    InvalidUtf8,
    /// `argument` or `return` was invoked while the instance's call stack is
    /// empty.
    EmptyCallStack,
    /// `callModule` named a slot with no loaded module.
    UnknownSlot,
    /// `loadModule` named a slot that already holds a module.
    SlotOccupied,
    /// A child called a root export that was never exposed.
    NotExposed,
}

impl HostError {
    /// A short description of the condition, for the embedder's diagnostics.
    pub fn describe(&self) -> (r: &'static str)
    {
        match self {
            HostError::OutOfBoundsMemory => "memory access out of bounds",
            HostError::InvalidUtf8 => "name is not valid UTF-8",
            HostError::EmptyCallStack => "host call requires a call stack",
            HostError::UnknownSlot => "no module loaded in slot",
            HostError::SlotOccupied => "reusing module slot identifiers not supported",
            HostError::NotExposed => "function is not a safe call target",
        }
    }
}

} // verus!
