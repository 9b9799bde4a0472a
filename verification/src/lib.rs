//! A host environment for stateless block verification scripts compiled to
//! WebAssembly.
//!
//! A block consists of a 32-byte pre-state root, an opaque block-data blob,
//! and an execution script. The host runs the script's `main` entry point and
//! offers it a narrow interface: block-data reads, pre/post-state roots, a
//! frame-indexed key/value scratch buffer, dynamic loading of child modules,
//! and a call protocol that marshals argument and return bytes between the
//! linear memories of caller and callee.

mod buffer;
mod bytes;
mod engine;
mod error;
mod execute;
mod frame;
mod resolver;
mod runtime;

pub use buffer::{cleared, lemma_clear_namespace, lemma_merge_src_wins, merged, Buffer};
pub use bytes::{read_bytes, read_bytes32, splice_bytes, write_bytes};
pub use error::HostError;
pub use execute::Execute;
pub use frame::{
    lemma_transfer_preserves_outside_range, lemma_transfer_probe_writes_nothing, transfer_len,
    StackFrame,
};
pub use resolver::{
    child_import, host_func_name, root_import, spec_signature, ChildModuleImportResolver,
    HostFunc, RuntimeModuleImportResolver,
};
pub use runtime::{
    frame_id_spec, lemma_exposed_name_gate, lemma_pre_root_round_trip, zero_root, ChildView,
    RootRuntime, RootView, BLOCK_DATA_LIMIT,
};
