//! Declarations of the embedded Wasm engine's handle types.
//!
//! The runtime records which engine objects its bookkeeping refers to — the
//! linear memory a stack frame reads from, the instance a loaded child module
//! was given — but never looks inside them. Reading or writing a linear
//! memory, compiling a module and invoking an exported function all need the
//! engine's store and are performed by the embedder, which hands this library
//! plain byte images of the memories involved.

use vstd::prelude::*;

verus! {

/// Relies on wasmi::Memory being a plain handle naming one linear memory of
/// the embedder's store. It is opaque here; no contract of this library
/// depends on its contents.
#[verifier::external_type_specification]
#[verifier::external_body]
pub struct ExMemory(wasmi::Memory);

/// Relies on wasmi::Instance being a plain handle naming one instantiated
/// module of the embedder's store. It is opaque here; no contract of this
/// library depends on its contents.
#[verifier::external_type_specification]
#[verifier::external_body]
pub struct ExInstance(wasmi::Instance);

} // verus!
