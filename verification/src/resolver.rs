//! The host-function import tables.
//!
//! A module declares its imports by name; the resolver maps each name the
//! host serves to a typed host function. The root-side table serves the
//! script module; the child-side table is a strict subset — a child can
//! marshal bytes through its frame and call back into exposed root exports,
//! but has no access to block data, state roots, scratch buffers or module
//! loading.

use vstd::prelude::*;

verus! {

/// One function of the host interface, as importable by a guest module.
#[derive(Debug, Clone, Copy, PartialEq, Eq, Structural)]
pub enum HostFunc {
    /// `eth2_loadPreStateRoot(ptr)`
    LoadPreStateRoot,
    /// `eth2_savePostStateRoot(ptr)`
    SavePostStateRoot,
    /// `eth2_blockDataSize() -> i32`
    BlockDataSize,
    /// `eth2_blockDataCopy(ptr, offset, length)`
    BlockDataCopy,
    /// `eth2_bufferGet(frame, key_ptr, value_ptr) -> i32`
    BufferGet,
    /// `eth2_bufferSet(frame, key_ptr, value_ptr)`
    BufferSet,
    /// `eth2_bufferMerge(dst, src)`
    BufferMerge,
    /// `eth2_bufferClear(frame)`
    BufferClear,
    /// `eth2_loadModule(slot, code_ptr, code_len)`
    LoadModule,
    /// `eth2_callModule(slot, name_ptr, name_len, arg_ptr, arg_len, ret_ptr, ret_len) -> i32`
    CallModule,
    /// `eth2_expose(name_ptr, name_len)`
    Expose,
    /// `eth2_call(name_ptr, name_len, arg_ptr, arg_len, ret_ptr, ret_len) -> i32` (child side)
    Call,
    /// `eth2_argument(dest_ptr, dest_len) -> i32`
    Argument,
    /// `eth2_return(src_ptr, src_len) -> i32`
    Return,
    /// `print(ptr, len)` (debug builds)
    Print,
}

/// The import name under which a guest reaches `f`.
pub open spec fn host_func_name(f: HostFunc) -> Seq<char> {
    match f {
        HostFunc::LoadPreStateRoot => "eth2_loadPreStateRoot"@,
        HostFunc::SavePostStateRoot => "eth2_savePostStateRoot"@,
        HostFunc::BlockDataSize => "eth2_blockDataSize"@,
        HostFunc::BlockDataCopy => "eth2_blockDataCopy"@,
        HostFunc::BufferGet => "eth2_bufferGet"@,
        HostFunc::BufferSet => "eth2_bufferSet"@,
        HostFunc::BufferMerge => "eth2_bufferMerge"@,
        HostFunc::BufferClear => "eth2_bufferClear"@,
        HostFunc::LoadModule => "eth2_loadModule"@,
        HostFunc::CallModule => "eth2_callModule"@,
        HostFunc::Expose => "eth2_expose"@,
        HostFunc::Call => "eth2_call"@,
        HostFunc::Argument => "eth2_argument"@,
        HostFunc::Return => "eth2_return"@,
        HostFunc::Print => "print"@,
    }
}

/// The signature of `f`: how many `i32` parameters it takes, and whether it
/// returns an `i32`.
pub open spec fn spec_signature(f: HostFunc) -> (int, bool) {
    match f {
        HostFunc::LoadPreStateRoot => (1, false),
        HostFunc::SavePostStateRoot => (1, false),
        HostFunc::BlockDataSize => (0, true),
        HostFunc::BlockDataCopy => (3, false),
        HostFunc::BufferGet => (3, true),
        HostFunc::BufferSet => (3, false),
        HostFunc::BufferMerge => (2, false),
        HostFunc::BufferClear => (1, false),
        HostFunc::LoadModule => (3, false),
        HostFunc::CallModule => (7, true),
        HostFunc::Expose => (2, false),
        HostFunc::Call => (6, true),
        HostFunc::Argument => (2, true),
        HostFunc::Return => (2, true),
        HostFunc::Print => (2, false),
    }
}

/// Whether the root-side import table serves `f`.
pub open spec fn root_import(f: HostFunc) -> bool {
    f != HostFunc::Call
}

/// Whether the child-side import table serves `f`.
pub open spec fn child_import(f: HostFunc) -> bool {
    f == HostFunc::Call || f == HostFunc::Argument || f == HostFunc::Return || f
        == HostFunc::Print
}

impl HostFunc {
    /// The signature of the import: its `i32` parameter count, and whether
    /// it returns an `i32`.
    pub fn signature(&self) -> (r: (usize, bool))
        ensures
            (r.0 as int, r.1) == spec_signature(*self),
    {
        match self {
            HostFunc::LoadPreStateRoot => (1, false),
            HostFunc::SavePostStateRoot => (1, false),
            HostFunc::BlockDataSize => (0, true),
            HostFunc::BlockDataCopy => (3, false),
            HostFunc::BufferGet => (3, true),
            HostFunc::BufferSet => (3, false),
            HostFunc::BufferMerge => (2, false),
            HostFunc::BufferClear => (1, false),
            HostFunc::LoadModule => (3, false),
            HostFunc::CallModule => (7, true),
            HostFunc::Expose => (2, false),
            HostFunc::Call => (6, true),
            HostFunc::Argument => (2, true),
            HostFunc::Return => (2, true),
            HostFunc::Print => (2, false),
        }
    }
}

/// Whether the strings `a` and `b` hold the same characters.
fn str_eq(a: &str, b: &str) -> (r: bool)
    ensures
        r == (a@ == b@),
{
    let a_owned = a.to_owned();
    let b_owned = b.to_owned();
    a_owned == b_owned
}

/// The root-side import resolver: maps the import names of the script module
/// to host functions.
pub struct RuntimeModuleImportResolver;

impl RuntimeModuleImportResolver {
    /// The host function the root-side table serves under `field_name`, or
    /// nothing when the host exports no such function to the script.
    pub fn resolve_func(&self, field_name: &str) -> (r: Option<HostFunc>)
        ensures
            match r {
                Some(f) => root_import(f) && host_func_name(f) == field_name@,
                None => forall|f: HostFunc|
                    root_import(f) ==> host_func_name(f) != field_name@,
            },
    {
        if str_eq(field_name, "eth2_loadPreStateRoot") {
            Some(HostFunc::LoadPreStateRoot)
        } else if str_eq(field_name, "eth2_savePostStateRoot") {
            Some(HostFunc::SavePostStateRoot)
        } else if str_eq(field_name, "eth2_blockDataSize") {
            Some(HostFunc::BlockDataSize)
        } else if str_eq(field_name, "eth2_blockDataCopy") {
            Some(HostFunc::BlockDataCopy)
        } else if str_eq(field_name, "eth2_bufferGet") {
            Some(HostFunc::BufferGet)
        } else if str_eq(field_name, "eth2_bufferSet") {
            Some(HostFunc::BufferSet)
        } else if str_eq(field_name, "eth2_bufferMerge") {
            Some(HostFunc::BufferMerge)
        } else if str_eq(field_name, "eth2_bufferClear") {
            Some(HostFunc::BufferClear)
        } else if str_eq(field_name, "eth2_loadModule") {
            Some(HostFunc::LoadModule)
        } else if str_eq(field_name, "eth2_callModule") {
            Some(HostFunc::CallModule)
        } else if str_eq(field_name, "eth2_expose") {
            Some(HostFunc::Expose)
        } else if str_eq(field_name, "eth2_argument") {
            Some(HostFunc::Argument)
        } else if str_eq(field_name, "eth2_return") {
            Some(HostFunc::Return)
        } else if str_eq(field_name, "print") {
            Some(HostFunc::Print)
        } else {
            None
        }
    }
}

/// The child-side import resolver: maps the import names of a dynamically
/// loaded sub-module to host functions. It serves a strict subset of the
/// root-side table.
pub struct ChildModuleImportResolver;

impl ChildModuleImportResolver {
    /// The host function the child-side table serves under `field_name`, or
    /// nothing when the host exports no such function to children.
    pub fn resolve_func(&self, field_name: &str) -> (r: Option<HostFunc>)
        ensures
            match r {
                Some(f) => child_import(f) && host_func_name(f) == field_name@,
                None => forall|f: HostFunc|
                    child_import(f) ==> host_func_name(f) != field_name@,
            },
    {
        if str_eq(field_name, "eth2_call") {
            Some(HostFunc::Call)
        } else if str_eq(field_name, "eth2_argument") {
            Some(HostFunc::Argument)
        } else if str_eq(field_name, "eth2_return") {
            Some(HostFunc::Return)
        } else if str_eq(field_name, "print") {
            Some(HostFunc::Print)
        } else {
            None
        }
    }
}

} // verus!
