//! Stack frames: the per-call descriptors of the cross-module transfer
//! protocol.
//!
//! A frame describes one cross-module call. It names the caller's linear
//! memory and carries the offsets and lengths of the caller's argument and
//! return regions. During the call the callee marshals bytes through those
//! two regions and nothing else: a transfer is truncated to the advertised
//! region, so an over-long read never leaks caller memory and an over-long
//! write never clobbers it.

use vstd::prelude::*;

use crate::bytes::{read_bytes, splice_bytes, write_bytes};
use crate::error::HostError;

verus! {

/// The number of bytes a transfer moves: the smaller of what was requested
/// and what the frame's region advertises.
pub open spec fn transfer_len(requested: u32, advertised: u32) -> int {
    if requested < advertised {
        requested as int
    } else {
        advertised as int
    }
}

/// A constructed-once descriptor of one cross-module call: the caller's
/// linear memory, and the offsets and lengths of the caller's argument and
/// return regions inside it.
#[derive(Clone, Copy)]
pub struct StackFrame {
    /// The caller's linear memory. Opaque here: the embedder resolves it to a
    /// byte image when a transfer runs.
    pub memory: wasmi::Memory,
    /// Offset of the caller's argument region.
    pub argument_offset: u32,
    /// Length of the caller's argument region.
    pub argument_length: u32,
    /// Offset of the caller's return region.
    pub return_offset: u32,
    /// Length of the caller's return region.
    pub return_length: u32,
}

impl StackFrame {
    /// A frame over the caller memory `memory` with the given argument and
    /// return regions.
    pub fn new(
        memory: wasmi::Memory,
        argument_offset: u32,
        argument_length: u32,
        return_offset: u32,
        return_length: u32,
    ) -> (r: StackFrame)
        ensures
            r.memory == memory,
            r.argument_offset == argument_offset,
            r.argument_length == argument_length,
            r.return_offset == return_offset,
            r.return_length == return_length,
    {
        StackFrame { memory, argument_offset, argument_length, return_offset, return_length }
    }

    /// Copies `min(dest_len, argument_length)` bytes of the caller's argument
    /// region (in the image `caller_mem`) to `dest_mem` at `dest_ptr`, and
    /// returns the full argument length — not the count copied — so a callee
    /// probing with `dest_len == 0` learns the size it must allocate.
    pub fn transfer_argument(
        &self,
        caller_mem: &Vec<u8>,
        dest_mem: &mut Vec<u8>,
        dest_ptr: u32,
        dest_len: u32,
    ) -> (r: Result<u32, HostError>)
        ensures
            ({
                let len = transfer_len(dest_len, self.argument_length);
                match r {
                    Ok(n) => {
                        &&& n == self.argument_length
                        &&& self.argument_offset + len <= caller_mem@.len()
                        &&& dest_ptr + len <= old(dest_mem)@.len()
                        &&& final(dest_mem)@ == splice_bytes(
                            old(dest_mem)@,
                            dest_ptr as int,
                            caller_mem@.subrange(
                                self.argument_offset as int,
                                self.argument_offset + len,
                            ),
                        )
                    },
                    Err(e) => {
                        &&& e == HostError::OutOfBoundsMemory
                        &&& (self.argument_offset + len > caller_mem@.len() || dest_ptr + len
                            > old(dest_mem)@.len())
                        &&& final(dest_mem)@ == old(dest_mem)@
                    },
                }
            }),
    {
        let len = if dest_len < self.argument_length {
            dest_len
        } else {
            self.argument_length
        };
        let data = match read_bytes(caller_mem, self.argument_offset as usize, len as usize) {
            Some(d) => d,
            None => {
                return Err(HostError::OutOfBoundsMemory);
            },
        };
        if write_bytes(dest_mem, dest_ptr as usize, data.as_slice()) {
            Ok(self.argument_length)
        } else {
            Err(HostError::OutOfBoundsMemory)
        }
    }

    /// Copies `min(src_len, return_length)` bytes from `src_mem` at `src_ptr`
    /// into the caller's return region (in the image `caller_mem`), and
    /// returns the full return-region length — the caller's buffer capacity —
    /// so a callee probing with `src_len == 0` learns how much it may write.
    pub fn transfer_return(
        &self,
        src_mem: &Vec<u8>,
        caller_mem: &mut Vec<u8>,
        src_ptr: u32,
        src_len: u32,
    ) -> (r: Result<u32, HostError>)
        ensures
            ({
                let len = transfer_len(src_len, self.return_length);
                match r {
                    Ok(n) => {
                        &&& n == self.return_length
                        &&& src_ptr + len <= src_mem@.len()
                        &&& self.return_offset + len <= old(caller_mem)@.len()
                        &&& final(caller_mem)@ == splice_bytes(
                            old(caller_mem)@,
                            self.return_offset as int,
                            src_mem@.subrange(src_ptr as int, src_ptr + len),
                        )
                    },
                    Err(e) => {
                        &&& e == HostError::OutOfBoundsMemory
                        &&& (src_ptr + len > src_mem@.len() || self.return_offset + len > old(
                            caller_mem,
                        )@.len())
                        &&& final(caller_mem)@ == old(caller_mem)@
                    },
                }
            }),
    {
        let len = if src_len < self.return_length {
            src_len
        } else {
            self.return_length
        };
        let data = match read_bytes(src_mem, src_ptr as usize, len as usize) {
            Some(d) => d,
            None => {
                return Err(HostError::OutOfBoundsMemory);
            },
        };
        if write_bytes(caller_mem, self.return_offset as usize, data.as_slice()) {
            Ok(self.return_length)
        } else {
            Err(HostError::OutOfBoundsMemory)
        }
    }
}

/// A transfer asked to move zero bytes leaves the destination image exactly
/// as it was, whatever region it names: probing a frame for its argument
/// length or return capacity writes nothing.
pub proof fn lemma_transfer_probe_writes_nothing(mem: Seq<u8>, ptr: int, src: Seq<u8>, off: int)
    requires
        0 <= ptr <= mem.len(),
        0 <= off <= src.len(),
    ensures
        splice_bytes(mem, ptr, src.subrange(off, off)) == mem,
{
    assert(splice_bytes(mem, ptr, src.subrange(off, off)) =~= mem);
}

/// A transfer touches only the bytes of its destination range: the
/// destination image keeps its length, and every byte outside
/// `[ptr, ptr + data.len())` keeps its prior value. An over-long argument
/// request therefore cannot leak caller bytes past the advertised region, and
/// an over-long return cannot overwrite caller memory past it.
pub proof fn lemma_transfer_preserves_outside_range(mem: Seq<u8>, ptr: int, data: Seq<u8>)
    requires
        0 <= ptr,
        ptr + data.len() <= mem.len(),
    ensures
        splice_bytes(mem, ptr, data).len() == mem.len(),
        forall|i: int|
            0 <= i < mem.len() && !(ptr <= i < ptr + data.len()) ==> splice_bytes(
                mem,
                ptr,
                data,
            )[i] == mem[i],
        forall|j: int| 0 <= j < data.len() ==> splice_bytes(mem, ptr, data)[ptr + j] == data[j],
{
}

} // verus!
