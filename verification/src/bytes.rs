//! Byte-level operations on linear-memory images.
//!
//! A guest's linear memory is handled here as a plain byte vector. Every
//! host-side copy into or out of guest memory is bounds-checked: an access
//! past the end of the image fails without touching it.

use vstd::prelude::*;

verus! {

/// The byte sequence `mem` with the `data.len()` bytes starting at `ptr`
/// replaced by `data`; everything outside that range is kept.
pub open spec fn splice_bytes(mem: Seq<u8>, ptr: int, data: Seq<u8>) -> Seq<u8> {
    mem.take(ptr) + data + mem.skip(ptr + data.len())
}

/// Writes `data` into `mem` at offset `ptr`. Returns whether the write was in
/// bounds; an out-of-bounds write leaves `mem` untouched.
pub fn write_bytes(mem: &mut Vec<u8>, ptr: usize, data: &[u8]) -> (r: bool)
    ensures
        r == (ptr + data@.len() <= old(mem)@.len()),
        r ==> final(mem)@ == splice_bytes(old(mem)@, ptr as int, data@),
        !r ==> final(mem)@ == old(mem)@,
{
    let n = data.len();
    if n > mem.len() || ptr > mem.len() - n {
        return false;
    }
    let mut i: usize = 0;
    while i < n
        invariant
            0 <= i <= n,
            n == data@.len(),
            ptr + n <= mem@.len(),
            ptr + n <= usize::MAX,
            mem@.len() == old(mem)@.len(),
            forall|j: int| 0 <= j < ptr ==> mem@[j] == old(mem)@[j],
            forall|j: int| 0 <= j < i ==> mem@[ptr + j] == data@[j],
            forall|j: int| ptr + n <= j < mem@.len() ==> mem@[j] == old(mem)@[j],
        decreases n - i,
    {
        let b = data[i];
        mem[ptr + i] = b;
        i += 1;
    }
    proof {
        assert(mem@ =~= splice_bytes(old(mem)@, ptr as int, data@));
    }
    true
}

/// Reads `len` bytes from `mem` starting at offset `ptr`, or nothing when the
/// range is out of bounds.
pub fn read_bytes(mem: &Vec<u8>, ptr: usize, len: usize) -> (r: Option<Vec<u8>>)
    ensures
        match r {
            Some(v) => ptr + len <= mem@.len() && v@ == mem@.subrange(
                ptr as int,
                ptr + len,
            ),
            None => ptr + len > mem@.len(),
        },
{
    if len > mem.len() || ptr > mem.len() - len {
        return None;
    }
    let mut out: Vec<u8> = Vec::new();
    let mut i: usize = 0;
    while i < len
        invariant
            0 <= i <= len,
            ptr + len <= mem@.len(),
            ptr + len <= usize::MAX,
            out@ == mem@.subrange(ptr as int, ptr + i),
        decreases len - i,
    {
        proof {
            assert(mem@.subrange(ptr as int, ptr + i + 1) =~= mem@.subrange(
                ptr as int,
                ptr + i,
            ).push(mem@[ptr + i]));
        }
        let b = mem[ptr + i];
        out.push(b);
        i += 1;
    }
    Some(out)
}

/// Whether `a` and `b` hold the same bytes.
pub fn bytes_eq(a: &Vec<u8>, b: &Vec<u8>) -> (r: bool)
    ensures
        r == (a@ == b@),
{
    if a.len() != b.len() {
        proof {
            assert(a@.len() != b@.len());
        }
        return false;
    }
    let n = a.len();
    let mut i: usize = 0;
    while i < n
        invariant
            0 <= i <= n,
            n == a@.len(),
            n == b@.len(),
            forall|j: int| 0 <= j < i ==> a@[j] == b@[j],
        decreases n - i,
    {
        if a[i] != b[i] {
            return false;
        }
        i += 1;
    }
    proof {
        assert(a@ =~= b@);
    }
    true
}

/// Relies on core::str::from_utf8: it returns `Ok` exactly when the bytes
/// are valid UTF-8.
#[verifier::external_body]
pub(crate) fn is_valid_utf8(b: &[u8]) -> (r: bool)
    ensures
        r == vstd::utf8::valid_utf8(b@),
{
    core::str::from_utf8(b).is_ok()
}

/// Reads the 32 bytes at offset `ptr` of `mem` as an array, or nothing when
/// the range is out of bounds.
pub fn read_bytes32(mem: &Vec<u8>, ptr: usize) -> (r: Option<[u8; 32]>)
    ensures
        match r {
            Some(v) => ptr + 32 <= mem@.len() && v@ == mem@.subrange(ptr as int, ptr + 32),
            None => ptr + 32 > mem@.len(),
        },
{
    if mem.len() < 32 || ptr > mem.len() - 32 {
        return None;
    }
    let mut out: [u8; 32] = [0u8; 32];
    let mut i: usize = 0;
    while i < 32
        invariant
            0 <= i <= 32,
            ptr + 32 <= mem@.len(),
            ptr + 32 <= usize::MAX,
            out@.len() == 32,
            forall|j: int| 0 <= j < i ==> out@[j] == mem@[ptr + j],
        decreases 32 - i,
    {
        out[i] = mem[ptr + i];
        i += 1;
    }
    proof {
        assert(out@ =~= mem@.subrange(ptr as int, ptr + 32));
    }
    Some(out)
}

} // verus!
