//! The root runtime: the state every host call reads or writes.
//!
//! A root runtime is constructed per block from the block data and the
//! 32-byte pre-state root. The embedder drives the Wasm engine; each host
//! call a guest makes is handled by one of the transition methods here, which
//! take byte images of the linear memories involved and say exactly how the
//! state and the images change.
//!
//! Children — the modules a script loads dynamically — live in a registry
//! inside the root, addressed by a caller-chosen slot id. Each instance (the
//! root and every child) has its own stack of [`StackFrame`]s: a frame is
//! pushed on the callee's stack right before a cross-module call is
//! dispatched and popped right after it returns.

use vstd::prelude::*;

use crate::buffer::{cleared, merged, Buffer};
use crate::bytes::{bytes_eq, is_valid_utf8, read_bytes, read_bytes32, splice_bytes, write_bytes};
use crate::error::HostError;
use crate::frame::StackFrame;
use vstd::utf8::valid_utf8;

verus! {

/// The scratch-buffer namespace a 32-bit guest argument names: its low byte.
pub open spec fn frame_id_spec(frame: u32) -> u8 {
    (frame % 256) as u8
}

/// The low byte of a 32-bit guest argument.
fn frame_id(frame: u32) -> (r: u8)
    ensures
        r == frame_id_spec(frame),
{
    (frame % 256) as u8
}

/// The block-data length limit: the guest ABI reports the length as an
/// `i32`, so a block must not carry more data than that can express.
pub const BLOCK_DATA_LIMIT: usize = 0x7fff_ffff;

/// The all-zero state root: the post-state of a script that never writes
/// one.
pub open spec fn zero_root() -> Seq<u8> {
    Seq::new(32, |i: int| 0u8)
}

/// The mathematical content of one loaded child module: the engine handles
/// naming its instance and linear memory, and its stack of active frames.
pub ghost struct ChildView {
    /// The child's module instance.
    pub instance: wasmi::Instance,
    /// The child's linear memory.
    pub memory: wasmi::Memory,
    /// The child's active cross-module call frames, innermost last.
    pub call_stack: Seq<StackFrame>,
}

/// The mathematical content of a root runtime.
pub ghost struct RootView {
    /// The block-data blob, read-only for the whole block.
    pub block_data: Seq<u8>,
    /// The 32-byte pre-state root, fixed at construction.
    pub pre_root: Seq<u8>,
    /// The 32-byte post-state root; all zero until the script saves one.
    pub post_root: Seq<u8>,
    /// The scratch buffer.
    pub buffer: Map<(u8, Seq<u8>), Seq<u8>>,
    /// The exposed set: names children may call back into.
    pub call_targets: Set<Seq<u8>>,
    /// The root's active cross-module call frames, innermost last.
    pub call_stack: Seq<StackFrame>,
    /// The loaded children, by slot id.
    pub children: Map<u32, ChildView>,
    /// The root's module instance.
    pub instance: wasmi::Instance,
    /// The root's linear memory.
    pub memory: wasmi::Memory,
}

/// One loaded child module: its slot id, its engine handles, and its stack
/// of active cross-module call frames.
struct ChildRuntime {
    slot: u32,
    instance: wasmi::Instance,
    memory: wasmi::Memory,
    call_stack: Vec<StackFrame>,
}

impl ChildRuntime {
    spec fn view(&self) -> ChildView {
        ChildView {
            instance: self.instance,
            memory: self.memory,
            call_stack: self.call_stack@,
        }
    }
}

/// The first index of `s` whose child occupies `slot`, or `s.len()` when the
/// slot is free.
spec fn slot_index(s: Seq<ChildRuntime>, slot: u32) -> int
    decreases s.len(),
{
    if s.len() == 0 {
        0
    } else if s[0].slot == slot {
        0
    } else {
        1 + slot_index(s.drop_first(), slot)
    }
}

/// Whether some child of `s` occupies `slot`.
spec fn has_slot(s: Seq<ChildRuntime>, slot: u32) -> bool {
    slot_index(s, slot) < s.len()
}

/// The children of `s` as a map from occupied slot to child content.
spec fn children_as_map(s: Seq<ChildRuntime>) -> Map<u32, ChildView> {
    Map::new(|slot: u32| has_slot(s, slot), |slot: u32| s[slot_index(s, slot)].view())
}

/// `slot_index` names the first matching position: everything before it
/// misses, and it misses only past the end.
proof fn lemma_slot_index_first(s: Seq<ChildRuntime>, slot: u32)
    ensures
        0 <= slot_index(s, slot) <= s.len(),
        slot_index(s, slot) < s.len() ==> s[slot_index(s, slot)].slot == slot,
        forall|j: int| 0 <= j < slot_index(s, slot) ==> s[j].slot != slot,
    decreases s.len(),
{
    if s.len() == 0 {
    } else if s[0].slot == slot {
    } else {
        lemma_slot_index_first(s.drop_first(), slot);
        assert forall|j: int| 0 <= j < slot_index(s, slot) implies s[j].slot != slot by {
            if j > 0 {
                assert(s[j] == s.drop_first()[j - 1]);
            }
        }
    }
}

/// If nothing up to the end matches, the slot is free.
proof fn lemma_slot_index_none(s: Seq<ChildRuntime>, slot: u32)
    requires
        forall|j: int| 0 <= j < s.len() ==> s[j].slot != slot,
    ensures
        slot_index(s, slot) == s.len(),
    decreases s.len(),
{
    if s.len() == 0 {
    } else {
        lemma_slot_index_none(s.drop_first(), slot);
    }
}

/// Appending a child leaves every occupied slot where it was and occupies
/// the new child's slot if it was free.
proof fn lemma_slot_index_push(s: Seq<ChildRuntime>, c: ChildRuntime, slot: u32)
    ensures
        has_slot(s, slot) ==> slot_index(s.push(c), slot) == slot_index(s, slot),
        !has_slot(s, slot) && c.slot == slot ==> slot_index(s.push(c), slot) == s.len(),
        !has_slot(s, slot) && c.slot != slot ==> slot_index(s.push(c), slot) == s.len() + 1,
    decreases s.len(),
{
    if s.len() == 0 {
        assert(s.push(c)[0] == c);
        assert(s.push(c).drop_first() =~= Seq::<ChildRuntime>::empty());
        assert(slot_index(Seq::<ChildRuntime>::empty(), slot) == 0);
    } else {
        assert(s.push(c)[0] == s[0]);
        assert(s.push(c).drop_first() =~= s.drop_first().push(c));
        lemma_slot_index_first(s.drop_first(), slot);
        lemma_slot_index_push(s.drop_first(), c, slot);
        if s[0].slot != slot {
            assert(slot_index(s, slot) == 1 + slot_index(s.drop_first(), slot));
            assert(has_slot(s, slot) == has_slot(s.drop_first(), slot));
        }
    }
}

/// A position whose child matches, with nothing matching before it, is the
/// slot's first position.
proof fn lemma_slot_index_at(s: Seq<ChildRuntime>, slot: u32, i: int)
    requires
        0 <= i < s.len(),
        s[i].slot == slot,
        forall|j: int| 0 <= j < i ==> s[j].slot != slot,
    ensures
        slot_index(s, slot) == i,
    decreases s.len(),
{
    if i == 0 {
    } else {
        assert forall|j: int| 0 <= j < i - 1 implies s.drop_first()[j].slot != slot by {
            assert(s.drop_first()[j] == s[j + 1]);
        }
        assert(s.drop_first()[i - 1] == s[i]);
        lemma_slot_index_at(s.drop_first(), slot, i - 1);
    }
}

/// Replacing the child at position `i` with one for the same slot moves no
/// slot's first position.
proof fn lemma_slot_index_update(s: Seq<ChildRuntime>, i: int, c: ChildRuntime, slot: u32)
    requires
        0 <= i < s.len(),
        s[i].slot == c.slot,
    ensures
        slot_index(s.update(i, c), slot) == slot_index(s, slot),
    decreases s.len(),
{
    if s.len() == 0 {
    } else if i == 0 {
        assert(s.update(i, c).drop_first() =~= s.drop_first());
    } else {
        assert(s.update(i, c).drop_first() =~= s.drop_first().update(i - 1, c));
        lemma_slot_index_update(s.drop_first(), i - 1, c, slot);
    }
}

/// Pre-root round-trip, for every 32-byte pre-root: when a script's `main`
/// loads the pre-state root into memory at some offset — `mem_after` is what
/// `load_pre_state_root` leaves of the image `mem` — and then saves the
/// post-state root from the same offset — `committed` is what
/// `save_post_state_root` reads there — the committed post-root is the
/// pre-root itself.
pub proof fn lemma_pre_root_round_trip(
    mem: Seq<u8>,
    mem_after: Seq<u8>,
    pre_root: Seq<u8>,
    committed: Seq<u8>,
    ptr: int,
)
    requires
        pre_root.len() == 32,
        0 <= ptr,
        ptr + 32 <= mem.len(),
        mem_after == splice_bytes(mem, ptr, pre_root),
        committed == mem_after.subrange(ptr, ptr + 32),
    ensures
        committed == pre_root,
{
    assert(splice_bytes(mem, ptr, pre_root).subrange(ptr, ptr + 32) =~= pre_root);
}

/// The exposed-name gate: exposing a name makes exactly that name callable
/// from children on top of what was exposed before — the name passes the
/// gate afterwards, every previously exposed name still passes, and a name
/// never exposed still fails.
pub proof fn lemma_exposed_name_gate(before: RootView, after: RootView, name: Seq<u8>)
    requires
        after.call_targets == before.call_targets.insert(name),
    ensures
        after.call_targets.contains(name),
        forall|n: Seq<u8>|
            before.call_targets.contains(n) ==> after.call_targets.contains(n),
        forall|n: Seq<u8>|
            n != name && !before.call_targets.contains(n) ==> !after.call_targets.contains(n),
{
}

/// The state a block's host calls read and write: block data, the two state
/// roots, the scratch buffer, the exposed set, the child registry, and the
/// per-instance call stacks.
pub struct RootRuntime {
    block_data: Vec<u8>,
    pre_root: [u8; 32],
    post_root: [u8; 32],
    buffer: Buffer,
    call_targets: Vec<Vec<u8>>,
    call_stack: Vec<StackFrame>,
    children: Vec<ChildRuntime>,
    instance: wasmi::Instance,
    memory: wasmi::Memory,
}

impl View for RootRuntime {
    type V = RootView;

    closed spec fn view(&self) -> RootView {
        RootView {
            block_data: self.block_data@,
            pre_root: self.pre_root@,
            post_root: self.post_root@,
            buffer: self.buffer@,
            call_targets: Set::new(|n: Seq<u8>|
                exists|i: int| 0 <= i < self.call_targets@.len() && self.call_targets@[i]@ == n
            ),
            call_stack: self.call_stack@,
            children: children_as_map(self.children@),
            instance: self.instance,
            memory: self.memory,
        }
    }
}

impl RootRuntime {
    /// A fresh runtime for one block: the given block data and pre-state
    /// root, an all-zero post-state root, an empty scratch buffer, nothing
    /// exposed, no children, and no active frames. `instance` and `memory`
    /// are the engine's handles for the already-instantiated script module.
    pub fn new(
        block_data: Vec<u8>,
        pre_root: [u8; 32],
        instance: wasmi::Instance,
        memory: wasmi::Memory,
    ) -> (r: RootRuntime)
        requires
            block_data@.len() <= BLOCK_DATA_LIMIT,
        ensures
            r@ == (RootView {
                block_data: block_data@,
                pre_root: pre_root@,
                post_root: zero_root(),
                buffer: Map::<(u8, Seq<u8>), Seq<u8>>::empty(),
                call_targets: Set::<Seq<u8>>::empty(),
                call_stack: Seq::<StackFrame>::empty(),
                children: Map::<u32, ChildView>::empty(),
                instance: instance,
                memory: memory,
            }),
    {
        let r = RootRuntime {
            block_data,
            pre_root,
            post_root: [0u8; 32],
            buffer: Buffer::default(),
            call_targets: Vec::new(),
            call_stack: Vec::new(),
            children: Vec::new(),
            instance,
            memory,
        };
        proof {
            assert(r.post_root@ =~= zero_root());
            assert(r@.call_targets =~= Set::<Seq<u8>>::empty());
            assert forall|slot: u32| !has_slot(r.children@, slot) by {
                lemma_slot_index_none(r.children@, slot);
            }
            assert(r@.children =~= Map::<u32, ChildView>::empty());
        }
        r
    }

    /// The engine handle of the script's module instance.
    pub fn root_instance(&self) -> (r: wasmi::Instance)
        ensures
            r == self@.instance,
    {
        self.instance
    }

    /// The engine handle of the script's linear memory.
    pub fn root_memory(&self) -> (r: wasmi::Memory)
        ensures
            r == self@.memory,
    {
        self.memory
    }

    /// The current post-state root: what `execute` returns once `main` is
    /// done.
    pub fn post_root(&self) -> (r: [u8; 32])
        ensures
            r@ == self@.post_root,
    {
        self.post_root
    }

    /// Writes the 32-byte pre-state root into the script's memory image at
    /// `ptr`.
    pub fn load_pre_state_root(&self, mem: &mut Vec<u8>, ptr: u32) -> (r: Result<(), HostError>)
        ensures
            match r {
                Ok(_) => ptr + 32 <= old(mem)@.len() && final(mem)@ == splice_bytes(
                    old(mem)@,
                    ptr as int,
                    self@.pre_root,
                ),
                Err(e) => {
                    &&& e == HostError::OutOfBoundsMemory
                    &&& ptr + 32 > old(mem)@.len()
                    &&& final(mem)@ == old(mem)@
                },
            },
    {
        if write_bytes(mem, ptr as usize, self.pre_root.as_slice()) {
            Ok(())
        } else {
            Err(HostError::OutOfBoundsMemory)
        }
    }

    /// Reads 32 bytes from the script's memory image at `ptr` into the
    /// post-state root.
    pub fn save_post_state_root(&mut self, mem: &Vec<u8>, ptr: u32) -> (r: Result<
        (),
        HostError,
    >)
        ensures
            match r {
                Ok(_) => ptr + 32 <= mem@.len() && final(self)@ == (RootView {
                    post_root: mem@.subrange(ptr as int, ptr + 32),
                    ..old(self)@
                }),
                Err(e) => {
                    &&& e == HostError::OutOfBoundsMemory
                    &&& ptr + 32 > mem@.len()
                    &&& final(self)@ == old(self)@
                },
            },
    {
        match read_bytes32(mem, ptr as usize) {
            Some(root) => {
                self.post_root = root;
                Ok(())
            },
            None => Err(HostError::OutOfBoundsMemory),
        }
    }

    /// The block data's length in bytes. The length fits an `i32`: a block
    /// never carries more data than `BLOCK_DATA_LIMIT`, and no host call ever
    /// changes the block data, so a runtime built within the limit stays
    /// within it.
    pub fn block_data_size(&self) -> (r: i32)
        requires
            self@.block_data.len() <= BLOCK_DATA_LIMIT,
        ensures
            r == self@.block_data.len(),
    {
        self.block_data.len() as i32
    }

    /// Copies `length` bytes of block data starting at `offset` into the
    /// script's memory image at `ptr`.
    pub fn block_data_copy(
        &self,
        mem: &mut Vec<u8>,
        ptr: u32,
        offset: u32,
        length: u32,
    ) -> (r: Result<(), HostError>)
        ensures
            match r {
                Ok(_) => {
                    &&& offset + length <= self@.block_data.len()
                    &&& ptr + length <= old(mem)@.len()
                    &&& final(mem)@ == splice_bytes(
                        old(mem)@,
                        ptr as int,
                        self@.block_data.subrange(offset as int, offset + length),
                    )
                },
                Err(e) => {
                    &&& e == HostError::OutOfBoundsMemory
                    &&& (offset + length > self@.block_data.len() || ptr + length > old(
                        mem,
                    )@.len())
                    &&& final(mem)@ == old(mem)@
                },
            },
    {
        let data = match read_bytes(&self.block_data, offset as usize, length as usize) {
            Some(d) => d,
            None => {
                return Err(HostError::OutOfBoundsMemory);
            },
        };
        if write_bytes(mem, ptr as usize, data.as_slice()) {
            Ok(())
        } else {
            Err(HostError::OutOfBoundsMemory)
        }
    }

    /// Looks up the scratch buffer under the namespace `frame` and the
    /// 32-byte key at `key_ptr` of the script's memory image. On a hit the
    /// value is written at `value_ptr` and the call returns 0; on a miss
    /// nothing is written and the call returns 1.
    pub fn buffer_get(
        &self,
        mem: &mut Vec<u8>,
        frame: u32,
        key_ptr: u32,
        value_ptr: u32,
    ) -> (r: Result<i32, HostError>)
        ensures
            ({
                let fid = frame_id_spec(frame);
                let key = old(mem)@.subrange(key_ptr as int, key_ptr + 32);
                match r {
                    Ok(code) => {
                        &&& key_ptr + 32 <= old(mem)@.len()
                        &&& if self@.buffer.dom().contains((fid, key)) {
                            &&& code == 0
                            &&& value_ptr + 32 <= old(mem)@.len()
                            &&& final(mem)@ == splice_bytes(
                                old(mem)@,
                                value_ptr as int,
                                self@.buffer[(fid, key)],
                            )
                        } else {
                            &&& code == 1
                            &&& final(mem)@ == old(mem)@
                        }
                    },
                    Err(e) => {
                        &&& e == HostError::OutOfBoundsMemory
                        &&& final(mem)@ == old(mem)@
                        &&& (key_ptr + 32 > old(mem)@.len() || (self@.buffer.dom().contains(
                            (fid, key),
                        ) && value_ptr + 32 > old(mem)@.len()))
                    },
                }
            }),
    {
        let fid = frame_id(frame);
        let key = match read_bytes32(mem, key_ptr as usize) {
            Some(k) => k,
            None => {
                return Err(HostError::OutOfBoundsMemory);
            },
        };
        match self.buffer.get(fid, key) {
            Some(value) => {
                let value = *value;
                if write_bytes(mem, value_ptr as usize, value.as_slice()) {
                    Ok(0)
                } else {
                    Err(HostError::OutOfBoundsMemory)
                }
            },
            None => Ok(1),
        }
    }

    /// Reads a 32-byte key at `key_ptr` and a 32-byte value at `value_ptr`
    /// of the script's memory image and binds them in the scratch buffer
    /// under the namespace `frame`.
    pub fn buffer_set(
        &mut self,
        mem: &Vec<u8>,
        frame: u32,
        key_ptr: u32,
        value_ptr: u32,
    ) -> (r: Result<(), HostError>)
        ensures
            ({
                let fid = frame_id_spec(frame);
                let key = mem@.subrange(key_ptr as int, key_ptr + 32);
                let value = mem@.subrange(value_ptr as int, value_ptr + 32);
                match r {
                    Ok(_) => {
                        &&& key_ptr + 32 <= mem@.len()
                        &&& value_ptr + 32 <= mem@.len()
                        &&& final(self)@ == (RootView {
                            buffer: old(self)@.buffer.insert((fid, key), value),
                            ..old(self)@
                        })
                    },
                    Err(e) => {
                        &&& e == HostError::OutOfBoundsMemory
                        &&& (key_ptr + 32 > mem@.len() || value_ptr + 32 > mem@.len())
                        &&& final(self)@ == old(self)@
                    },
                }
            }),
    {
        let fid = frame_id(frame);
        let key = match read_bytes32(mem, key_ptr as usize) {
            Some(k) => k,
            None => {
                return Err(HostError::OutOfBoundsMemory);
            },
        };
        let value = match read_bytes32(mem, value_ptr as usize) {
            Some(v) => v,
            None => {
                return Err(HostError::OutOfBoundsMemory);
            },
        };
        let _prior = self.buffer.insert(fid, key, value);
        Ok(())
    }

    /// Assigns every scratch-buffer binding of namespace `frame_b` into
    /// namespace `frame_a`; on a conflict the binding from `frame_b` wins,
    /// and `frame_b` is left untouched.
    pub fn buffer_merge(&mut self, frame_a: u32, frame_b: u32)
        ensures
            final(self)@ == (RootView {
                buffer: merged(old(self)@.buffer, frame_id_spec(frame_a), frame_id_spec(frame_b)),
                ..old(self)@
            }),
    {
        let a = frame_id(frame_a);
        let b = frame_id(frame_b);
        self.buffer.merge(a, b);
    }

    /// Removes every scratch-buffer binding of namespace `frame`.
    pub fn buffer_clear(&mut self, frame: u32)
        ensures
            final(self)@ == (RootView {
                buffer: cleared(old(self)@.buffer, frame_id_spec(frame)),
                ..old(self)@
            }),
    {
        let f = frame_id(frame);
        self.buffer.clear(f);
    }

    /// Reads a UTF-8 name of `name_len` bytes at `name_ptr` of the script's
    /// memory image and adds it to the exposed set, making it callable from
    /// children.
    pub fn expose(&mut self, mem: &Vec<u8>, name_ptr: u32, name_len: u32) -> (r: Result<
        (),
        HostError,
    >)
        ensures
            ({
                let name = mem@.subrange(name_ptr as int, name_ptr + name_len);
                match r {
                    Ok(_) => {
                        &&& name_ptr + name_len <= mem@.len()
                        &&& valid_utf8(name)
                        &&& final(self)@ == (RootView {
                            call_targets: old(self)@.call_targets.insert(name),
                            ..old(self)@
                        })
                    },
                    Err(e) => {
                        &&& final(self)@ == old(self)@
                        &&& (e == HostError::OutOfBoundsMemory && name_ptr + name_len > mem@.len())
                            || (e == HostError::InvalidUtf8 && name_ptr + name_len <= mem@.len()
                            && !valid_utf8(name))
                    },
                }
            }),
    {
        let name = match read_bytes(mem, name_ptr as usize, name_len as usize) {
            Some(n) => n,
            None => {
                return Err(HostError::OutOfBoundsMemory);
            },
        };
        if !is_valid_utf8(name.as_slice()) {
            return Err(HostError::InvalidUtf8);
        }
        let ghost olds = self.call_targets@;
        self.call_targets.push(name);
        proof {
            assert forall|n: Seq<u8>| #![auto]
                self@.call_targets.contains(n) == old(self)@.call_targets.insert(
                    mem@.subrange(name_ptr as int, name_ptr + name_len),
                ).contains(n) by {
                let news = self.call_targets@;
                if self@.call_targets.contains(n) {
                    let i = choose|i: int| 0 <= i < news.len() && news[i]@ == n;
                    if i < olds.len() {
                        assert(olds[i]@ == n);
                    }
                }
                if old(self)@.call_targets.contains(n) {
                    let i = choose|i: int| 0 <= i < olds.len() && olds[i]@ == n;
                    assert(news[i]@ == n);
                }
                if n == mem@.subrange(name_ptr as int, name_ptr + name_len) {
                    assert(news[olds.len() as int]@ == n);
                }
            }
            assert(self@.call_targets =~= old(self)@.call_targets.insert(
                mem@.subrange(name_ptr as int, name_ptr + name_len),
            ));
        }
        Ok(())
    }

    /// The position of slot `slot` in the registry, when occupied.
    fn find_child(&self, slot: u32) -> (r: Option<usize>)
        ensures
            match r {
                Some(i) => {
                    &&& self@.children.dom().contains(slot)
                    &&& i == slot_index(self.children@, slot)
                    &&& i < self.children@.len()
                },
                None => !self@.children.dom().contains(slot),
            },
    {
        let mut i: usize = 0;
        while i < self.children.len()
            invariant
                0 <= i <= self.children@.len(),
                forall|j: int| 0 <= j < i ==> self.children@[j].slot != slot,
            decreases self.children@.len() - i,
        {
            if self.children[i].slot == slot {
                proof {
                    lemma_slot_index_at(self.children@, slot, i as int);
                }
                return Some(i);
            }
            i += 1;
        }
        proof {
            lemma_slot_index_none(self.children@, slot);
        }
        None
    }

    /// Whether a module is loaded in `slot`.
    pub fn has_child(&self, slot: u32) -> (r: bool)
        ensures
            r == self@.children.dom().contains(slot),
    {
        self.find_child(slot).is_some()
    }

    /// Validates a `loadModule` request and hands back the module code: the
    /// `code_len` bytes at `code_ptr` of the script's memory image. The slot
    /// must be free; reusing an occupied slot is the defined error. The
    /// embedder compiles and instantiates the code and then registers the
    /// child with [`RootRuntime::load_module_finish`].
    pub fn load_module_begin(
        &self,
        mem: &Vec<u8>,
        slot: u32,
        code_ptr: u32,
        code_len: u32,
    ) -> (r: Result<Vec<u8>, HostError>)
        ensures
            match r {
                Ok(code) => {
                    &&& !self@.children.dom().contains(slot)
                    &&& code_ptr + code_len <= mem@.len()
                    &&& code@ == mem@.subrange(code_ptr as int, code_ptr + code_len)
                },
                Err(e) => (e == HostError::SlotOccupied && self@.children.dom().contains(slot)) || (
                e == HostError::OutOfBoundsMemory && !self@.children.dom().contains(slot)
                    && code_ptr + code_len > mem@.len()),
            },
    {
        if self.find_child(slot).is_some() {
            return Err(HostError::SlotOccupied);
        }
        match read_bytes(mem, code_ptr as usize, code_len as usize) {
            Some(code) => Ok(code),
            None => Err(HostError::OutOfBoundsMemory),
        }
    }

    /// Registers an instantiated child module in `slot`. The registry is
    /// append-only: a free slot becomes occupied with an empty call stack and
    /// every other slot is untouched.
    pub fn load_module_finish(
        &mut self,
        slot: u32,
        instance: wasmi::Instance,
        memory: wasmi::Memory,
    ) -> (r: Result<(), HostError>)
        ensures
            match r {
                Ok(_) => {
                    &&& !old(self)@.children.dom().contains(slot)
                    &&& final(self)@ == (RootView {
                        children: old(self)@.children.insert(
                            slot,
                            ChildView {
                                instance: instance,
                                memory: memory,
                                call_stack: Seq::<StackFrame>::empty(),
                            },
                        ),
                        ..old(self)@
                    })
                },
                Err(e) => {
                    &&& e == HostError::SlotOccupied
                    &&& old(self)@.children.dom().contains(slot)
                    &&& final(self)@ == old(self)@
                },
            },
    {
        if self.find_child(slot).is_some() {
            return Err(HostError::SlotOccupied);
        }
        let child = ChildRuntime { slot, instance, memory, call_stack: Vec::new() };
        let ghost olds = self.children@;
        let ghost c = child;
        self.children.push(child);
        proof {
            assert forall|s2: u32| true implies {
                &&& has_slot(olds.push(c), s2) == (has_slot(olds, s2) || s2 == slot)
                &&& (has_slot(olds, s2) ==> olds.push(c)[slot_index(olds.push(c), s2)].view()
                    == olds[slot_index(olds, s2)].view())
                &&& (s2 == slot ==> !has_slot(olds, s2) ==> olds.push(c)[slot_index(
                    olds.push(c),
                    s2,
                )].view() == c.view())
            } by {
                lemma_slot_index_first(olds, s2);
                lemma_slot_index_push(olds, c, s2);
            }
            assert(self@.children =~= old(self)@.children.insert(
                slot,
                ChildView {
                    instance: instance,
                    memory: memory,
                    call_stack: Seq::<StackFrame>::empty(),
                },
            ));
        }
        Ok(())
    }

    /// Validates a `callModule` request, pushes the call's frame onto the
    /// callee child's stack, and hands back the callee's name and instance
    /// for the embedder to dispatch. The frame names the script's own memory
    /// as the caller memory and carries the four region integers as given.
    pub fn call_module_begin(
        &mut self,
        mem: &Vec<u8>,
        slot: u32,
        name_ptr: u32,
        name_len: u32,
        arg_ptr: u32,
        arg_len: u32,
        ret_ptr: u32,
        ret_len: u32,
    ) -> (r: Result<(Vec<u8>, wasmi::Instance), HostError>)
        ensures
            ({
                let nm = mem@.subrange(name_ptr as int, name_ptr + name_len);
                let frame = StackFrame {
                    memory: old(self)@.memory,
                    argument_offset: arg_ptr,
                    argument_length: arg_len,
                    return_offset: ret_ptr,
                    return_length: ret_len,
                };
                match r {
                    Ok(p) => {
                        &&& name_ptr + name_len <= mem@.len()
                        &&& valid_utf8(nm)
                        &&& p.0@ == nm
                        &&& old(self)@.children.dom().contains(slot)
                        &&& p.1 == old(self)@.children[slot].instance
                        &&& final(self)@ == (RootView {
                            children: old(self)@.children.insert(
                                slot,
                                ChildView {
                                    call_stack: old(self)@.children[slot].call_stack.push(frame),
                                    ..old(self)@.children[slot]
                                },
                            ),
                            ..old(self)@
                        })
                    },
                    Err(e) => {
                        &&& final(self)@ == old(self)@
                        &&& (e == HostError::OutOfBoundsMemory && name_ptr + name_len
                            > mem@.len()) || (e == HostError::InvalidUtf8 && name_ptr + name_len
                            <= mem@.len() && !valid_utf8(nm)) || (e == HostError::UnknownSlot
                            && name_ptr + name_len <= mem@.len() && valid_utf8(nm) && !old(
                            self,
                        )@.children.dom().contains(slot))
                    },
                }
            }),
    {
        let name = match read_bytes(mem, name_ptr as usize, name_len as usize) {
            Some(n) => n,
            None => {
                return Err(HostError::OutOfBoundsMemory);
            },
        };
        if !is_valid_utf8(name.as_slice()) {
            return Err(HostError::InvalidUtf8);
        }
        let i = match self.find_child(slot) {
            Some(i) => i,
            None => {
                return Err(HostError::UnknownSlot);
            },
        };
        let frame = StackFrame {
            memory: self.memory,
            argument_offset: arg_ptr,
            argument_length: arg_len,
            return_offset: ret_ptr,
            return_length: ret_len,
        };
        let ghost olds = self.children@;
        let instance = self.children[i].instance;
        let c = &mut self.children[i];
        c.call_stack.push(frame);
        proof {
            let newc = self.children@[i as int];
            assert(self.children@ == olds.update(i as int, newc));
            assert(newc.slot == olds[i as int].slot);
            assert(newc.call_stack@ == olds[i as int].call_stack@.push(frame));
            lemma_slot_index_first(olds, slot);
            assert forall|s2: u32| true implies {
                &&& has_slot(self.children@, s2) == has_slot(olds, s2)
                &&& slot_index(self.children@, s2) == slot_index(olds, s2)
            } by {
                lemma_slot_index_update(olds, i as int, newc, s2);
            }
            assert forall|s2: u32|
                has_slot(olds, s2) && s2 != slot implies self.children@[slot_index(
                olds,
                s2,
            )].view() == olds[slot_index(olds, s2)].view() by {
                lemma_slot_index_first(olds, s2);
            }
            assert(self@.children =~= old(self)@.children.insert(
                slot,
                ChildView {
                    call_stack: old(self)@.children[slot].call_stack.push(frame),
                    ..old(self)@.children[slot]
                },
            ));
        }
        Ok((name, instance))
    }

    /// Pops the frame of the innermost `callModule` dispatch to the child in
    /// `slot`, after the dispatched function returned.
    pub fn call_module_end(&mut self, slot: u32) -> (r: Result<(), HostError>)
        ensures
            match r {
                Ok(_) => {
                    &&& old(self)@.children.dom().contains(slot)
                    &&& old(self)@.children[slot].call_stack.len() > 0
                    &&& final(self)@ == (RootView {
                        children: old(self)@.children.insert(
                            slot,
                            ChildView {
                                call_stack: old(self)@.children[slot].call_stack.drop_last(),
                                ..old(self)@.children[slot]
                            },
                        ),
                        ..old(self)@
                    })
                },
                Err(e) => {
                    &&& final(self)@ == old(self)@
                    &&& (e == HostError::UnknownSlot && !old(self)@.children.dom().contains(slot))
                        || (e == HostError::EmptyCallStack && old(self)@.children.dom().contains(
                        slot,
                    ) && old(self)@.children[slot].call_stack.len() == 0)
                },
            },
    {
        let i = match self.find_child(slot) {
            Some(i) => i,
            None => {
                return Err(HostError::UnknownSlot);
            },
        };
        if self.children[i].call_stack.len() == 0 {
            return Err(HostError::EmptyCallStack);
        }
        let ghost olds = self.children@;
        let c = &mut self.children[i];
        c.call_stack.pop();
        proof {
            let newc = self.children@[i as int];
            assert(self.children@ == olds.update(i as int, newc));
            assert(newc.slot == olds[i as int].slot);
            assert(newc.call_stack@ == olds[i as int].call_stack@.drop_last());
            lemma_slot_index_first(olds, slot);
            assert forall|s2: u32| true implies {
                &&& has_slot(self.children@, s2) == has_slot(olds, s2)
                &&& slot_index(self.children@, s2) == slot_index(olds, s2)
            } by {
                lemma_slot_index_update(olds, i as int, newc, s2);
            }
            assert forall|s2: u32|
                has_slot(olds, s2) && s2 != slot implies self.children@[slot_index(
                olds,
                s2,
            )].view() == olds[slot_index(olds, s2)].view() by {
                lemma_slot_index_first(olds, s2);
            }
            assert(self@.children =~= old(self)@.children.insert(
                slot,
                ChildView {
                    call_stack: old(self)@.children[slot].call_stack.drop_last(),
                    ..old(self)@.children[slot]
                },
            ));
        }
        Ok(())
    }

    /// Validates a child's `call` back into the root, pushes the call's
    /// frame onto the root's stack, and hands back the callee's name for the
    /// embedder to dispatch on the root instance. The name must pass the
    /// exposed-name gate: a call to a name never exposed is the defined
    /// error. The frame names the calling child's memory as the caller
    /// memory.
    pub fn child_call_begin(
        &mut self,
        child_mem: &Vec<u8>,
        slot: u32,
        name_ptr: u32,
        name_len: u32,
        arg_ptr: u32,
        arg_len: u32,
        ret_ptr: u32,
        ret_len: u32,
    ) -> (r: Result<Vec<u8>, HostError>)
        ensures
            ({
                let nm = child_mem@.subrange(name_ptr as int, name_ptr + name_len);
                match r {
                    Ok(name) => {
                        &&& old(self)@.children.dom().contains(slot)
                        &&& name_ptr + name_len <= child_mem@.len()
                        &&& valid_utf8(nm)
                        &&& name@ == nm
                        &&& old(self)@.call_targets.contains(nm)
                        &&& final(self)@ == (RootView {
                            call_stack: old(self)@.call_stack.push(
                                StackFrame {
                                    memory: old(self)@.children[slot].memory,
                                    argument_offset: arg_ptr,
                                    argument_length: arg_len,
                                    return_offset: ret_ptr,
                                    return_length: ret_len,
                                },
                            ),
                            ..old(self)@
                        })
                    },
                    Err(e) => {
                        &&& final(self)@ == old(self)@
                        &&& (e == HostError::UnknownSlot && !old(self)@.children.dom().contains(
                            slot,
                        )) || (e == HostError::OutOfBoundsMemory
                            && old(self)@.children.dom().contains(slot) && name_ptr + name_len
                            > child_mem@.len()) || (e == HostError::InvalidUtf8 && old(
                            self,
                        )@.children.dom().contains(slot) && name_ptr + name_len
                            <= child_mem@.len() && !valid_utf8(nm)) || (e == HostError::NotExposed
                            && old(self)@.children.dom().contains(slot) && name_ptr + name_len
                            <= child_mem@.len() && valid_utf8(nm) && !old(
                            self,
                        )@.call_targets.contains(nm))
                    },
                }
            }),
    {
        let i = match self.find_child(slot) {
            Some(i) => i,
            None => {
                return Err(HostError::UnknownSlot);
            },
        };
        let name = match read_bytes(child_mem, name_ptr as usize, name_len as usize) {
            Some(n) => n,
            None => {
                return Err(HostError::OutOfBoundsMemory);
            },
        };
        if !is_valid_utf8(name.as_slice()) {
            return Err(HostError::InvalidUtf8);
        }
        if !self.is_exposed(&name) {
            return Err(HostError::NotExposed);
        }
        let frame = StackFrame {
            memory: self.children[i].memory,
            argument_offset: arg_ptr,
            argument_length: arg_len,
            return_offset: ret_ptr,
            return_length: ret_len,
        };
        self.call_stack.push(frame);
        Ok(name)
    }

    /// Pops the frame of the innermost child call into the root, after the
    /// dispatched function returned.
    pub fn child_call_end(&mut self) -> (r: Result<(), HostError>)
        ensures
            match r {
                Ok(_) => {
                    &&& old(self)@.call_stack.len() > 0
                    &&& final(self)@ == (RootView {
                        call_stack: old(self)@.call_stack.drop_last(),
                        ..old(self)@
                    })
                },
                Err(e) => {
                    &&& e == HostError::EmptyCallStack
                    &&& old(self)@.call_stack.len() == 0
                    &&& final(self)@ == old(self)@
                },
            },
    {
        if self.call_stack.len() == 0 {
            return Err(HostError::EmptyCallStack);
        }
        self.call_stack.pop();
        Ok(())
    }

    /// The innermost frame of the root's call stack: the frame `argument`
    /// and `return` marshal through while the root serves a child's call.
    /// Invoking either with no active frame is the defined error.
    pub fn top_frame(&self) -> (r: Result<StackFrame, HostError>)
        ensures
            match r {
                Ok(f) => self@.call_stack.len() > 0 && f == self@.call_stack.last(),
                Err(e) => e == HostError::EmptyCallStack && self@.call_stack.len() == 0,
            },
    {
        if self.call_stack.len() == 0 {
            return Err(HostError::EmptyCallStack);
        }
        Ok(self.call_stack[self.call_stack.len() - 1])
    }

    /// The innermost frame of the stack of the child in `slot`: the frame
    /// that child's `argument` and `return` marshal through.
    pub fn child_top_frame(&self, slot: u32) -> (r: Result<StackFrame, HostError>)
        ensures
            match r {
                Ok(f) => {
                    &&& self@.children.dom().contains(slot)
                    &&& self@.children[slot].call_stack.len() > 0
                    &&& f == self@.children[slot].call_stack.last()
                },
                Err(e) => (e == HostError::UnknownSlot && !self@.children.dom().contains(slot)) || (
                e == HostError::EmptyCallStack && self@.children.dom().contains(slot)
                    && self@.children[slot].call_stack.len() == 0),
            },
    {
        let i = match self.find_child(slot) {
            Some(i) => i,
            None => {
                return Err(HostError::UnknownSlot);
            },
        };
        let c = &self.children[i];
        if c.call_stack.len() == 0 {
            return Err(HostError::EmptyCallStack);
        }
        Ok(c.call_stack[c.call_stack.len() - 1])
    }

    /// Whether `name` has been exposed: whether a child's call to it passes
    /// the exposed-name gate.
    pub fn is_exposed(&self, name: &Vec<u8>) -> (r: bool)
        ensures
            r == self@.call_targets.contains(name@),
    {
        let mut i: usize = 0;
        while i < self.call_targets.len()
            invariant
                0 <= i <= self.call_targets@.len(),
                forall|j: int| 0 <= j < i ==> self.call_targets@[j]@ != name@,
            decreases self.call_targets@.len() - i,
        {
            if bytes_eq(&self.call_targets[i], name) {
                return true;
            }
            i += 1;
        }
        false
    }
}

} // verus!
