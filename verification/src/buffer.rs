//! The frame-indexed key/value scratch buffer.
//!
//! A buffer maps a pair of a namespace (a guest-chosen 8-bit frame id) and a
//! 32-byte key to a 32-byte value. Entries live for the lifetime of the
//! enclosing root runtime. The namespaces support get/insert as well as a
//! whole-namespace merge (where the source namespace wins on conflicting
//! keys) and a whole-namespace clear.

use vstd::prelude::*;

verus! {

/// One binding of the scratch buffer: the 32-byte key `key` bound to the
/// 32-byte value `value` inside the namespace `frame`.
#[derive(Debug, Clone)]
struct Entry {
    frame: u8,
    key: [u8; 32],
    value: [u8; 32],
}

/// A frame-indexed key/value store with 32-byte keys and values.
///
/// Abstractly it is a finite map from `(frame, key)` pairs to values; the
/// concrete representation is a list of bindings where the latest binding for
/// a pair shadows all earlier ones.
#[derive(Debug, Clone)]
pub struct Buffer {
    entries: Vec<Entry>,
}

/// The value bound to `(frame, key)` in the binding list `s`, where a later
/// binding shadows an earlier one for the same pair.
spec fn lookup(s: Seq<Entry>, frame: u8, key: Seq<u8>) -> Option<Seq<u8>>
    decreases s.len(),
{
    if s.len() == 0 {
        None
    } else if s.last().frame == frame && s.last().key@ == key {
        Some(s.last().value@)
    } else {
        lookup(s.drop_last(), frame, key)
    }
}

/// The map described by the binding list `s`.
spec fn entries_as_map(s: Seq<Entry>) -> Map<(u8, Seq<u8>), Seq<u8>> {
    Map::new(
        |p: (u8, Seq<u8>)| lookup(s, p.0, p.1) is Some,
        |p: (u8, Seq<u8>)| lookup(s, p.0, p.1)->Some_0,
    )
}

/// The map `m` after namespace `src` is merged into namespace `dst`: every
/// binding of `src` is assigned into `dst`, shadowing any pre-existing `dst`
/// binding for the same key; every other binding is kept as it is.
pub open spec fn merged(
    m: Map<(u8, Seq<u8>), Seq<u8>>,
    dst: u8,
    src: u8,
) -> Map<(u8, Seq<u8>), Seq<u8>> {
    Map::new(
        |p: (u8, Seq<u8>)| m.dom().contains(p) || (p.0 == dst && m.dom().contains((src, p.1))),
        |p: (u8, Seq<u8>)|
            if p.0 == dst && m.dom().contains((src, p.1)) {
                m[(src, p.1)]
            } else {
                m[p]
            },
    )
}

/// The map `m` with every binding of namespace `frame` removed.
pub open spec fn cleared(
    m: Map<(u8, Seq<u8>), Seq<u8>>,
    frame: u8,
) -> Map<(u8, Seq<u8>), Seq<u8>> {
    Map::new(|p: (u8, Seq<u8>)| m.dom().contains(p) && p.0 != frame, |p: (u8, Seq<u8>)| m[p])
}

/// The bindings of namespace `src` in `s`, re-addressed to namespace `dst`,
/// in their original order.
spec fn reframed(s: Seq<Entry>, dst: u8, src: u8) -> Seq<Entry>
    decreases s.len(),
{
    if s.len() == 0 {
        Seq::empty()
    } else {
        let rest = reframed(s.drop_last(), dst, src);
        if s.last().frame == src {
            rest.push(Entry { frame: dst, key: s.last().key, value: s.last().value })
        } else {
            rest
        }
    }
}

/// The binding list `s` with every binding of namespace `frame` removed.
spec fn without_frame(s: Seq<Entry>, frame: u8) -> Seq<Entry>
    decreases s.len(),
{
    if s.len() == 0 {
        Seq::empty()
    } else {
        let rest = without_frame(s.drop_last(), frame);
        if s.last().frame == frame {
            rest
        } else {
            rest.push(s.last())
        }
    }
}

/// Looking a pair up in concatenated binding lists finds the binding in the
/// later list first.
proof fn lemma_lookup_append(a: Seq<Entry>, b: Seq<Entry>, frame: u8, key: Seq<u8>)
    ensures
        lookup(a + b, frame, key) == if lookup(b, frame, key) is Some {
            lookup(b, frame, key)
        } else {
            lookup(a, frame, key)
        },
    decreases b.len(),
{
    if b.len() == 0 {
        assert(a + b =~= a);
    } else {
        assert((a + b).drop_last() =~= a + b.drop_last());
        lemma_lookup_append(a, b.drop_last(), frame, key);
    }
}

/// A re-addressed binding list binds under `dst` exactly what the original
/// binds under `src`, and nothing under any other namespace.
proof fn lemma_lookup_reframed(s: Seq<Entry>, dst: u8, src: u8, frame: u8, key: Seq<u8>)
    ensures
        lookup(reframed(s, dst, src), frame, key) == if frame == dst {
            lookup(s, src, key)
        } else {
            None::<Seq<u8>>
        },
    decreases s.len(),
{
    if s.len() == 0 {
    } else {
        lemma_lookup_reframed(s.drop_last(), dst, src, frame, key);
        let rest = reframed(s.drop_last(), dst, src);
        if s.last().frame == src {
            let e = Entry { frame: dst, key: s.last().key, value: s.last().value };
            assert(rest.push(e).drop_last() =~= rest);
        }
    }
}

/// Removing a namespace leaves it unbound and every other namespace as it
/// was.
proof fn lemma_lookup_without_frame(s: Seq<Entry>, removed: u8, frame: u8, key: Seq<u8>)
    ensures
        lookup(without_frame(s, removed), frame, key) == if frame == removed {
            None::<Seq<u8>>
        } else {
            lookup(s, frame, key)
        },
    decreases s.len(),
{
    if s.len() == 0 {
    } else {
        lemma_lookup_without_frame(s.drop_last(), removed, frame, key);
        let rest = without_frame(s.drop_last(), removed);
        if s.last().frame != removed {
            assert(rest.push(s.last()).drop_last() =~= rest);
        }
    }
}

impl View for Buffer {
    type V = Map<(u8, Seq<u8>), Seq<u8>>;

    closed spec fn view(&self) -> Map<(u8, Seq<u8>), Seq<u8>> {
        entries_as_map(self.entries@)
    }
}

impl Default for Buffer {
    /// An empty buffer: no namespace holds any binding.
    fn default() -> (r: Buffer)
        ensures
            r@ == Map::<(u8, Seq<u8>), Seq<u8>>::empty(),
    {
        let b = Buffer { entries: Vec::new() };
        proof {
            assert(b@ =~= Map::<(u8, Seq<u8>), Seq<u8>>::empty());
        }
        b
    }
}

/// Whether the 32-byte arrays `a` and `b` hold the same bytes.
fn bytes32_eq(a: &[u8; 32], b: &[u8; 32]) -> (r: bool)
    ensures
        r == (a@ == b@),
{
    let mut i: usize = 0;
    while i < 32
        invariant
            0 <= i <= 32,
            forall|j: int| 0 <= j < i ==> a@[j] == b@[j],
        decreases 32 - i,
    {
        if a[i] != b[i] {
            return false;
        }
        i += 1;
    }
    proof {
        assert(a@ =~= b@);
    }
    true
}

impl Buffer {
    /// Returns the value bound to `(frame, key)`, or nothing when the pair is
    /// unbound.
    pub fn get(&self, frame: u8, key: [u8; 32]) -> (r: Option<&[u8; 32]>)
        ensures
            match r {
                Some(v) => self@.contains_pair((frame, key@), v@),
                None => !self@.dom().contains((frame, key@)),
            },
    {
        let mut i: usize = self.entries.len();
        proof {
            assert(self.entries@.take(i as int) =~= self.entries@);
        }
        while i > 0
            invariant
                0 <= i <= self.entries.len(),
                lookup(self.entries@, frame, key@) == lookup(
                    self.entries@.take(i as int),
                    frame,
                    key@,
                ),
            decreases i,
        {
            i -= 1;
            let e = &self.entries[i];
            proof {
                assert(self.entries@.take(i + 1).drop_last() =~= self.entries@.take(i as int));
                assert(self.entries@.take(i + 1).last() == self.entries@[i as int]);
            }
            if e.frame == frame && bytes32_eq(&e.key, &key) {
                return Some(&self.entries[i].value);
            }
        }
        proof {
            assert(self.entries@.take(0) =~= Seq::<Entry>::empty());
        }
        None
    }

    /// Binds `(frame, key)` to `value`, returning the value it displaces, if
    /// any.
    pub fn insert(&mut self, frame: u8, key: [u8; 32], value: [u8; 32]) -> (r: Option<[u8; 32]>)
        ensures
            final(self)@ == old(self)@.insert((frame, key@), value@),
            match r {
                Some(prior) => old(self)@.contains_pair((frame, key@), prior@),
                None => !old(self)@.dom().contains((frame, key@)),
            },
    {
        let prior = match self.get(frame, key) {
            Some(v) => Some(*v),
            None => None,
        };
        self.entries.push(Entry { frame, key, value });
        proof {
            assert(self.entries@.drop_last() =~= old(self).entries@);
            assert(self@ =~= old(self)@.insert((frame, key@), value@));
        }
        prior
    }

    /// Assigns every binding of namespace `b` into namespace `a`; on a key
    /// bound in both, the binding from `b` wins. Namespace `b` is left
    /// untouched.
    pub fn merge(&mut self, a: u8, b: u8)
        ensures
            final(self)@ == merged(old(self)@, a, b),
    {
        let n = self.entries.len();
        let mut i: usize = 0;
        proof {
            assert(old(self).entries@.take(0) =~= Seq::<Entry>::empty());
            assert(self.entries@ =~= old(self).entries@ + reframed(
                old(self).entries@.take(0),
                a,
                b,
            ));
        }
        while i < n
            invariant
                0 <= i <= n,
                n == old(self).entries@.len(),
                self.entries@ == old(self).entries@ + reframed(
                    old(self).entries@.take(i as int),
                    a,
                    b,
                ),
            decreases n - i,
        {
            proof {
                assert(self.entries@[i as int] == old(self).entries@[i as int]);
            }
            let e = &self.entries[i];
            let e_frame = e.frame;
            let e_key = e.key;
            let e_value = e.value;
            if e_frame == b {
                self.entries.push(Entry { frame: a, key: e_key, value: e_value });
            }
            proof {
                assert(old(self).entries@.take(i + 1).drop_last() =~= old(self).entries@.take(
                    i as int,
                ));
                if e_frame == b {
                    assert(self.entries@ =~= old(self).entries@ + reframed(
                        old(self).entries@.take(i + 1),
                        a,
                        b,
                    ));
                }
            }
            i += 1;
        }
        proof {
            assert(old(self).entries@.take(n as int) =~= old(self).entries@);
            let olds = old(self).entries@;
            assert forall|p: (u8, Seq<u8>)|
                lookup(self.entries@, p.0, p.1) == if p.0 == a && lookup(olds, b, p.1) is Some {
                    lookup(olds, b, p.1)
                } else {
                    lookup(olds, p.0, p.1)
                } by {
                lemma_lookup_append(olds, reframed(olds, a, b), p.0, p.1);
                lemma_lookup_reframed(olds, a, b, p.0, p.1);
            }
            assert(self@ =~= merged(old(self)@, a, b));
        }
    }

    /// Removes every binding of namespace `frame`.
    pub fn clear(&mut self, frame: u8)
        ensures
            final(self)@ == cleared(old(self)@, frame),
    {
        let mut kept: Vec<Entry> = Vec::new();
        let mut i: usize = 0;
        proof {
            assert(self.entries@.take(0) =~= Seq::<Entry>::empty());
        }
        while i < self.entries.len()
            invariant
                0 <= i <= self.entries.len(),
                self.entries@ == old(self).entries@,
                kept@ == without_frame(self.entries@.take(i as int), frame),
            decreases self.entries.len() - i,
        {
            let e = &self.entries[i];
            proof {
                assert(self.entries@.take(i + 1).drop_last() =~= self.entries@.take(i as int));
            }
            if e.frame != frame {
                let e2 = Entry { frame: e.frame, key: e.key, value: e.value };
                proof {
                    assert(e2 == self.entries@[i as int]);
                }
                kept.push(e2);
            }
            i += 1;
        }
        proof {
            assert(self.entries@.take(self.entries@.len() as int) =~= self.entries@);
        }
        self.entries = kept;
        proof {
            let olds = old(self).entries@;
            assert forall|p: (u8, Seq<u8>)|
                lookup(self.entries@, p.0, p.1) == if p.0 == frame {
                    None::<Seq<u8>>
                } else {
                    lookup(olds, p.0, p.1)
                } by {
                lemma_lookup_without_frame(olds, frame, p.0, p.1);
            }
            assert(self@ =~= cleared(old(self)@, frame));
        }
    }
}

/// Merging a source namespace into a destination namespace binds, under the
/// destination, every key of the source to the source's value — also where
/// the destination already bound that key — keeps the destination's other
/// bindings, and leaves the source namespace and every other namespace
/// untouched.
pub proof fn lemma_merge_src_wins(
    m: Map<(u8, Seq<u8>), Seq<u8>>,
    dst: u8,
    src: u8,
)
    ensures
        forall|k: Seq<u8>|
            merged(m, dst, src).dom().contains((dst, k)) == (m.dom().contains((dst, k))
                || m.dom().contains((src, k))),
        forall|k: Seq<u8>|
            m.dom().contains((src, k)) ==> merged(m, dst, src).contains_pair(
                (dst, k),
                m[(src, k)],
            ),
        forall|k: Seq<u8>|
            !m.dom().contains((src, k)) && m.dom().contains((dst, k)) ==> merged(
                m,
                dst,
                src,
            ).contains_pair((dst, k), m[(dst, k)]),
        forall|p: (u8, Seq<u8>)|
            p.0 != dst ==> (merged(m, dst, src).dom().contains(p) == m.dom().contains(p)
                && (m.dom().contains(p) ==> merged(m, dst, src)[p] == m[p])),
{
}

/// Clearing one namespace removes exactly its bindings: a binding under any
/// other namespace survives with its value, and nothing under the cleared
/// namespace remains.
pub proof fn lemma_clear_namespace(m: Map<(u8, Seq<u8>), Seq<u8>>, frame: u8)
    ensures
        forall|p: (u8, Seq<u8>)| p.0 == frame ==> !cleared(m, frame).dom().contains(p),
        forall|p: (u8, Seq<u8>)|
            p.0 != frame ==> (cleared(m, frame).dom().contains(p) == m.dom().contains(p)
                && (m.dom().contains(p) ==> cleared(m, frame)[p] == m[p])),
{
}

} // verus!
