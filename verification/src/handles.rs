//! A map from socket handles.

use crate::sockets::same_handle;
use smoltcp::iface::SocketHandle;
use vstd::prelude::*;

verus! {

/// Whether some entry is for the handle.
pub open spec fn has_entry<V>(s: Seq<(SocketHandle, V)>, h: SocketHandle) -> bool {
    exists|i: int| 0 <= i < s.len() && (#[trigger] s[i]).0 == h
}

/// The position of an entry for the handle.
pub open spec fn position<V>(s: Seq<(SocketHandle, V)>, h: SocketHandle) -> int {
    choose|i: int| 0 <= i < s.len() && (#[trigger] s[i]).0 == h
}

/// The map that some entries make.
pub open spec fn map_of<V>(s: Seq<(SocketHandle, V)>) -> Map<SocketHandle, V> {
    Map::new(|h: SocketHandle| has_entry(s, h), |h: SocketHandle| s[position(s, h)].1)
}

/// Whether no two entries are for the same handle.
pub open spec fn distinct<V>(s: Seq<(SocketHandle, V)>) -> bool {
    forall|i: int, j: int| 0 <= i < j < s.len() ==> (#[trigger] s[i]).0 != (#[trigger] s[j]).0
}

proof fn lemma_entry<V>(s: Seq<(SocketHandle, V)>, i: int)
    requires
        distinct(s),
        0 <= i < s.len(),
    ensures
        map_of(s).dom().contains(s[i].0),
        map_of(s)[s[i].0] == s[i].1,
{
    let h = s[i].0;
    let j = position(s, h);
    assert(s[i].0 == h);
    assert(0 <= j < s.len() && s[j].0 == h);
    if j < i {
        assert(s[j].0 != s[i].0);
    } else if i < j {
        assert(s[i].0 != s[j].0);
    }
}

/// A map from socket handles.
pub struct HandleMap<V> {
    entries: Vec<(SocketHandle, V)>,
}

impl<V> View for HandleMap<V> {
    type V = Map<SocketHandle, V>;

    closed spec fn view(&self) -> Map<SocketHandle, V> {
        map_of(self.entries@)
    }
}

impl<V> HandleMap<V> {
    #[verifier::type_invariant]
    spec fn handles_are_distinct(self) -> bool {
        distinct(self.entries@)
    }

    /// An empty map.
    pub fn new() -> (r: Self)
        ensures
            r@ == Map::<SocketHandle, V>::empty(),
    {
        let r = HandleMap { entries: Vec::new() };
        assert(r@ =~= Map::<SocketHandle, V>::empty());
        r
    }

    fn find(&self, h: SocketHandle) -> (r: usize)
        ensures
            r <= self.entries@.len(),
            r < self.entries@.len() ==> self.entries@[r as int].0 == h,
            r == self.entries@.len() ==> !has_entry(self.entries@, h),
    {
        let mut i: usize = 0;
        while i < self.entries.len()
            invariant
                i <= self.entries@.len(),
                forall|j: int| 0 <= j < i ==> (#[trigger] self.entries@[j]).0 != h,
            decreases self.entries@.len() - i,
        {
            if same_handle(self.entries[i].0, h) {
                return i;
            }
            i += 1;
        }
        i
    }

    /// Whether there is a value for the handle.
    pub fn contains(&self, h: SocketHandle) -> (r: bool)
        ensures
            r == self@.dom().contains(h),
    {
        let i = self.find(h);
        if i < self.entries.len() {
            assert(self.entries@[i as int].0 == h);
            true
        } else {
            false
        }
    }

    /// The value for the handle.
    pub fn get(&self, h: SocketHandle) -> (r: Option<&V>)
        ensures
            match r {
                Some(v) => self@.dom().contains(h) && self@[h] == *v,
                None => !self@.dom().contains(h),
            },
    {
        proof {
            use_type_invariant(self);
        }
        let i = self.find(h);
        if i < self.entries.len() {
            proof {
                lemma_entry(self.entries@, i as int);
            }
            Some(&self.entries[i].1)
        } else {
            None
        }
    }

    /// Takes the value for the handle out of the map.
    pub fn remove(&mut self, h: SocketHandle) -> (r: Option<V>)
        ensures
            final(self)@ == old(self)@.remove(h),
            match r {
                Some(v) => old(self)@.dom().contains(h) && old(self)@[h] == v,
                None => !old(self)@.dom().contains(h),
            },
    {
        proof {
            use_type_invariant(&*self);
        }
        let i = self.find(h);
        if i == self.entries.len() {
            assert(self@.remove(h) =~= self@);
            return None;
        }
        let ghost was = self.entries@;
        let mut entries: Vec<(SocketHandle, V)> = Vec::new();
        std::mem::swap(&mut entries, &mut self.entries);
        let e = entries.remove(i);
        let ghost now = entries@;
        proof {
            assert forall|j: int| 0 <= j < now.len() implies #[trigger] now[j] == was[if j < i {
                j
            } else {
                j + 1
            }] by {}
            assert(distinct(now));
            lemma_entry(was, i as int);
            assert(map_of(now) =~= map_of(was).remove(h)) by {
                assert forall|k: SocketHandle| #[trigger] has_entry(now, k) == (has_entry(was, k)
                    && k != h) by {
                    if has_entry(now, k) {
                        let j = position(now, k);
                        let p = if j < i {
                            j
                        } else {
                            j + 1
                        };
                        assert(was[p].0 == k);
                        assert(was[p].0 != was[i as int].0);
                    }
                    if has_entry(was, k) && k != h {
                        let j = position(was, k);
                        assert(now[if j < i {
                            j
                        } else {
                            j - 1
                        }].0 == k);
                    }
                }
                assert forall|k: SocketHandle| has_entry(now, k) implies #[trigger] map_of(now)[k]
                    == map_of(was)[k] by {
                    let j = position(now, k);
                    let p = if j < i {
                        j
                    } else {
                        j + 1
                    };
                    lemma_entry(now, j);
                    lemma_entry(was, p);
                }
            }
        }
        self.entries = entries;
        Some(e.1)
    }

    /// Stores a value for the handle, in place of any other.
    pub fn insert(&mut self, h: SocketHandle, v: V)
        ensures
            final(self)@ == old(self)@.insert(h, v),
    {
        let _ = self.remove(h);
        proof {
            use_type_invariant(&*self);
        }
        let ghost was = self.entries@;
        let mut entries: Vec<(SocketHandle, V)> = Vec::new();
        std::mem::swap(&mut entries, &mut self.entries);
        assert(!map_of(was).dom().contains(h));
        entries.push((h, v));
        let ghost now = entries@;
        proof {
            assert forall|i: int| 0 <= i < was.len() implies (#[trigger] was[i]).0 != h by {
                lemma_entry(was, i);
            }
            assert(distinct(now));
            assert(map_of(now) =~= map_of(was).insert(h, v)) by {
                assert(now[was.len() as int].0 == h);
                lemma_entry(now, was.len() as int);
                assert forall|k: SocketHandle| #[trigger] has_entry(now, k) == (has_entry(was, k)
                    || k == h) by {
                    if has_entry(was, k) {
                        assert(now[position(was, k)].0 == k);
                    }
                    if has_entry(now, k) && k != h {
                        assert(was[position(now, k)].0 == k);
                    }
                }
                assert forall|k: SocketHandle|
                    has_entry(was, k) && k != h implies #[trigger] map_of(now)[k] == map_of(
                    was,
                )[k] by {
                    let j = position(was, k);
                    lemma_entry(was, j);
                    lemma_entry(now, j);
                }
            }
        }
        self.entries = entries;
    }

    /// The handles that the map has values for, each once.
    pub fn handles(&self) -> (r: Vec<SocketHandle>)
        ensures
            r@.no_duplicates(),
            r@.to_set() == self@.dom(),
    {
        proof {
            use_type_invariant(self);
        }
        let mut r: Vec<SocketHandle> = Vec::new();
        let mut i: usize = 0;
        while i < self.entries.len()
            invariant
                i <= self.entries@.len(),
                r@.len() == i,
                forall|j: int| 0 <= j < i ==> #[trigger] r@[j] == self.entries@[j].0,
            decreases self.entries@.len() - i,
        {
            r.push(self.entries[i].0);
            i += 1;
        }
        proof {
            assert forall|h: SocketHandle| #[trigger] r@.to_set().contains(h) == self@.dom().contains(
                h,
            ) by {
                if r@.contains(h) {
                    let j = choose|j: int| 0 <= j < r@.len() && r@[j] == h;
                    assert(self.entries@[j].0 == h);
                }
                if has_entry(self.entries@, h) {
                    assert(r@[position(self.entries@, h)] == h);
                }
            }
            assert(r@.to_set() =~= self@.dom());
        }
        r
    }
}

} // verus!
