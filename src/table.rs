//! A small map keyed by SSRC that keeps its keys in order of first insertion.
use vstd::prelude::*;

verus! {

/// Whether some record of `s` has key `k`.
pub open spec fn has_key<T>(s: Seq<(u32, T)>, k: u32) -> bool {
    exists|i: int| 0 <= i < s.len() && #[trigger] s[i].0 == k
}

/// No key occurs twice in `s`.
pub open spec fn keys_unique<T>(s: Seq<(u32, T)>) -> bool {
    forall|i: int, j: int|
        0 <= i < s.len() && 0 <= j < s.len() && i != j ==> #[trigger] s[i].0 != #[trigger] s[j].0
}

/// The value recorded under `k`, if any.
pub open spec fn lookup<T>(s: Seq<(u32, T)>, k: u32) -> Option<T> {
    if has_key(s, k) {
        Some(s[choose|i: int| 0 <= i < s.len() && #[trigger] s[i].0 == k].1)
    } else {
        None
    }
}

/// `s` with the value under `k` replaced by `v`, in place; or with `(k, v)`
/// appended when `k` is new.
pub open spec fn upserted<T>(s: Seq<(u32, T)>, k: u32, v: T) -> Seq<(u32, T)> {
    if has_key(s, k) {
        s.map_values(|e: (u32, T)| if e.0 == k { (k, v) } else { e })
    } else {
        s.push((k, v))
    }
}

/// Records keyed by SSRC, at most one per key, in order of first insertion.
pub struct SsrcTable<T> {
    entries: Vec<(u32, T)>,
}

impl<T> View for SsrcTable<T> {
    type V = Seq<(u32, T)>;

    closed spec fn view(&self) -> Seq<(u32, T)> {
        self.entries@
    }
}

impl<T: Copy> SsrcTable<T> {
    pub open spec fn wf(&self) -> bool {
        keys_unique(self@)
    }

    pub fn new() -> (r: Self)
        ensures
            r.wf(),
            r@ == Seq::<(u32, T)>::empty(),
    {
        SsrcTable { entries: Vec::new() }
    }

    pub fn len(&self) -> (r: usize)
        ensures
            r == self@.len(),
    {
        self.entries.len()
    }

    /// The record at position `i`, in order of first insertion.
    pub fn at(&self, i: usize) -> (r: (u32, T))
        requires
            i < self@.len(),
        ensures
            r == self@[i as int],
    {
        self.entries[i]
    }

    fn position(&self, k: u32) -> (r: Option<usize>)
        ensures
            match r {
                Some(i) => i < self@.len() && self@[i as int].0 == k,
                None => !has_key(self@, k),
            },
    {
        let mut i: usize = 0;
        while i < self.entries.len()
            invariant
                i <= self.entries@.len(),
                forall|j: int| 0 <= j < i ==> #[trigger] self.entries@[j].0 != k,
            decreases self.entries@.len() - i,
        {
            if self.entries[i].0 == k {
                return Some(i);
            }
            i = i + 1;
        }
        None
    }

    /// The value recorded under `k`.
    pub fn get(&self, k: u32) -> (r: Option<T>)
        requires
            self.wf(),
        ensures
            r == lookup(self@, k),
    {
        match self.position(k) {
            Some(i) => {
                proof {
                    let j = choose|j: int| 0 <= j < self@.len() && #[trigger] self@[j].0 == k;
                    assert(self@[i as int].0 == k);
                    assert(j == i);
                }
                Some(self.entries[i].1)
            },
            None => None,
        }
    }

    /// Records `v` under `k`, replacing what was there.
    pub fn upsert(&mut self, k: u32, v: T)
        requires
            old(self).wf(),
        ensures
            final(self).wf(),
            final(self)@ == upserted(old(self)@, k, v),
    {
        match self.position(k) {
            Some(i) => {
                self.entries.set(i, (k, v));
                proof {
                    let s = old(self)@;
                    assert(has_key(s, k));
                    assert forall|j: int| 0 <= j < s.len() && j != i implies s[j].0 != k by {
                        assert(s[i as int].0 == k);
                    }
                    assert(self@ =~= s.map_values(
                        |e: (u32, T)| if e.0 == k { (k, v) } else { e },
                    ));
                }
            },
            None => {
                self.entries.push((k, v));
            },
        }
    }
}

} // verus!
