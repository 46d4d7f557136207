use vstd::prelude::*;

use crate::types::{bytes_equal, copy_bytes};

verus! {

/// An ordered secondary index: a set of composite keys `(criteria, id)`,
/// where the criteria are encoded as bytes and the id is a record's key.
pub struct IdIndex {
    pub entries: Vec<(Vec<u8>, u64)>,
}

/// `id` lies strictly after `cursor` in ascending order.
pub open spec fn after_asc(cursor: Option<u64>, id: u64) -> bool {
    match cursor {
        Some(c) => id > c,
        None => true,
    }
}

/// `id` lies strictly after `cursor` in descending order.
pub open spec fn after_desc(cursor: Option<u64>, id: u64) -> bool {
    match cursor {
        Some(c) => id < c,
        None => true,
    }
}

impl IdIndex {
    /// No key is filed twice.
    pub open spec fn wf(&self) -> bool {
        forall|a: int, b: int|
            0 <= a < self.entries@.len() && 0 <= b < self.entries@.len() && a != b ==> !(
            self.entries@[a].0@ == self.entries@[b].0@ && self.entries@[a].1 == self.entries@[b].1)
    }

    /// Whether the key `(key, id)` is in the index.
    pub open spec fn has(&self, key: Seq<u8>, id: u64) -> bool {
        exists|i: int|
            0 <= i < self.entries@.len() && #[trigger] self.entries@[i].0@ == key
                && self.entries@[i].1 == id
    }

    /// Ids filed under `key`, strictly after `cursor` in ascending order,
    /// ascending, at most `limit` of them, with none skipped: `r` is the
    /// first page of that ordered list.
    pub open spec fn is_page_asc(&self, key: Seq<u8>, cursor: Option<u64>, limit: usize, r: Seq<u64>) -> bool {
        &&& r.len() <= limit
        &&& forall|i: int, j: int| 0 <= i < j < r.len() ==> r[i] < r[j]
        &&& forall|i: int| 0 <= i < r.len() ==> self.has(key, #[trigger] r[i]) && after_asc(cursor, r[i])
        &&& forall|id: u64|
            self.has(key, id) && after_asc(cursor, id) && (r.len() < limit || (r.len() > 0 && id
                <= r.last())) ==> #[trigger] r.contains(id)
    }

    /// As `is_page_asc`, in descending order.
    pub open spec fn is_page_desc(&self, key: Seq<u8>, cursor: Option<u64>, limit: usize, r: Seq<u64>) -> bool {
        &&& r.len() <= limit
        &&& forall|i: int, j: int| 0 <= i < j < r.len() ==> r[i] > r[j]
        &&& forall|i: int| 0 <= i < r.len() ==> self.has(key, #[trigger] r[i]) && after_desc(cursor, r[i])
        &&& forall|id: u64|
            self.has(key, id) && after_desc(cursor, id) && (r.len() < limit || (r.len() > 0 && id
                >= r.last())) ==> #[trigger] r.contains(id)
    }

    pub fn new() -> (r: IdIndex)
        ensures
            r.wf(),
            forall|key: Seq<u8>, id: u64| !r.has(key, id),
    {
        IdIndex { entries: Vec::new() }
    }

    /// Position of `(key, id)`, if present.
    fn position(&self, key: &Vec<u8>, id: u64) -> (r: Option<usize>)
        ensures
            match r {
                Some(i) => i < self.entries@.len() && self.entries@[i as int].0@ == key@
                    && self.entries@[i as int].1 == id,
                None => !self.has(key@, id),
            },
    {
        let mut i: usize = 0;
        while i < self.entries.len()
            invariant
                0 <= i <= self.entries@.len(),
                forall|j: int|
                    0 <= j < i ==> !(self.entries@[j].0@ == key@ && self.entries@[j].1 == id),
            decreases self.entries.len() - i,
        {
            if self.entries[i].1 == id && bytes_equal(&self.entries[i].0, key) {
                return Some(i);
            }
            i = i + 1;
        }
        None
    }

    /// Whether `(key, id)` is in the index.
    pub fn contains(&self, key: &Vec<u8>, id: u64) -> (r: bool)
        ensures
            r == self.has(key@, id),
    {
        self.position(key, id).is_some()
    }

    /// Adds `(key, id)`.
    pub fn insert(&mut self, key: &Vec<u8>, id: u64)
        requires
            old(self).wf(),
        ensures
            final(self).wf(),
            forall|k: Seq<u8>, i: u64|
                final(self).has(k, i) == (old(self).has(k, i) || (k == key@ && i == id)),
    {
        if self.position(key, id).is_none() {
            let ghost before = self.entries@;
            self.entries.push((copy_bytes(key), id));
            proof {
                assert forall|k: Seq<u8>, i: u64|
                    self.has(k, i) == (old(self).has(k, i) || (k == key@ && i == id)) by {
                    if old(self).has(k, i) {
                        let j = choose|j: int|
                            0 <= j < before.len() && #[trigger] before[j].0@ == k && before[j].1
                                == i;
                        assert(self.entries@[j] == before[j]);
                    }
                    if self.has(k, i) {
                        let j = choose|j: int|
                            0 <= j < self.entries@.len() && #[trigger] self.entries@[j].0@ == k
                                && self.entries@[j].1 == i;
                        if j < before.len() {
                            assert(self.entries@[j] == before[j]);
                        }
                    }
                    if k == key@ && i == id {
                        assert(self.entries@[before.len() as int].0@ == k);
                    }
                }
                let after = self.entries@;
                assert forall|a: int, b: int|
                    0 <= a < after.len() && 0 <= b < after.len() && a != b implies !(after[a].0@
                    == after[b].0@ && after[a].1 == after[b].1) by {
                    if a < before.len() && b < before.len() {
                        assert(after[a] == before[a] && after[b] == before[b]);
                    } else if a < before.len() {
                        assert(after[a] == before[a]);
                    } else {
                        assert(after[b] == before[b]);
                    }
                }
            }
        }
    }

    /// Removes `(key, id)`; whether it was there.
    pub fn remove(&mut self, key: &Vec<u8>, id: u64) -> (r: bool)
        requires
            old(self).wf(),
        ensures
            final(self).wf(),
            r == old(self).has(key@, id),
            forall|k: Seq<u8>, i: u64|
                final(self).has(k, i) == (old(self).has(k, i) && !(k == key@ && i == id)),
    {
        match self.position(key, id) {
            None => false,
            Some(pos) => {
                let ghost before = self.entries@;
                self.entries.remove(pos);
                proof {
                    let after = self.entries@;
                    assert(after =~= before.remove(pos as int));
                    assert forall|a: int, b: int|
                        0 <= a < after.len() && 0 <= b < after.len() && a != b implies !(
                        after[a].0@ == after[b].0@ && after[a].1 == after[b].1) by {
                        let oa = if a < pos { a } else { a + 1 };
                        let ob = if b < pos { b } else { b + 1 };
                        assert(after[a] == before[oa]);
                        assert(after[b] == before[ob]);
                    }
                    assert forall|k: Seq<u8>, i: u64|
                        self.has(k, i) == (old(self).has(k, i) && !(k == key@ && i == id)) by {
                        if self.has(k, i) {
                            let j = choose|j: int|
                                0 <= j < after.len() && #[trigger] after[j].0@ == k && after[j].1
                                    == i;
                            let oj = if j < pos { j } else { j + 1 };
                            assert(after[j] == before[oj]);
                            assert(before[oj].0@ == k);
                            if k == key@ && i == id {
                                assert(oj != pos);
                            }
                        }
                        if old(self).has(k, i) && !(k == key@ && i == id) {
                            let j = choose|j: int|
                                0 <= j < before.len() && #[trigger] before[j].0@ == k && before[j].1
                                    == i;
                            assert(j != pos);
                            let nj = if j < pos { j } else { j - 1 };
                            assert(after[nj] == before[j]);
                            assert(after[nj].0@ == k);
                        }
                    }
                }
                true
            },
        }
    }
    /// The smallest id filed under `key` after `bound`, if any.
    fn next_above(&self, key: &Vec<u8>, bound: Option<u64>) -> (r: Option<u64>)
        ensures
            match r {
                Some(m) => self.has(key@, m) && after_asc(bound, m) && forall|id: u64|
                    self.has(key@, id) && after_asc(bound, id) ==> m <= id,
                None => forall|id: u64| self.has(key@, id) ==> !after_asc(bound, id),
            },
    {
        let mut best: Option<u64> = None;
        let mut i: usize = 0;
        while i < self.entries.len()
            invariant
                0 <= i <= self.entries@.len(),
                match best {
                    Some(m) => self.has(key@, m) && after_asc(bound, m) && forall|j: int|
                        0 <= j < i && self.entries@[j].0@ == key@ && after_asc(bound, self.entries@[j].1)
                            ==> m <= self.entries@[j].1,
                    None => forall|j: int|
                        0 <= j < i && self.entries@[j].0@ == key@ ==> !after_asc(bound, self.entries@[j].1),
                },
            decreases self.entries.len() - i,
        {
            let id = self.entries[i].1;
            let beyond = match bound {
                Some(b) => id > b,
                None => true,
            };
            if beyond && bytes_equal(&self.entries[i].0, key) {
                let better = match best {
                    Some(m) => id < m,
                    None => true,
                };
                if better {
                    best = Some(id);
                }
            }
            i = i + 1;
        }
        proof {
            assert forall|id: u64| self.has(key@, id) && after_asc(bound, id) implies (match best {
                Some(m) => m <= id,
                None => false,
            }) by {
                let j = choose|j: int|
                    0 <= j < self.entries@.len() && #[trigger] self.entries@[j].0@ == key@ && self.entries@[j].1 == id;
            }
        }
        best
    }

    /// The largest id filed under `key` before `bound`, if any.
    fn next_below(&self, key: &Vec<u8>, bound: Option<u64>) -> (r: Option<u64>)
        ensures
            match r {
                Some(m) => self.has(key@, m) && after_desc(bound, m) && forall|id: u64|
                    self.has(key@, id) && after_desc(bound, id) ==> m >= id,
                None => forall|id: u64| self.has(key@, id) ==> !after_desc(bound, id),
            },
    {
        let mut best: Option<u64> = None;
        let mut i: usize = 0;
        while i < self.entries.len()
            invariant
                0 <= i <= self.entries@.len(),
                match best {
                    Some(m) => self.has(key@, m) && after_desc(bound, m) && forall|j: int|
                        0 <= j < i && self.entries@[j].0@ == key@ && after_desc(bound, self.entries@[j].1)
                            ==> m >= self.entries@[j].1,
                    None => forall|j: int|
                        0 <= j < i && self.entries@[j].0@ == key@ ==> !after_desc(bound, self.entries@[j].1),
                },
            decreases self.entries.len() - i,
        {
            let id = self.entries[i].1;
            let beyond = match bound {
                Some(b) => id < b,
                None => true,
            };
            if beyond && bytes_equal(&self.entries[i].0, key) {
                let better = match best {
                    Some(m) => id > m,
                    None => true,
                };
                if better {
                    best = Some(id);
                }
            }
            i = i + 1;
        }
        proof {
            assert forall|id: u64| self.has(key@, id) && after_desc(bound, id) implies (match best {
                Some(m) => m >= id,
                None => false,
            }) by {
                let j = choose|j: int|
                    0 <= j < self.entries@.len() && #[trigger] self.entries@[j].0@ == key@ && self.entries@[j].1 == id;
            }
        }
        best
    }

    /// The first page of ids filed under `key`, ascending, strictly after
    /// `cursor`, at most `limit` of them.
    pub fn find_ascending(&self, key: &Vec<u8>, cursor: Option<u64>, limit: usize) -> (r: Vec<u64>)
        ensures
            self.is_page_asc(key@, cursor, limit, r@),
    {
        let mut out: Vec<u64> = Vec::new();
        let mut bound = cursor;
        let mut done = false;
        while out.len() < limit && !done
            invariant
                out@.len() <= limit,
                forall|i: int, j: int| 0 <= i < j < out@.len() ==> out@[i] < out@[j],
                forall|i: int| 0 <= i < out@.len() ==> self.has(key@, #[trigger] out@[i]) && after_asc(cursor, out@[i]),
                out@.len() == 0 ==> bound == cursor,
                out@.len() > 0 ==> bound == Some(out@.last()),
                forall|id: u64|
                    self.has(key@, id) && after_asc(cursor, id) && out@.len() > 0 && id <= out@.last()
                        ==> #[trigger] out@.contains(id),
                done ==> forall|id: u64| self.has(key@, id) ==> !after_asc(bound, id),
            decreases limit - out@.len() + if done { 0int } else { 1int },
        {
            let ghost old_bound = bound;
            match self.next_above(key, bound) {
                None => {
                    done = true;
                },
                Some(m) => {
                    let ghost prev = out@;
                    out.push(m);
                    bound = Some(m);
                    proof {
                        assert forall|id: u64|
                            self.has(key@, id) && after_asc(cursor, id) && id <= out@.last()
                                implies #[trigger] out@.contains(id) by {
                            if prev.len() > 0 && id <= prev.last() {
                                assert(prev.contains(id));
                                let k = choose|k: int| 0 <= k < prev.len() && prev[k] == id;
                                assert(out@[k] == id);
                            } else {
                                assert(after_asc(old_bound, id));
                                assert(m <= id);
                                assert(id == m);
                                assert(out@[out@.len() - 1] == m);
                            }
                        }
                    }
                },
            }
        }
        proof {
            assert forall|id: u64|
                self.has(key@, id) && after_asc(cursor, id) && (out@.len() < limit || (out@.len() > 0
                    && id <= out@.last())) implies #[trigger] out@.contains(id) by {
                if !(out@.len() > 0 && id <= out@.last()) {
                    assert(done);
                    assert(after_asc(bound, id));
                }
            }
        }
        out
    }

    /// The first page of ids filed under `key`, descending, strictly before
    /// `cursor`, at most `limit` of them.
    pub fn find_descending(&self, key: &Vec<u8>, cursor: Option<u64>, limit: usize) -> (r: Vec<u64>)
        ensures
            self.is_page_desc(key@, cursor, limit, r@),
    {
        let mut out: Vec<u64> = Vec::new();
        let mut bound = cursor;
        let mut done = false;
        while out.len() < limit && !done
            invariant
                out@.len() <= limit,
                forall|i: int, j: int| 0 <= i < j < out@.len() ==> out@[i] > out@[j],
                forall|i: int| 0 <= i < out@.len() ==> self.has(key@, #[trigger] out@[i]) && after_desc(cursor, out@[i]),
                out@.len() == 0 ==> bound == cursor,
                out@.len() > 0 ==> bound == Some(out@.last()),
                forall|id: u64|
                    self.has(key@, id) && after_desc(cursor, id) && out@.len() > 0 && id >= out@.last()
                        ==> #[trigger] out@.contains(id),
                done ==> forall|id: u64| self.has(key@, id) ==> !after_desc(bound, id),
            decreases limit - out@.len() + if done { 0int } else { 1int },
        {
            let ghost old_bound = bound;
            match self.next_below(key, bound) {
                None => {
                    done = true;
                },
                Some(m) => {
                    let ghost prev = out@;
                    out.push(m);
                    bound = Some(m);
                    proof {
                        assert forall|id: u64|
                            self.has(key@, id) && after_desc(cursor, id) && id >= out@.last()
                                implies #[trigger] out@.contains(id) by {
                            if prev.len() > 0 && id >= prev.last() {
                                assert(prev.contains(id));
                                let k = choose|k: int| 0 <= k < prev.len() && prev[k] == id;
                                assert(out@[k] == id);
                            } else {
                                assert(after_desc(old_bound, id));
                                assert(m >= id);
                                assert(id == m);
                                assert(out@[out@.len() - 1] == m);
                            }
                        }
                    }
                },
            }
        }
        proof {
            assert forall|id: u64|
                self.has(key@, id) && after_desc(cursor, id) && (out@.len() < limit || (out@.len() > 0
                    && id >= out@.last())) implies #[trigger] out@.contains(id) by {
                if !(out@.len() > 0 && id >= out@.last()) {
                    assert(done);
                    assert(after_desc(bound, id));
                }
            }
        }
        out
    }
}

} // verus!
