use std::collections::BTreeMap;

use vstd::prelude::*;

use crate::index::IdIndex;
use crate::types::{
    category_ordinal, same_story, CacheKey, Category, Principal, RepositoryError, SortOrder,
    Story, SupportGiven, SupportSize,
};

verus! {

broadcast use vstd::std_specs::btree::group_btree_axioms, vstd::laws_cmp::group_laws_cmp;

/// `(score, id)` comes strictly before `bound` in ascending order.
pub open spec fn pair_below(p: (u64, u64), bound: Option<(u64, u64)>) -> bool {
    match bound {
        Some(b) => p.0 < b.0 || (p.0 == b.0 && p.1 < b.1),
        None => true,
    }
}

/// `a` comes strictly after `b` in ascending `(score, id)` order.
pub open spec fn pair_gt(a: (u64, u64), b: (u64, u64)) -> bool {
    a.0 > b.0 || (a.0 == b.0 && a.1 > b.1)
}

/// Index of stories by `(score, id)`.
pub struct StoryScoringSortIndexRepository {
    pub entries: Vec<(u64, u64)>,
}

impl StoryScoringSortIndexRepository {
    pub open spec fn has(&self, p: (u64, u64)) -> bool {
        self.entries@.contains(p)
    }

    pub fn new() -> (r: Self)
        ensures
            forall|p: (u64, u64)| !r.has(p),
    {
        StoryScoringSortIndexRepository { entries: Vec::new() }
    }

    pub fn insert(&mut self, p: (u64, u64))
        ensures
            forall|q: (u64, u64)| final(self).has(q) == (old(self).has(q) || q == p),
    {
        let mut i: usize = 0;
        while i < self.entries.len()
            invariant
                0 <= i <= self.entries@.len(),
                forall|j: int| 0 <= j < i ==> self.entries@[j] != p,
            decreases self.entries.len() - i,
        {
            if self.entries[i].0 == p.0 && self.entries[i].1 == p.1 {
                return;
            }
            i = i + 1;
        }
        let ghost before = self.entries@;
        self.entries.push(p);
        proof {
            assert forall|q: (u64, u64)| self.has(q) == (old(self).has(q) || q == p) by {
                if self.has(q) {
                    let k = choose|k: int| 0 <= k < self.entries@.len() && self.entries@[k] == q;
                    if k < before.len() {
                        assert(before[k] == q);
                    }
                }
                if old(self).has(q) {
                    let k = choose|k: int| 0 <= k < before.len() && before[k] == q;
                    assert(self.entries@[k] == q);
                }
                if q == p {
                    assert(self.entries@[before.len() as int] == q);
                }
            }
        }
    }

    pub fn remove(&mut self, p: (u64, u64))
        ensures
            forall|q: (u64, u64)| final(self).has(q) == (old(self).has(q) && q != p),
    {
        let mut kept: Vec<(u64, u64)> = Vec::new();
        let mut i: usize = 0;
        while i < self.entries.len()
            invariant
                0 <= i <= self.entries@.len(),
                forall|q: (u64, u64)|
                    kept@.contains(q) == (self.entries@.subrange(0, i as int).contains(q) && q
                        != p),
            decreases self.entries.len() - i,
        {
            let e = self.entries[i];
            proof {
                assert(self.entries@.subrange(0, i as int + 1) =~= self.entries@.subrange(
                    0,
                    i as int,
                ).push(e));
            }
            let ghost k0 = kept@;
            if !(e.0 == p.0 && e.1 == p.1) {
                kept.push(e);
                proof {
                    assert(kept@[kept@.len() - 1] == e);
                    assert(self.entries@.subrange(0, i as int + 1)[i as int] == e);
                    assert forall|q: (u64, u64)|
                        kept@.contains(q) == (self.entries@.subrange(0, i as int + 1).contains(q)
                            && q != p) by {
                        if kept@.contains(q) && q != e {
                            let k = choose|k: int| 0 <= k < kept@.len() && kept@[k] == q;
                            assert(k0[k] == q);
                        }
                        if k0.contains(q) {
                            let k = choose|k: int| 0 <= k < k0.len() && k0[k] == q;
                            assert(kept@[k] == q);
                        }
                        if self.entries@.subrange(0, i as int + 1).contains(q) && q != e {
                            let s = self.entries@.subrange(0, i as int + 1);
                            let k = choose|k: int| 0 <= k < s.len() && s[k] == q;
                            assert(self.entries@.subrange(0, i as int)[k] == q);
                        }
                        if q == e {
                            assert(kept@[kept@.len() - 1] == e);
                        }
                    }
                }
            } else {
                proof {
                    assert(self.entries@.subrange(0, i as int + 1)[i as int] == e);
                    assert forall|q: (u64, u64)|
                        kept@.contains(q) == (self.entries@.subrange(0, i as int + 1).contains(q)
                            && q != p) by {
                        if self.entries@.subrange(0, i as int + 1).contains(q) && q != p {
                            let s = self.entries@.subrange(0, i as int + 1);
                            let k = choose|k: int| 0 <= k < s.len() && s[k] == q;
                            assert(self.entries@.subrange(0, i as int)[k] == q);
                        }
                    }
                }
            }
            i = i + 1;
        }
        proof {
            assert(self.entries@.subrange(0, i as int) =~= self.entries@);
        }
        self.entries = kept;
    }

    /// The greatest `(score, id)` before `bound`, if any.
    fn next_below(&self, bound: Option<(u64, u64)>) -> (r: Option<(u64, u64)>)
        ensures
            match r {
                Some(m) => self.has(m) && pair_below(m, bound) && forall|q: (u64, u64)|
                    self.has(q) && pair_below(q, bound) ==> !pair_gt(q, m),
                None => forall|q: (u64, u64)| self.has(q) ==> !pair_below(q, bound),
            },
    {
        let mut best: Option<(u64, u64)> = None;
        let mut i: usize = 0;
        while i < self.entries.len()
            invariant
                0 <= i <= self.entries@.len(),
                match best {
                    Some(m) => self.has(m) && pair_below(m, bound) && forall|j: int|
                        0 <= j < i && pair_below(self.entries@[j], bound) ==> !pair_gt(
                            self.entries@[j],
                            m,
                        ),
                    None => forall|j: int| 0 <= j < i ==> !pair_below(self.entries@[j], bound),
                },
            decreases self.entries.len() - i,
        {
            let e = self.entries[i];
            let below = match bound {
                Some(b) => e.0 < b.0 || (e.0 == b.0 && e.1 < b.1),
                None => true,
            };
            if below {
                let better = match best {
                    Some(m) => e.0 > m.0 || (e.0 == m.0 && e.1 > m.1),
                    None => true,
                };
                if better {
                    best = Some(e);
                }
            }
            i = i + 1;
        }
        best
    }

    /// Ids of the highest `(score, id)` keys before `cursor`, highest first,
    /// at most `limit` of them.
    pub fn find(&self, cursor: Option<(u64, u64)>, limit: usize) -> (r: Vec<(u64, u64)>)
        ensures
            r@.len() <= limit,
            forall|i: int, j: int| 0 <= i < j < r@.len() ==> pair_gt(r@[i], r@[j]),
            forall|i: int|
                0 <= i < r@.len() ==> self.has(#[trigger] r@[i]) && pair_below(r@[i], cursor),
            forall|q: (u64, u64)|
                self.has(q) && pair_below(q, cursor) && (r@.len() < limit || (r@.len() > 0
                    && !pair_gt(r@.last(), q))) ==> #[trigger] r@.contains(q),
    {
        let mut out: Vec<(u64, u64)> = Vec::new();
        let mut bound = cursor;
        let mut done = false;
        while out.len() < limit && !done
            invariant
                out@.len() <= limit,
                forall|i: int, j: int| 0 <= i < j < out@.len() ==> pair_gt(out@[i], out@[j]),
                forall|i: int|
                    0 <= i < out@.len() ==> self.has(#[trigger] out@[i]) && pair_below(
                        out@[i],
                        cursor,
                    ),
                out@.len() == 0 ==> bound == cursor,
                out@.len() > 0 ==> bound == Some(out@.last()),
                forall|q: (u64, u64)|
                    self.has(q) && pair_below(q, cursor) && out@.len() > 0 && !pair_gt(
                        out@.last(),
                        q,
                    ) ==> #[trigger] out@.contains(q),
                done ==> forall|q: (u64, u64)| self.has(q) ==> !pair_below(q, bound),
            decreases limit - out@.len() + if done {
                0int
            } else {
                1int
            },
        {
            let ghost old_bound = bound;
            match self.next_below(bound) {
                None => {
                    done = true;
                },
                Some(m) => {
                    let ghost prev = out@;
                    out.push(m);
                    bound = Some(m);
                    proof {
                        assert forall|i: int, j: int| 0 <= i < j < out@.len() implies pair_gt(
                            out@[i],
                            out@[j],
                        ) by {
                            if j == out@.len() - 1 {
                                assert(pair_gt(prev.last(), m));
                                if i < prev.len() - 1 {
                                    assert(pair_gt(prev[i], prev[prev.len() - 1]));
                                }
                            } else {
                                assert(out@[i] == prev[i] && out@[j] == prev[j]);
                            }
                        }
                        assert forall|q: (u64, u64)|
                            self.has(q) && pair_below(q, cursor) && !pair_gt(out@.last(), q)
                                implies #[trigger] out@.contains(q) by {
                            if prev.len() > 0 && !pair_gt(prev.last(), q) {
                                assert(prev.contains(q));
                                let k = choose|k: int| 0 <= k < prev.len() && prev[k] == q;
                                assert(out@[k] == q);
                            } else {
                                assert(pair_below(q, old_bound));
                                assert(!pair_gt(q, m));
                                assert(q == m);
                                assert(out@[out@.len() - 1] == m);
                            }
                        }
                    }
                },
            }
        }
        proof {
            assert forall|q: (u64, u64)|
                self.has(q) && pair_below(q, cursor) && (out@.len() < limit || (out@.len() > 0
                    && !pair_gt(out@.last(), q))) implies #[trigger] out@.contains(q) by {
                if !(out@.len() > 0 && !pair_gt(out@.last(), q)) {
                    assert(done);
                    assert(pair_below(q, bound));
                }
            }
        }
        out
    }
}

/// Index of stories by category, newest first.
pub struct StoryCategoryIndexRepository {
    pub index: IdIndex,
}

impl StoryCategoryIndexRepository {
    pub fn new() -> (r: Self)
        ensures
            r.index.wf(),
            forall|key: Seq<u8>, id: u64| !r.index.has(key, id),
    {
        StoryCategoryIndexRepository { index: IdIndex::new() }
    }

    /// Ids of stories of `category`, newest first, strictly before
    /// `cursor`, at most `limit` of them.
    pub fn find(&self, category: Category, cursor: Option<u64>, limit: usize) -> (r: Vec<u64>)
        ensures
            self.index.is_page_desc(seq![category_ordinal(category)], cursor, limit, r@),
    {
        let key = category.index_key();
        self.index.find_descending(&key, cursor, limit)
    }
}

/// Index of stories by author, newest first.
pub struct StoryAuthorIndexRepository {
    pub index: IdIndex,
}

impl StoryAuthorIndexRepository {
    pub fn new() -> (r: Self)
        ensures
            r.index.wf(),
            forall|key: Seq<u8>, id: u64| !r.index.has(key, id),
    {
        StoryAuthorIndexRepository { index: IdIndex::new() }
    }

    /// Ids of `author`'s stories, newest first, strictly before `cursor`,
    /// at most `limit` of them.
    pub fn find(&self, author: &Principal, cursor: Option<u64>, limit: usize) -> (r: Vec<u64>)
        ensures
            self.index.is_page_desc(author@, cursor, limit, r@),
    {
        self.index.find_descending(&author.bytes, cursor, limit)
    }
}

/// An entry of story `id`, of `user` where one is given.
pub open spec fn is_dropped(e: (u64, Principal, SupportGiven), id: u64, user: Option<&Principal>) -> bool {
    e.0 == id && match user {
        Some(u) => e.1@ == u@,
        None => true,
    }
}

/// What supporters gave each story, one entry per (story, supporter).
pub struct StorySupporterRepository {
    pub entries: Vec<(u64, Principal, SupportGiven)>,
}

impl StorySupporterRepository {
    /// No (story, supporter) pair has two entries.
    pub open spec fn wf(&self) -> bool {
        forall|a: int, b: int|
            0 <= a < self.entries@.len() && 0 <= b < self.entries@.len() && a != b ==> !(
            self.entries@[a].0 == self.entries@[b].0 && self.entries@[a].1@
                == self.entries@[b].1@)
    }

    /// `user` gave story `id` a support of `size` and `tokens` tokens.
    pub open spec fn gives(&self, id: u64, user: Seq<u8>, size: SupportSize, tokens: u128) -> bool {
        exists|i: int|
            0 <= i < self.entries@.len() && #[trigger] self.entries@[i].0 == id
                && self.entries@[i].1@ == user && self.entries@[i].2.support == size
                && self.entries@[i].2.token == tokens
    }

    /// `user` supports story `id`.
    pub open spec fn supports(&self, id: u64, user: Seq<u8>) -> bool {
        exists|i: int|
            0 <= i < self.entries@.len() && #[trigger] self.entries@[i].0 == id
                && self.entries@[i].1@ == user
    }

    pub fn new() -> (r: Self)
        ensures
            r.wf(),
            forall|id: u64, user: Seq<u8>| !r.supports(id, user),
    {
        StorySupporterRepository { entries: Vec::new() }
    }

    fn position(&self, id: u64, user: &Principal) -> (r: Option<usize>)
        ensures
            match r {
                Some(i) => i < self.entries@.len() && self.entries@[i as int].0 == id
                    && self.entries@[i as int].1@ == user@,
                None => !self.supports(id, user@),
            },
    {
        let mut i: usize = 0;
        while i < self.entries.len()
            invariant
                0 <= i <= self.entries@.len(),
                forall|j: int|
                    0 <= j < i ==> !(self.entries@[j].0 == id && self.entries@[j].1@ == user@),
            decreases self.entries.len() - i,
        {
            if self.entries[i].0 == id && self.entries[i].1.same_as(user) {
                return Some(i);
            }
            i = i + 1;
        }
        None
    }

    /// What `user` gave story `id`, if anything.
    pub fn get_story_supporter_size(&self, id: u64, user: &Principal) -> (r: Option<
        (SupportSize, u128),
    >)
        requires
            self.wf(),
        ensures
            match r {
                Some((size, tokens)) => self.gives(id, user@, size, tokens),
                None => !self.supports(id, user@),
            },
    {
        match self.position(id, user) {
            Some(i) => Some((self.entries[i].2.support, self.entries[i].2.token)),
            None => None,
        }
    }

    /// Supporters of story `id` with what each gave.
    /// `v` lists what each supporter gave story `id`, every supporter at
    /// least once.
    pub open spec fn lists_supporters(&self, id: u64, v: Seq<(Principal, SupportSize, u128)>) -> bool {
        &&& forall|i: int|
            0 <= i < v.len() ==> self.gives(id, (#[trigger] v[i]).0@, v[i].1, v[i].2)
        &&& forall|j: int|
            0 <= j < self.entries@.len() && #[trigger] self.entries@[j].0 == id ==> exists|i: int|
                0 <= i < v.len() && v[i].0@ == self.entries@[j].1@
    }

    pub fn get_story_supporters(&self, id: u64) -> (r: Vec<(Principal, SupportSize, u128)>)
        ensures
            self.lists_supporters(id, r@),
    {
        let mut out: Vec<(Principal, SupportSize, u128)> = Vec::new();
        let mut k: usize = 0;
        while k < self.entries.len()
            invariant
                0 <= k <= self.entries@.len(),
                forall|i: int|
                    0 <= i < out@.len() ==> self.gives(id, (#[trigger] out@[i]).0@, out@[i].1, out@[i].2),
                forall|j: int|
                    0 <= j < k && #[trigger] self.entries@[j].0 == id ==> exists|i: int|
                        0 <= i < out@.len() && out@[i].0@ == self.entries@[j].1@,
            decreases self.entries.len() - k,
        {
            if self.entries[k].0 == id {
                let ghost prev = out@;
                let e = &self.entries[k];
                out.push((e.1.duplicate(), e.2.support, e.2.token));
                proof {
                    assert(self.entries@[k as int].0 == id);
                    assert forall|j: int|
                        0 <= j < k + 1 && #[trigger] self.entries@[j].0 == id implies exists|i: int|
                        0 <= i < out@.len() && out@[i].0@ == self.entries@[j].1@ by {
                        if j < k {
                            let i = choose|i: int|
                                0 <= i < prev.len() && prev[i].0@ == self.entries@[j].1@;
                            assert(out@[i] == prev[i]);
                        } else {
                            assert(out@[prev.len() as int].0@ == self.entries@[j].1@);
                        }
                    }
                    assert forall|i: int|
                        0 <= i < out@.len() implies self.gives(
                        id,
                        (#[trigger] out@[i]).0@,
                        out@[i].1,
                        out@[i].2,
                    ) by {
                        if i < prev.len() {
                            assert(out@[i] == prev[i]);
                        } else {
                            assert(self.entries@[k as int].0 == id);
                        }
                    }
                }
            }
            k = k + 1;
        }
        out
    }

    /// Records what `user` has given story `id` in all, replacing what was
    /// recorded; a support of nothing is refused.
    pub fn support_story(&mut self, id: u64, user: &Principal, size: SupportSize, tokens: u128) -> (r:
        Result<SupportSize, RepositoryError>)
        requires
            old(self).wf(),
        ensures
            final(self).wf(),
            size == 0 && tokens == 0 ==> (r matches Err(RepositoryError::IllegalArgument { reason })
                && reason@ == "Support size must be greater than 0"@) && *final(self) == *old(self),
            !(size == 0 && tokens == 0) ==> {
                &&& r == Ok::<SupportSize, RepositoryError>(size)
                &&& final(self).gives(id, user@, size, tokens)
                &&& forall|i: u64, u: Seq<u8>, s: SupportSize, t: u128|
                    !(i == id && u == user@) ==> (#[trigger] final(self).gives(i, u, s, t)
                        == old(self).gives(i, u, s, t))
                &&& forall|i: u64, u: Seq<u8>|
                    !(i == id && u == user@) ==> (#[trigger] final(self).supports(i, u)
                        == old(self).supports(i, u))
            },
    {
        if size == 0 && tokens == 0 {
            return Err(
                RepositoryError::IllegalArgument {
                    reason: "Support size must be greater than 0".to_string(),
                },
            );
        }
        let ghost before = self.entries@;
        match self.position(id, user) {
            Some(i) => {
                let who = self.entries[i].1.duplicate();
                self.entries.set(i, (id, who, SupportGiven::new(size, tokens)));
                proof {
                    let after = self.entries@;
                    assert forall|a: int, b: int|
                        0 <= a < after.len() && 0 <= b < after.len() && a != b implies !(after[a].0
                        == after[b].0 && after[a].1@ == after[b].1@) by {
                        assert(!(before[a].0 == before[b].0 && before[a].1@ == before[b].1@));
                    }
                    assert(after[i as int].0 == id);
                    assert forall|n: u64, u: Seq<u8>, sz: SupportSize, t: u128|
                        !(n == id && u == user@) implies (#[trigger] self.gives(n, u, sz, t)
                        == old(self).gives(n, u, sz, t)) by {
                        if self.gives(n, u, sz, t) {
                            let j = choose|j: int|
                                0 <= j < after.len() && #[trigger] after[j].0 == n && after[j].1@
                                    == u && after[j].2.support == sz && after[j].2.token == t;
                            assert(before[j].0 == n);
                        }
                        if old(self).gives(n, u, sz, t) {
                            let j = choose|j: int|
                                0 <= j < before.len() && #[trigger] before[j].0 == n && before[j].1@
                                    == u && before[j].2.support == sz && before[j].2.token == t;
                            assert(after[j].0 == n);
                        }
                    }
                    assert forall|n: u64, u: Seq<u8>|
                        !(n == id && u == user@) implies (#[trigger] self.supports(n, u)
                        == old(self).supports(n, u)) by {
                        if self.supports(n, u) {
                            let j = choose|j: int|
                                0 <= j < after.len() && #[trigger] after[j].0 == n && after[j].1@
                                    == u;
                            assert(before[j].0 == n);
                        }
                        if old(self).supports(n, u) {
                            let j = choose|j: int|
                                0 <= j < before.len() && #[trigger] before[j].0 == n && before[j].1@
                                    == u;
                            assert(after[j].0 == n);
                        }
                    }
                }
            },
            None => {
                self.entries.push((id, user.duplicate(), SupportGiven::new(size, tokens)));
                proof {
                    let after = self.entries@;
                    let last = before.len() as int;
                    assert(after[last].0 == id);
                    assert forall|a: int, b: int|
                        0 <= a < after.len() && 0 <= b < after.len() && a != b implies !(after[a].0
                        == after[b].0 && after[a].1@ == after[b].1@) by {
                        if a < last && b < last {
                            assert(after[a] == before[a] && after[b] == before[b]);
                        } else if a < last {
                            assert(after[a] == before[a]);
                            assert(before[a].0 == id ==> before[a].1@ != user@);
                        } else {
                            assert(after[b] == before[b]);
                            assert(before[b].0 == id ==> before[b].1@ != user@);
                        }
                    }
                    assert forall|n: u64, u: Seq<u8>, sz: SupportSize, t: u128|
                        !(n == id && u == user@) implies (#[trigger] self.gives(n, u, sz, t)
                        == old(self).gives(n, u, sz, t)) by {
                        if self.gives(n, u, sz, t) {
                            let j = choose|j: int|
                                0 <= j < after.len() && #[trigger] after[j].0 == n && after[j].1@
                                    == u && after[j].2.support == sz && after[j].2.token == t;
                            assert(j < last);
                            assert(before[j] == after[j]);
                        }
                        if old(self).gives(n, u, sz, t) {
                            let j = choose|j: int|
                                0 <= j < before.len() && #[trigger] before[j].0 == n && before[j].1@
                                    == u && before[j].2.support == sz && before[j].2.token == t;
                            assert(after[j] == before[j]);
                        }
                    }
                    assert forall|n: u64, u: Seq<u8>|
                        !(n == id && u == user@) implies (#[trigger] self.supports(n, u)
                        == old(self).supports(n, u)) by {
                        if self.supports(n, u) {
                            let j = choose|j: int|
                                0 <= j < after.len() && #[trigger] after[j].0 == n && after[j].1@
                                    == u;
                            assert(j < last);
                            assert(before[j] == after[j]);
                        }
                        if old(self).supports(n, u) {
                            let j = choose|j: int|
                                0 <= j < before.len() && #[trigger] before[j].0 == n && before[j].1@
                                    == u;
                            assert(after[j] == before[j]);
                        }
                    }
                }
            },
        }
        Ok(size)
    }

    /// Removes the entries of story `id`, only `user`'s where one is given.
    fn retain_others(&mut self, id: u64, user: Option<&Principal>)
        requires
            old(self).wf(),
        ensures
            final(self).wf(),
            forall|i: u64, u: Seq<u8>, s: SupportSize, t: u128| #[trigger]
                final(self).gives(i, u, s, t) == (old(self).gives(i, u, s, t) && !(i == id && (
                user is None || u == user.unwrap()@))),
            forall|i: u64, u: Seq<u8>| #[trigger]
                final(self).supports(i, u) == (old(self).supports(i, u) && !(i == id && (
                user is None || u == user.unwrap()@))),
    {
        let ghost before = self.entries@;
        let mut kept: Vec<(u64, Principal, SupportGiven)> = Vec::new();
        let mut k: usize = 0;
        while k < self.entries.len()
            invariant
                0 <= k <= before.len(),
                self.entries@ == before,
                old(self).wf(),
                old(self).entries@ == before,
                forall|a: int, b: int|
                    0 <= a < kept@.len() && 0 <= b < kept@.len() && a != b ==> !(kept@[a].0
                        == kept@[b].0 && kept@[a].1@ == kept@[b].1@),
                forall|a: int|
                    #![trigger kept@[a]]
                    0 <= a < kept@.len() ==> exists|j: int|
                        0 <= j < k && before[j].0 == kept@[a].0 && before[j].1@ == kept@[a].1@
                            && before[j].2 == kept@[a].2 && !is_dropped(before[j], id, user),
                forall|j: int|
                    #![trigger before[j]]
                    0 <= j < k && !is_dropped(before[j], id, user) ==> exists|a: int|
                        0 <= a < kept@.len() && kept@[a].0 == before[j].0 && kept@[a].1@
                            == before[j].1@ && kept@[a].2 == before[j].2,
                forall|a: int| 0 <= a < kept@.len() ==> !is_dropped(kept@[a], id, user),
            decreases self.entries.len() - k,
        {
            let e = &self.entries[k];
            let dropped = e.0 == id && match user {
                Some(u) => e.1.same_as(u),
                None => true,
            };
            if !dropped {
                let ghost prev = kept@;
                kept.push((e.0, e.1.duplicate(), SupportGiven::new(e.2.support, e.2.token)));
                proof {
                    let n = prev.len() as int;
                    assert forall|a: int, b: int|
                        0 <= a < kept@.len() && 0 <= b < kept@.len() && a != b implies !(kept@[a].0
                        == kept@[b].0 && kept@[a].1@ == kept@[b].1@) by {
                        if a < n && b < n {
                            assert(kept@[a] == prev[a] && kept@[b] == prev[b]);
                        } else if a < n {
                            assert(kept@[a] == prev[a]);
                            let j = choose|j: int|
                                0 <= j < k && before[j].0 == prev[a].0 && before[j].1@ == prev[a].1@
                                    && before[j].2 == prev[a].2 && !is_dropped(before[j], id, user);
                            assert(!(before[j].0 == before[k as int].0 && before[j].1@
                                == before[k as int].1@));
                        } else if b < n {
                            assert(kept@[b] == prev[b]);
                            let j = choose|j: int|
                                0 <= j < k && before[j].0 == prev[b].0 && before[j].1@ == prev[b].1@
                                    && before[j].2 == prev[b].2 && !is_dropped(before[j], id, user);
                            assert(!(before[j].0 == before[k as int].0 && before[j].1@
                                == before[k as int].1@));
                        }
                    }
                    assert forall|a: int| #![trigger kept@[a]] 0 <= a < kept@.len() implies exists|j: int|
                        0 <= j < k + 1 && before[j].0 == kept@[a].0 && before[j].1@ == kept@[a].1@
                            && before[j].2 == kept@[a].2 && !is_dropped(before[j], id, user) by {
                        if a < n {
                            assert(kept@[a] == prev[a]);
                        } else {
                            assert(before[k as int].2 == kept@[a].2);
                        }
                    }
                    assert forall|j: int| #![trigger before[j]] 0 <= j < k + 1 && !is_dropped(before[j], id, user) implies exists|a: int|
                        0 <= a < kept@.len() && kept@[a].0 == before[j].0 && kept@[a].1@
                            == before[j].1@ && kept@[a].2 == before[j].2 by {
                        if j < k {
                            let a = choose|a: int|
                                0 <= a < prev.len() && prev[a].0 == before[j].0 && prev[a].1@
                                    == before[j].1@ && prev[a].2 == before[j].2;
                            assert(kept@[a] == prev[a]);
                        } else {
                            assert(kept@[n].2 == before[j].2);
                        }
                    }
                    assert forall|a: int| 0 <= a < kept@.len() implies !is_dropped(kept@[a], id, user) by {
                        if a < n {
                            assert(kept@[a] == prev[a]);
                        }
                    }
                }
            }
            k = k + 1;
        }
        self.entries = kept;
        proof {
            let after = self.entries@;
            assert forall|i: u64, u: Seq<u8>, s: SupportSize, t: u128| #[trigger]
                self.gives(i, u, s, t) == (old(self).gives(i, u, s, t) && !(i == id && (
                user is None || u == user.unwrap()@))) by {
                if self.gives(i, u, s, t) {
                    let a = choose|a: int|
                        0 <= a < after.len() && #[trigger] after[a].0 == i && after[a].1@ == u
                            && after[a].2.support == s && after[a].2.token == t;
                    let j = choose|j: int|
                        0 <= j < k && before[j].0 == after[a].0 && before[j].1@ == after[a].1@
                            && before[j].2 == after[a].2 && !is_dropped(before[j], id, user);
                    assert(before[j].0 == i);
                    assert(!is_dropped(after[a], id, user));
                }
                if old(self).gives(i, u, s, t) && !(i == id && (user is None || u
                    == user.unwrap()@)) {
                    let j = choose|j: int|
                        0 <= j < before.len() && #[trigger] before[j].0 == i && before[j].1@ == u
                            && before[j].2.support == s && before[j].2.token == t;
                    assert(!is_dropped(before[j], id, user));
                    let a = choose|a: int|
                        0 <= a < after.len() && after[a].0 == before[j].0 && after[a].1@
                            == before[j].1@ && after[a].2 == before[j].2;
                    assert(after[a].0 == i);
                }
            }
            assert forall|i: u64, u: Seq<u8>| #[trigger]
                self.supports(i, u) == (old(self).supports(i, u) && !(i == id && (user is None
                || u == user.unwrap()@))) by {
                if self.supports(i, u) {
                    let a = choose|a: int|
                        0 <= a < after.len() && #[trigger] after[a].0 == i && after[a].1@ == u;
                    let j = choose|j: int|
                        0 <= j < k && before[j].0 == after[a].0 && before[j].1@ == after[a].1@
                            && before[j].2 == after[a].2 && !is_dropped(before[j], id, user);
                    assert(before[j].0 == i);
                    assert(!is_dropped(after[a], id, user));
                }
                if old(self).supports(i, u) && !(i == id && (user is None || u
                    == user.unwrap()@)) {
                    let j = choose|j: int|
                        0 <= j < before.len() && #[trigger] before[j].0 == i && before[j].1@ == u;
                    assert(!is_dropped(before[j], id, user));
                    let a = choose|a: int|
                        0 <= a < after.len() && after[a].0 == before[j].0 && after[a].1@
                            == before[j].1@ && after[a].2 == before[j].2;
                    assert(after[a].0 == i);
                }
            }
        }
    }

    /// Withdraws `user`'s support of story `id`.
    pub fn remove_support(&mut self, id: u64, user: &Principal) -> (r: Result<u64, RepositoryError>)
        requires
            old(self).wf(),
        ensures
            final(self).wf(),
            r == if old(self).supports(id, user@) {
                Ok::<u64, RepositoryError>(id)
            } else {
                Err(RepositoryError::NotFound)
            },
            forall|i: u64, u: Seq<u8>| #[trigger]
                final(self).supports(i, u) == (old(self).supports(i, u) && !(i == id && u
                    == user@)),
    {
        let present = self.position(id, user).is_some();
        self.retain_others(id, Some(user));
        if present {
            Ok(id)
        } else {
            Err(RepositoryError::NotFound)
        }
    }

    /// Removes every supporter of story `id`.
    pub fn remove_story_supporter(&mut self, id: u64)
        requires
            old(self).wf(),
        ensures
            final(self).wf(),
            forall|i: u64, u: Seq<u8>| #[trigger]
                final(self).supports(i, u) == (old(self).supports(i, u) && i != id),
            forall|i: u64, u: Seq<u8>, s: SupportSize, t: u128| #[trigger]
                final(self).gives(i, u, s, t) == (old(self).gives(i, u, s, t) && i != id),
    {
        self.retain_others(id, None);
    }
}

/// Ids of a list of stories.
pub open spec fn story_ids(v: Seq<Story>) -> Seq<u64> {
    v.map_values(|s: Story| s.id)
}

/// Pages laid end to end.
pub open spec fn concat_pages(pages: Seq<Seq<u64>>) -> Seq<u64>
    decreases pages.len(),
{
    if pages.len() == 0 {
        Seq::empty()
    } else {
        concat_pages(pages.drop_last()) + pages.last()
    }
}

/// Stories, with their serial id counter, their indexes by category, author
/// and score, and their supporters.
pub struct StoryRepository {
    pub next_id: u64,
    pub stories: BTreeMap<u64, Story>,
    pub category_index: StoryCategoryIndexRepository,
    pub author_index: StoryAuthorIndexRepository,
    pub scoring_index: StoryScoringSortIndexRepository,
    pub supporter: StorySupporterRepository,
}

impl StoryRepository {
    /// Ids come from the counter; each index holds exactly one key per story.
    pub open spec fn wf(&self) -> bool {
        &&& self.next_id >= 1
        &&& self.category_index.index.wf()
        &&& self.author_index.index.wf()
        &&& self.supporter.wf()
        &&& forall|id: u64| #[trigger]
            self.stories@.contains_key(id) ==> 1 <= id < self.next_id && self.stories@[id].id
                == id
        &&& forall|key: Seq<u8>, id: u64| #[trigger]
            self.category_index.index.has(key, id) <==> (self.stories@.contains_key(id) && key
                == seq![category_ordinal(self.stories@[id].detail.category)])
        &&& forall|key: Seq<u8>, id: u64| #[trigger]
            self.author_index.index.has(key, id) <==> (self.stories@.contains_key(id)
                && self.stories@[id].author@ == key)
        &&& forall|p: (u64, u64)| #[trigger]
            self.scoring_index.has(p) <==> (self.stories@.contains_key(p.1)
                && self.stories@[p.1].score == p.0)
    }

    pub fn new() -> (r: Self)
        ensures
            r.wf(),
            r.next_id == 1,
            r.stories@ == Map::<u64, Story>::empty(),
    {
        StoryRepository {
            next_id: 1,
            stories: BTreeMap::new(),
            category_index: StoryCategoryIndexRepository::new(),
            author_index: StoryAuthorIndexRepository::new(),
            scoring_index: StoryScoringSortIndexRepository::new(),
            supporter: StorySupporterRepository::new(),
        }
    }

    pub fn contains(&self, id: u64) -> (r: bool)
        ensures
            r == self.stories@.contains_key(id),
    {
        self.stories.contains_key(&id)
    }

    pub fn get(&self, id: u64) -> (r: Option<&Story>)
        ensures
            match r {
                Some(d) => self.stories@.contains_key(id) && *d == self.stories@[id],
                None => !self.stories@.contains_key(id),
            },
    {
        self.stories.get(&id)
    }

    pub fn count(&self) -> (r: usize)
        ensures
            r == self.stories@.len(),
    {
        self.stories.len()
    }

    fn add_indexes(&mut self, value: &Story)
        requires
            old(self).category_index.index.wf(),
            old(self).author_index.index.wf(),
        ensures
            final(self).category_index.index.wf(),
            final(self).author_index.index.wf(),
            final(self).stories == old(self).stories,
            final(self).next_id == old(self).next_id,
            final(self).supporter == old(self).supporter,
            forall|k: Seq<u8>, i: u64| #[trigger]
                final(self).category_index.index.has(k, i) == (old(self).category_index.index.has(
                    k,
                    i,
                ) || (k == seq![category_ordinal(value.detail.category)] && i == value.id)),
            forall|k: Seq<u8>, i: u64| #[trigger]
                final(self).author_index.index.has(k, i) == (old(self).author_index.index.has(k, i)
                    || (k == value.author@ && i == value.id)),
            forall|p: (u64, u64)| #[trigger]
                final(self).scoring_index.has(p) == (old(self).scoring_index.has(p) || p == (
                value.score,
                value.id,
            )),
    {
        let key = value.detail.category.index_key();
        self.category_index.index.insert(&key, value.id);
        self.author_index.index.insert(&value.author.bytes, value.id);
        self.scoring_index.insert((value.score, value.id));
    }

    fn remove_indexes(&mut self, value: &Story)
        requires
            old(self).category_index.index.wf(),
            old(self).author_index.index.wf(),
        ensures
            final(self).category_index.index.wf(),
            final(self).author_index.index.wf(),
            final(self).stories == old(self).stories,
            final(self).next_id == old(self).next_id,
            final(self).supporter == old(self).supporter,
            forall|k: Seq<u8>, i: u64| #[trigger]
                final(self).category_index.index.has(k, i) == (old(self).category_index.index.has(
                    k,
                    i,
                ) && !(k == seq![category_ordinal(value.detail.category)] && i == value.id)),
            forall|k: Seq<u8>, i: u64| #[trigger]
                final(self).author_index.index.has(k, i) == (old(self).author_index.index.has(k, i)
                    && !(k == value.author@ && i == value.id)),
            forall|p: (u64, u64)| #[trigger]
                final(self).scoring_index.has(p) == (old(self).scoring_index.has(p) && p != (
                value.score,
                value.id,
            )),
    {
        let key = value.detail.category.index_key();
        self.category_index.index.remove(&key, value.id);
        self.author_index.index.remove(&value.author.bytes, value.id);
        self.scoring_index.remove((value.score, value.id));
    }

    /// Stores a new story under the next serial id, stamped `created_at =
    /// now`, and files it in every index.
    pub fn insert(&mut self, value: Story, now: u64) -> (r: Result<Story, RepositoryError>)
        requires
            old(self).wf(),
        ensures
            final(self).wf(),
            old(self).stories@.contains_key(value.id) ==> r == Err::<Story, RepositoryError>(
                RepositoryError::Conflict,
            ) && *final(self) == *old(self),
            !old(self).stories@.contains_key(value.id) && old(self).next_id == u64::MAX ==> (r matches Err(
                RepositoryError::IllegalUpdate { .. },
            )) && *final(self) == *old(self),
            !old(self).stories@.contains_key(value.id) && old(self).next_id < u64::MAX ==> {
                &&& r matches Ok(d)
                &&& d.id == old(self).next_id
                &&& d.created_at == now
                &&& d.title == value.title
                &&& d.detail == value.detail
                &&& d.author == value.author
                &&& d.score == value.score
                &&& final(self).next_id == old(self).next_id + 1
                &&& !old(self).stories@.contains_key(d.id)
                &&& final(self).stories@ == old(self).stories@.insert(
                    d.id,
                    final(self).stories@[d.id],
                )
                &&& same_story(final(self).stories@[d.id], d)
            },
    {
        if self.stories.contains_key(&value.id) {
            return Err(RepositoryError::Conflict);
        }
        if self.next_id == u64::MAX {
            return Err(RepositoryError::IllegalUpdate { reason: "serial ids exhausted".to_string() });
        }
        let id = self.next_id;
        self.next_id = id + 1;
        let mut value = value;
        value.id = id;
        value.created_at = now;
        self.stories.insert(id, value.copied());
        self.add_indexes(&value);
        Ok(value)
    }

    /// Replaces a stored story, stamped `updated_at = now`, and moves its
    /// index keys.
    pub fn update(&mut self, value: Story, now: u64) -> (r: Result<Story, RepositoryError>)
        requires
            old(self).wf(),
        ensures
            final(self).wf(),
            final(self).next_id == old(self).next_id,
            final(self).supporter == old(self).supporter,
            !old(self).stories@.contains_key(value.id) ==> r == Err::<Story, RepositoryError>(
                RepositoryError::NotFound,
            ) && *final(self) == *old(self),
            old(self).stories@.contains_key(value.id) ==> {
                &&& r matches Ok(d)
                &&& d.id == value.id
                &&& d.updated_at == Some(now)
                &&& d.title == value.title
                &&& d.detail == value.detail
                &&& d.author == value.author
                &&& d.score == value.score
                &&& d.total_support == value.total_support
                &&& d.total_tip_support == value.total_tip_support
                &&& final(self).stories@ == old(self).stories@.insert(
                    d.id,
                    final(self).stories@[d.id],
                )
                &&& same_story(final(self).stories@[d.id], d)
            },
    {
        if !self.stories.contains_key(&value.id) {
            return Err(RepositoryError::NotFound);
        }
        let mut value = value;
        value.updated_at = Some(now);
        let id = value.id;
        let previous = self.stories.insert(id, value.copied());
        if let Some(p) = previous {
            self.remove_indexes(&p);
        }
        self.add_indexes(&value);
        Ok(value)
    }

    /// Removes a stored story, its index keys and all its supporters.
    pub fn delete(&mut self, id: u64) -> (r: Result<u64, RepositoryError>)
        requires
            old(self).wf(),
        ensures
            final(self).wf(),
            final(self).next_id == old(self).next_id,
            final(self).stories@ == old(self).stories@.remove(id),
            r == if old(self).stories@.contains_key(id) {
                Ok::<u64, RepositoryError>(id)
            } else {
                Err(RepositoryError::NotFound)
            },
            old(self).stories@.contains_key(id) ==> forall|i: u64, u: Seq<u8>| #[trigger]
                final(self).supporter.supports(i, u) == (old(self).supporter.supports(i, u) && i
                    != id),
            old(self).stories@.contains_key(id) ==> forall|
                i: u64,
                u: Seq<u8>,
                size: SupportSize,
                tokens: u128,
            | #[trigger]
                final(self).supporter.gives(i, u, size, tokens) == (old(self).supporter.gives(
                    i,
                    u,
                    size,
                    tokens,
                ) && i != id),
            !old(self).stories@.contains_key(id) ==> *final(self) == *old(self),
    {
        if !self.stories.contains_key(&id) {
            assert(old(self).stories@ =~= old(self).stories@.remove(id));
            return Err(RepositoryError::NotFound);
        }
        match self.stories.remove(&id) {
            Some(old_value) => {
                self.remove_indexes(&old_value);
                self.supporter.remove_story_supporter(id);
                Ok(id)
            },
            None => Err(RepositoryError::NotFound),
        }
    }

    /// Copies of the stories with the given ids, in that order.
    fn stories_of(&self, ids: &Vec<u64>) -> (r: Vec<Story>)
        requires
            self.wf(),
            forall|i: int| 0 <= i < ids@.len() ==> self.stories@.contains_key(#[trigger] ids@[i]),
        ensures
            story_ids(r@) == ids@,
            forall|i: int|
                0 <= i < r@.len() ==> same_story(#[trigger] r@[i], self.stories@[ids@[i]])
                    && self.stories@.contains_key(r@[i].id),
    {
        let mut out: Vec<Story> = Vec::new();
        let mut i: usize = 0;
        while i < ids.len()
            invariant
                0 <= i <= ids@.len(),
                out@.len() == i,
                forall|k: int| 0 <= k < ids@.len() ==> self.stories@.contains_key(#[trigger] ids@[k]),
                forall|k: int|
                    0 <= k < i ==> same_story(#[trigger] out@[k], self.stories@[ids@[k]]),
                forall|k: int| 0 <= k < i ==> (#[trigger] out@[k]).id == self.stories@[ids@[k]].id,
            decreases ids.len() - i,
        {
            let id = ids[i];
            assert(self.stories@.contains_key(ids@[i as int]));
            match self.stories.get(&id) {
                Some(st) => {
                    out.push(st.copied());
                },
                None => {
                    assert(false);
                },
            }
            i = i + 1;
        }
        proof {
            assert forall|k: int| 0 <= k < ids@.len() implies story_ids(out@)[k] == ids@[k] by {
                assert(self.stories@[ids@[k]].id == ids@[k]) by {
                    assert(self.stories@.contains_key(ids@[k]));
                }
            }
            assert(story_ids(out@) =~= ids@);
        }
        out
    }

    /// `author`'s stories, newest first, strictly before `cursor`, at most
    /// `limit` of them.
    pub fn get_stories_by_author(&self, author: &Principal, cursor: Option<u64>, limit: usize) -> (r:
        Result<Vec<Story>, RepositoryError>)
        requires
            self.wf(),
        ensures
            r matches Ok(v) && self.author_index.index.is_page_desc(
                author@,
                cursor,
                limit,
                story_ids(v@),
            ) && forall|i: int|
                0 <= i < v@.len() ==> same_story(#[trigger] v@[i], self.stories@[v@[i].id]),
    {
        let ids = self.author_index.find(author, cursor, limit);
        assert forall|i: int| 0 <= i < ids@.len() implies self.stories@.contains_key(
            #[trigger] ids@[i],
        ) by {
            assert(self.author_index.index.has(author@, ids@[i]));
        }
        let v = self.stories_of(&ids);
        Ok(v)
    }

    /// Stories by score, highest `(score, id)` first, strictly before
    /// `cursor`, at most `limit` of them.
    pub fn get_stories_by_score(&self, cursor: Option<(u64, u64)>, limit: usize) -> (r: Result<
        Vec<Story>,
        RepositoryError,
    >)
        requires
            self.wf(),
        ensures
            r matches Ok(v) && v@.len() <= limit && (forall|i: int, j: int|
                0 <= i < j < v@.len() ==> pair_gt((v@[i].score, v@[i].id), (v@[j].score, v@[j].id)))
                && (forall|i: int|
                0 <= i < v@.len() ==> same_story(#[trigger] v@[i], self.stories@[v@[i].id])
                    && self.stories@.contains_key(v@[i].id)
                    && pair_below((v@[i].score, v@[i].id), cursor)) && (forall|id: u64|
                #[trigger] self.stories@.contains_key(id) && pair_below(
                    (self.stories@[id].score, id),
                    cursor,
                ) && (v@.len() < limit || (v@.len() > 0 && !pair_gt(
                    (v@.last().score, v@.last().id),
                    (self.stories@[id].score, id),
                ))) ==> exists|i: int| 0 <= i < v@.len() && v@[i].id == id),
    {
        let keys = self.scoring_index.find(cursor, limit);
        let mut ids: Vec<u64> = Vec::new();
        let mut i: usize = 0;
        while i < keys.len()
            invariant
                0 <= i <= keys@.len(),
                ids@.len() == i,
                forall|k: int| 0 <= k < i ==> #[trigger] ids@[k] == keys@[k].1,
            decreases keys.len() - i,
        {
            ids.push(keys[i].1);
            i = i + 1;
        }
        assert forall|k: int| 0 <= k < ids@.len() implies self.stories@.contains_key(
            #[trigger] ids@[k],
        ) by {
            assert(self.scoring_index.has(keys@[k]));
        }
        let v = self.stories_of(&ids);
        proof {
            assert forall|k: int| 0 <= k < v@.len() implies (v@[k].score, v@[k].id) == keys@[k] by {
                assert(story_ids(v@)[k] == ids@[k]);
                assert(self.scoring_index.has(keys@[k]));
            }
            assert forall|id: u64|
                #[trigger] self.stories@.contains_key(id) && pair_below(
                    (self.stories@[id].score, id),
                    cursor,
                ) && (v@.len() < limit || (v@.len() > 0 && !pair_gt(
                    (v@.last().score, v@.last().id),
                    (self.stories@[id].score, id),
                ))) implies exists|i: int| 0 <= i < v@.len() && v@[i].id == id by {
                let q = (self.stories@[id].score, id);
                assert(self.scoring_index.has(q));
                if v@.len() > 0 {
                    assert(keys@.last() == (v@.last().score, v@.last().id));
                }
                assert(keys@.contains(q));
                let k = choose|k: int| 0 <= k < keys@.len() && keys@[k] == q;
                assert(v@[k].id == id);
            }
        }
        Ok(v)
    }

    /// Stories of several categories, `limit / categories.len()` of each,
    /// category after category; each category resumes strictly before its
    /// own cursor. The limit must be a positive multiple of the number of
    /// categories, and there must be one cursor per category.
    pub fn get_stories_by_categories(
        &self,
        categories: Vec<Category>,
        sort: SortOrder,
        cursor: Vec<Option<u64>>,
        limit: usize,
    ) -> (r: Result<Vec<Story>, RepositoryError>)
        requires
            self.wf(),
        ensures
            !sort.is_sorted_by_id_spec() ==> r == Err::<Vec<Story>, RepositoryError>(
                RepositoryError::UnsupportedOperation,
            ),
            sort.is_sorted_by_id_spec() && (categories@.len() == 0 || limit < categories@.len()
                || limit as nat % categories@.len() != 0) ==> (r matches Err(
                RepositoryError::IllegalArgument { reason },
            ) && reason@ == "limit size violation"@),
            sort.is_sorted_by_id_spec() && categories@.len() > 0 && limit >= categories@.len()
                && limit as nat % categories@.len() == 0 && cursor@.len() != categories@.len() ==> (r matches Err(
                RepositoryError::IllegalArgument { reason },
            ) && reason@ == "categories and cursor must be of the same size"@),
            sort.is_sorted_by_id_spec() && categories@.len() > 0 && limit >= categories@.len()
                && limit as nat % categories@.len() == 0 && cursor@.len() == categories@.len() ==> {
                &&& r matches Ok(v)
                &&& exists|pages: Seq<Seq<u64>>|
                    {
                        &&& pages.len() == categories@.len()
                        &&& forall|k: int|
                            0 <= k < pages.len() ==> self.category_index.index.is_page_desc(
                                seq![category_ordinal(categories@[k])],
                                cursor@[k],
                                (limit as nat / categories@.len()) as usize,
                                #[trigger] pages[k],
                            )
                        &&& story_ids(v@) == concat_pages(pages)
                    }
                &&& forall|i: int|
                    0 <= i < v@.len() ==> same_story(#[trigger] v@[i], self.stories@[v@[i].id])
            },
    {
        if !sort.is_sorted_by_id() {
            return Err(RepositoryError::UnsupportedOperation);
        }
        if categories.len() == 0 || limit < categories.len() || limit % categories.len() != 0 {
            return Err(RepositoryError::IllegalArgument { reason: "limit size violation".to_string() });
        }
        if categories.len() != cursor.len() {
            return Err(
                RepositoryError::IllegalArgument {
                    reason: "categories and cursor must be of the same size".to_string(),
                },
            );
        }
        let per_category = limit / categories.len();
        let mut stories: Vec<Story> = Vec::new();
        let ghost mut pages: Seq<Seq<u64>> = Seq::empty();
        let mut i: usize = 0;
        while i < categories.len()
            invariant
                self.wf(),
                0 <= i <= categories@.len(),
                cursor@.len() == categories@.len(),
                per_category == limit as nat / categories@.len(),
                pages.len() == i,
                forall|k: int|
                    0 <= k < i ==> self.category_index.index.is_page_desc(
                        seq![category_ordinal(categories@[k])],
                        cursor@[k],
                        per_category,
                        #[trigger] pages[k],
                    ),
                story_ids(stories@) == concat_pages(pages),
                forall|j: int|
                    0 <= j < stories@.len() ==> same_story(
                        #[trigger] stories@[j],
                        self.stories@[stories@[j].id],
                    ),
            decreases categories.len() - i,
        {
            let ids = self.category_index.find(categories[i], cursor[i], per_category);
            assert forall|k: int| 0 <= k < ids@.len() implies self.stories@.contains_key(
                #[trigger] ids@[k],
            ) by {
                assert(self.category_index.index.has(
                    seq![category_ordinal(categories@[i as int])],
                    ids@[k],
                ));
            }
            let mut page = self.stories_of(&ids);
            let ghost prev = stories@;
            let ghost page_view = page@;
            stories.append(&mut page);
            proof {
                let new_pages = pages.push(ids@);
                assert(new_pages.drop_last() =~= pages);
                assert(stories@ =~= prev + page_view);
                assert(story_ids(stories@) =~= story_ids(prev) + story_ids(page_view));
                assert forall|j: int|
                    0 <= j < stories@.len() implies same_story(
                    #[trigger] stories@[j],
                    self.stories@[stories@[j].id],
                ) by {
                    if j >= prev.len() {
                        let k = j - prev.len();
                        assert(stories@[j] == page_view[k]);
                        assert(story_ids(page_view)[k] == ids@[k]);
                    }
                }
                assert forall|k: int|
                    0 <= k < i + 1 implies self.category_index.index.is_page_desc(
                    seq![category_ordinal(categories@[k])],
                    cursor@[k],
                    per_category,
                    #[trigger] new_pages[k],
                ) by {
                    if k < i {
                        assert(new_pages[k] == pages[k]);
                    }
                }
                pages = new_pages;
            }
            i = i + 1;
        }
        Ok(stories)
    }

    /// Supporters of story `id`; `NotFound` where there is no such story.
    pub fn get_story_supporters(&self, id: u64) -> (r: Result<
        Vec<(Principal, SupportSize, u128)>,
        RepositoryError,
    >)
        ensures
            !self.stories@.contains_key(id) ==> r == Err::<
                Vec<(Principal, SupportSize, u128)>,
                RepositoryError,
            >(RepositoryError::NotFound),
            self.stories@.contains_key(id) ==> (r matches Ok(v) && self.supporter.lists_supporters(
                id,
                v@,
            )),
    {
        if !self.stories.contains_key(&id) {
            return Err(RepositoryError::NotFound);
        }
        Ok(self.supporter.get_story_supporters(id))
    }

    /// What `user` gave story `id`; `NotFound` where there is no such story.
    pub fn get_story_supporter_size(&self, id: u64, user: &Principal) -> (r: Result<
        Option<(SupportSize, u128)>,
        RepositoryError,
    >)
        requires
            self.wf(),
        ensures
            !self.stories@.contains_key(id) ==> r == Err::<
                Option<(SupportSize, u128)>,
                RepositoryError,
            >(RepositoryError::NotFound),
            self.stories@.contains_key(id) ==> (r matches Ok(o) && match o {
                Some((size, tokens)) => self.supporter.gives(id, user@, size, tokens),
                None => !self.supporter.supports(id, user@),
            }),
    {
        if !self.stories.contains_key(&id) {
            return Err(RepositoryError::NotFound);
        }
        Ok(self.supporter.get_story_supporter_size(id, user))
    }

    /// Withdraws `user`'s support of story `id`.
    pub fn remove_story_support(&mut self, id: u64, user: &Principal) -> (r: Result<
        u64,
        RepositoryError,
    >)
        requires
            old(self).wf(),
        ensures
            final(self).wf(),
            final(self).stories == old(self).stories,
            !old(self).stories@.contains_key(id) ==> r == Err::<u64, RepositoryError>(
                RepositoryError::NotFound,
            ) && *final(self) == *old(self),
            old(self).stories@.contains_key(id) ==> r == if old(self).supporter.supports(id, user@) {
                Ok::<u64, RepositoryError>(id)
            } else {
                Err(RepositoryError::NotFound)
            } && !final(self).supporter.supports(id, user@),
    {
        if !self.stories.contains_key(&id) {
            return Err(RepositoryError::NotFound);
        }
        self.supporter.remove_support(id, user)
    }

    /// Records what `user` has given story `id` in all.
    pub fn support_story(&mut self, id: u64, user: &Principal, size: SupportSize, tokens: u128) -> (r:
        Result<SupportSize, RepositoryError>)
        requires
            old(self).wf(),
        ensures
            final(self).wf(),
            final(self).stories == old(self).stories,
            !old(self).stories@.contains_key(id) ==> r == Err::<SupportSize, RepositoryError>(
                RepositoryError::NotFound,
            ) && *final(self) == *old(self),
            old(self).stories@.contains_key(id) && size == 0 && tokens == 0 ==> (r matches Err(
                RepositoryError::IllegalArgument { .. },
            )) && *final(self) == *old(self),
            old(self).stories@.contains_key(id) && !(size == 0 && tokens == 0) ==> r == Ok::<
                SupportSize,
                RepositoryError,
            >(size) && final(self).supporter.gives(id, user@, size, tokens),
    {
        if !self.stories.contains_key(&id) {
            return Err(RepositoryError::NotFound);
        }
        self.supporter.support_story(id, user, size, tokens)
    }
}

} // verus!
