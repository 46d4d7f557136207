use std::collections::BTreeMap;

use vstd::prelude::*;

use crate::index::IdIndex;
use crate::types::{same_content, same_draft, Draft, Principal, RepositoryError, StoryContent};

verus! {

broadcast use vstd::std_specs::btree::group_btree_axioms, vstd::laws_cmp::group_laws_cmp;

/// Index of drafts by author.
pub struct DraftAuthorIndexRepository {
    pub index: IdIndex,
}

impl DraftAuthorIndexRepository {
    pub fn new() -> (r: Self)
        ensures
            r.index.wf(),
            forall|key: Seq<u8>, id: u64| !r.index.has(key, id),
    {
        DraftAuthorIndexRepository { index: IdIndex::new() }
    }

    /// Ids of `author`'s drafts, oldest first, strictly after `cursor`, at
    /// most `limit` of them.
    pub fn find(&self, author: &Principal, cursor: Option<u64>, limit: usize) -> (r: Vec<u64>)
        ensures
            self.index.is_page_asc(author@, cursor, limit, r@),
    {
        self.index.find_ascending(&author.bytes, cursor, limit)
    }
}

/// Contents of drafts or stories, keyed by the id of their record.
pub struct ContentRepository {
    pub contents: BTreeMap<u64, StoryContent>,
}

pub type DraftContentRepository = ContentRepository;

pub type StoryContentRepository = ContentRepository;

impl ContentRepository {
    /// Each content is stored under its own id.
    pub open spec fn wf(&self) -> bool {
        forall|id: u64| #[trigger]
            self.contents@.contains_key(id) ==> self.contents@[id].id == id
    }

    pub fn new() -> (r: Self)
        ensures
            r.wf(),
            r.contents@ == Map::<u64, StoryContent>::empty(),
    {
        ContentRepository { contents: BTreeMap::new() }
    }

    pub fn contains(&self, id: u64) -> (r: bool)
        ensures
            r == self.contents@.contains_key(id),
    {
        self.contents.contains_key(&id)
    }

    pub fn get(&self, id: u64) -> (r: Option<&StoryContent>)
        ensures
            match r {
                Some(c) => self.contents@.contains_key(id) && *c == self.contents@[id],
                None => !self.contents@.contains_key(id),
            },
    {
        self.contents.get(&id)
    }

    pub fn count(&self) -> (r: usize)
        ensures
            r == self.contents@.len(),
    {
        self.contents.len()
    }

    /// Stores a new content; `Conflict` where its id is taken.
    pub fn insert(&mut self, value: StoryContent) -> (r: Result<StoryContent, RepositoryError>)
        requires
            old(self).wf(),
        ensures
            final(self).wf(),
            old(self).contents@.contains_key(value.id) ==> r == Err::<StoryContent, RepositoryError>(
                RepositoryError::Conflict,
            ) && final(self).contents@ == old(self).contents@,
            !old(self).contents@.contains_key(value.id) ==> r == Ok::<StoryContent, RepositoryError>(
                value,
            ) && final(self).contents@ == old(self).contents@.insert(
                value.id,
                final(self).contents@[value.id],
            ) && same_content(final(self).contents@[value.id], value),
    {
        if self.contents.contains_key(&value.id) {
            return Err(RepositoryError::Conflict);
        }
        self.contents.insert(value.id, value.copied());
        Ok(value)
    }

    /// Replaces a stored content; `NotFound` where there is none.
    pub fn update(&mut self, value: StoryContent) -> (r: Result<StoryContent, RepositoryError>)
        requires
            old(self).wf(),
        ensures
            final(self).wf(),
            !old(self).contents@.contains_key(value.id) ==> r == Err::<
                StoryContent,
                RepositoryError,
            >(RepositoryError::NotFound) && final(self).contents@ == old(self).contents@,
            old(self).contents@.contains_key(value.id) ==> r == Ok::<StoryContent, RepositoryError>(
                value,
            ) && final(self).contents@ == old(self).contents@.insert(
                value.id,
                final(self).contents@[value.id],
            ) && same_content(final(self).contents@[value.id], value),
    {
        if !self.contents.contains_key(&value.id) {
            return Err(RepositoryError::NotFound);
        }
        self.contents.insert(value.id, value.copied());
        Ok(value)
    }

    /// Removes a stored content; `NotFound` where there is none.
    pub fn delete(&mut self, id: u64) -> (r: Result<u64, RepositoryError>)
        requires
            old(self).wf(),
        ensures
            final(self).wf(),
            final(self).contents@ == old(self).contents@.remove(id),
            r == if old(self).contents@.contains_key(id) {
                Ok::<u64, RepositoryError>(id)
            } else {
                Err(RepositoryError::NotFound)
            },
    {
        match self.contents.remove(&id) {
            Some(_) => Ok(id),
            None => {
                assert(self.contents@ =~= old(self).contents@.remove(id));
                Err(RepositoryError::NotFound)
            },
        }
    }
}

/// Drafts, with their serial id counter and their index by author.
pub struct DraftRepository {
    pub next_id: u64,
    pub drafts: BTreeMap<u64, Draft>,
    pub author_index: DraftAuthorIndexRepository,
}

impl DraftRepository {
    /// Ids come from the counter and are stored with their draft; the
    /// author index holds exactly one key per draft.
    pub open spec fn wf(&self) -> bool {
        &&& self.next_id >= 1
        &&& self.author_index.index.wf()
        &&& forall|id: u64| #[trigger]
            self.drafts@.contains_key(id) ==> 1 <= id < self.next_id && self.drafts@[id].id == id
        &&& forall|key: Seq<u8>, id: u64| #[trigger]
            self.author_index.index.has(key, id) <==> (self.drafts@.contains_key(id)
                && self.drafts@[id].author@ == key)
    }

    pub fn new() -> (r: Self)
        ensures
            r.wf(),
            r.next_id == 1,
            r.drafts@ == Map::<u64, Draft>::empty(),
    {
        DraftRepository {
            next_id: 1,
            drafts: BTreeMap::new(),
            author_index: DraftAuthorIndexRepository::new(),
        }
    }

    /// The id that the next insert will take.
    pub fn peek_next_id(&self) -> (r: u64)
        ensures
            r == self.next_id,
    {
        self.next_id
    }

    pub fn contains(&self, id: u64) -> (r: bool)
        ensures
            r == self.drafts@.contains_key(id),
    {
        self.drafts.contains_key(&id)
    }

    pub fn get(&self, id: u64) -> (r: Option<&Draft>)
        ensures
            match r {
                Some(d) => self.drafts@.contains_key(id) && *d == self.drafts@[id],
                None => !self.drafts@.contains_key(id),
            },
    {
        self.drafts.get(&id)
    }

    pub fn count(&self) -> (r: usize)
        ensures
            r == self.drafts@.len(),
    {
        self.drafts.len()
    }

    /// Stores a new draft under the next serial id, stamped `created_at =
    /// now`, and files it under its author.
    pub fn insert(&mut self, value: Draft, now: u64) -> (r: Result<Draft, RepositoryError>)
        requires
            old(self).wf(),
        ensures
            final(self).wf(),
            old(self).drafts@.contains_key(value.id) ==> r == Err::<Draft, RepositoryError>(
                RepositoryError::Conflict,
            ) && *final(self) == *old(self),
            !old(self).drafts@.contains_key(value.id) && old(self).next_id == u64::MAX ==> (r matches Err(
                RepositoryError::IllegalUpdate { .. },
            )) && *final(self) == *old(self),
            !old(self).drafts@.contains_key(value.id) && old(self).next_id < u64::MAX ==> {
                &&& r matches Ok(d)
                &&& d.id == old(self).next_id
                &&& d.created_at == now
                &&& d.title == value.title
                &&& d.detail == value.detail
                &&& d.author == value.author
                &&& d.updated_at == value.updated_at
                &&& d.read_time == value.read_time
                &&& final(self).next_id == old(self).next_id + 1
                &&& !old(self).drafts@.contains_key(d.id)
                &&& final(self).drafts@ == old(self).drafts@.insert(d.id, final(self).drafts@[d.id])
                &&& same_draft(final(self).drafts@[d.id], d)
            },
    {
        if self.drafts.contains_key(&value.id) {
            return Err(RepositoryError::Conflict);
        }
        if self.next_id == u64::MAX {
            return Err(RepositoryError::IllegalUpdate { reason: "serial ids exhausted".to_string() });
        }
        let id = self.next_id;
        self.next_id = id + 1;
        let mut value = value;
        value.id = id;
        value.created_at = now;
        self.drafts.insert(id, value.copied());
        self.author_index.index.insert(&value.author.bytes, id);
        Ok(value)
    }

    /// Replaces a stored draft, stamped `updated_at = now`, and moves its
    /// index key where the author changed.
    pub fn update(&mut self, value: Draft, now: u64) -> (r: Result<Draft, RepositoryError>)
        requires
            old(self).wf(),
        ensures
            final(self).wf(),
            final(self).next_id == old(self).next_id,
            !old(self).drafts@.contains_key(value.id) ==> r == Err::<Draft, RepositoryError>(
                RepositoryError::NotFound,
            ) && *final(self) == *old(self),
            old(self).drafts@.contains_key(value.id) ==> {
                &&& r matches Ok(d)
                &&& d.id == value.id
                &&& d.updated_at == Some(now)
                &&& d.created_at == value.created_at
                &&& d.title == value.title
                &&& d.detail == value.detail
                &&& d.author == value.author
                &&& d.read_time == value.read_time
                &&& final(self).drafts@ == old(self).drafts@.insert(d.id, final(self).drafts@[d.id])
                &&& same_draft(final(self).drafts@[d.id], d)
            },
    {
        if !self.drafts.contains_key(&value.id) {
            return Err(RepositoryError::NotFound);
        }
        let mut value = value;
        value.updated_at = Some(now);
        let id = value.id;
        let previous = self.drafts.insert(id, value.copied());
        if let Some(p) = previous {
            self.author_index.index.remove(&p.author.bytes, id);
        }
        self.author_index.index.insert(&value.author.bytes, id);
        Ok(value)
    }

    /// Removes a stored draft and its index key.
    pub fn delete(&mut self, id: u64) -> (r: Result<u64, RepositoryError>)
        requires
            old(self).wf(),
        ensures
            final(self).wf(),
            final(self).next_id == old(self).next_id,
            final(self).drafts@ == old(self).drafts@.remove(id),
            r == if old(self).drafts@.contains_key(id) {
                Ok::<u64, RepositoryError>(id)
            } else {
                Err(RepositoryError::NotFound)
            },
    {
        match self.drafts.remove(&id) {
            Some(old_value) => {
                self.author_index.index.remove(&old_value.author.bytes, id);
                Ok(id)
            },
            None => {
                assert(self.drafts@ =~= old(self).drafts@.remove(id));
                Err(RepositoryError::NotFound)
            },
        }
    }

    /// `author`'s drafts, newest first.
    pub fn get_drafts_by_author(&self, author: &Principal) -> (r: Vec<Draft>)
        requires
            self.wf(),
        ensures
            forall|i: int, j: int| 0 <= i < j < r@.len() ==> r@[i].id > r@[j].id,
            forall|i: int|
                0 <= i < r@.len() ==> self.drafts@.contains_key(#[trigger] r@[i].id) && same_draft(
                    r@[i],
                    self.drafts@[r@[i].id],
                ) && r@[i].author@ == author@,
            r@.len() < usize::MAX ==> forall|id: u64|
                self.drafts@.contains_key(id) && #[trigger] self.drafts@[id].author@ == author@
                    ==> exists|i: int| 0 <= i < r@.len() && r@[i].id == id,
    {
        let ids = self.author_index.index.find_descending(&author.bytes, None, usize::MAX);
        let mut out: Vec<Draft> = Vec::new();
        let mut i: usize = 0;
        while i < ids.len()
            invariant
                self.wf(),
                0 <= i <= ids@.len(),
                out@.len() == i,
                self.author_index.index.is_page_desc(author@, None, usize::MAX, ids@),
                forall|k: int| 0 <= k < i ==> #[trigger] out@[k].id == ids@[k],
                forall|k: int|
                    0 <= k < i ==> self.drafts@.contains_key(#[trigger] out@[k].id) && same_draft(
                        out@[k],
                        self.drafts@[out@[k].id],
                    ) && out@[k].author@ == author@,
            decreases ids.len() - i,
        {
            let id = ids[i];
            assert(self.author_index.index.has(author@, ids@[i as int]));
            match self.drafts.get(&id) {
                Some(d) => {
                    out.push(d.copied());
                },
                None => {
                    assert(false);
                },
            }
            i = i + 1;
        }
        proof {
            assert forall|id: u64|
                out@.len() < usize::MAX && self.drafts@.contains_key(id) && #[trigger] self.drafts@[id].author@ == author@
                    implies exists|i: int| 0 <= i < out@.len() && out@[i].id == id by {
                assert(self.author_index.index.has(author@, id));
                assert(ids@.contains(id));
                let k = choose|k: int| 0 <= k < ids@.len() && ids@[k] == id;
                assert(out@[k].id == id);
            }
        }
        out
    }
}

} // verus!
