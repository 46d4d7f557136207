use vstd::prelude::*;

use crate::api::{repository_error_message, rollback_reason, with_cause};
use crate::draft::{DraftContentRepository, DraftRepository, StoryContentRepository};
use crate::story::StoryRepository;
use crate::user::identity_text;
use crate::utils::{estimate_read_time, read_minutes, word_count_of};
use crate::types::{
    same_content, same_draft, CacheKey, Draft, Principal, RepositoryError, SaveDraftArgs,
    ServiceError, Story, StoryContent,
};

verus! {

broadcast use vstd::string::to_string_from_display_ensures_for_str;

/// Whether save arguments carry nothing at all.
pub open spec fn is_empty_save(args: SaveDraftArgs) -> bool {
    args.title.is_none() && args.content.is_none() && args.detail.is_none()
}

/// Rejects save arguments that carry nothing, with `message` as the reason.
pub fn validate_empty_save_args(args: &SaveDraftArgs, message: &str) -> (r: Result<(), ServiceError>)
    ensures
        is_empty_save(*args) ==> (r matches Err(ServiceError::UnprocessableEntity { reason })
            && reason@ == message@),
        !is_empty_save(*args) ==> r == Ok::<(), ServiceError>(()),
{
    if args.title.is_none() && args.content.is_none() && args.detail.is_none() {
        return Err(ServiceError::UnprocessableEntity { reason: message.to_string() });
    }
    Ok(())
}

/// Draft `id` and its content exist, `identity` wrote both, and they carry
/// what a story needs: a title, a text and a described detail.
pub open spec fn publishable(service: DraftService, id: u64, identity: Principal) -> bool {
    let drafts = service.draft_repository.drafts@;
    let contents = service.draft_content_repository.contents@;
    &&& drafts.contains_key(id)
    &&& contents.contains_key(id)
    &&& drafts[id].author@ == identity@
    &&& contents[id].author@ == identity@
    &&& drafts[id].title@.len() > 0
    &&& contents[id].content@.len() > 0
    &&& drafts[id].detail matches Some(d) && d.description@.len() > 0
}

/// Drafts and their contents, kept as two repositories.
pub struct DraftService {
    pub draft_repository: DraftRepository,
    pub draft_content_repository: DraftContentRepository,
}

impl DraftService {
    pub open spec fn wf(&self) -> bool {
        self.draft_repository.wf() && self.draft_content_repository.wf()
    }

    pub fn new(
        draft_repository: DraftRepository,
        draft_content_repository: DraftContentRepository,
    ) -> (r: Self)
        ensures
            r.draft_repository == draft_repository,
            r.draft_content_repository == draft_content_repository,
    {
        DraftService { draft_repository, draft_content_repository }
    }

    /// Creates a draft by `identity`, then its content. Where the content
    /// cannot be stored the draft is deleted again and the content's error
    /// is returned.
    pub fn create_draft(&mut self, args: SaveDraftArgs, identity: Principal, now: u64) -> (r:
        Result<Draft, ServiceError>)
        requires
            old(self).wf(),
        ensures
            final(self).wf(),
            is_empty_save(args) ==> (r matches Err(ServiceError::UnprocessableEntity { reason })
                && reason@ == "Nothing to save"@) && *final(self) == *old(self),
            !is_empty_save(args) && old(self).draft_repository.next_id == u64::MAX ==> (r matches Err(
                ServiceError::InternalError { reason },
            ) && exists|e: RepositoryError|
                e is IllegalUpdate && reason@ == "Failed to create draft: "@
                    + repository_error_message(e)) && *final(self) == *old(self),
            !is_empty_save(args) && old(self).draft_repository.next_id < u64::MAX
                && old(self).draft_content_repository.contents@.contains_key(
                old(self).draft_repository.next_id,
            ) ==> {
                &&& r matches Err(ServiceError::InternalError { reason })
                &&& reason@ == "Failed to create draft content: "@ + repository_error_message(
                    RepositoryError::Conflict,
                )
                &&& final(self).draft_repository.drafts@ == old(self).draft_repository.drafts@
                &&& final(self).draft_content_repository.contents@
                    == old(self).draft_content_repository.contents@
            },
            !is_empty_save(args) && old(self).draft_repository.next_id < u64::MAX
                && !old(self).draft_content_repository.contents@.contains_key(
                old(self).draft_repository.next_id,
            ) ==> {
                &&& r matches Ok(d)
                &&& d.id == old(self).draft_repository.next_id
                &&& d.author@ == identity@
                &&& d.created_at == now
                &&& final(self).draft_repository.drafts@.contains_key(d.id)
                &&& final(self).draft_content_repository.contents@.contains_key(d.id)
                &&& final(self).draft_content_repository.contents@[d.id].content@ == match args.content {
                    Some(c) => c@,
                    None => Seq::<char>::empty(),
                }
            },
    {
        let valid = validate_empty_save_args(&args, "Nothing to save");
        if let Err(e) = valid {
            return Err(e);
        }
        let title = match args.title {
            Some(t) => t,
            None => String::new(),
        };
        let content = match args.content {
            Some(c) => c,
            None => String::new(),
        };
        let author = identity.duplicate();
        let draft = Draft::new(title, args.detail, identity);
        let inserted = self.draft_repository.insert(draft, now);
        let draft = match inserted {
            Ok(d) => d,
            Err(RepositoryError::Conflict) => {
                return Err(ServiceError::Conflict { entity: "Draft".to_string() });
            },
            Err(e) => {
                return Err(
                    ServiceError::InternalError { reason: with_cause("Failed to create draft: ", &e) },
                );
            },
        };
        let stored = self.draft_content_repository.insert(StoryContent::new(draft.id, content, author));
        if let Err(content_err) = stored {
            let reason = with_cause("Failed to create draft content: ", &content_err);
            // compensate: the draft must not outlive its missing content
            let rollback = self.draft_repository.delete(draft.id);
            if let Err(e) = rollback {
                return Err(
                    ServiceError::InternalError {
                        reason: rollback_reason("Failed to rollback draft creation: ", &e, &reason),
                    },
                );
            }
            proof {
                assert(self.draft_repository.drafts@ =~= old(self).draft_repository.drafts@);
            }
            return Err(ServiceError::InternalError { reason });
        }
        Ok(draft)
    }
}

/// Rejects `identity` where it is not `author`.
pub fn validate_draft_author(author: &Principal, identity: &Principal) -> (r: Result<(), ServiceError>)
    ensures
        author@ == identity@ ==> r == Ok::<(), ServiceError>(()),
        author@ != identity@ ==> (r matches Err(ServiceError::IdentityUnauthorized { identity: text })
            && text@ == identity_text(*identity)),
{
    if !author.same_as(identity) {
        return Err(ServiceError::IdentityUnauthorized { identity: identity.to_text() });
    }
    Ok(())
}

/// `a` and `b` apart.
fn distance(a: u32, b: u32) -> (r: u32)
    ensures
        r == if a >= b {
            a - b
        } else {
            b - a
        },
{
    if a >= b {
        a - b
    } else {
        b - a
    }
}

impl DraftService {
    /// Applies the given fields to `identity`'s draft `id`: title, detail,
    /// and content (which also refreshes the read time).
    pub fn update_draft(&mut self, id: u64, args: SaveDraftArgs, identity: &Principal, now: u64) -> (r:
        Result<(), ServiceError>)
        requires
            old(self).wf(),
        ensures
            final(self).wf(),
            final(self).draft_repository.drafts@.dom() == old(self).draft_repository.drafts@.dom(),
            is_empty_save(args) ==> (r matches Err(ServiceError::UnprocessableEntity { reason })
                && reason@ == "Nothing to update"@) && *final(self) == *old(self),
            !is_empty_save(args) && !old(self).draft_repository.drafts@.contains_key(id) ==> r
                == Err::<(), ServiceError>(ServiceError::DraftNotFound) && *final(self)
                == *old(self),
            !is_empty_save(args) && old(self).draft_repository.drafts@.contains_key(id)
                && old(self).draft_repository.drafts@[id].author@ != identity@ ==> (r matches Err(
                ServiceError::IdentityUnauthorized { identity: text },
            ) && text@ == identity_text(*identity)) && *final(self) == *old(self),
            !is_empty_save(args) && old(self).draft_repository.drafts@.contains_key(id)
                && old(self).draft_repository.drafts@[id].author@ == identity@ && (args.content is None
                || (old(self).draft_content_repository.contents@.contains_key(id)
                && old(self).draft_content_repository.contents@[id].author@ == identity@)) ==> r is Ok,
            r is Ok ==> {
                let before = old(self).draft_repository.drafts@[id];
                let after = final(self).draft_repository.drafts@[id];
                &&& old(self).draft_repository.drafts@.contains_key(id)
                &&& after.author@ == identity@
                &&& after.title == match args.title {
                    Some(t) => t,
                    None => before.title,
                }
                &&& after.detail == match args.detail {
                    Some(d) => Some(d),
                    None => before.detail,
                }
                &&& match args.content {
                    Some(c) => final(self).draft_content_repository.contents@.contains_key(id)
                        && final(self).draft_content_repository.contents@[id].content == c
                        && (read_minutes(word_count_of(c@)) <= u32::MAX ==> after.read_time
                        == read_minutes(word_count_of(c@))),
                    None => final(self).draft_content_repository.contents@
                        == old(self).draft_content_repository.contents@ && after.read_time
                        == before.read_time,
                }
            },
    {
        let valid = validate_empty_save_args(&args, "Nothing to update");
        if let Err(e) = valid {
            return Err(e);
        }
        let mut draft = match self.draft_repository.get(id) {
            Some(d) => d.copied(),
            None => {
                return Err(ServiceError::DraftNotFound);
            },
        };
        let authorized = validate_draft_author(&draft.author, identity);
        if let Err(e) = authorized {
            return Err(e);
        }
        let title_changed = args.title.is_some();
        if let Some(t) = args.title {
            draft.title = t;
        }
        let detail_changed = args.detail.is_some();
        if detail_changed {
            draft.detail = args.detail;
        }
        if let Some(new_content) = args.content {
            let mut d_content = match self.draft_content_repository.get(id) {
                Some(c) => c.copied(),
                None => {
                    return Err(ServiceError::DraftNotFound);
                },
            };
            let authorized = validate_draft_author(&d_content.author, identity);
            if let Err(e) = authorized {
                return Err(e);
            }
            let new_estimate = estimate_read_time(new_content.as_str());
            let read_estimate_diff = distance(new_estimate, draft.read_time);
            d_content.content = new_content;
            let updated = self.draft_content_repository.update(d_content);
            match updated {
                Ok(_) => {},
                Err(RepositoryError::NotFound) => {
                    return Err(ServiceError::DraftNotFound);
                },
                Err(e) => {
                    return Err(
                        ServiceError::InternalError {
                            reason: with_cause("Failed to update draft content: ", &e),
                        },
                    );
                },
            }
            if read_estimate_diff == 0 && !title_changed && !detail_changed {
                // neither the draft nor its read time changed
                return Ok(());
            }
            draft.read_time = new_estimate;
        }
        let updated = self.draft_repository.update(draft, now);
        match updated {
            Ok(_) => Ok(()),
            Err(RepositoryError::NotFound) => Err(ServiceError::DraftNotFound),
            Err(e) => Err(ServiceError::InternalError { reason: with_cause("Failed to update draft: ", &e) }),
        }
    }

    /// `identity`'s draft `id` and its content, removed.
    pub fn delete_draft(&mut self, id: u64, identity: &Principal) -> (r: Result<u64, ServiceError>)
        requires
            old(self).wf(),
        ensures
            final(self).wf(),
            !old(self).draft_repository.drafts@.contains_key(id) ==> r == Err::<u64, ServiceError>(
                ServiceError::DraftNotFound,
            ) && *final(self) == *old(self),
            old(self).draft_repository.drafts@.contains_key(id)
                && old(self).draft_repository.drafts@[id].author@ != identity@ ==> (r matches Err(
                ServiceError::IdentityUnauthorized { identity: text },
            ) && text@ == identity_text(*identity)) && *final(self) == *old(self),
            old(self).draft_repository.drafts@.contains_key(id)
                && old(self).draft_repository.drafts@[id].author@ == identity@
                && old(self).draft_content_repository.contents@.contains_key(id) ==> r == Ok::<
                u64,
                ServiceError,
            >(id),
            r is Ok ==> r == Ok::<u64, ServiceError>(id) && final(self).draft_repository.drafts@
                == old(self).draft_repository.drafts@.remove(id)
                && final(self).draft_content_repository.contents@
                == old(self).draft_content_repository.contents@.remove(id),
    {
        let author = match self.draft_repository.get(id) {
            Some(d) => d.author.duplicate(),
            None => {
                return Err(ServiceError::DraftNotFound);
            },
        };
        let authorized = validate_draft_author(&author, identity);
        if let Err(e) = authorized {
            return Err(e);
        }
        let removed = self.draft_content_repository.delete(id);
        if let Err(e) = removed {
            return Err(
                ServiceError::InternalError {
                    reason: with_cause("Failed to delete draft content: ", &e),
                },
            );
        }
        let removed = self.draft_repository.delete(id);
        match removed {
            Ok(i) => Ok(i),
            Err(RepositoryError::NotFound) => Err(ServiceError::DraftNotFound),
            Err(e) => Err(ServiceError::InternalError { reason: with_cause("Failed to delete draft: ", &e) }),
        }
    }

    /// Draft `id` and its content.
    pub fn get_draft(&self, id: u64) -> (r: Result<(Draft, StoryContent), ServiceError>)
        ensures
            self.draft_repository.drafts@.contains_key(id)
                && self.draft_content_repository.contents@.contains_key(id) ==> (r matches Ok(
                (d, c),
            ) && same_draft(d, self.draft_repository.drafts@[id]) && same_content(
                c,
                self.draft_content_repository.contents@[id],
            )),
            !(self.draft_repository.drafts@.contains_key(id)
                && self.draft_content_repository.contents@.contains_key(id)) ==> r == Err::<
                (Draft, StoryContent),
                ServiceError,
            >(ServiceError::DraftNotFound),
    {
        let draft = match self.draft_repository.get(id) {
            Some(d) => d.copied(),
            None => {
                return Err(ServiceError::DraftNotFound);
            },
        };
        let content = match self.draft_content_repository.get(id) {
            Some(c) => c.copied(),
            None => {
                return Err(ServiceError::DraftNotFound);
            },
        };
        Ok((draft, content))
    }

    /// `identity`'s drafts, newest first.
    pub fn get_drafts(&self, identity: &Principal) -> (r: Result<Vec<Draft>, ServiceError>)
        requires
            self.wf(),
        ensures
            r matches Ok(v) && (forall|i: int, j: int| 0 <= i < j < v@.len() ==> v@[i].id > v@[j].id)
                && (forall|i: int|
                0 <= i < v@.len() ==> self.draft_repository.drafts@.contains_key(
                    #[trigger] v@[i].id,
                ) && same_draft(v@[i], self.draft_repository.drafts@[v@[i].id]) && v@[i].author@
                    == identity@),
    {
        Ok(self.draft_repository.get_drafts_by_author(identity))
    }

    /// Promotes `identity`'s draft `id` to a story with its content, then
    /// removes the draft. Where the story's content cannot be stored the
    /// story is deleted again and the content's error is returned.
    pub fn publish_draft(
        &mut self,
        id: u64,
        identity: &Principal,
        story_repository: &mut StoryRepository,
        story_content_repository: &mut StoryContentRepository,
        now: u64,
    ) -> (r: Result<Story, ServiceError>)
        requires
            old(self).wf(),
            old(story_repository).wf(),
            old(story_content_repository).wf(),
        ensures
            final(self).wf(),
            final(story_repository).wf(),
            final(story_content_repository).wf(),
            !(old(self).draft_repository.drafts@.contains_key(id)
                && old(self).draft_content_repository.contents@.contains_key(id)) ==> r == Err::<
                Story,
                ServiceError,
            >(ServiceError::DraftNotFound) && *final(self) == *old(self),
            r is Ok ==> {
                let draft = old(self).draft_repository.drafts@[id];
                let content = old(self).draft_content_repository.contents@[id];
                &&& r matches Ok(story)
                &&& draft.author@ == identity@
                &&& story.id == old(story_repository).next_id
                &&& story.title == draft.title
                &&& Some(story.detail) == draft.detail
                &&& story.detail.description@.len() > 0
                &&& story.author@ == identity@
                &&& final(story_repository).stories@.contains_key(story.id)
                &&& final(story_content_repository).contents@.contains_key(story.id)
                &&& final(story_content_repository).contents@[story.id].content == content.content
                &&& final(self).draft_repository.drafts@ == old(self).draft_repository.drafts@.remove(id)
                &&& final(self).draft_content_repository.contents@ == old(
                    self,
                ).draft_content_repository.contents@.remove(id)
            },
            publishable(*old(self), id, *identity) && old(story_repository).next_id < u64::MAX
                && !old(story_content_repository).contents@.contains_key(
                old(story_repository).next_id,
            ) ==> r is Ok,
            publishable(*old(self), id, *identity) && old(story_repository).next_id < u64::MAX
                && old(story_content_repository).contents@.contains_key(
                old(story_repository).next_id,
            ) ==> {
                &&& r matches Err(ServiceError::InternalError { reason })
                &&& reason@ == "Failed to publish draft content: "@ + repository_error_message(
                    RepositoryError::Conflict,
                )
                &&& *final(self) == *old(self)
                &&& final(story_repository).stories@ == old(story_repository).stories@
                &&& final(story_content_repository).contents@ == old(
                    story_content_repository,
                ).contents@
            },
    {
        let draft = match self.draft_repository.get(id) {
            Some(d) => d.copied(),
            None => {
                return Err(ServiceError::DraftNotFound);
            },
        };
        let d_content = match self.draft_content_repository.get(id) {
            Some(c) => c.copied(),
            None => {
                return Err(ServiceError::DraftNotFound);
            },
        };
        let authorized = validate_draft_author(&draft.author, identity);
        if let Err(e) = authorized {
            return Err(e);
        }
        let authorized = validate_draft_author(&d_content.author, identity);
        if let Err(e) = authorized {
            return Err(e);
        }
        if draft.title.as_str().is_empty() || d_content.content.as_str().is_empty() {
            return Err(
                ServiceError::UnprocessableEntity {
                    reason: "Title and content cannot be empty".to_string(),
                },
            );
        }
        let detail = match &draft.detail {
            Some(d) => {
                if d.description.as_str().is_empty() {
                    return Err(
                        ServiceError::UnprocessableEntity {
                            reason: "Story detail is required".to_string(),
                        },
                    );
                }
                d.copied()
            },
            None => {
                return Err(
                    ServiceError::UnprocessableEntity {
                        reason: "Story detail is required".to_string(),
                    },
                );
            },
        };
        let story = Story::new(draft, detail);
        let inserted = story_repository.insert(story, now);
        let story = match inserted {
            Ok(s) => s,
            Err(RepositoryError::Conflict) => {
                return Err(ServiceError::Conflict { entity: "Story".to_string() });
            },
            Err(e) => {
                return Err(
                    ServiceError::InternalError { reason: with_cause("Failed to publish draft: ", &e) },
                );
            },
        };
        let s_content = StoryContent::new(story.id, d_content.content, identity.duplicate());
        let stored = story_content_repository.insert(s_content);
        if let Err(content_err) = stored {
            let reason = with_cause("Failed to publish draft content: ", &content_err);
            // compensate: the story must not outlive its missing content
            let rollback = story_repository.delete(story.id);
            if let Err(e) = rollback {
                return Err(
                    ServiceError::InternalError {
                        reason: rollback_reason("Failed to rollback publish draft: ", &e, &reason),
                    },
                );
            }
            proof {
                assert(story_repository.stories@ =~= old(story_repository).stories@);
            }
            return Err(ServiceError::InternalError { reason });
        }
        let removed = self.draft_content_repository.delete(id);
        if let Err(e) = removed {
            return Err(
                ServiceError::InternalError {
                    reason: with_cause("Failed to delete draft content: ", &e),
                },
            );
        }
        let removed = self.draft_repository.delete(id);
        match removed {
            Ok(_) => Ok(story),
            Err(RepositoryError::NotFound) => Err(ServiceError::DraftNotFound),
            Err(e) => Err(ServiceError::InternalError { reason: with_cause("Failed to delete draft: ", &e) }),
        }
    }
}

} // verus!
