use itertools::Itertools;
use vstd::prelude::*;

use crate::draft::StoryContentRepository;
use crate::ledger::{applied, transfer_request, LedgerService};
use crate::ledger_model::cached;
use crate::scoring::{
    cap,    calculate_basic_scoring, calculate_category_matching_score, calculate_complete_scoring,
};
use crate::story::{story_ids, StoryRepository, StorySupporterRepository};
use crate::token_types::{Account, BlockIndex, TransferArg, TransferError};
use crate::types::{
    same_content, same_story, CacheKey, Category, Principal, RepositoryError, ServiceError,
    SortOrder, Story, StoryContent, StoryInteractionArgs, SupportSize,
};
use crate::user::{UserService, AI_STAKE_THRESHOLD};

verus! {

broadcast use vstd::string::to_string_from_display_ensures_for_str;

/// Most support one supporter may give one story.
pub const MAX_STORY_SUPPORT_GIVEN: SupportSize = 10;

/// The service error that reports a story repository error.
pub fn map_story_err(e: RepositoryError) -> (r: ServiceError)
    ensures
        e == RepositoryError::NotFound ==> r == ServiceError::StoryNotFound,
        e is IllegalArgument ==> (r matches ServiceError::UnprocessableEntity { reason }
            && e matches RepositoryError::IllegalArgument { reason: given } && reason == given),
        e is Conflict || e is IllegalUpdate || e is UnsupportedOperation ==> r is InternalError,
{
    match e {
        RepositoryError::NotFound => ServiceError::StoryNotFound,
        RepositoryError::IllegalArgument { reason } => ServiceError::UnprocessableEntity { reason },
        RepositoryError::Conflict => ServiceError::InternalError { reason: "Conflict".to_string() },
        RepositoryError::IllegalUpdate { reason } => ServiceError::InternalError { reason },
        RepositoryError::UnsupportedOperation => ServiceError::InternalError {
            reason: "UnsupportedOperation".to_string(),
        },
    }
}

/// The service error that reports a failed transfer.
pub fn map_transfer_err(e: TransferError) -> (r: ServiceError)
    ensures
        r is TransferError,
{
    let reason = match e {
        TransferError::BadFee { .. } => "BadFee",
        TransferError::BadBurn { .. } => "BadBurn",
        TransferError::InsufficientFunds { .. } => "InsufficientFunds",
        TransferError::TooOld => "TooOld",
        TransferError::CreatedInFuture { .. } => "CreatedInFuture",
        TransferError::TemporarilyUnavailable => "TemporarilyUnavailable",
        TransferError::Duplicate { .. } => "Duplicate",
        TransferError::GenericError { .. } => "GenericError",
    };
    ServiceError::TransferError { reason: reason.to_string() }
}

/// Rejects a supporter who wrote the story.
pub fn validate_supporter(author: &Principal, supporter: &Principal) -> (r: Result<(), ServiceError>)
    ensures
        author@ != supporter@ ==> r == Ok::<(), ServiceError>(()),
        author@ == supporter@ ==> (r matches Err(ServiceError::UnprocessableEntity { reason })
            && reason@ == "You cannot support your own story."@),
{
    if author.same_as(supporter) {
        return Err(
            ServiceError::UnprocessableEntity {
                reason: "You cannot support your own story.".to_string(),
            },
        );
    }
    Ok(())
}

/// The assistant's reply, or `failure` where it answered that it could not
/// comply.
pub fn assistant_reply(response: String, failure: &str) -> (r: Result<String, String>)
    ensures
        response@ == "::FAILED::"@ ==> (r matches Err(m) && m@ == failure@),
        response@ != "::FAILED::"@ ==> r == Ok::<String, String>(response),
{
    let failed = "::FAILED::".to_string();
    if response == failed {
        return Err(failure.to_string());
    }
    Ok(response)
}

/// Relies on itertools' `sorted_by_cached_key`: the same items, ordered by
/// ascending key; the sort is stable, so items of equal key keep their
/// order, which for items given in ascending second component is that order.
#[verifier::external_body]
fn sort_by_score(items: Vec<(u64, usize)>) -> (r: Vec<(u64, usize)>)
    ensures
        r@.len() == items@.len(),
        forall|k: int| 0 <= k < r@.len() ==> items@.contains(#[trigger] r@[k]),
        forall|k: int| 0 <= k < items@.len() ==> r@.contains(#[trigger] items@[k]),
        forall|i: int, j: int| 0 <= i < j < r@.len() ==> r@[i].0 <= r@[j].0,
        (forall|a: int, b: int| 0 <= a < b < items@.len() ==> items@[a].1 < items@[b].1) ==> forall|
            i: int,
            j: int,
        | 0 <= i < j < r@.len() && r@[i].0 == r@[j].0 ==> r@[i].1 < r@[j].1,
{
    items.into_iter().sorted_by_cached_key(|item| item.0).collect()
}

/// Support given after adding `wanted` to `given`, capped at the maximum.
pub open spec fn capped_support(given: SupportSize, wanted: SupportSize) -> int {
    if given + wanted > MAX_STORY_SUPPORT_GIVEN {
        MAX_STORY_SUPPORT_GIVEN as int
    } else {
        given + wanted
    }
}

/// What `user` had given story `id` before: `(g, t)`, or nothing at all.
pub open spec fn given_before(
    sup: StorySupporterRepository,
    id: u64,
    user: Seq<u8>,
    g: SupportSize,
    t: u128,
) -> bool {
    sup.gives(id, user, g, t) || (!sup.supports(id, user) && g == 0 && t == 0)
}

/// Support given after a request that asks for `wanted` more.
pub open spec fn support_after(g: SupportSize, wanted: Option<SupportSize>) -> int {
    match wanted {
        Some(s) => capped_support(g, s),
        None => g as int,
    }
}

pub open spec fn saturating_support(v: int) -> int {
    if v > u32::MAX {
        u32::MAX as int
    } else {
        v
    }
}

pub open spec fn saturating_tokens(v: int) -> int {
    if v > u128::MAX {
        u128::MAX as int
    } else {
        v
    }
}

/// Score of a story with this support and these tips, for a reader whose
/// followed categories give `category_score`.
pub open spec fn basic_score(support: int, tips: int, category_score: int) -> int {
    cap(cap(support * 10 + cap(tips * 100)) + category_score)
}

/// The request names something, the story exists and `identity` did not
/// write it.
pub open spec fn may_support(s: StoryService, args: StoryInteractionArgs, identity: Principal) -> bool {
    &&& !(args.support.is_none() && args.tip.is_none())
    &&& s.story_repository.stories@.contains_key(args.id)
    &&& s.story_repository.stories@[args.id].author@ != identity@
}

/// The tip transfer that a support request makes.
pub open spec fn tip_transfer(arg: TransferArg, author: Seq<u8>, tip: u128, now: u64) -> bool {
    &&& arg.from_subaccount.is_none()
    &&& arg.to@ == (author, None::<Seq<u8>>)
    &&& arg.amount == tip
    &&& arg.fee.is_none()
    &&& arg.memo.is_none()
    &&& arg.created_at_time == Some(now)
}

/// After a support request by `identity` who had given `g` points, with a
/// tip of `tip_added`: the support is recorded as capped points and `t2`
/// tokens in all, and the story's totals and score follow.
pub open spec fn supported(
    before: StoryService,
    after: StoryService,
    args: StoryInteractionArgs,
    identity: Principal,
    g: SupportSize,
    t2: u128,
    tip_added: int,
) -> bool {
    let old_story = before.story_repository.stories@[args.id];
    let story = after.story_repository.stories@[args.id];
    let g2 = support_after(g, args.support);
    &&& after.story_repository.stories@.contains_key(args.id)
    &&& after.story_repository.supporter.gives(args.id, identity@, g2 as SupportSize, t2)
    &&& story.total_support == saturating_support(old_story.total_support + g2 - g)
    &&& story.total_tip_support == saturating_tokens(old_story.total_tip_support + tip_added)
    &&& exists|k: int|
        0 <= k < before.user_service.user_repository.users@.len()
            && before.user_service.user_repository.users@[k].id@ == identity@ && story.score
            == basic_score(
            g2,
            t2 as int,
            if before.user_service.user_repository.users@[k].followed_categories@.contains(
                old_story.detail.category,
            ) {
                100
            } else {
                0
            },
        )
}

/// Stories, their contents, the ledger that carries tips and the users
/// whose stakes unlock the assistant.
pub struct StoryService {
    pub story_repository: StoryRepository,
    pub story_content_repository: StoryContentRepository,
    pub ledger_service: LedgerService,
    pub user_service: UserService,
}

impl StoryService {
    pub open spec fn wf(&self) -> bool {
        &&& self.story_repository.wf()
        &&& self.story_content_repository.wf()
        &&& self.ledger_service.wf()
        &&& self.user_service.user_repository.wf()
    }

    pub fn new(
        story_repository: StoryRepository,
        story_content_repository: StoryContentRepository,
        ledger_service: LedgerService,
        user_service: UserService,
    ) -> (r: Self)
        ensures
            r.story_repository == story_repository,
            r.story_content_repository == story_content_repository,
            r.ledger_service == ledger_service,
            r.user_service == user_service,
    {
        StoryService { story_repository, story_content_repository, ledger_service, user_service }
    }

    /// Story `id` and its content.
    pub fn get_story(&self, id: u64) -> (r: Result<(Story, StoryContent), ServiceError>)
        ensures
            self.story_repository.stories@.contains_key(id)
                && self.story_content_repository.contents@.contains_key(id) ==> (r matches Ok(
                (s, c),
            ) && same_story(s, self.story_repository.stories@[id]) && same_content(
                c,
                self.story_content_repository.contents@[id],
            )),
            !(self.story_repository.stories@.contains_key(id)
                && self.story_content_repository.contents@.contains_key(id)) ==> r == Err::<
                (Story, StoryContent),
                ServiceError,
            >(ServiceError::StoryNotFound),
    {
        let story = match self.story_repository.get(id) {
            Some(s) => s.copied(),
            None => {
                return Err(ServiceError::StoryNotFound);
            },
        };
        let content = match self.story_content_repository.get(id) {
            Some(c) => c.copied(),
            None => {
                return Err(ServiceError::StoryNotFound);
            },
        };
        Ok((story, content))
    }

    /// `identity` supports story `args.id` with support points and a tip.
    /// Support per supporter is capped; the tip moves from the supporter to
    /// the author through the ledger before anything else is stored.
    pub fn support_story(&mut self, args: StoryInteractionArgs, identity: &Principal, now: u64) -> (r:
        Result<(), ServiceError>)
        requires
            old(self).wf(),
        ensures
            final(self).wf(),
            args.support.is_none() && args.tip.is_none() ==> r == Ok::<(), ServiceError>(())
                && *final(self) == *old(self),
            !(args.support.is_none() && args.tip.is_none())
                && !old(self).story_repository.stories@.contains_key(args.id) ==> r == Err::<
                (),
                ServiceError,
            >(ServiceError::StoryNotFound) && *final(self) == *old(self),
            !(args.support.is_none() && args.tip.is_none())
                && old(self).story_repository.stories@.contains_key(args.id)
                && old(self).story_repository.stories@[args.id].author@ == identity@ ==> (r matches Err(
                ServiceError::UnprocessableEntity { .. },
            )) && *final(self) == *old(self),
            args.tip.is_none() ==> final(self).ledger_service == old(self).ledger_service,
            forall|g: SupportSize, t: u128|
                #[trigger] given_before(
                    old(self).story_repository.supporter,
                    args.id,
                    identity@,
                    g,
                    t,
                ) ==> (may_support(*old(self), args, *identity) && g >= MAX_STORY_SUPPORT_GIVEN
                    ==> r == Ok::<(), ServiceError>(()) && *final(self) == *old(self)),
            forall|g: SupportSize, t: u128|
                #[trigger] given_before(
                    old(self).story_repository.supporter,
                    args.id,
                    identity@,
                    g,
                    t,
                ) ==> (may_support(*old(self), args, *identity) && g < MAX_STORY_SUPPORT_GIVEN
                    && old(self).user_service.user_repository.has(identity@) && args.tip.is_none()
                    && !(support_after(g, args.support) == 0 && t == 0) ==> {
                    &&& r == Ok::<(), ServiceError>(())
                    &&& supported(*old(self), *final(self), args, *identity, g, t, 0)
                }),
            forall|g: SupportSize, t: u128|
                #[trigger] given_before(
                    old(self).story_repository.supporter,
                    args.id,
                    identity@,
                    g,
                    t,
                ) ==> (may_support(*old(self), args, *identity) && g < MAX_STORY_SUPPORT_GIVEN
                    && old(self).user_service.user_repository.has(identity@) && args.tip.is_some()
                    ==> exists|caller: Principal, arg: TransferArg, sent: Result<BlockIndex, TransferError>|
                    {
                        &&& caller@ == identity@
                        &&& tip_transfer(arg, old(self).story_repository.stories@[args.id].author@, args.tip.unwrap(), now)
                        &&& #[trigger] applied(
                            old(self).ledger_service,
                            final(self).ledger_service,
                            transfer_request(caller, arg),
                            now,
                            sent,
                        )
                        &&& sent is Err ==> (r matches Err(ServiceError::TransferError { .. }))
                            && final(self).story_repository == old(self).story_repository
                        &&& sent is Ok && !(support_after(g, args.support) == 0 && saturating_tokens(
                            t as int + args.tip.unwrap() as int,
                        ) == 0) ==> r == Ok::<(), ServiceError>(()) && supported(
                            *old(self),
                            *final(self),
                            args,
                            *identity,
                            g,
                            saturating_tokens(t as int + args.tip.unwrap() as int) as u128,
                            args.tip.unwrap() as int,
                        )
                    }),
    {
        if args.support.is_none() && args.tip.is_none() {
            return Ok(());
        }
        let mut story = match self.story_repository.get(args.id) {
            Some(s) => s.copied(),
            None => {
                return Err(ServiceError::StoryNotFound);
            },
        };
        let valid = validate_supporter(&story.author, identity);
        if let Err(e) = valid {
            return Err(e);
        }
        let given = self.story_repository.get_story_supporter_size(args.id, identity);
        let (mut support_given, mut tip_given) = match given {
            Ok(Some(g)) => {
                proof {
                    let sup = self.story_repository.supporter;
                    assert forall|s0: SupportSize, t0: u128|
                        #[trigger] sup.gives(args.id, identity@, s0, t0) implies s0 == g.0 && t0
                        == g.1 by {
                        let a = choose|a: int|
                            0 <= a < sup.entries@.len() && #[trigger] sup.entries@[a].0 == args.id
                                && sup.entries@[a].1@ == identity@ && sup.entries@[a].2.support
                                == s0 && sup.entries@[a].2.token == t0;
                        let b = choose|b: int|
                            0 <= b < sup.entries@.len() && #[trigger] sup.entries@[b].0 == args.id
                                && sup.entries@[b].1@ == identity@ && sup.entries@[b].2.support
                                == g.0 && sup.entries@[b].2.token == g.1;
                        assert(a == b);
                    }
                }
                g
            },
            Ok(None) => (0, 0),
            Err(e) => {
                return Err(map_story_err(e));
            },
        };
        let ghost g0 = support_given;
        let ghost t0 = tip_given;
        proof {
            let sup = self.story_repository.supporter;
            assert forall|gg: SupportSize, tt: u128|
                #[trigger] given_before(sup, args.id, identity@, gg, tt) implies gg == g0 && tt
                == t0 by {
                if sup.gives(args.id, identity@, gg, tt) {
                    let a = choose|a: int|
                        0 <= a < sup.entries@.len() && #[trigger] sup.entries@[a].0 == args.id
                            && sup.entries@[a].1@ == identity@ && sup.entries@[a].2.support == gg
                            && sup.entries@[a].2.token == tt;
                    assert(sup.supports(args.id, identity@));
                }
            }
        }
        if support_given >= MAX_STORY_SUPPORT_GIVEN {
            return Ok(());
        }
        let ghost mut user_at: int = 0;
        let category_scoring = match self.user_service.get_user(identity) {
            Ok(user) => {
                proof {
                    let users = self.user_service.user_repository.users@;
                    user_at = choose|k: int| 0 <= k < users.len() && users[k] == *user;
                }
                calculate_category_matching_score(&story.detail.category, &user.followed_categories)
            },
            Err(e) => {
                return Err(e);
            },
        };
        if let Some(wanted) = args.support {
            let new_support = if wanted > MAX_STORY_SUPPORT_GIVEN - support_given {
                MAX_STORY_SUPPORT_GIVEN - support_given
            } else {
                wanted
            };
            story.total_support = story.total_support.saturating_add(new_support);
            support_given = support_given + new_support;
        }
        let ghost mut tip_witness: (Principal, TransferArg, Result<BlockIndex, TransferError>) =
            arbitrary();
        if let Some(tip) = args.tip {
            let arg = TransferArg {
                from_subaccount: None,
                to: Account { owner: story.author.duplicate(), subaccount: None },
                amount: tip,
                fee: None,
                memo: None,
                created_at_time: Some(now),
            };
            let caller = identity.duplicate();
            let ghost sent_by = caller;
            let ghost sent_arg = arg;
            let sent = self.ledger_service.transfer(caller, arg, now);
            proof {
                assert(applied(
                    old(self).ledger_service,
                    self.ledger_service,
                    transfer_request(sent_by, sent_arg),
                    now,
                    sent,
                ));
                tip_witness = (sent_by, sent_arg, sent);
            }
            if let Err(e) = sent {
                let r = Err(map_transfer_err(e));
                proof {
                    assert(forall|g: SupportSize, t: u128|
                        #[trigger] given_before(
                            old(self).story_repository.supporter,
                            args.id,
                            identity@,
                            g,
                            t,
                        ) ==> applied(
                            old(self).ledger_service,
                            self.ledger_service,
                            transfer_request(sent_by, sent_arg),
                            now,
                            sent,
                        ));
                }
                return r;
            }
            story.total_tip_support = story.total_tip_support.saturating_add(tip);
            tip_given = tip_given.saturating_add(tip);
        }
        story.score = calculate_basic_scoring(support_given, tip_given, category_scoring);
        let updated = self.story_repository.update(story, now);
        if let Err(e) = updated {
            return Err(map_story_err(e));
        }
        let recorded = self.story_repository.support_story(args.id, identity, support_given, tip_given);
        let r = match recorded {
            Ok(_) => Ok(()),
            Err(e) => Err(map_story_err(e)),
        };
        proof {
            if args.tip.is_some() {
                assert(applied(
                    old(self).ledger_service,
                    self.ledger_service,
                    transfer_request(tip_witness.0, tip_witness.1),
                    now,
                    tip_witness.2,
                ));
            }
        }
        r
    }

    /// A page of `author`'s stories, newest first, and the cursor of the
    /// next page.
    pub fn get_stories_by_author(&self, author: &Principal, cursor: Option<u64>, limit: usize) -> (r:
        Result<(Option<u64>, Vec<Story>), ServiceError>)
        requires
            self.wf(),
        ensures
            r matches Ok((next, v)) && self.story_repository.author_index.index.is_page_desc(
                author@,
                cursor,
                limit,
                story_ids(v@),
            ) && next == if v@.len() > 0 {
                Some(v@.last().id)
            } else {
                None
            },
    {
        let stories = match self.story_repository.get_stories_by_author(author, cursor, limit) {
            Ok(v) => v,
            Err(e) => {
                return Err(map_story_err(e));
            },
        };
        let next = if stories.len() > 0 {
            Some(stories[stories.len() - 1].id)
        } else {
            None
        };
        proof {
            if stories@.len() > 0 {
                assert(story_ids(stories@).last() == stories@.last().id);
            }
        }
        Ok((next, stories))
    }

    /// A page of the stories of `category`, newest first, and the cursor of
    /// the next page.
    pub fn get_stories_by_category(&self, category: Category, cursor: Option<u64>, limit: usize) -> (r:
        Result<(Option<u64>, Vec<Story>), ServiceError>)
        requires
            self.wf(),
        ensures
            limit == 0 ==> (r matches Err(ServiceError::UnprocessableEntity { .. })),
            limit > 0 ==> (r matches Ok((next, v)) && (exists|page: Seq<u64>|
                #[trigger] self.story_repository.category_index.index.is_page_desc(
                    seq![crate::types::category_ordinal(category)],
                    cursor,
                    limit,
                    page,
                ) && story_ids(v@) == page) && next == if v@.len() > 0 {
                Some(v@.last().id)
            } else {
                None
            }),
    {
        let mut categories: Vec<Category> = Vec::new();
        categories.push(category);
        let mut cursors: Vec<Option<u64>> = Vec::new();
        cursors.push(cursor);
        let listed = self.story_repository.get_stories_by_categories(
            categories,
            SortOrder::default_order(),
            cursors,
            limit,
        );
        let stories = match listed {
            Ok(v) => v,
            Err(e) => {
                return Err(map_story_err(e));
            },
        };
        let next = if stories.len() > 0 {
            Some(stories[stories.len() - 1].id)
        } else {
            None
        };
        proof {
            if stories@.len() > 0 {
                assert(story_ids(stories@).last() == stories@.last().id);
            }
            let pages = choose|pages: Seq<Seq<u64>>|
                {
                    &&& pages.len() == 1
                    &&& forall|k: int|
                        0 <= k < pages.len() ==> self.story_repository.category_index.index.is_page_desc(
                            seq![crate::types::category_ordinal(seq![category][k])],
                            seq![cursor][k],
                            (limit as nat / 1nat) as usize,
                            #[trigger] pages[k],
                        )
                    &&& story_ids(stories@) == crate::story::concat_pages(pages)
                };
            assert(pages.drop_last().len() == 0);
            assert(crate::story::concat_pages(pages.drop_last()) =~= Seq::<u64>::empty());
            assert(story_ids(stories@) =~= pages[0]);
            assert(self.story_repository.category_index.index.is_page_desc(
                seq![crate::types::category_ordinal(category)],
                cursor,
                limit,
                pages[0],
            ));
        }
        Ok((next, stories))
    }

    /// Identities of the supporters of story `id`.
    pub fn get_story_supporter(&self, id: u64) -> (r: Result<Vec<Principal>, ServiceError>)
        ensures
            !self.story_repository.stories@.contains_key(id) ==> r == Err::<
                Vec<Principal>,
                ServiceError,
            >(ServiceError::StoryNotFound),
            self.story_repository.stories@.contains_key(id) ==> (r matches Ok(v) && (forall|i: int|
                0 <= i < v@.len() ==> self.story_repository.supporter.supports(
                    id,
                    (#[trigger] v@[i])@,
                ))),
    {
        let supporters = match self.story_repository.get_story_supporters(id) {
            Ok(v) => v,
            Err(e) => {
                return Err(map_story_err(e));
            },
        };
        let mut out: Vec<Principal> = Vec::new();
        let mut i: usize = 0;
        while i < supporters.len()
            invariant
                0 <= i <= supporters@.len(),
                out@.len() == i,
                self.story_repository.supporter.lists_supporters(id, supporters@),
                forall|k: int| 0 <= k < i ==> (#[trigger] out@[k])@ == supporters@[k].0@,
            decreases supporters.len() - i,
        {
            out.push(supporters[i].0.duplicate());
            i = i + 1;
        }
        proof {
            assert forall|k: int| 0 <= k < out@.len() implies self.story_repository.supporter.supports(
                id,
                (#[trigger] out@[k])@,
            ) by {
                let s = supporters@[k];
                assert(self.story_repository.supporter.gives(id, s.0@, s.1, s.2));
            }
        }
        Ok(out)
    }

    /// The text of story `id` for the assistant, where `identity` has
    /// staked enough to use it.
    pub fn assist_source(&self, id: u64, identity: &Principal) -> (r: Result<String, ServiceError>)
        requires
            self.wf(),
        ensures
            cached(self.ledger_service.staked@, identity@) < AI_STAKE_THRESHOLD ==> (r matches Err(
                ServiceError::UnprocessableEntity { .. },
            )),
            cached(self.ledger_service.staked@, identity@) >= AI_STAKE_THRESHOLD
                && !self.story_content_repository.contents@.contains_key(id) ==> r == Err::<
                String,
                ServiceError,
            >(ServiceError::StoryNotFound),
            cached(self.ledger_service.staked@, identity@) >= AI_STAKE_THRESHOLD
                && self.story_content_repository.contents@.contains_key(id) ==> r == Ok::<
                String,
                ServiceError,
            >(self.story_content_repository.contents@[id].content),
    {
        let enabled = self.user_service.ensure_ai_enabled(identity, &self.ledger_service);
        if let Err(e) = enabled {
            return Err(e);
        }
        match self.story_content_repository.get(id) {
            Some(c) => Ok(c.content.clone()),
            None => Err(ServiceError::StoryNotFound),
        }
    }

    /// A page of stories by stored score, reordered by score plus freshness
    /// at `now`, highest first; and the cursor of the next page, taken
    /// before the reordering.
    pub fn get_recommended_stories(&self, cursor: Option<(u64, u64)>, limit: usize, now: u64) -> (r:
        Result<(Option<(u64, u64)>, Vec<Story>), ServiceError>)
        requires
            self.wf(),
        ensures
            r matches Ok((next, v)) && v@.len() <= limit && (forall|i: int|
                0 <= i < v@.len() ==> self.story_repository.stories@.contains_key(
                    (#[trigger] v@[i]).id,
                ) && same_story(v@[i], self.story_repository.stories@[v@[i].id])) && (forall|
                i: int,
                j: int,
            |
                0 <= i < j < v@.len() ==> crate::scoring::cap(
                    v@[i].score + crate::scoring::time_bonus(v@[i].created_at, now),
                ) >= crate::scoring::cap(
                    v@[j].score + crate::scoring::time_bonus(v@[j].created_at, now),
                )) && (v@.len() == 0 ==> next.is_none()),
    {
        let page = match self.story_repository.get_stories_by_score(cursor, limit) {
            Ok(v) => v,
            Err(e) => {
                return Err(map_story_err(e));
            },
        };
        let next = if page.len() > 0 {
            Some((page[page.len() - 1].score, page[page.len() - 1].id))
        } else {
            None
        };
        let mut keyed: Vec<(u64, usize)> = Vec::new();
        let mut i: usize = 0;
        while i < page.len()
            invariant
                0 <= i <= page@.len(),
                keyed@.len() == i,
                forall|k: int|
                    0 <= k < i ==> (#[trigger] keyed@[k]).1 == k && keyed@[k].0 == crate::scoring::cap(
                        page@[k].score + crate::scoring::time_bonus(page@[k].created_at, now),
                    ),
            decreases page.len() - i,
        {
            let key = calculate_complete_scoring(page[i].score, page[i].created_at, now);
            keyed.push((key, i));
            i = i + 1;
        }
        let ghost keyed_v = keyed@;
        let sorted = sort_by_score(keyed);
        let mut out: Vec<Story> = Vec::new();
        let mut k: usize = sorted.len();
        while k > 0
            invariant
                0 <= k <= sorted@.len(),
                sorted@.len() == page@.len(),
                out@.len() == sorted@.len() - k,
                keyed_v.len() == page@.len(),
                forall|i: int|
                    0 <= i < page@.len() ==> same_story(
                        #[trigger] page@[i],
                        self.story_repository.stories@[page@[i].id],
                    ) && self.story_repository.stories@.contains_key(page@[i].id),
                forall|j: int| 0 <= j < sorted@.len() ==> keyed_v.contains(#[trigger] sorted@[j]),
                forall|a: int, b: int| 0 <= a < b < sorted@.len() ==> sorted@[a].0 <= sorted@[b].0,
                forall|m: int|
                    0 <= m < keyed_v.len() ==> (#[trigger] keyed_v[m]).1 == m && keyed_v[m].0
                        == crate::scoring::cap(
                        page@[m].score + crate::scoring::time_bonus(page@[m].created_at, now),
                    ),
                forall|j: int|
                    0 <= j < out@.len() ==> self.story_repository.stories@.contains_key(
                        (#[trigger] out@[j]).id,
                    ) && same_story(out@[j], self.story_repository.stories@[out@[j].id]),
                forall|j: int|
                    0 <= j < out@.len() ==> same_story(
                        #[trigger] out@[j],
                        page@[sorted@[sorted@.len() - 1 - j].1 as int],
                    ) && sorted@[sorted@.len() - 1 - j].1 < page@.len(),
            decreases k,
        {
            k = k - 1;
            proof {
                assert(keyed_v.contains(sorted@[k as int]));
                let m = choose|m: int| 0 <= m < keyed_v.len() && keyed_v[m] == sorted@[k as int];
                assert(sorted@[k as int].1 == m);
            }
            let idx = sorted[k].1;
            out.push(page[idx].copied());
        }
        proof {
            assert forall|a: int, b: int| 0 <= a < b < out@.len() implies crate::scoring::cap(
                out@[a].score + crate::scoring::time_bonus(out@[a].created_at, now),
            ) >= crate::scoring::cap(
                out@[b].score + crate::scoring::time_bonus(out@[b].created_at, now),
            ) by {
                let n = sorted@.len();
                let sa = sorted@[n - 1 - a];
                let sb = sorted@[n - 1 - b];
                assert(keyed_v.contains(sa));
                assert(keyed_v.contains(sb));
                let ma = choose|m: int| 0 <= m < keyed_v.len() && keyed_v[m] == sa;
                let mb = choose|m: int| 0 <= m < keyed_v.len() && keyed_v[m] == sb;
                assert(sb.0 <= sa.0);
            }
        }
        Ok((next, out))
    }
}

} // verus!
