use vstd::prelude::*;

use crate::ledger::LedgerService;
use crate::ledger_model::cached;
use crate::token_types::Account;
use crate::types::{
    principal_text, CacheKey, OnboardingArgs, Principal, RepositoryError, ServiceError,
    User, MAX_PRINCIPAL_BYTES,
};

verus! {

broadcast use vstd::string::to_string_from_display_ensures_for_str;

/// Stake that unlocks the assistant features.
pub const AI_STAKE_THRESHOLD: u128 = 1_000_000;

/// Categories that onboarding asks for.
pub const ONBOARDING_CATEGORIES: usize = 3;

/// Registered users, keyed by identity.
pub struct UserRepository {
    pub users: Vec<User>,
}

impl UserRepository {
    /// No identity is registered twice.
    pub open spec fn wf(&self) -> bool {
        forall|a: int, b: int|
            0 <= a < self.users@.len() && 0 <= b < self.users@.len() && a != b ==> self.users@[a].id@
                != self.users@[b].id@
    }

    /// A user with identity `id` is registered.
    pub open spec fn has(&self, id: Seq<u8>) -> bool {
        exists|i: int| 0 <= i < self.users@.len() && #[trigger] self.users@[i].id@ == id
    }

    pub fn new() -> (r: Self)
        ensures
            r.wf(),
            forall|id: Seq<u8>| !r.has(id),
    {
        UserRepository { users: Vec::new() }
    }

    fn position(&self, id: &Principal) -> (r: Option<usize>)
        ensures
            match r {
                Some(i) => i < self.users@.len() && self.users@[i as int].id@ == id@,
                None => !self.has(id@),
            },
    {
        let mut i: usize = 0;
        while i < self.users.len()
            invariant
                0 <= i <= self.users@.len(),
                forall|j: int| 0 <= j < i ==> self.users@[j].id@ != id@,
            decreases self.users.len() - i,
        {
            if self.users[i].id.same_as(id) {
                return Some(i);
            }
            i = i + 1;
        }
        None
    }

    pub fn contains(&self, id: &Principal) -> (r: bool)
        ensures
            r == self.has(id@),
    {
        self.position(id).is_some()
    }

    /// The user registered under `id`.
    pub fn get(&self, id: &Principal) -> (r: Option<&User>)
        ensures
            match r {
                Some(u) => u.id@ == id@ && self.users@.contains(*u),
                None => !self.has(id@),
            },
    {
        match self.position(id) {
            Some(i) => Some(&self.users[i]),
            None => None,
        }
    }

    /// Registers a new user, stamped `created_at = now`; `Conflict` where
    /// the identity is taken.
    pub fn insert(&mut self, value: User, now: u64) -> (r: Result<(), RepositoryError>)
        requires
            old(self).wf(),
        ensures
            final(self).wf(),
            old(self).has(value.id@) ==> r == Err::<(), RepositoryError>(RepositoryError::Conflict)
                && *final(self) == *old(self),
            !old(self).has(value.id@) ==> r == Ok::<(), RepositoryError>(()) && final(self).users@
                == old(self).users@.push(User { created_at: now, ..value }),
    {
        if self.position(&value.id).is_some() {
            return Err(RepositoryError::Conflict);
        }
        let mut value = value;
        value.created_at = now;
        let ghost before = self.users@;
        self.users.push(value);
        proof {
            let after = self.users@;
            assert forall|a: int, b: int|
                0 <= a < after.len() && 0 <= b < after.len() && a != b implies after[a].id@
                != after[b].id@ by {
                if a < before.len() && b < before.len() {
                    assert(after[a] == before[a] && after[b] == before[b]);
                } else if a < before.len() {
                    assert(after[a] == before[a]);
                } else {
                    assert(after[b] == before[b]);
                }
            }
        }
        Ok(())
    }

    /// Replaces the user registered under `value.id`; `NotFound` where there
    /// is none.
    pub fn update(&mut self, value: User) -> (r: Result<(), RepositoryError>)
        requires
            old(self).wf(),
        ensures
            final(self).wf(),
            !old(self).has(value.id@) ==> r == Err::<(), RepositoryError>(
                RepositoryError::NotFound,
            ) && *final(self) == *old(self),
            old(self).has(value.id@) ==> r == Ok::<(), RepositoryError>(()) && exists|i: int|
                0 <= i < old(self).users@.len() && old(self).users@[i].id@ == value.id@
                    && final(self).users@ == old(self).users@.update(i, value),
    {
        match self.position(&value.id) {
            None => Err(RepositoryError::NotFound),
            Some(i) => {
                let ghost before = self.users@;
                self.users.set(i, value);
                proof {
                    let after = self.users@;
                    assert forall|a: int, b: int|
                        0 <= a < after.len() && 0 <= b < after.len() && a != b implies after[a].id@
                        != after[b].id@ by {
                        assert(before[a].id@ != before[b].id@);
                    }
                }
                Ok(())
            },
        }
    }
}

/// The service error that reports a user repository error.
pub fn map_user_err(e: RepositoryError) -> (r: ServiceError)
    ensures
        e == RepositoryError::NotFound ==> (r matches ServiceError::IdentityNotFound { identity }
            && identity@ == "User not found."@),
        e == RepositoryError::Conflict ==> (r matches ServiceError::Conflict { entity }
            && entity@ == "User"@),
        e is IllegalArgument ==> (r matches ServiceError::UnprocessableEntity { reason }
            && e matches RepositoryError::IllegalArgument { reason: given } && reason == given),
        e is IllegalUpdate || e is UnsupportedOperation ==> r is InternalError,
{
    match e {
        RepositoryError::NotFound => ServiceError::IdentityNotFound {
            identity: "User not found.".to_string(),
        },
        RepositoryError::Conflict => ServiceError::Conflict { entity: "User".to_string() },
        RepositoryError::IllegalArgument { reason } => ServiceError::UnprocessableEntity { reason },
        RepositoryError::IllegalUpdate { reason } => ServiceError::InternalError { reason },
        RepositoryError::UnsupportedOperation => ServiceError::InternalError {
            reason: "UnsupportedOperation".to_string(),
        },
    }
}

/// The textual form of an identity, for error reports.
pub open spec fn identity_text(p: Principal) -> Seq<char> {
    if p@.len() <= MAX_PRINCIPAL_BYTES {
        principal_text(p@)
    } else {
        Seq::empty()
    }
}

/// Registration, onboarding and feature gating of users.
pub struct UserService {
    pub user_repository: UserRepository,
}

impl UserService {
    pub fn new(user_repository: UserRepository) -> (r: Self)
        ensures
            r.user_repository == user_repository,
    {
        UserService { user_repository }
    }

    /// Registers `identity`; `Conflict` where it already is.
    pub fn register(&mut self, identity: Principal, created_at: u64) -> (r: Result<(), ServiceError>)
        requires
            old(self).user_repository.wf(),
        ensures
            final(self).user_repository.wf(),
            old(self).user_repository.has(identity@) ==> (r matches Err(
                ServiceError::Conflict { entity },
            ) && entity@ == "User already exists."@) && *final(self) == *old(self),
            !old(self).user_repository.has(identity@) ==> r == Ok::<(), ServiceError>(())
                && final(self).user_repository.has(identity@),
    {
        if self.user_repository.contains(&identity) {
            return Err(ServiceError::Conflict { entity: "User already exists.".to_string() });
        }
        let user = User::new(identity, created_at);
        let ghost id = user.id@;
        let inserted = self.user_repository.insert(user, created_at);
        match inserted {
            Ok(()) => {
                proof {
                    let n = self.user_repository.users@.len() - 1;
                    assert(self.user_repository.users@[n].id@ == id);
                }
                Ok(())
            },
            Err(e) => Err(map_user_err(e)),
        }
    }

    /// The user registered under `identity`; `IdentityNotFound` otherwise.
    pub fn get_user(&self, identity: &Principal) -> (r: Result<&User, ServiceError>)
        ensures
            self.user_repository.has(identity@) ==> (r matches Ok(u) && u.id@ == identity@
                && self.user_repository.users@.contains(*u)),
            !self.user_repository.has(identity@) ==> (r matches Err(
                ServiceError::IdentityNotFound { identity: text },
            ) && text@ == identity_text(*identity)),
    {
        match self.user_repository.get(identity) {
            Some(u) => Ok(u),
            None => Err(ServiceError::IdentityNotFound { identity: identity.to_text() }),
        }
    }

    /// Records the onboarding answers of `identity`, once; exactly three
    /// categories are asked for.
    pub fn complete_onboarding(&mut self, identity: &Principal, args: OnboardingArgs) -> (r: Result<
        (),
        ServiceError,
    >)
        requires
            old(self).user_repository.wf(),
        ensures
            final(self).user_repository.wf(),
            args.categories@.len() != ONBOARDING_CATEGORIES ==> (r matches Err(
                ServiceError::UnprocessableEntity { reason },
            ) && reason@ == "You must select exactly 3 categories."@) && *final(self)
                == *old(self),
            args.categories@.len() == ONBOARDING_CATEGORIES && !old(self).user_repository.has(
                identity@,
            ) ==> (r matches Err(ServiceError::IdentityNotFound { identity: text })
                && text@ == identity_text(*identity)) && *final(self) == *old(self),
            args.categories@.len() == ONBOARDING_CATEGORIES && (exists|i: int|
                0 <= i < old(self).user_repository.users@.len()
                    && #[trigger] old(self).user_repository.users@[i].id@ == identity@
                    && !old(self).user_repository.users@[i].onboarded) ==> r is Ok,
            r is Ok ==> exists|i: int|
                #![trigger final(self).user_repository.users@[i]]
                0 <= i < old(self).user_repository.users@.len() && {
                    let before = old(self).user_repository.users@[i];
                    let after = final(self).user_repository.users@[i];
                    &&& before.id@ == identity@
                    &&& !before.onboarded
                    &&& after.id@ == identity@
                    &&& after.onboarded
                    &&& after.name == args.name
                    &&& after.bio == args.bio
                    &&& after.followed_categories == args.categories
                    &&& after.follower == before.follower
                    &&& after.created_at == before.created_at
                    &&& final(self).user_repository.users@ == old(
                        self,
                    ).user_repository.users@.update(i, after)
                },
    {
        if args.categories.len() != ONBOARDING_CATEGORIES {
            return Err(
                ServiceError::UnprocessableEntity {
                    reason: "You must select exactly 3 categories.".to_string(),
                },
            );
        }
        let i = match self.user_repository.position(identity) {
            Some(i) => i,
            None => {
                return Err(ServiceError::IdentityNotFound { identity: identity.to_text() });
            },
        };
        if self.user_repository.users[i].onboarded {
            return Err(
                ServiceError::UnprocessableEntity {
                    reason: "You have already completed onboarding.".to_string(),
                },
            );
        }
        let ghost before = self.user_repository.users@[i as int];
        let current = &self.user_repository.users[i];
        let user = User {
            id: current.id.duplicate(),
            name: args.name,
            bio: args.bio,
            follower: current.follower,
            created_at: current.created_at,
            followed_categories: args.categories,
            followed_authors: copy_principals(&current.followed_authors),
            onboarded: true,
        };
        let ghost u = user;
        let ghost users0 = self.user_repository.users@;
        let updated = self.user_repository.update(user);
        match updated {
            Ok(()) => {
                proof {
                    let j = choose|j: int|
                        0 <= j < users0.len() && users0[j].id@ == u.id@
                            && self.user_repository.users@ == users0.update(j, u);
                    assert(users0[i as int].id@ == users0[j].id@);
                    assert(j == i as int);
                    assert(self.user_repository.users@[i as int] == u);
                }
                Ok(())
            },
            Err(e) => Err(map_user_err(e)),
        }
    }

    /// Whether `identity` has staked enough to use the assistant.
    pub fn ensure_ai_enabled(&self, identity: &Principal, ledger: &LedgerService) -> (r: Result<
        (),
        ServiceError,
    >)
        requires
            ledger.wf(),
        ensures
            r is Ok <==> cached(ledger.staked@, identity@) >= AI_STAKE_THRESHOLD,
            r is Err ==> (r matches Err(ServiceError::UnprocessableEntity { reason }) && reason@
                == "You need to stake at least 1 million of your token to unlock this feature"@),
    {
        let account = Account { owner: identity.duplicate(), subaccount: None };
        let staked = ledger.locked_balance_of(&account);
        if staked < AI_STAKE_THRESHOLD {
            return Err(
                ServiceError::UnprocessableEntity {
                    reason: "You need to stake at least 1 million of your token to unlock this feature".to_string(),
                },
            );
        }
        Ok(())
    }
}

/// Copies of a list of identities.
pub fn copy_principals(v: &Vec<Principal>) -> (r: Vec<Principal>)
    ensures
        r@.len() == v@.len(),
        forall|i: int| 0 <= i < v@.len() ==> (#[trigger] r@[i])@ == v@[i]@,
{
    let mut out: Vec<Principal> = Vec::new();
    let mut i: usize = 0;
    while i < v.len()
        invariant
            0 <= i <= v@.len(),
            out@.len() == i,
            forall|k: int| 0 <= k < i ==> (#[trigger] out@[k])@ == v@[k]@,
        decreases v.len() - i,
    {
        out.push(v[i].duplicate());
        i = i + 1;
    }
    out
}

} // verus!
