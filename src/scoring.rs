use vstd::prelude::*;

use crate::types::Category;

verus! {

/// Nanoseconds in a second.
pub const NANOS_PER_SECOND: u64 = 1_000_000_000;

/// Seconds in one step of the freshness bonus: three days.
pub const BONUS_STEP_SECONDS: u64 = 259_200;

/// Freshness bonus of a story created just now.
pub const MAX_TIME_BONUS: u64 = 3660;

/// Bonus lost per step of age.
pub const BONUS_DECAY: u64 = 10;

/// Score for a story in one of the reader's followed categories.
pub const CATEGORY_MATCH_SCORE: u64 = 100;

/// Freshness bonus of a story created at `created_at`, seen at `now`: it
/// falls by `BONUS_DECAY` every three days of age, down to zero.
pub open spec fn time_bonus(created_at: u64, now: u64) -> int {
    let age = if now >= created_at {
        (now - created_at) as int / NANOS_PER_SECOND as int
    } else {
        0
    };
    let lost = (age / BONUS_STEP_SECONDS as int) * BONUS_DECAY as int;
    if lost >= MAX_TIME_BONUS {
        0
    } else {
        MAX_TIME_BONUS - lost
    }
}

/// `v` capped at `u64::MAX`.
pub open spec fn cap(v: int) -> int {
    if v > u64::MAX {
        u64::MAX as int
    } else {
        v
    }
}

/// Freshness bonus; a creation time after `now` counts as age zero.
pub fn calculate_time_bonus_scoring(created_at: u64, now: u64) -> (r: u64)
    ensures
        r == time_bonus(created_at, now),
{
    let age_seconds = now.saturating_sub(created_at) / NANOS_PER_SECOND;
    let steps = age_seconds / BONUS_STEP_SECONDS;
    if steps >= MAX_TIME_BONUS / BONUS_DECAY {
        0
    } else {
        MAX_TIME_BONUS - steps * BONUS_DECAY
    }
}

/// Score from support, tips and category match, each capped at `u64::MAX`.
pub fn calculate_basic_scoring(support: u32, tips: u128, category_matching_score: u64) -> (r: u64)
    ensures
        r == cap(cap(support as int * 10 + cap(tips as int * 100)) + category_matching_score),
{
    let support_score = support as u64 * 10;
    let tip_score: u64 = if tips > (u64::MAX / 100) as u128 {
        u64::MAX
    } else {
        (tips * 100) as u64
    };
    support_score.saturating_add(tip_score).saturating_add(category_matching_score)
}

/// Basic score plus freshness bonus, capped at `u64::MAX`.
pub fn calculate_complete_scoring(basic_scoring: u64, created_at: u64, now: u64) -> (r: u64)
    ensures
        r == cap(basic_scoring + time_bonus(created_at, now)),
{
    basic_scoring.saturating_add(calculate_time_bonus_scoring(created_at, now))
}

/// `CATEGORY_MATCH_SCORE` where `category` is among `categories`, else zero.
pub fn calculate_category_matching_score(category: &Category, categories: &Vec<Category>) -> (r:
    u64)
    ensures
        r == if categories@.contains(*category) {
            CATEGORY_MATCH_SCORE
        } else {
            0
        },
{
    let mut i: usize = 0;
    while i < categories.len()
        invariant
            0 <= i <= categories@.len(),
            forall|j: int| 0 <= j < i ==> categories@[j] != *category,
        decreases categories.len() - i,
    {
        if categories[i] == *category {
            assert(categories@[i as int] == *category);
            return CATEGORY_MATCH_SCORE;
        }
        i = i + 1;
    }
    0
}

} // verus!
