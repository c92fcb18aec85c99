//! Properties of the service that relate several operations.
use crate::engine::{Failure, LedgerModel, NANOS_PER_SEC};
use crate::rating::is_valid_rating;
use crate::types::{PatchSpec, RatingTimestamps, UserState};
use vstd::prelude::*;

verus! {

/// Once an identity has registered, registering it again is refused with
/// `AlreadyRegistered` (and `register` then leaves the state as it was).
pub proof fn register_twice_refused(m: LedgerModel, id: Seq<char>)
    requires
        m.register_failure(id) == None::<Failure>,
    ensures
        m.registered(id).register_failure(id) == Some(Failure::AlreadyRegistered),
{
}

/// A rating that is not one of `0, 0.5, ..., 5` is refused with
/// `InvalidRating`, whoever the parties are; a valid one is never refused
/// for that reason.
pub proof fn invalid_rating_refused(
    m: LedgerModel,
    rater: Seq<char>,
    ratee: Seq<char>,
    rating: u32,
    now: u64,
)
    ensures
        (m.rate_failure(rater, ratee, rating, now) == Some(Failure::InvalidRating))
            == !is_valid_rating(rating),
{
}

/// An identity rating itself with a valid rating is refused with
/// `SelfRating`, registered or not.
pub proof fn self_rating_refused(m: LedgerModel, x: Seq<char>, rating: u32, now: u64)
    requires
        is_valid_rating(rating),
    ensures
        m.rate_failure(x, x, rating, now) == Some(Failure::SelfRating),
{
}

/// Rating, status and timestamp queries that involve an unregistered
/// identity, on either side, are refused with `NotRegistered` (a rating
/// once it is valid and between two distinct identities).
pub proof fn unregistered_refused(
    m: LedgerModel,
    a: Seq<char>,
    b: Seq<char>,
    rating: u32,
    now: u64,
)
    requires
        !m.users.contains_key(a),
    ensures
        m.status(a) == Err::<UserState, Failure>(Failure::NotRegistered),
        m.rating_timestamps(a, b) == Err::<RatingTimestamps, Failure>(Failure::NotRegistered),
        m.rating_timestamps(b, a) == Err::<RatingTimestamps, Failure>(Failure::NotRegistered),
        is_valid_rating(rating) && a != b ==> m.rate_failure(a, b, rating, now) == Some(
            Failure::NotRegistered,
        ) && m.rate_failure(b, a, rating, now) == Some(Failure::NotRegistered),
{
}

/// After `rater` rated `ratee` at `t1` under a policy with cooldown `secs`,
/// rating the same counterpart again at `t2` while fewer than `secs` whole
/// seconds have passed is refused with `Throttled` and the policy's message.
pub proof fn rerating_within_cooldown_throttled(
    m: LedgerModel,
    rater: Seq<char>,
    ratee: Seq<char>,
    r1: u32,
    t1: u64,
    new_rating: u32,
    r2: u32,
    t2: u64,
    secs: u64,
    msg: Seq<char>,
)
    requires
        m.rate_failure(rater, ratee, r1, t1) == None::<Failure>,
        is_valid_rating(r2),
        m.vote_interval == Some((secs, msg)),
        t2 < t1 || (t2 - t1) / (NANOS_PER_SEC as int) < secs,
    ensures
        ({
            let later = m.rated(rater, ratee, t1, new_rating);
            later.rate_failure(rater, ratee, r2, t2) matches Some(
                Failure::Throttled { wait_secs, msg: m2 },
            ) && m2 == msg
        }),
{
}

/// Once at least the cooldown has passed since the last rating of a pair,
/// the policy no longer holds the next rating of that pair back.
pub proof fn rerating_after_cooldown_allowed(
    m: LedgerModel,
    rater: Seq<char>,
    ratee: Seq<char>,
    now: u64,
    secs: u64,
    msg: Seq<char>,
)
    requires
        m.vote_interval == Some((secs, msg)),
        m.history.contains_key((rater, ratee)),
        m.history[(rater, ratee)] <= now,
        (now - m.history[(rater, ratee)]) / (NANOS_PER_SEC as int) >= secs,
    ensures
        m.throttle(rater, ratee, now) == None::<Failure>,
{
}

/// Before two identities have rated each other neither timestamp is
/// present; after `b` rated `a` at `t1` and then `a` rated `b` at `t2`,
/// `a` sees its own rating at `t2` and `b`'s at `t1`.
pub proof fn timestamps_follow_ratings(
    m: LedgerModel,
    a: Seq<char>,
    b: Seq<char>,
    r1: u32,
    t1: u64,
    x1: u32,
    r2: u32,
    t2: u64,
    x2: u32,
)
    requires
        m.users.contains_key(a),
        m.users.contains_key(b),
        !m.history.contains_key((a, b)),
        !m.history.contains_key((b, a)),
        m.rate_failure(b, a, r1, t1) == None::<Failure>,
        m.rated(b, a, t1, x1).rate_failure(a, b, r2, t2) == None::<Failure>,
    ensures
        m.rating_timestamps(a, b) == Ok::<RatingTimestamps, Failure>(
            RatingTimestamps { they_rated_at: None, you_rated_at: None },
        ),
        m.rated(b, a, t1, x1).rated(a, b, t2, x2).rating_timestamps(a, b) == Ok::<
            RatingTimestamps,
            Failure,
        >(RatingTimestamps { they_rated_at: Some(t1), you_rated_at: Some(t2) }),
{
    assert(a != b);
}

/// A patch from anyone but the administrator is refused with
/// `Unauthorized` (and `patch_state` then leaves the policy as it was).
pub proof fn patch_requires_admin(m: LedgerModel, caller: Seq<char>, patches: Seq<PatchSpec>)
    requires
        caller != m.admin,
    ensures
        m.patched(caller, patches) == Err::<LedgerModel, Failure>(Failure::Unauthorized),
{
}

} // verus!
