//! The rating service: registration, rating with throttling and aggregation,
//! queries, and administrator patches.
use crate::rating::{is_valid_rating, validate_rating};
use crate::table::{RatingPair, Table};
use crate::types::{
    duplicate_interval, interval_view, ContractPatch, PatchSpec, RatingTimestamps, UserState,
    VoteInterval, Votes, DEFAULT_INTERVAL_SECS,
};
use vstd::prelude::*;

verus! {

/// Nanoseconds in a second; timestamps are nanoseconds, cooldowns seconds.
pub const NANOS_PER_SEC: u64 = 1_000_000_000;

/// Why an operation was refused. A refused operation changes nothing.
#[derive(Debug, PartialEq, Eq)]
pub enum NoseDiveError {
    /// The caller already has a record.
    AlreadyRegistered,
    /// An identity named by the call has no record.
    NotRegistered,
    /// The rating is not one of `0, 0.5, ..., 5`.
    InvalidRating,
    /// The rater and the ratee are the same identity.
    SelfRating,
    /// The rater rated the same ratee less than the cooldown ago: `wait_secs`
    /// more seconds must pass; `msg` is the policy's message.
    Throttled { wait_secs: u64, msg: String },
    /// Only the administrator may patch the service.
    Unauthorized,
    /// A vote counter of the rater or the ratee is at its maximum.
    CounterOverflow,
}

/// The abstract value of a `NoseDiveError`.
pub enum Failure {
    AlreadyRegistered,
    NotRegistered,
    InvalidRating,
    SelfRating,
    Throttled { wait_secs: u64, msg: Seq<char> },
    Unauthorized,
    CounterOverflow,
}

impl View for NoseDiveError {
    type V = Failure;

    open spec fn view(&self) -> Failure {
        match self {
            NoseDiveError::AlreadyRegistered => Failure::AlreadyRegistered,
            NoseDiveError::NotRegistered => Failure::NotRegistered,
            NoseDiveError::InvalidRating => Failure::InvalidRating,
            NoseDiveError::SelfRating => Failure::SelfRating,
            NoseDiveError::Throttled { wait_secs, msg } => Failure::Throttled {
                wait_secs: *wait_secs,
                msg: msg@,
            },
            NoseDiveError::Unauthorized => Failure::Unauthorized,
            NoseDiveError::CounterOverflow => Failure::CounterOverflow,
        }
    }
}

/// What `m` maps `k` to, if anything.
pub open spec fn map_get<K, V>(m: Map<K, V>, k: K) -> Option<V> {
    if m.contains_key(k) {
        Some(m[k])
    } else {
        None
    }
}

/// The policy after applying `patches` in order to `cur`: the last patch
/// wins, and no patch leaves `cur` as it is.
pub open spec fn interval_after(
    cur: Option<(u64, Seq<char>)>,
    patches: Seq<PatchSpec>,
) -> Option<(u64, Seq<char>)> {
    if patches.len() == 0 {
        cur
    } else {
        match patches.last() {
            PatchSpec::SetVotingInterval(v) => interval_view(v),
        }
    }
}

/// The abstract state of the service.
pub struct LedgerModel {
    /// identity -> its record
    pub users: Map<Seq<char>, UserState>,
    /// (rater, ratee) -> time of the rater's latest rating of the ratee
    pub history: Map<(Seq<char>, Seq<char>), u64>,
    /// cooldown in seconds and refusal message; `None`: no throttling
    pub vote_interval: Option<(u64, Seq<char>)>,
    /// the identity allowed to patch the service
    pub admin: Seq<char>,
}

impl LedgerModel {
    /// The state of a fresh service: nobody registered, nothing rated, the
    /// default cooldown in force.
    pub open spec fn initial(admin: Seq<char>) -> LedgerModel {
        LedgerModel {
            users: Map::empty(),
            history: Map::empty(),
            vote_interval: Some((DEFAULT_INTERVAL_SECS, VoteInterval::default_msg())),
            admin,
        }
    }

    /// Every record has received at least one rating, and history only holds
    /// pairs of two distinct registered identities.
    pub open spec fn consistent(self) -> bool {
        &&& forall|id: Seq<char>| #[trigger]
            self.users.contains_key(id) ==> self.users[id].votes.received >= 1
        &&& forall|p: (Seq<char>, Seq<char>)| #[trigger]
            self.history.contains_key(p) ==> self.users.contains_key(p.0)
                && self.users.contains_key(p.1) && p.0 != p.1
    }

    /// Why `caller` may not register: it already has a record.
    pub open spec fn register_failure(self, caller: Seq<char>) -> Option<Failure> {
        if self.users.contains_key(caller) {
            Some(Failure::AlreadyRegistered)
        } else {
            None
        }
    }

    /// The state after `caller` registered: it holds the initial record.
    pub open spec fn registered(self, caller: Seq<char>) -> LedgerModel {
        LedgerModel { users: self.users.insert(caller, UserState::initial()), ..self }
    }

    /// The record of `id`, if it is registered.
    pub open spec fn status(self, id: Seq<char>) -> Result<UserState, Failure> {
        if self.users.contains_key(id) {
            Ok(self.users[id])
        } else {
            Err(Failure::NotRegistered)
        }
    }

    /// When `caller` last rated `other` and `other` last rated `caller`,
    /// once both are registered.
    pub open spec fn rating_timestamps(self, caller: Seq<char>, other: Seq<char>) -> Result<
        RatingTimestamps,
        Failure,
    > {
        if !self.users.contains_key(caller) || !self.users.contains_key(other) {
            Err(Failure::NotRegistered)
        } else {
            Ok(
                RatingTimestamps {
                    they_rated_at: map_get(self.history, (other, caller)),
                    you_rated_at: map_get(self.history, (caller, other)),
                },
            )
        }
    }

    /// Why `rater` may not rate `ratee` at time `now`, if the policy
    /// forbids it: the time since the last such rating, in whole seconds,
    /// is under the cooldown (a clock that went back counts as no time).
    pub open spec fn throttle(self, rater: Seq<char>, ratee: Seq<char>, now: u64) -> Option<
        Failure,
    > {
        match self.vote_interval {
            None => None,
            Some((secs, msg)) => if !self.history.contains_key((rater, ratee)) {
                None
            } else {
                let last = self.history[(rater, ratee)];
                if now < last {
                    Some(Failure::Throttled { wait_secs: secs, msg })
                } else if (now - last) / (NANOS_PER_SEC as int) >= secs {
                    None
                } else {
                    Some(
                        Failure::Throttled {
                            wait_secs: (secs - (now - last) / (NANOS_PER_SEC as int)) as u64,
                            msg,
                        },
                    )
                }
            },
        }
    }

    /// Why `rater` may not give `ratee` the rating `rating` at time `now`, in
    /// the order the checks are made; `None` when the rating is accepted.
    pub open spec fn rate_failure(self, rater: Seq<char>, ratee: Seq<char>, rating: u32, now: u64) -> Option<
        Failure,
    > {
        if !is_valid_rating(rating) {
            Some(Failure::InvalidRating)
        } else if rater == ratee {
            Some(Failure::SelfRating)
        } else if !self.users.contains_key(rater) || !self.users.contains_key(ratee) {
            Some(Failure::NotRegistered)
        } else if self.throttle(rater, ratee, now) is Some {
            self.throttle(rater, ratee, now)
        } else if self.users[ratee].votes.received == u64::MAX || self.users[rater].votes.given
            == u64::MAX {
            Some(Failure::CounterOverflow)
        } else {
            None
        }
    }

    /// The state after an accepted rating: the time is recorded for the pair,
    /// the rater has given one more, and the ratee has received one more and
    /// holds the new aggregate `new_rating`.
    pub open spec fn rated(self, rater: Seq<char>, ratee: Seq<char>, now: u64, new_rating: u32) -> LedgerModel {
        let you = self.users[rater];
        let them = self.users[ratee];
        LedgerModel {
            users: self.users.insert(
                rater,
                UserState {
                    votes: Votes { given: (you.votes.given + 1) as u64, ..you.votes },
                    ..you
                },
            ).insert(
                ratee,
                UserState {
                    rating: new_rating,
                    votes: Votes { received: (them.votes.received + 1) as u64, ..them.votes },
                },
            ),
            history: self.history.insert((rater, ratee), now),
            ..self
        }
    }

    /// The state after `caller` applied `patches`: only the administrator
    /// may, and only the policy changes.
    pub open spec fn patched(self, caller: Seq<char>, patches: Seq<PatchSpec>) -> Result<
        LedgerModel,
        Failure,
    > {
        if caller != self.admin {
            Err(Failure::Unauthorized)
        } else {
            Ok(LedgerModel { vote_interval: interval_after(self.vote_interval, patches), ..self })
        }
    }
}

/// The rating service.
pub struct NoseDive {
    users: Table<String, UserState>,
    history: Table<RatingPair, u64>,
    vote_interval: Option<VoteInterval>,
    admin: String,
}

impl View for NoseDive {
    type V = LedgerModel;

    closed spec fn view(&self) -> LedgerModel {
        LedgerModel {
            users: self.users@,
            history: self.history@,
            vote_interval: interval_view(self.vote_interval),
            admin: self.admin@,
        }
    }
}

impl NoseDive {
    /// A fresh service administered by `admin`, with the default cooldown.
    pub fn new(admin: String) -> (r: NoseDive)
        ensures
            r@ == LedgerModel::initial(admin@),
            r@.consistent(),
    {
        NoseDive {
            users: Table::new(),
            history: Table::new(),
            vote_interval: Some(VoteInterval::default()),
            admin,
        }
    }

    /// Registers `caller` with the initial record.
    pub fn register(&mut self, caller: &String) -> (r: Result<(), NoseDiveError>)
        requires
            old(self)@.consistent(),
        ensures
            final(self)@.consistent(),
            match old(self)@.register_failure(caller@) {
                None => r is Ok && final(self)@ == old(self)@.registered(caller@),
                Some(f) => r matches Err(e) && e@ == f && final(self)@ == old(self)@,
            },
    {
        if self.users.contains(caller) {
            return Err(NoseDiveError::AlreadyRegistered);
        }
        self.users.set(caller.clone(), UserState::default());
        Ok(())
    }

    fn lookup(&self, account_id: &String) -> (r: Result<UserState, NoseDiveError>)
        ensures
            match self@.status(account_id@) {
                Ok(u) => r == Ok::<UserState, NoseDiveError>(u),
                Err(f) => r matches Err(e) && e@ == f,
            },
    {
        match self.users.get(account_id) {
            Some(state) => Ok(state),
            None => Err(NoseDiveError::NotRegistered),
        }
    }

    /// The record of `account_id`.
    pub fn status(&self, account_id: &String) -> (r: Result<UserState, NoseDiveError>)
        ensures
            match self@.status(account_id@) {
                Ok(u) => r == Ok::<UserState, NoseDiveError>(u),
                Err(f) => r matches Err(e) && e@ == f,
            },
    {
        self.lookup(account_id)
    }

    /// When `caller` last rated `account_id`, and when `account_id` last
    /// rated `caller`.
    pub fn rating_timestamps(&self, caller: &String, account_id: &String) -> (r: Result<
        RatingTimestamps,
        NoseDiveError,
    >)
        ensures
            match self@.rating_timestamps(caller@, account_id@) {
                Ok(t) => r == Ok::<RatingTimestamps, NoseDiveError>(t),
                Err(f) => r matches Err(e) && e@ == f,
            },
    {
        if !self.users.contains(caller) || !self.users.contains(account_id) {
            return Err(NoseDiveError::NotRegistered);
        }
        let you_them = RatingPair { rater: caller.clone(), ratee: account_id.clone() };
        let they_you = RatingPair { rater: account_id.clone(), ratee: caller.clone() };
        Ok(
            RatingTimestamps {
                they_rated_at: self.history.get(&they_you),
                you_rated_at: self.history.get(&you_them),
            },
        )
    }

    /// `caller` gives `account_id` the rating whose single-precision bits
    /// are `rating`, at time `now` (nanoseconds).
    ///
    /// The new aggregate of the ratee is
    /// `blend(ratee's rating, ratee's received count, rater's rating, rating)`,
    /// with ratings as single-precision bits and the count before this
    /// rating; the service computes it as
    /// `(them.rating * received + (rating + you.rating) / 2) / (received + 1)`
    /// in single precision.
    pub fn rate<F: Fn(u32, u64, u32, u32) -> u32>(
        &mut self,
        caller: &String,
        account_id: &String,
        rating: u32,
        now: u64,
        blend: F,
    ) -> (r: Result<(), NoseDiveError>)
        requires
            old(self)@.consistent(),
            forall|a: u32, b: u64, c: u32, d: u32| blend.requires((a, b, c, d)),
        ensures
            final(self)@.consistent(),
            match old(self)@.rate_failure(caller@, account_id@, rating, now) {
                None => {
                    let them = old(self)@.users[account_id@];
                    let you = old(self)@.users[caller@];
                    let new_rating = final(self)@.users[account_id@].rating;
                    &&& r is Ok
                    &&& blend.ensures((them.rating, them.votes.received, you.rating, rating), new_rating)
                    &&& final(self)@ == old(self)@.rated(caller@, account_id@, now, new_rating)
                },
                Some(f) => r matches Err(e) && e@ == f && final(self)@ == old(self)@,
            },
    {
        if !validate_rating(rating) {
            return Err(NoseDiveError::InvalidRating);
        }
        if *caller == *account_id {
            return Err(NoseDiveError::SelfRating);
        }
        let mut you = match self.lookup(caller) {
            Ok(u) => u,
            Err(e) => return Err(e),
        };
        let mut them = match self.lookup(account_id) {
            Ok(u) => u,
            Err(e) => return Err(e),
        };
        let pair = RatingPair { rater: caller.clone(), ratee: account_id.clone() };
        if let Some(interval) = &self.vote_interval {
            if let Some(last) = self.history.get(&pair) {
                if now < last {
                    return Err(
                        NoseDiveError::Throttled { wait_secs: interval.secs, msg: interval.msg.clone() },
                    );
                }
                let elapsed: u64 = (now - last) / NANOS_PER_SEC;
                if elapsed < interval.secs {
                    return Err(
                        NoseDiveError::Throttled {
                            wait_secs: interval.secs - elapsed,
                            msg: interval.msg.clone(),
                        },
                    );
                }
            }
        }
        if them.votes.received == u64::MAX || you.votes.given == u64::MAX {
            return Err(NoseDiveError::CounterOverflow);
        }
        let new_rating = blend(them.rating, them.votes.received, you.rating, rating);
        them.votes.received = them.votes.received + 1;
        you.votes.given = you.votes.given + 1;
        them.rating = new_rating;
        self.history.set(pair, now);
        self.users.set(caller.clone(), you);
        self.users.set(account_id.clone(), them);
        proof {
            assert(self@.users =~= old(self)@.rated(caller@, account_id@, now, new_rating).users);
        }
        Ok(())
    }

    /// Applies `patches` in order; only the administrator may.
    pub fn patch_state(&mut self, caller: &String, patches: ContractPatch) -> (r: Result<(), NoseDiveError>)
        requires
            old(self)@.consistent(),
        ensures
            final(self)@.consistent(),
            match old(self)@.patched(caller@, patches.0@) {
                Ok(m) => r is Ok && final(self)@ == m,
                Err(f) => r matches Err(e) && e@ == f && final(self)@ == old(self)@,
            },
    {
        if *caller != self.admin {
            return Err(NoseDiveError::Unauthorized);
        }
        let ghost start = self@;
        let list = &patches.0;
        let mut i: usize = 0;
        while i < list.len()
            invariant
                i <= list@.len(),
                self@ == (LedgerModel {
                    vote_interval: interval_after(start.vote_interval, list@.take(i as int)),
                    ..start
                }),
            decreases list@.len() - i,
        {
            match &list[i] {
                PatchSpec::SetVotingInterval(interval) => {
                    self.vote_interval = duplicate_interval(interval);
                },
            }
            proof {
                assert(list@.take(i + 1).last() == list@[i as int]);
            }
            i = i + 1;
        }
        proof {
            assert(list@.take(i as int) =~= list@);
        }
        Ok(())
    }
}

} // verus!
