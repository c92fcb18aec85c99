use vstd::prelude::*;

verus! {

/// Bit pattern of the single-precision value `2.0`, the reputation every
/// identity starts with.
pub const INITIAL_RATING: u32 = 0x4000_0000;

/// Default cooldown between two ratings of the same counterpart.
pub const DEFAULT_INTERVAL_SECS: u64 = 300;

/// Counts of ratings an identity has submitted and had applied to it.
#[derive(Debug, Clone, Copy, PartialEq, Eq, Structural)]
pub struct Votes {
    pub given: u64,
    pub received: u64,
}

/// The persisted record of one identity.
///
/// `rating` is the bit pattern of a single-precision float: the aggregate is
/// computed in floating point by the caller-supplied blend of
/// `NoseDive::rate`, and this crate only carries it.
#[derive(Debug, Clone, Copy, PartialEq, Eq, Structural)]
pub struct UserState {
    pub rating: u32,
    pub votes: Votes,
}

impl UserState {
    /// The record created at registration: a rating of `2.0`, nothing given,
    /// one rating received.
    pub open spec fn initial() -> UserState {
        UserState { rating: INITIAL_RATING, votes: Votes { given: 0, received: 1 } }
    }
}

impl Default for UserState {
    fn default() -> (r: UserState)
        ensures
            r == UserState::initial(),
    {
        UserState { rating: INITIAL_RATING, votes: Votes { given: 0, received: 1 } }
    }
}

/// A throttling policy: after rating a counterpart, the same rater must wait
/// `secs` seconds before rating it again, else the rating is refused with
/// `msg`.
#[derive(Debug)]
pub struct VoteInterval {
    pub secs: u64,
    pub msg: String,
}

impl View for VoteInterval {
    type V = (u64, Seq<char>);

    open spec fn view(&self) -> (u64, Seq<char>) {
        (self.secs, self.msg@)
    }
}

impl VoteInterval {
    /// A copy with the same cooldown and message.
    pub fn duplicate(&self) -> (r: VoteInterval)
        ensures
            r@ == self@,
    {
        VoteInterval { secs: self.secs, msg: self.msg.clone() }
    }

    /// The refusal message of the default policy.
    pub open spec fn default_msg() -> Seq<char> {
        "you can't vote more than once in 5 minutes"@
    }
}

impl Default for VoteInterval {
    fn default() -> (r: VoteInterval)
        ensures
            r@ == (DEFAULT_INTERVAL_SECS, VoteInterval::default_msg()),
    {
        VoteInterval {
            secs: DEFAULT_INTERVAL_SECS,
            msg: "you can't vote more than once in 5 minutes".to_string(),
        }
    }
}

/// The abstract value of an optional policy.
pub open spec fn interval_view(p: Option<VoteInterval>) -> Option<(u64, Seq<char>)> {
    match p {
        Some(v) => Some(v@),
        None => None,
    }
}

/// A copy of an optional policy.
pub fn duplicate_interval(p: &Option<VoteInterval>) -> (r: Option<VoteInterval>)
    ensures
        interval_view(r) == interval_view(*p),
{
    match p {
        Some(v) => Some(v.duplicate()),
        None => None,
    }
}

/// The last time each of two identities rated the other.
#[derive(Debug, Clone, Copy, PartialEq, Eq, Structural)]
pub struct RatingTimestamps {
    pub they_rated_at: Option<u64>,
    pub you_rated_at: Option<u64>,
}

/// One change to the service's configuration.
#[derive(Debug)]
pub enum PatchSpec {
    /// Replace the throttling policy; `None` disables throttling.
    SetVotingInterval(Option<VoteInterval>),
}

/// A list of configuration changes, applied in order.
#[derive(Debug)]
pub struct ContractPatch(pub Vec<PatchSpec>);

} // verus!
