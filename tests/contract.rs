use nosedive::{
    validate_rating, ContractPatch, NoseDive, NoseDiveError, PatchSpec, RatingTimestamps,
    UserState, VoteInterval, Votes,
};

const START: u64 = 1_700_000_000_000_000_000;

fn sys() -> String {
    "nosedive_sys.near".to_string()
}

fn alice() -> String {
    "alice.near".to_string()
}

fn bob() -> String {
    "bob.near".to_string()
}

/// The service's aggregate, in single precision.
fn blend(their: u32, received: u64, yours: u32, rating: u32) -> u32 {
    let total = f32::from_bits(their) * received as f32;
    let this_rating = (f32::from_bits(rating) + f32::from_bits(yours)) / 2.0;
    ((total + this_rating) / (received + 1) as f32).to_bits()
}

/// Aborts with the refusal's message, as the hosted service does.
fn ok(r: Result<(), NoseDiveError>) {
    match r {
        Ok(()) => {}
        Err(NoseDiveError::Throttled { msg, .. }) => panic!("{}", msg),
        Err(NoseDiveError::Unauthorized) => panic!(
            "only the account that deployed this contract is permitted to call this method"
        ),
        Err(e) => panic!("{:?}", e),
    }
}

fn rate(svc: &mut NoseDive, caller: String, target: String, rating: f32, now: u64) {
    ok(svc.rate(&caller, &target, rating.to_bits(), now, blend));
}

fn state(rating: f32, given: u64, received: u64) -> UserState {
    UserState { rating: rating.to_bits(), votes: Votes { given, received } }
}

#[test]
fn default() {
    let mut svc = NoseDive::new(sys());
    ok(svc.register(&alice()));
    ok(svc.register(&bob()));
    // --
    assert_eq!(svc.status(&alice()), Ok(state(2.0, 0, 1)));
    assert_eq!(svc.status(&bob()), Ok(state(2.0, 0, 1)));
}

#[test]
fn rate_then_view() {
    let mut svc = NoseDive::new(sys());
    ok(svc.patch_state(&sys(), ContractPatch(vec![PatchSpec::SetVotingInterval(None)])));

    ok(svc.register(&alice()));
    ok(svc.register(&bob()));
    // --
    let mut now = START;
    for _ in 1..=10 {
        rate(&mut svc, bob(), alice(), 4.5, now);
        now += 1;
        rate(&mut svc, alice(), bob(), 5.0, now);
        now += 1;
    }
    // --
    assert_eq!(svc.status(&alice()), Ok(state(3.7977424, 10, 11)));
    assert_eq!(svc.status(&bob()), Ok(state(4.006109, 10, 11)));
}

#[test]
fn lookup_timestaps() {
    let mut svc = NoseDive::new(sys());
    ok(svc.register(&alice()));
    ok(svc.register(&bob()));
    // --
    assert_eq!(
        svc.rating_timestamps(&alice(), &bob()),
        Ok(RatingTimestamps { they_rated_at: None, you_rated_at: None })
    );
    // --
    let start = START;
    rate(&mut svc, bob(), alice(), 4.5, start + 1_000);
    let bob_alice = start + 2_000;

    let later = bob_alice + 2_000_000_000;

    rate(&mut svc, alice(), bob(), 4.5, later);
    let alice_bob = later + 1_000;
    // --
    let ratings = svc.rating_timestamps(&alice(), &bob());
    assert!(matches!(
        ratings,
        Ok(RatingTimestamps {
            you_rated_at: Some(you_rated_at),
            they_rated_at: Some(they_rated_at)
        })
        if (start..=bob_alice).contains(&they_rated_at)
        && (bob_alice..=alice_bob).contains(&you_rated_at)
    ));
}

#[test]
#[should_panic(
    expected = "only the account that deployed this contract is permitted to call this method"
)]
fn patch_auth_violation() {
    let mut svc = NoseDive::new(sys());
    ok(svc.patch_state(&alice(), ContractPatch(vec![PatchSpec::SetVotingInterval(None)])));
}

#[test]
fn patch_auth_pass() {
    let mut svc = NoseDive::new(sys());
    ok(svc.patch_state(&sys(), ContractPatch(vec![PatchSpec::SetVotingInterval(None)])));
}

#[test]
fn interval_pass() {
    let mut svc = NoseDive::new(sys());
    ok(svc.patch_state(
        &sys(),
        ContractPatch(vec![PatchSpec::SetVotingInterval(Some(VoteInterval {
            secs: 2,
            msg: "wait at least two seconds to be allowed to vote the same person again"
                .to_string(),
        }))]),
    ));

    ok(svc.register(&alice()));
    ok(svc.register(&bob()));
    // --
    rate(&mut svc, bob(), alice(), 4.5, START);
    rate(&mut svc, bob(), alice(), 4.5, START + 3_000_000_000);
}

#[test]
#[should_panic(expected = "you can't vote more than once in 5 minutes")]
fn default_interval_violation() {
    let mut svc = NoseDive::new(sys());
    ok(svc.register(&alice()));
    ok(svc.register(&bob()));
    // --
    rate(&mut svc, bob(), alice(), 4.5, START);
    rate(&mut svc, bob(), alice(), 4.5, START + 1_000);
}

#[test]
#[should_panic(expected = "all you had to do was wait a minute")]
fn custom_interval_violation() {
    let mut svc = NoseDive::new(sys());
    ok(svc.patch_state(
        &sys(),
        ContractPatch(vec![PatchSpec::SetVotingInterval(Some(VoteInterval {
            secs: 60,
            msg: "all you had to do was wait a minute".to_string(),
        }))]),
    ));

    ok(svc.register(&alice()));
    ok(svc.register(&bob()));
    // --
    rate(&mut svc, bob(), alice(), 4.5, START);
    rate(&mut svc, bob(), alice(), 4.5, START + 1_000);
}

#[test]
fn validate_5_star_as_fract() {
    for rating in [0.0f32, 0.5, 1.0, 1.5, 2.0, 2.5, 3.0, 3.5, 4.0, 4.5, 5.0] {
        assert!(
            validate_rating(rating.to_bits()),
            "valid rating specification marked invalid: {:.1}",
            rating
        );
    }
    for rating in [0.1f32, 0.2, 0.3, 0.4, 3.4, 5.5, 10.0] {
        assert!(
            !validate_rating(rating.to_bits()),
            "invalid rating specification marked valid: {:.1}",
            rating
        );
    }
}
