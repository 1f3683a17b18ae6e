use crust::common::Token;
use crust::event::Event;
use crust::net::addr::{Endpoint, IpAddr, SocketAddr};
use crust::net::bootstrap::{
    candidates, remember, BootstrapCache, CANDIDATE_TIMEOUT_SECS, OVERALL_TIMEOUT_SECS,
};
use crust::net::peer::{PeerKind, Uid};
use crust::net::race::{Race, RaceStep};
use crust::service::races::{events_of, RaceOp};
use crust::service::Goal;

fn bootstrap_events(step: &RaceStep, uid: Uid) -> Vec<Event> {
    events_of(Goal::Bootstrap, RaceOp::Close, step, uid)
}

fn ep(n: u32) -> Endpoint {
    Endpoint::Tcp(SocketAddr::new(IpAddr::V4(n), 7000))
}

#[test]
fn candidates_take_turns_starting_with_the_cache() {
    assert_eq!(
        candidates(&vec![ep(1), ep(2)], &vec![ep(10), ep(20)]),
        vec![ep(1), ep(10), ep(2), ep(20)]
    );
    assert_eq!(
        candidates(&vec![ep(1)], &vec![ep(10), ep(20), ep(30)]),
        vec![ep(1), ep(10), ep(20), ep(30)]
    );
    assert_eq!(
        candidates(&vec![ep(1), ep(2), ep(3)], &vec![ep(10)]),
        vec![ep(1), ep(10), ep(2), ep(3)]
    );
    assert_eq!(candidates(&vec![], &vec![ep(10)]), vec![ep(10)]);
    assert_eq!(candidates(&vec![ep(1)], &vec![]), vec![ep(1)]);
    assert_eq!(candidates(&vec![], &vec![]), vec![]);
}

#[test]
fn timeouts() {
    assert_eq!(CANDIDATE_TIMEOUT_SECS, 10);
    assert_eq!(OVERALL_TIMEOUT_SECS, 60);
}

#[test]
fn empty_race_without_discovery_is_lost_at_once() {
    let (race, step) = Race::new(vec![], false);
    assert!(race.is_finished());
    assert_eq!(step, RaceStep::Lost { losers: vec![] });
    assert_eq!(bootstrap_events(&step, Uid(0)), vec![Event::BootstrapFailed]);
}

#[test]
fn empty_race_with_discovery_waits() {
    let (mut race, step) = Race::new(vec![], true);
    assert_eq!(step, RaceStep::Pending);
    assert!(!race.is_finished());
    assert_eq!(race.add(Token(1)), RaceStep::Pending);
    assert_eq!(race.add(Token(1)), RaceStep::Ignored);
    assert_eq!(race.in_flight(), 1);
    assert_eq!(race.failed(Token(1)), RaceStep::Pending);
    assert_eq!(race.close(), RaceStep::Lost { losers: vec![] });
    assert!(race.is_finished());
}

#[test]
fn first_success_wins_and_the_others_are_closed() {
    let (mut race, _) = Race::new(vec![Token(1), Token(2), Token(3)], false);
    assert_eq!(race.failed(Token(9)), RaceStep::Ignored);
    assert_eq!(race.failed(Token(1)), RaceStep::Pending);
    let step = race.won(Token(3));
    assert_eq!(step, RaceStep::Won { winner: Token(3), losers: vec![Token(2)] });
    assert_eq!(
        bootstrap_events(&step, Uid(8)),
        vec![Event::BootstrapConnect(Uid(8), PeerKind::Bootstrap), Event::BootstrappedTo(Uid(8))]
    );
    // The race is over: nothing that follows counts.
    assert_eq!(race.won(Token(2)), RaceStep::Ignored);
    assert_eq!(race.failed(Token(2)), RaceStep::Ignored);
    assert_eq!(race.expire(), RaceStep::Ignored);
    assert_eq!(race.cancel(), RaceStep::Ignored);
    assert_eq!(race.add(Token(5)), RaceStep::Ignored);
    assert_eq!(race.close(), RaceStep::Ignored);
    assert_eq!(race.in_flight(), 0);
}

#[test]
fn all_failed_is_one_failure() {
    let (mut race, _) = Race::new(vec![Token(1), Token(2)], false);
    assert_eq!(race.failed(Token(2)), RaceStep::Pending);
    let step = race.failed(Token(1));
    assert_eq!(step, RaceStep::Lost { losers: vec![] });
    assert_eq!(bootstrap_events(&step, Uid(0)), vec![Event::BootstrapFailed]);
    assert_eq!(race.failed(Token(1)), RaceStep::Ignored);
}

#[test]
fn timeout_and_cancel_hand_out_what_is_in_flight() {
    let (mut race, _) = Race::new(vec![Token(1), Token(2)], true);
    let step = race.expire();
    assert_eq!(step, RaceStep::Lost { losers: vec![Token(1), Token(2)] });
    assert_eq!(bootstrap_events(&step, Uid(0)), vec![Event::BootstrapFailed]);

    let (mut race, _) = Race::new(vec![Token(1), Token(2)], true);
    let step = race.cancel();
    assert_eq!(step, RaceStep::Cancelled { losers: vec![Token(1), Token(2)] });
    assert_eq!(bootstrap_events(&step, Uid(0)), vec![]);
    assert_eq!(bootstrap_events(&RaceStep::Pending, Uid(0)), vec![]);
    assert_eq!(bootstrap_events(&RaceStep::Ignored, Uid(0)), vec![]);
}

#[test]
fn cache_is_deduplicated_and_bounded() {
    let mut cache = BootstrapCache::new(3);
    assert!(cache.insert(ep(1)));
    assert!(cache.insert(ep(2)));
    assert!(!cache.insert(ep(1)));
    assert!(cache.insert(ep(3)));
    assert_eq!(cache.contacts(), &vec![ep(1), ep(2), ep(3)]);
    assert!(cache.insert(ep(4)));
    assert_eq!(cache.contacts(), &vec![ep(2), ep(3), ep(4)]);
    assert!(cache.contains(ep(4)));
    assert!(!cache.contains(ep(1)));

    let mut none = BootstrapCache::new(0);
    assert!(!none.insert(ep(1)));
    assert!(none.contacts().is_empty());
}

#[test]
fn cache_is_loaded_from_a_snapshot() {
    let cache = BootstrapCache::load(Some(vec![ep(1), ep(2), ep(1), ep(3), ep(4)]), 3);
    assert_eq!(cache.contacts(), &vec![ep(2), ep(3), ep(4)]);
    let corrupt = BootstrapCache::load(None, 3);
    assert!(corrupt.contacts().is_empty());
}

#[test]
fn winning_contact_is_remembered() {
    let attempts = vec![(Token(4), ep(1)), (Token(5), ep(2)), (Token(6), ep(3))];
    let mut cache = BootstrapCache::new(2);
    assert!(remember(&mut cache, &attempts, Token(5)));
    assert_eq!(cache.contacts(), &vec![ep(2)]);
    assert!(!remember(&mut cache, &attempts, Token(5)));
    assert!(!remember(&mut cache, &attempts, Token(9)));
    assert!(remember(&mut cache, &attempts, Token(6)));
    assert!(remember(&mut cache, &attempts, Token(4)));
    assert_eq!(cache.contacts(), &vec![ep(3), ep(1)]);
}
