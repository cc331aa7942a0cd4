use predict_iq::admin::{get_admin, get_fee_admin, get_market_admin, require_admin, set_admin, set_fee_admin, set_market_admin};
use predict_iq::bets::{get_bet, place_bet};
use predict_iq::circuit_breaker::{get_state, require_closed, set_state};
use predict_iq::disputes::{file_dispute, resolve_market};
use predict_iq::markets::{create_market, get_market, update_market};
use predict_iq::monitoring::{reset_monitoring, track_error};
use predict_iq::types::{CircuitBreakerState, ErrorCode, Event, MarketStatus, OracleConfig, PredictIq};
use predict_iq::voting::{cast_vote, get_tally};

const ADMIN: u64 = 1;
const CREATOR: u64 = 2;
const ALICE: u64 = 10;
const BOB: u64 = 11;
const CAROL: u64 = 12;

fn oracle(feed: &str) -> OracleConfig {
    OracleConfig {
        oracle_address: 99,
        feed_id: feed.to_string(),
        min_responses: 1,
        max_staleness_seconds: 300,
        max_confidence_bps: 200,
    }
}

fn yes_no() -> Vec<String> {
    vec!["Yes".to_string(), "No".to_string()]
}

fn engine_with_market() -> PredictIq {
    let mut c = PredictIq::new();
    set_admin(&mut c, ADMIN);
    let id = create_market(&mut c, CREATOR, "Will BTC reach $100k?".to_string(), yes_no(), 1000, 2000, oracle("btc_price")).unwrap();
    assert_eq!(id, 1);
    c
}

fn disputed_engine() -> PredictIq {
    let mut c = engine_with_market();
    file_dispute(&mut c, CAROL, 1, 1500).unwrap();
    c
}

#[test]
fn test_market_lifecycle() {
    let mut c = PredictIq::new();
    set_admin(&mut c, ADMIN);
    let market_id = create_market(&mut c, CREATOR, "Will BTC reach $100k?".to_string(), yes_no(), 1000, 2000, oracle("btc_price")).unwrap();
    assert_eq!(market_id, 1);
    let market = get_market(&c, market_id).unwrap();
    assert_eq!(market.id, 1);
    assert_eq!(market.status, MarketStatus::Active);
}

#[test]
fn test_oracle_manual_resolution() {
    let mut c = PredictIq::new();
    set_admin(&mut c, ADMIN);
    let market_id = create_market(&mut c, CREATOR, "Test market".to_string(), yes_no(), 1000, 2000, oracle("test_feed")).unwrap();
    resolve_market(&mut c, ADMIN, market_id, 0, 1000).unwrap();
    let market = get_market(&c, market_id).unwrap();
    assert_eq!(market.id, market_id);
    assert_eq!(market.winning_outcome, Some(0));
    assert_eq!(market.status, MarketStatus::Resolved);
}

#[test]
fn create_market_assigns_sequential_ids_and_stores_fields() {
    let mut c = engine_with_market();
    let id = create_market(&mut c, CREATOR, "Second".to_string(), vec!["A".to_string(), "B".to_string(), "C".to_string()], 10, 20, oracle("f")).unwrap();
    assert_eq!(id, 2);
    let m = get_market(&c, 2).unwrap();
    assert_eq!(m.description, "Second");
    assert_eq!(m.options.len(), 3);
    assert_eq!(m.creator, CREATOR);
    assert_eq!(m.deadline, 10);
    assert_eq!(m.resolution_deadline, 20);
    assert_eq!(m.total_staked, 0);
    assert_eq!(m.winning_outcome, None);
    assert_eq!(m.oracle_config.feed_id, "f");
    assert_eq!(c.events, vec![Event::MarketCreated { market_id: 1 }, Event::MarketCreated { market_id: 2 }]);
    assert!(get_market(&c, 3).is_none());
    assert!(get_market(&c, 0).is_none());
}

#[test]
fn create_market_rejects_bad_input() {
    let mut c = PredictIq::new();
    assert_eq!(create_market(&mut c, CREATOR, "x".to_string(), vec!["Only".to_string()], 1000, 2000, oracle("f")), Err(ErrorCode::InvalidOptions));
    assert_eq!(create_market(&mut c, CREATOR, "x".to_string(), yes_no(), 2000, 2000, oracle("f")), Err(ErrorCode::InvalidDeadlines));
    assert_eq!(create_market(&mut c, CREATOR, "x".to_string(), yes_no(), 3000, 2000, oracle("f")), Err(ErrorCode::InvalidDeadlines));
    assert_eq!(c.market_count, 0);
    assert!(c.events.is_empty());
    c.market_count = u64::MAX;
    assert_eq!(create_market(&mut c, CREATOR, "x".to_string(), yes_no(), 1000, 2000, oracle("f")), Err(ErrorCode::Overflow));
}

#[test]
fn bets_accumulate_and_outcome_is_locked() {
    let mut c = engine_with_market();
    place_bet(&mut c, ALICE, 1, 0, 500, 100).unwrap();
    place_bet(&mut c, ALICE, 1, 0, 300, 200).unwrap();
    let bet = get_bet(&c, 1, ALICE).unwrap();
    assert_eq!(bet.amount, 800);
    assert_eq!(bet.outcome, 0);
    assert_eq!(place_bet(&mut c, ALICE, 1, 1, 1, 300), Err(ErrorCode::CannotChangeOutcome));
    let bet = get_bet(&c, 1, ALICE).unwrap();
    assert_eq!(bet.outcome, 0);
    assert_eq!(bet.amount, 800);
    assert_eq!(get_market(&c, 1).unwrap().total_staked, 800);
}

#[test]
fn total_staked_is_sum_of_bets() {
    let mut c = engine_with_market();
    place_bet(&mut c, ALICE, 1, 0, 500, 100).unwrap();
    place_bet(&mut c, BOB, 1, 1, 250, 100).unwrap();
    place_bet(&mut c, CAROL, 1, 1, 7, 999).unwrap();
    place_bet(&mut c, BOB, 1, 1, 50, 100).unwrap();
    let sum: i128 = [ALICE, BOB, CAROL].iter().map(|b| get_bet(&c, 1, *b).unwrap().amount).sum();
    assert_eq!(sum, 807);
    assert_eq!(get_market(&c, 1).unwrap().total_staked, 807);
    assert_eq!(c.events.last(), Some(&Event::BetPlaced { market_id: 1, bettor: BOB, amount: 50 }));
    assert!(get_bet(&c, 1, 77).is_none());
}

#[test]
fn place_bet_guards() {
    let mut c = engine_with_market();
    assert_eq!(place_bet(&mut c, ALICE, 2, 0, 5, 100), Err(ErrorCode::MarketNotFound));
    assert_eq!(place_bet(&mut c, ALICE, 1, 0, 5, 1000), Err(ErrorCode::DeadlinePassed));
    assert_eq!(place_bet(&mut c, ALICE, 1, 2, 5, 100), Err(ErrorCode::InvalidOutcome));
    assert_eq!(place_bet(&mut c, ALICE, 1, 0, 0, 100), Err(ErrorCode::InvalidAmount));
    assert_eq!(place_bet(&mut c, ALICE, 1, 0, -4, 100), Err(ErrorCode::InvalidAmount));
    place_bet(&mut c, ALICE, 1, 0, i128::MAX, 100).unwrap();
    assert_eq!(place_bet(&mut c, BOB, 1, 1, 1, 100), Err(ErrorCode::Overflow));
    assert!(get_bet(&c, 1, BOB).is_none());
    file_dispute(&mut c, CAROL, 1, 1000).unwrap();
    assert_eq!(place_bet(&mut c, BOB, 1, 1, 1, 100), Err(ErrorCode::MarketNotActive));
}

#[test]
fn place_bet_refused_while_breaker_open() {
    let mut c = engine_with_market();
    set_state(&mut c, ADMIN, CircuitBreakerState::Open).unwrap();
    assert_eq!(place_bet(&mut c, ALICE, 1, 0, 5, 100), Err(ErrorCode::CircuitBreakerOpen));
    set_state(&mut c, ADMIN, CircuitBreakerState::Closed).unwrap();
    assert_eq!(place_bet(&mut c, ALICE, 1, 0, 5, 100), Ok(()));
}

#[test]
fn dispute_extends_resolution_deadline() {
    let mut c = engine_with_market();
    assert_eq!(file_dispute(&mut c, CAROL, 1, 999), Err(ErrorCode::MarketNotPendingResolution));
    file_dispute(&mut c, CAROL, 1, 1200).unwrap();
    let m = get_market(&c, 1).unwrap();
    assert_eq!(m.resolution_deadline, 261200);
    assert_eq!(m.status, MarketStatus::Disputed);
    assert_eq!(c.events.last(), Some(&Event::MarketDisputed { market_id: 1, disciplinarian: CAROL }));
    assert_eq!(file_dispute(&mut c, CAROL, 1, 1300), Err(ErrorCode::MarketNotPendingResolution));
    assert_eq!(file_dispute(&mut c, CAROL, 5, 1300), Err(ErrorCode::MarketNotFound));
}

#[test]
fn dispute_of_stored_pending_market() {
    let mut c = engine_with_market();
    let mut m = get_market(&c, 1).unwrap();
    m.status = MarketStatus::PendingResolution;
    update_market(&mut c, m);
    assert_eq!(get_market(&c, 1).unwrap().status, MarketStatus::PendingResolution);
    file_dispute(&mut c, CAROL, 1, 0).unwrap();
    let m = get_market(&c, 1).unwrap();
    assert_eq!(m.resolution_deadline, 261200);
    assert_eq!(m.status, MarketStatus::Disputed);
}

#[test]
fn dispute_window_overflow_is_refused() {
    let mut c = PredictIq::new();
    create_market(&mut c, CREATOR, "x".to_string(), yes_no(), 10, u64::MAX - 5, oracle("f")).unwrap();
    assert_eq!(file_dispute(&mut c, CAROL, 1, 20), Err(ErrorCode::Overflow));
}

#[test]
fn second_vote_is_refused() {
    let mut c = disputed_engine();
    cast_vote(&mut c, ALICE, 1, 0, 40).unwrap();
    assert_eq!(cast_vote(&mut c, ALICE, 1, 1, 100), Err(ErrorCode::AlreadyVoted));
    assert_eq!(cast_vote(&mut c, ALICE, 1, 0, 100), Err(ErrorCode::AlreadyVoted));
    assert_eq!(get_tally(&c, 1, 0), 40);
    assert_eq!(get_tally(&c, 1, 1), 0);
    assert_eq!(c.votes.len(), 1);
    assert_eq!(c.votes[0].weight, 40);
}

#[test]
fn tallies_sum_to_vote_weights() {
    let mut c = disputed_engine();
    cast_vote(&mut c, ALICE, 1, 0, 40).unwrap();
    cast_vote(&mut c, BOB, 1, 1, 25).unwrap();
    cast_vote(&mut c, CAROL, 1, 1, 10).unwrap();
    assert_eq!(get_tally(&c, 1, 0), 40);
    assert_eq!(get_tally(&c, 1, 1), 35);
    assert_eq!(get_tally(&c, 1, 0) + get_tally(&c, 1, 1), 75);
    assert_eq!(get_tally(&c, 1, 2), 0);
    assert_eq!(get_tally(&c, 9, 0), 0);
    assert_eq!(c.events.last(), Some(&Event::VoteCast { market_id: 1, voter: CAROL, outcome: 1 }));
}

#[test]
fn cast_vote_guards() {
    let mut c = engine_with_market();
    assert_eq!(cast_vote(&mut c, ALICE, 1, 0, 1), Err(ErrorCode::MarketNotDisputed));
    assert_eq!(cast_vote(&mut c, ALICE, 4, 0, 1), Err(ErrorCode::MarketNotFound));
    file_dispute(&mut c, CAROL, 1, 1500).unwrap();
    assert_eq!(cast_vote(&mut c, ALICE, 1, 2, 1), Err(ErrorCode::InvalidOutcome));
    cast_vote(&mut c, ALICE, 1, 0, i128::MAX).unwrap();
    assert_eq!(cast_vote(&mut c, BOB, 1, 0, 1), Err(ErrorCode::Overflow));
    assert_eq!(get_tally(&c, 1, 0), i128::MAX);
}

#[test]
fn resolution_follows_status() {
    let mut c = engine_with_market();
    assert_eq!(resolve_market(&mut c, ADMIN, 1, 0, 500), Err(ErrorCode::MarketNotPendingResolution));
    assert_eq!(resolve_market(&mut c, ADMIN, 1, 2, 1500), Err(ErrorCode::InvalidOutcome));
    assert_eq!(resolve_market(&mut c, ADMIN, 3, 0, 1500), Err(ErrorCode::MarketNotFound));
    resolve_market(&mut c, ADMIN, 1, 1, 1500).unwrap();
    assert_eq!(c.events.last(), Some(&Event::MarketResolved { market_id: 1, winning_outcome: 1 }));
    assert_eq!(resolve_market(&mut c, ADMIN, 1, 1, 1600), Err(ErrorCode::MarketAlreadyResolved));
    assert_eq!(file_dispute(&mut c, CAROL, 1, 1600), Err(ErrorCode::MarketNotPendingResolution));
    assert_eq!(place_bet(&mut c, ALICE, 1, 1, 5, 10), Err(ErrorCode::MarketNotActive));
}

#[test]
fn disputed_market_resolves_on_heaviest_outcome() {
    let mut c = disputed_engine();
    cast_vote(&mut c, ALICE, 1, 0, 40).unwrap();
    cast_vote(&mut c, BOB, 1, 1, 25).unwrap();
    assert_eq!(resolve_market(&mut c, ADMIN, 1, 1, 3000), Err(ErrorCode::NotMajorityOutcome));
    resolve_market(&mut c, ADMIN, 1, 0, 3000).unwrap();
    let m = get_market(&c, 1).unwrap();
    assert_eq!(m.winning_outcome, Some(0));
    assert_eq!(m.status, MarketStatus::Resolved);
    assert_eq!(cast_vote(&mut c, CAROL, 1, 0, 5), Err(ErrorCode::MarketNotDisputed));
}

#[test]
fn resolution_needs_the_admin() {
    let mut c = PredictIq::new();
    create_market(&mut c, CREATOR, "x".to_string(), yes_no(), 10, 20, oracle("f")).unwrap();
    assert_eq!(resolve_market(&mut c, ADMIN, 1, 0, 15), Err(ErrorCode::AdminNotSet));
    set_admin(&mut c, ADMIN);
    assert_eq!(resolve_market(&mut c, ALICE, 1, 0, 15), Err(ErrorCode::NotAuthorized));
    assert_eq!(get_market(&c, 1).unwrap().status, MarketStatus::Active);
}

#[test]
fn breaker_trips_after_eleven_errors() {
    let mut c = PredictIq::new();
    for _ in 0..10 {
        track_error(&mut c);
    }
    assert_eq!(get_state(&c), CircuitBreakerState::Closed);
    assert_eq!(require_closed(&c), Ok(()));
    track_error(&mut c);
    assert_eq!(c.error_count, 11);
    assert_eq!(get_state(&c), CircuitBreakerState::Open);
    assert_eq!(require_closed(&c), Err(ErrorCode::CircuitBreakerOpen));
    assert_eq!(c.events, vec![Event::AutomaticCircuitBreakerTrigger { error_count: 11 }]);
}

#[test]
fn reset_restarts_the_count() {
    let mut c = PredictIq::new();
    for _ in 0..8 {
        track_error(&mut c);
    }
    reset_monitoring(&mut c);
    assert_eq!(c.error_count, 0);
    for _ in 0..10 {
        track_error(&mut c);
    }
    assert_eq!(get_state(&c), CircuitBreakerState::Closed);
    c.error_count = u32::MAX;
    track_error(&mut c);
    assert_eq!(c.error_count, u32::MAX);
    assert_eq!(get_state(&c), CircuitBreakerState::Open);
}

#[test]
fn breaker_setter_is_admin_gated() {
    let mut c = PredictIq::new();
    assert_eq!(set_state(&mut c, ADMIN, CircuitBreakerState::Open), Err(ErrorCode::AdminNotSet));
    set_admin(&mut c, ADMIN);
    assert_eq!(set_state(&mut c, ALICE, CircuitBreakerState::Open), Err(ErrorCode::NotAuthorized));
    assert_eq!(get_state(&c), CircuitBreakerState::Closed);
    set_state(&mut c, ADMIN, CircuitBreakerState::Open).unwrap();
    assert_eq!(get_state(&c), CircuitBreakerState::Open);
    assert_eq!(c.events, vec![Event::CircuitBreakerUpdated { state: CircuitBreakerState::Open }]);
}

#[test]
fn admin_roles() {
    let mut c = PredictIq::new();
    assert_eq!(get_admin(&c), None);
    assert_eq!(require_admin(&c, ADMIN), Err(ErrorCode::AdminNotSet));
    assert_eq!(set_market_admin(&mut c, ADMIN, 5), Err(ErrorCode::AdminNotSet));
    set_admin(&mut c, ADMIN);
    assert_eq!(get_admin(&c), Some(ADMIN));
    assert_eq!(require_admin(&c, ADMIN), Ok(()));
    assert_eq!(require_admin(&c, BOB), Err(ErrorCode::NotAuthorized));
    assert_eq!(set_fee_admin(&mut c, BOB, 6), Err(ErrorCode::NotAuthorized));
    set_market_admin(&mut c, ADMIN, 5).unwrap();
    set_fee_admin(&mut c, ADMIN, 6).unwrap();
    assert_eq!(get_market_admin(&c), Some(5));
    assert_eq!(get_fee_admin(&c), Some(6));
}
