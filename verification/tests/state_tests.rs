use quickcfg::state::Facet;
use quickcfg::{Config, DiskState, State, Timestamp};

fn config() -> Config {
    Config::new(259200000, 3600000)
}

#[test]
fn hash_freshness_round_trip() {
    let now = Timestamp::from_millis(1_000_000);
    let mut state = State::new(config(), now);

    let packages = vec!["git".to_string(), "curl".to_string()];
    assert!(!state.is_hash_fresh("pkg", &packages));

    state.touch_hash("pkg", &packages);
    assert!(state.is_hash_fresh("pkg", &packages));

    let more = vec!["git".to_string(), "curl".to_string(), "vim".to_string()];
    assert!(!state.is_hash_fresh("pkg", &more));
}

#[test]
fn hash_freshness_ages_out() {
    let now = Timestamp::from_millis(10_000_000);
    let mut state = State::new(config(), now);
    let packages = vec!["git".to_string()];
    state.touch_hash("pkg", &packages);

    // The same maps, seen from a run far in the future, are stale.
    let later = Timestamp::from_millis(10_000_000 + 3600000);
    let disk = state.serialize().expect("dirty state serializes");
    let state = disk.into_state(config(), later);
    assert!(!state.is_hash_fresh("pkg", &packages));
}

#[test]
fn clean_extend_changes_nothing() {
    let now = Timestamp::from_millis(5000);
    let mut state = State::new(config(), now);
    state.touch("git");
    state.touch_once("setup");
    let snapshot = state.clone();

    // A clean delta, even a freshly loaded one, merges as a no-op.
    let clean = State::new(config(), now);
    assert!(!clean.dirty);
    state.extend(clean);

    assert_eq!(state, snapshot);
}

#[test]
fn extend_merges_disjoint_deltas_in_any_order() {
    let now = Timestamp::from_millis(5000);
    let base = State::new(config(), now);

    let mut a = State::new(config(), Timestamp::from_millis(6000));
    a.touch("left");
    let mut b = State::new(config(), Timestamp::from_millis(7000));
    b.touch("right");

    let mut first = base.clone();
    first.extend(a.clone());
    first.extend(b.clone());

    let mut second = base;
    second.extend(b);
    second.extend(a);

    assert_eq!(first.last_update("left"), second.last_update("left"));
    assert_eq!(first.last_update("right"), second.last_update("right"));
    assert_eq!(first.last_update("left"), Some(Timestamp::from_millis(6000)));
    assert_eq!(first.last_update("right"), Some(Timestamp::from_millis(7000)));
    assert_eq!(first.dirty, second.dirty);
}

#[test]
fn extend_later_binding_wins() {
    let base_now = Timestamp::from_millis(1000);
    let mut state = State::new(config(), base_now);

    let mut a = State::new(config(), Timestamp::from_millis(2000));
    a.touch("git");
    let mut b = State::new(config(), Timestamp::from_millis(3000));
    b.touch("git");

    state.extend(a);
    state.extend(b);
    assert_eq!(state.last_update("git"), Some(Timestamp::from_millis(3000)));
}

#[test]
fn run_once_markers() {
    let now = Timestamp::from_millis(42);
    let mut state = State::new(config(), now);
    assert!(!state.has_run_once("setup"));
    state.touch_once("setup");
    assert!(state.has_run_once("setup"));
    assert!(state.dirty);
}

#[test]
fn serialize_skips_clean_state() {
    let now = Timestamp::from_millis(42);
    let state = State::new(config(), now);
    assert_eq!(state.serialize(), None);

    let disk = DiskState::default();
    let mut state = disk.into_state(config(), now);
    assert!(!state.dirty);
    state.touch("git");
    assert!(state.serialize().is_some());
}

#[test]
fn duration_since_orders_timestamps() {
    let earlier = Timestamp::from_millis(100);
    let later = Timestamp::from_millis(250);
    assert_eq!(later.duration_since(earlier), Ok(150));
    assert!(earlier.duration_since(later).is_err());
}

#[test]
fn timestamp_now_is_after_epoch() {
    let a = Timestamp::now();
    let b = Timestamp::now();
    assert!(b.duration_since(a).is_ok());
}

#[test]
fn facet_intervals_differ() {
    // One hour for packages, three days for git checkouts.
    let recorded = Timestamp::from_millis(1_000_000);
    let mut state = State::new(config(), recorded);
    let value = vec!["git".to_string()];
    state.touch_hash("repo", &value);

    // Two hours later: stale as a package check, fresh as a git check.
    let later = Timestamp::from_millis(1_000_000 + 2 * 3600000);
    let disk = state.serialize().expect("dirty state serializes");
    let state = disk.into_state(config(), later);
    assert!(!state.is_hash_fresh_in(Facet::Package, "repo", &value));
    assert!(state.is_hash_fresh_in(Facet::Git, "repo", &value));
    assert!(!state.is_hash_fresh("repo", &value));
}
