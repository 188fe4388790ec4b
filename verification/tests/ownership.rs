use rev_idle::ownership::{Acquire, ScreenOwnership, OWNERSHIP_UNAVAILABLE};

#[test]
fn ownership_locks_until_released_and_manual_lock_persists() {
    let mut state = ScreenOwnership::default();
    assert_eq!(state.attach(false), Some(false));
    assert_eq!(state.acquire(), Acquire::Granted(Some(true)));
    assert_eq!(state.release(), Some(false));
    assert_eq!(state.set_manual_lock(), Some(true));
    assert_eq!(state.acquire(), Acquire::Granted(Some(true)));
    assert_eq!(state.release(), Some(true));
    assert_eq!(state.close(), Some(false));
}

#[test]
fn closed_sessions_refuse_ownership_and_stop_reporting() {
    let mut state = ScreenOwnership::default();
    state.attach(false);
    assert!(matches!(state.acquire(), Acquire::Granted(_)));
    assert_eq!(state.close(), Some(false));
    assert_eq!(state.acquire(), Acquire::Refused(OWNERSHIP_UNAVAILABLE.to_string()));
    assert_eq!(state.release(), None);
}

#[test]
fn pausing_unlocks_and_drops_the_manual_lock() {
    let mut state = ScreenOwnership::default();
    state.attach(true);
    assert_eq!(state.update_lock(), Some(true));
    assert_eq!(state.set_paused(true), Some(false));
    assert_eq!(state.set_paused(false), Some(false));
    assert!(matches!(state.acquire(), Acquire::Granted(_)));
    assert_eq!(state.set_paused(true), Some(false));
    assert_eq!(state.set_paused(false), Some(true));
}

#[test]
fn a_second_owner_waits_until_the_first_releases() {
    let mut state = ScreenOwnership::default();
    state.attach(false);
    assert_eq!(state.acquire(), Acquire::Granted(Some(true)));
    assert_eq!(state.acquire(), Acquire::Wait);
    assert!(state.owned);
    assert_eq!(state.release(), Some(false));
    assert_eq!(state.acquire(), Acquire::Granted(Some(true)));
    state.close();
    assert_eq!(state.acquire(), Acquire::Refused(OWNERSHIP_UNAVAILABLE.to_string()));
}
