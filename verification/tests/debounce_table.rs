use codex_wakeup::debounce::{
    release_wakeup_reservation, reserve_wakeup_at, try_reserve_wakeup, wakeup_state,
    DUPLICATE_WAKEUP_WINDOW_MS,
};

#[test]
fn second_reservation_within_the_window_is_denied() {
    let mut state = wakeup_state();
    assert!(reserve_wakeup_at(&mut state, "acct", 1_000));
    assert!(!reserve_wakeup_at(&mut state, "acct", 1_000));
    assert!(!reserve_wakeup_at(&mut state, "acct", 8_999));
}

#[test]
fn reservation_after_the_window_is_granted() {
    let mut state = wakeup_state();
    assert!(reserve_wakeup_at(&mut state, "acct", 1_000));
    assert!(reserve_wakeup_at(&mut state, "acct", 1_000 + DUPLICATE_WAKEUP_WINDOW_MS));
    assert!(!reserve_wakeup_at(&mut state, "acct", 9_001));
}

#[test]
fn a_denial_does_not_renew_the_entry() {
    let mut state = wakeup_state();
    assert!(reserve_wakeup_at(&mut state, "acct", 0));
    assert!(!reserve_wakeup_at(&mut state, "acct", 7_999));
    assert!(reserve_wakeup_at(&mut state, "acct", 8_000));
}

#[test]
fn accounts_do_not_block_each_other() {
    let mut state = wakeup_state();
    assert!(reserve_wakeup_at(&mut state, "one", 5));
    assert!(reserve_wakeup_at(&mut state, "two", 5));
}

#[test]
fn release_then_reserve_is_granted() {
    let mut state = wakeup_state();
    assert!(reserve_wakeup_at(&mut state, "acct", 1_000));
    release_wakeup_reservation(&mut state, "acct");
    assert!(reserve_wakeup_at(&mut state, "acct", 1_000));
    release_wakeup_reservation(&mut state, "never-seen");
}

#[test]
fn a_clock_that_went_back_denies() {
    let mut state = wakeup_state();
    assert!(reserve_wakeup_at(&mut state, "acct", 50_000));
    assert!(!reserve_wakeup_at(&mut state, "acct", 10_000));
}

#[test]
fn far_apart_times_do_not_overflow() {
    let mut state = wakeup_state();
    assert!(reserve_wakeup_at(&mut state, "acct", i64::MIN));
    assert!(reserve_wakeup_at(&mut state, "acct", i64::MAX));
    assert!(!reserve_wakeup_at(&mut state, "acct", i64::MIN));
}

#[test]
fn reserving_by_the_clock_twice_in_a_row() {
    let mut state = wakeup_state();
    assert!(try_reserve_wakeup(&mut state, "acct"));
    assert!(!try_reserve_wakeup(&mut state, "acct"));
    release_wakeup_reservation(&mut state, "acct");
    assert!(try_reserve_wakeup(&mut state, "acct"));
}
