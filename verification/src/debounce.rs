//! The debounce table: for each account the time of its last granted
//! wakeup. A further wakeup of the same account is denied while the last one
//! is younger than `DUPLICATE_WAKEUP_WINDOW_MS`.

use crate::clock::now_millis;
use vstd::hash_map::StringHashMap;
use vstd::prelude::*;

verus! {

/// The cooldown, in milliseconds, during which a second wakeup of one
/// account is taken for a duplicate.
pub const DUPLICATE_WAKEUP_WINDOW_MS: i64 = 8_000;

/// Account id to the epoch milliseconds of the last granted wakeup.
pub struct WakeupState {
    last_exec_at: StringHashMap<i64>,
}

impl View for WakeupState {
    type V = Map<Seq<char>, i64>;

    closed spec fn view(&self) -> Map<Seq<char>, i64> {
        self.last_exec_at@
    }
}

/// A wakeup of `account_id` at `now` is granted: the table holds no entry
/// for the account, or one that lies a full window back.
pub open spec fn reservation_granted(
    table: Map<Seq<char>, i64>,
    account_id: Seq<char>,
    now: i64,
) -> bool {
    !(table.contains_key(account_id) && now - table[account_id] < DUPLICATE_WAKEUP_WINDOW_MS)
}

/// The table after a reservation was asked for: a grant records `now`, a
/// denial changes nothing.
pub open spec fn after_reserve(
    table: Map<Seq<char>, i64>,
    account_id: Seq<char>,
    now: i64,
) -> Map<Seq<char>, i64> {
    if reservation_granted(table, account_id, now) {
        table.insert(account_id, now)
    } else {
        table
    }
}

/// A grant at `first` denies every further reservation of the same account
/// made less than a window later, and leaves the table as it was; one made a
/// full window later, or more, is granted again.
pub proof fn law_reserve_debounces(
    table: Map<Seq<char>, i64>,
    account_id: Seq<char>,
    first: i64,
    again: i64,
)
    requires
        reservation_granted(table, account_id, first),
    ensures
        ({
            let held = after_reserve(table, account_id, first);
            &&& again - first < DUPLICATE_WAKEUP_WINDOW_MS ==> !reservation_granted(
                held,
                account_id,
                again,
            ) && after_reserve(held, account_id, again) == held
            &&& again - first >= DUPLICATE_WAKEUP_WINDOW_MS ==> reservation_granted(
                held,
                account_id,
                again,
            )
        }),
{
}

/// After a release the next reservation of that account is granted, at
/// whatever time it is made.
pub proof fn law_release_then_reserve(table: Map<Seq<char>, i64>, account_id: Seq<char>, now: i64)
    ensures
        reservation_granted(table.remove(account_id), account_id, now),
{
}

/// A table without entries.
pub fn wakeup_state() -> (state: WakeupState)
    ensures
        state@ == Map::<Seq<char>, i64>::empty(),
{
    WakeupState { last_exec_at: StringHashMap::new() }
}

/// Asks for a reservation at the time `now`, in epoch milliseconds. The
/// check and the write are one step on the table.
pub fn reserve_wakeup_at(state: &mut WakeupState, account_id: &str, now: i64) -> (granted: bool)
    ensures
        granted == reservation_granted(old(state)@, account_id@, now),
        final(state)@ == after_reserve(old(state)@, account_id@, now),
{
    let recent = match state.last_exec_at.get(account_id) {
        Some(last) => (now as i128) - (*last as i128) < (DUPLICATE_WAKEUP_WINDOW_MS as i128),
        None => false,
    };
    if recent {
        return false;
    }
    state.last_exec_at.insert(account_id.to_string(), now);
    true
}

/// Asks for a reservation at the present time: the outcome is that of
/// `reserve_wakeup_at` for the time that the clock gave.
pub fn try_reserve_wakeup(state: &mut WakeupState, account_id: &str) -> (granted: bool)
    ensures
        exists|now: i64|
            granted == #[trigger] reservation_granted(old(state)@, account_id@, now)
                && final(state)@ == after_reserve(old(state)@, account_id@, now),
{
    let now: i64 = now_millis();
    reserve_wakeup_at(state, account_id, now)
}

/// Gives a reservation back: the account's entry leaves the table, whether
/// or not there was one.
pub fn release_wakeup_reservation(state: &mut WakeupState, account_id: &str)
    ensures
        final(state)@ == old(state)@.remove(account_id@),
{
    state.last_exec_at.remove(account_id);
}

} // verus!
