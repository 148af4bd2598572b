//! The abstract model of the engine: the ledger as a map from
//! (requester, chain) pairs to last-grant times, the registry as a set of
//! chain names, and the transition each operation performs on them. The
//! executable operations in `contract` promise exactly these transitions,
//! and the proof functions at the bottom state the laws the model obeys.

use vstd::prelude::*;
use crate::normalize::upper_of;

verus! {

/// Why an administrative call was rejected.
#[derive(Clone, Copy, Debug, PartialEq, Eq, Structural)]
pub enum Error {
    /// The caller is not the deployment's own identity.
    Unauthorized,
    /// The normalized chain identifier is already registered.
    AlreadyExists,
}

/// The ledger, viewed abstractly: the last grant time recorded for each
/// (requester, chain) pair that has ever been admitted.
pub type LedgerModel = Map<(Seq<char>, Seq<char>), u64>;

/// Whether a request by `requester` for `chain` at time `now` is admitted:
/// always for a pair never granted before, otherwise only once the window
/// has fully elapsed (the instant `last + window` itself is admitted).
pub open spec fn admits(
    ledger: LedgerModel,
    requester: Seq<char>,
    chain: Seq<char>,
    window: u64,
    now: u64,
) -> bool {
    ||| !ledger.contains_key((requester, chain))
    ||| now >= ledger[(requester, chain)] + window
}

/// The ledger after an admitted request: the pair's entry is created or
/// overwritten with the time of the grant.
pub open spec fn record_grant(
    ledger: LedgerModel,
    requester: Seq<char>,
    chain: Seq<char>,
    now: u64,
) -> LedgerModel {
    ledger.insert((requester, chain), now)
}

/// The outcome of `add_chain`: only the deployment itself may add, and a
/// normalized identifier already present is rejected.
pub open spec fn add_chain_result(
    chains: Set<Seq<char>>,
    caller: Seq<char>,
    self_id: Seq<char>,
    normalized: Seq<char>,
) -> Result<(), Error> {
    if caller != self_id {
        Err(Error::Unauthorized)
    } else if chains.contains(normalized) {
        Err(Error::AlreadyExists)
    } else {
        Ok(())
    }
}

/// The registry after `add_chain`: grown by the normalized identifier
/// exactly when the call succeeds.
pub open spec fn chains_after_add(
    chains: Set<Seq<char>>,
    caller: Seq<char>,
    self_id: Seq<char>,
    normalized: Seq<char>,
) -> Set<Seq<char>> {
    if caller == self_id && !chains.contains(normalized) {
        chains.insert(normalized)
    } else {
        chains
    }
}

/// The outcome of `update_limit`: only the deployment itself may change
/// the window; any value is accepted.
pub open spec fn update_limit_result(caller: Seq<char>, self_id: Seq<char>) -> Result<(), Error> {
    if caller == self_id {
        Ok(())
    } else {
        Err(Error::Unauthorized)
    }
}

/// The window after `update_limit`: overwritten exactly when the call
/// succeeds.
pub open spec fn window_after_update(
    window: u64,
    caller: Seq<char>,
    self_id: Seq<char>,
    new_window: u64,
) -> u64 {
    if caller == self_id {
        new_window
    } else {
        window
    }
}

/// The registry the deployment starts with.
pub open spec fn initial_chains() -> Set<Seq<char>> {
    set!["ETHEREUM"@, "BITCOIN"@, "DOGECOIN"@, "RIPPLE"@]
}

/// A pair never granted before is always admitted, and the grant records
/// the call's own time as the pair's entry.
pub proof fn lemma_first_request_admits(
    ledger: LedgerModel,
    requester: Seq<char>,
    chain: Seq<char>,
    window: u64,
    now: u64,
)
    requires
        !ledger.contains_key((requester, chain)),
    ensures
        admits(ledger, requester, chain, window, now),
        record_grant(ledger, requester, chain, now)[(requester, chain)] == now,
{
}

/// With an existing entry granted at `now1`, a request at `now2` is denied
/// while `now2 < now1 + window`, and admitted from `now1 + window` on; on
/// admission the entry is overwritten with `now2`.
pub proof fn lemma_window_gates_existing_entry(
    ledger: LedgerModel,
    requester: Seq<char>,
    chain: Seq<char>,
    window: u64,
    now1: u64,
    now2: u64,
)
    requires
        ledger.contains_key((requester, chain)),
        ledger[(requester, chain)] == now1,
    ensures
        now2 < now1 + window ==> !admits(ledger, requester, chain, window, now2),
        now2 >= now1 + window ==> admits(ledger, requester, chain, window, now2),
        record_grant(ledger, requester, chain, now2)[(requester, chain)] == now2,
{
}

/// Recording a grant for one pair leaves every other pair's entry exactly
/// as it was, and so never changes any other pair's admission decision.
pub proof fn lemma_pairs_independent(
    ledger: LedgerModel,
    requester: Seq<char>,
    chain: Seq<char>,
    now: u64,
    other_requester: Seq<char>,
    other_chain: Seq<char>,
    window: u64,
    other_now: u64,
)
    requires
        (requester, chain) != (other_requester, other_chain),
    ensures
        record_grant(ledger, requester, chain, now).contains_key((other_requester, other_chain))
            == ledger.contains_key((other_requester, other_chain)),
        ledger.contains_key((other_requester, other_chain)) ==> record_grant(
            ledger,
            requester,
            chain,
            now,
        )[(other_requester, other_chain)] == ledger[(other_requester, other_chain)],
        admits(
            record_grant(ledger, requester, chain, now),
            other_requester,
            other_chain,
            window,
            other_now,
        ) == admits(ledger, other_requester, other_chain, window, other_now),
{
}

/// Two `add_chain` inputs that normalize alike: once the first has been
/// handled by the deployment itself, the second always fails with
/// `AlreadyExists` and changes nothing, whatever its casing.
pub proof fn lemma_add_chain_rejects_duplicate(
    chains: Set<Seq<char>>,
    self_id: Seq<char>,
    first: Seq<char>,
    second: Seq<char>,
)
    requires
        upper_of(first) == upper_of(second),
    ensures
        ({
            let once = chains_after_add(chains, self_id, self_id, upper_of(first));
            add_chain_result(once, self_id, self_id, upper_of(second)) == Err::<(), Error>(
                Error::AlreadyExists,
            ) && chains_after_add(once, self_id, self_id, upper_of(second)) == once
        }),
{
}

/// Administrative calls from any identity other than the deployment's own
/// fail as unauthorized and change nothing.
pub proof fn lemma_foreign_caller_rejected(
    chains: Set<Seq<char>>,
    window: u64,
    caller: Seq<char>,
    self_id: Seq<char>,
    normalized: Seq<char>,
    new_window: u64,
)
    requires
        caller != self_id,
    ensures
        add_chain_result(chains, caller, self_id, normalized) == Err::<(), Error>(
            Error::Unauthorized,
        ),
        chains_after_add(chains, caller, self_id, normalized) == chains,
        update_limit_result(caller, self_id) == Err::<(), Error>(Error::Unauthorized),
        window_after_update(window, caller, self_id, new_window) == window,
{
}

/// The ledger is monotonically growing: recording a grant keeps every
/// pair already present, and an admitted overwrite of an existing entry
/// never moves its time backwards.
pub proof fn lemma_ledger_monotone(
    ledger: LedgerModel,
    requester: Seq<char>,
    chain: Seq<char>,
    window: u64,
    now: u64,
    other: (Seq<char>, Seq<char>),
)
    ensures
        ledger.contains_key(other) ==> record_grant(ledger, requester, chain, now).contains_key(
            other,
        ),
        ledger.contains_key((requester, chain)) && admits(ledger, requester, chain, window, now)
            ==> record_grant(ledger, requester, chain, now)[(requester, chain)] >= ledger[(
            requester,
            chain,
        )],
{
}

/// After the deployment sets the window to zero, a request on an existing
/// entry is always admitted, as long as the clock has not run backwards
/// past the entry's own time.
pub proof fn lemma_zero_window_always_admits(
    ledger: LedgerModel,
    self_id: Seq<char>,
    window: u64,
    requester: Seq<char>,
    chain: Seq<char>,
    now: u64,
)
    requires
        ledger.contains_key((requester, chain)),
        ledger[(requester, chain)] <= now,
    ensures
        window_after_update(window, self_id, self_id, 0) == 0,
        admits(ledger, requester, chain, window_after_update(window, self_id, self_id, 0), now),
{
}

} // verus!
