//! The engine itself: the ledger of last-grant times, the registry of
//! recognized chains, and the rate-limit window, with the four operations
//! the host exposes. The host passes the caller identity and the current
//! time in as plain arguments.

use vstd::prelude::*;
use vstd::string::StringExecFns;
use crate::ledger::{
    find_grant, grant_keys_unique, ledger_of, lemma_ledger_absent, lemma_ledger_at,
    lemma_ledger_push, lemma_ledger_update, lemma_unique_push, Grant,
};
use crate::model::{
    add_chain_result, admits, chains_after_add, initial_chains, record_grant, update_limit_result,
    window_after_update, Error, LedgerModel,
};
use crate::normalize::{to_upper, upper_of};
use crate::registry::{
    chain_names_unique, chain_set, lemma_chain_names_unique_push, lemma_chain_set_contains,
    lemma_chain_set_push, registry_contains,
};

verus! {

/// The default window: 24 hours in nanoseconds.
pub const ONE_DAY: u64 = 86400 * 1_000_000_000;

/// The engine's entire state.
pub struct Contract {
    requests: Vec<Grant>,
    supported_chains: Vec<String>,
    limit: u64,
}

impl Contract {
    /// The ledger this state stands for.
    pub closed spec fn ledger(self) -> LedgerModel {
        ledger_of(self.requests@)
    }

    /// The set of registered chain names.
    pub closed spec fn chains(self) -> Set<Seq<char>> {
        chain_set(self.supported_chains@)
    }

    /// The current rate-limit window, in nanoseconds.
    pub closed spec fn window(self) -> u64 {
        self.limit
    }

    /// Well-formedness: each (requester, chain) pair and each registered
    /// name is recorded at most once.
    pub closed spec fn wf(self) -> bool {
        grant_keys_unique(self.requests@) && chain_names_unique(self.supported_chains@)
    }

    /// A fresh deployment: empty ledger, the built-in chains, a window of
    /// one day.
    pub fn init() -> (c: Contract)
        ensures
            c.wf(),
            c.ledger() == LedgerModel::empty(),
            c.chains() == initial_chains(),
            c.window() == ONE_DAY,
    {
        let mut supported_chains: Vec<String> = Vec::new();
        let ghost s0 = supported_chains@;
        supported_chains.push(String::from_str("ETHEREUM"));
        let ghost s1 = supported_chains@;
        supported_chains.push(String::from_str("BITCOIN"));
        let ghost s2 = supported_chains@;
        supported_chains.push(String::from_str("DOGECOIN"));
        let ghost s3 = supported_chains@;
        supported_chains.push(String::from_str("RIPPLE"));
        let c = Contract { requests: Vec::new(), supported_chains, limit: ONE_DAY };
        proof {
            let s4 = c.supported_chains@;
            lemma_chain_set_push(s0, s1.last());
            lemma_chain_set_push(s1, s2.last());
            lemma_chain_set_push(s2, s3.last());
            lemma_chain_set_push(s3, s4.last());
            assert(s4[0]@ == "ETHEREUM"@ && s4[1]@ == "BITCOIN"@ && s4[2]@ == "DOGECOIN"@
                && s4[3]@ == "RIPPLE"@);
            reveal_strlit("ETHEREUM");
            reveal_strlit("BITCOIN");
            reveal_strlit("DOGECOIN");
            reveal_strlit("RIPPLE");
            assert("ETHEREUM"@ != "DOGECOIN"@) by {
                assert("ETHEREUM"@[0] != "DOGECOIN"@[0]);
            }
            assert("BITCOIN"@ != "RIPPLE"@) by {
                assert("BITCOIN"@[0] != "RIPPLE"@[0]);
            }
            assert(c.chains() =~= initial_chains());
            assert(chain_names_unique(s4));
        }
        c
    }

    /// Decide admission for `caller` on `chain` at time `now`, and on
    /// admission record `now` as the pair's last grant. A denial changes
    /// nothing.
    pub fn request_tokens(&mut self, caller: &str, chain: &str, now: u64) -> (admitted: bool)
        requires
            old(self).wf(),
        ensures
            final(self).wf(),
            final(self).chains() == old(self).chains(),
            final(self).window() == old(self).window(),
            admitted == admits(old(self).ledger(), caller@, chain@, old(self).window(), now),
            final(self).ledger() == if admitted {
                record_grant(old(self).ledger(), caller@, chain@, now)
            } else {
                old(self).ledger()
            },
    {
        let requestor = String::from_str(caller);
        let chain_owned = String::from_str(chain);
        match find_grant(&self.requests, &requestor, &chain_owned) {
            None => {
                let ghost pre = self.requests@;
                let g = Grant { requester: requestor, chain: chain_owned, time: now };
                proof {
                    lemma_ledger_absent(pre, (caller@, chain@));
                    lemma_ledger_push(pre, g);
                    lemma_unique_push(pre, g);
                }
                self.requests.push(g);
                true
            },
            Some(i) => {
                let last = self.requests[i].time;
                proof {
                    lemma_ledger_at(self.requests@, i as int);
                }
                if now >= last && now - last >= self.limit {
                    let ghost pre = self.requests@;
                    self.requests[i].time = now;
                    proof {
                        lemma_ledger_update(pre, i as int, self.requests@[i as int]);
                    }
                    true
                } else {
                    false
                }
            },
        }
    }

    /// Register a new chain name. Only the deployment itself may do so,
    /// and the name is upper-cased before the existence check and the
    /// insertion; a name already present is rejected unchanged.
    pub fn add_chain(&mut self, caller: &str, self_id: &str, chain: &str) -> (r: Result<(), Error>)
        requires
            old(self).wf(),
        ensures
            final(self).wf(),
            final(self).ledger() == old(self).ledger(),
            final(self).window() == old(self).window(),
            r == add_chain_result(old(self).chains(), caller@, self_id@, upper_of(chain@)),
            final(self).chains() == chains_after_add(
                old(self).chains(),
                caller@,
                self_id@,
                upper_of(chain@),
            ),
    {
        let caller_owned = String::from_str(caller);
        let self_owned = String::from_str(self_id);
        if !(caller_owned == self_owned) {
            return Err(Error::Unauthorized);
        }
        let normalized = to_upper(chain);
        if registry_contains(&self.supported_chains, &normalized) {
            Err(Error::AlreadyExists)
        } else {
            let ghost pre = self.supported_chains@;
            proof {
                lemma_chain_set_contains(pre, normalized@);
                lemma_chain_set_push(pre, normalized);
                lemma_chain_names_unique_push(pre, normalized);
            }
            self.supported_chains.push(normalized);
            Ok(())
        }
    }

    /// Overwrite the rate-limit window. Only the deployment itself may do
    /// so; any value is accepted, including zero.
    pub fn update_limit(&mut self, caller: &str, self_id: &str, limit: u64) -> (r: Result<
        (),
        Error,
    >)
        requires
            old(self).wf(),
        ensures
            final(self).wf(),
            final(self).ledger() == old(self).ledger(),
            final(self).chains() == old(self).chains(),
            r == update_limit_result(caller@, self_id@),
            final(self).window() == window_after_update(
                old(self).window(),
                caller@,
                self_id@,
                limit,
            ),
    {
        let caller_owned = String::from_str(caller);
        let self_owned = String::from_str(self_id);
        if !(caller_owned == self_owned) {
            return Err(Error::Unauthorized);
        }
        self.limit = limit;
        Ok(())
    }

    /// The recorded last-grant time for (caller, chain), if the pair has
    /// ever been admitted.
    pub fn last_grant(&self, caller: &str, chain: &str) -> (r: Option<u64>)
        requires
            self.wf(),
        ensures
            r == if self.ledger().contains_key((caller@, chain@)) {
                Some(self.ledger()[(caller@, chain@)])
            } else {
                None::<u64>
            },
    {
        let requestor = String::from_str(caller);
        let chain_owned = String::from_str(chain);
        match find_grant(&self.requests, &requestor, &chain_owned) {
            None => {
                proof {
                    lemma_ledger_absent(self.requests@, (caller@, chain@));
                }
                None
            },
            Some(i) => {
                proof {
                    lemma_ledger_at(self.requests@, i as int);
                }
                Some(self.requests[i].time)
            },
        }
    }

    /// Whether `chain` is registered, compared verbatim: the stored names
    /// are canonical and a query in another casing does not match.
    pub fn is_chain_supported(&self, chain: &str) -> (r: bool)
        ensures
            r == self.chains().contains(chain@),
    {
        let name = String::from_str(chain);
        registry_contains(&self.supported_chains, &name)
    }

    /// The current rate-limit window, in nanoseconds.
    pub fn current_limit(&self) -> (w: u64)
        ensures
            w == self.window(),
    {
        self.limit
    }
}

} // verus!

