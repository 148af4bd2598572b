use faucet_gate::{Contract, Error, ONE_DAY};

#[test]
fn test_one_day_value() {
    assert_eq!(ONE_DAY, 86_400_000_000_000);
    let contract = Contract::init();
    assert_eq!(contract.current_limit(), ONE_DAY);
}

#[test]
fn test_first_request_records_call_time() {
    let mut contract = Contract::init();
    assert!(contract.request_tokens("alice.near", "RIPPLE", 12_345));
    assert_eq!(contract.last_grant("alice.near", "RIPPLE"), Some(12_345));
}

#[test]
fn test_window_boundary_scenario() {
    let mut contract = Contract::init();
    let user = "U";

    assert!(contract.request_tokens(user, "BITCOIN", 0));
    assert_eq!(contract.last_grant(user, "BITCOIN"), Some(0));

    assert_eq!(contract.request_tokens(user, "BITCOIN", 86_400_000_000_000 - 50), false);
    assert_eq!(contract.last_grant(user, "BITCOIN"), Some(0));

    assert_eq!(contract.request_tokens(user, "BITCOIN", 86_400_000_000_000 + 50), true);
    assert_eq!(contract.last_grant(user, "BITCOIN"), Some(86_400_000_000_050));

    // an independent chain for the same caller is unaffected
    assert!(contract.request_tokens(user, "ETHEREUM", 0));
    assert_eq!(contract.last_grant(user, "ETHEREUM"), Some(0));
    assert_eq!(contract.last_grant(user, "BITCOIN"), Some(86_400_000_000_050));
}

#[test]
fn test_exact_boundary_admits() {
    let mut contract = Contract::init();
    assert!(contract.request_tokens("bob.near", "DOGECOIN", 100));
    // the instant the window ends is itself admitted
    assert_eq!(contract.request_tokens("bob.near", "DOGECOIN", 100 + ONE_DAY), true);
    assert_eq!(contract.last_grant("bob.near", "DOGECOIN"), Some(100 + ONE_DAY));
}

#[test]
fn test_independent_callers() {
    let mut contract = Contract::init();
    assert!(contract.request_tokens("alice.near", "BITCOIN", 0));
    assert!(contract.request_tokens("bob.near", "BITCOIN", 1));
    assert_eq!(contract.request_tokens("alice.near", "BITCOIN", 2), false);
    assert_eq!(contract.last_grant("alice.near", "BITCOIN"), Some(0));
    assert_eq!(contract.last_grant("bob.near", "BITCOIN"), Some(1));
}

#[test]
fn test_zero_window_always_admits() {
    let mut contract = Contract::init();
    let own = "faucet.near";
    assert!(contract.request_tokens("carol.near", "BITCOIN", 7));
    assert_eq!(contract.update_limit(own, own, 0), Ok(()));
    assert_eq!(contract.current_limit(), 0);
    assert_eq!(contract.request_tokens("carol.near", "BITCOIN", 7), true);
    assert_eq!(contract.request_tokens("carol.near", "BITCOIN", 8), true);
    assert_eq!(contract.last_grant("carol.near", "BITCOIN"), Some(8));
}

#[test]
fn test_update_limit_changes_gate() {
    let mut contract = Contract::init();
    let own = "faucet.near";
    assert_eq!(contract.update_limit(own, own, 1_000), Ok(()));
    assert!(contract.request_tokens("dave.near", "BITCOIN", 0));
    assert_eq!(contract.request_tokens("dave.near", "BITCOIN", 999), false);
    assert_eq!(contract.request_tokens("dave.near", "BITCOIN", 1_000), true);
}

#[test]
fn test_update_limit_unauthorized_keeps_window() {
    let mut contract = Contract::init();
    assert_eq!(
        contract.update_limit("mallory.near", "faucet.near", 0),
        Err(Error::Unauthorized)
    );
    assert_eq!(contract.current_limit(), ONE_DAY);
    // the old window still gates requests
    assert!(contract.request_tokens("erin.near", "BITCOIN", 0));
    assert_eq!(contract.request_tokens("erin.near", "BITCOIN", 1), false);
}

#[test]
fn test_add_chain_duplicate_any_casing() {
    let mut contract = Contract::init();
    let own = "faucet.near";
    assert_eq!(contract.add_chain(own, own, "bitcoin2"), Ok(()));
    assert_eq!(contract.add_chain(own, own, "Bitcoin2"), Err(Error::AlreadyExists));
    assert_eq!(contract.add_chain(own, own, "BITCOIN2"), Err(Error::AlreadyExists));
    assert_eq!(contract.add_chain(own, own, "ethereum"), Err(Error::AlreadyExists));
}

#[test]
fn test_add_chain_normalizes_case() {
    let mut contract = Contract::init();
    let own = "faucet.near";
    assert_eq!(contract.add_chain(own, own, "solana"), Ok(()));
    // stored in canonical upper case, not as supplied
    assert!(contract.is_chain_supported("SOLANA"));
    assert!(!contract.is_chain_supported("solana"));
}

#[test]
fn test_seeded_chains() {
    let contract = Contract::init();
    assert!(contract.is_chain_supported("ETHEREUM"));
    assert!(contract.is_chain_supported("BITCOIN"));
    assert!(contract.is_chain_supported("DOGECOIN"));
    assert!(contract.is_chain_supported("RIPPLE"));
    assert!(!contract.is_chain_supported("SOLANA"));
}

#[test]
fn test_empty_identifiers_accepted() {
    let mut contract = Contract::init();
    // malformed inputs are accepted as opaque strings
    assert!(contract.request_tokens("", "", 0));
    assert_eq!(contract.request_tokens("", "", 1), false);
    assert_eq!(contract.last_grant("", ""), Some(0));
}

#[test]
fn test_unregistered_chain_still_tracked() {
    let mut contract = Contract::init();
    // the ledger does not consult the registry
    assert!(contract.request_tokens("frank.near", "NOT_A_CHAIN", 5));
    assert_eq!(contract.request_tokens("frank.near", "NOT_A_CHAIN", 6), false);
    assert!(!contract.is_chain_supported("NOT_A_CHAIN"));
}
