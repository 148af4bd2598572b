use faucet_gate::{Contract, Error, ONE_DAY};

#[test]
fn test_request_tokens() {
    let mut contract = Contract::init();
    let test_chain = "BITCOIN";
    let test_account = "user.near";

    assert!(contract.request_tokens(test_account, test_chain, 0));
    assert!(contract.last_grant(test_account, test_chain).is_some());
    assert_eq!(contract.last_grant(test_account, test_chain), Some(0));
}

// test with same chain request - within a day + more than a day
#[test]
fn test_request_tokens_rate_limits() {
    let mut contract = Contract::init();
    let test_chain = "BITCOIN";
    let test_account = "user.near";

    // make first request at timestamp 0
    assert!(contract.request_tokens(test_account, test_chain, 0));

    // making request less than a day more doesn't work
    assert_eq!(contract.request_tokens(test_account, test_chain, ONE_DAY - 50), false);

    // making request more than a day does work
    assert_eq!(contract.request_tokens(test_account, test_chain, ONE_DAY + 50), true);
}

#[test]
fn test_request_tokens_rate_limits_different_chains() {
    let mut contract = Contract::init();
    let test_chain = "BITCOIN";
    let test_chain_2 = "ETHEREUM";
    let test_account = "user.near";

    // make first request at timestamp 0
    assert!(contract.request_tokens(test_account, test_chain, 0));
    assert!(contract.request_tokens(test_account, test_chain_2, 0));

    // making request more than a day does work
    assert_eq!(contract.request_tokens(test_account, test_chain, ONE_DAY + 50), true);
    assert_eq!(contract.request_tokens(test_account, test_chain_2, ONE_DAY + 50), true);
}

#[test]
fn test_add_chain_as_owner() {
    let mut contract = Contract::init();
    let owner_account = "owner.near";
    let test_new_chain = "BITCOIN2";

    assert_eq!(contract.add_chain(owner_account, owner_account, test_new_chain), Ok(()));

    assert!(contract.is_chain_supported(test_new_chain));
}

#[test]
fn test_add_chain_not_as_owner() {
    let mut contract = Contract::init();
    let caller_account = "owner.near";
    let own_account = "not_owner.near";
    let test_new_chain = "BITCOIN2";

    // only the deployment's own identity may add a chain
    assert_eq!(
        contract.add_chain(caller_account, own_account, test_new_chain),
        Err(Error::Unauthorized)
    );
    assert!(!contract.is_chain_supported(test_new_chain));
}
