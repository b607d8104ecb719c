use balance_history::balances::{account_exists, ft_balance_for_contract, native_balance, BalanceSnapshot, SnapshotError};
use balance_history::errors::{Error, ErrorKind};
use balance_history::numeric::NumericError;
use balance_history::ledger::{after_failed_fetch, events_from_rows, fetch_gave_up, ft_history, FetchStep, FtEventRow};
use balance_history::types::FungibleTokenMetadata;

fn snap(nonstaked: &str, staked: &str) -> BalanceSnapshot {
    BalanceSnapshot { nonstaked: nonstaked.to_string(), staked: staked.to_string() }
}

#[test]
fn native_balance_adds_latest_snapshot() {
    let rows = vec![snap("100", "23"), snap("1", "1")];
    let c = native_balance(&"alice".to_string(), &rows).unwrap();
    assert_eq!(c.balance, 123);
    assert_eq!(c.standard, "nearprotocol");
    assert_eq!(c.symbol, "NEAR");
    assert_eq!(c.decimals, 24);
    assert_eq!(c.contract_account_id, None);
    assert_eq!(c.icon, None);
}

#[test]
fn native_balance_without_snapshot_is_not_found() {
    match native_balance(&"alice".to_string(), &vec![]) {
        Err(SnapshotError::NotFound(ErrorKind::NotFound(m))) => assert_eq!(
            m,
            "Could not find the data in account_changes table for account_id alice"
        ),
        other => panic!("unexpected {:?}", other),
    }
}

#[test]
fn native_balance_bad_or_huge_parts() {
    assert!(matches!(
        native_balance(&"a".to_string(), &vec![snap("x", "1")]),
        Err(SnapshotError::DataFormat(NumericError::NotANumber))
    ));
    assert!(matches!(
        native_balance(&"a".to_string(), &vec![snap("1", "340282366920938463463374607431768211456")]),
        Err(SnapshotError::DataFormat(NumericError::OutOfRange))
    ));
    let max = u128::MAX.to_string();
    assert!(matches!(native_balance(&"a".to_string(), &vec![snap(&max, "1")]), Err(SnapshotError::Overflow)));
    assert_eq!(native_balance(&"a".to_string(), &vec![snap(&max, "0")]).unwrap().balance, u128::MAX);
}

#[test]
fn token_balance_carries_metadata() {
    let md = FungibleTokenMetadata {
        spec: "ft-1.0.0".to_string(),
        name: "Wrapped".to_string(),
        symbol: "WRP".to_string(),
        icon: Some("data:icon".to_string()),
        reference: None,
        reference_hash: None,
        decimals: 18,
    };
    let c = ft_balance_for_contract(&"wrap.near".to_string(), 999, md);
    assert_eq!(c.standard, "nep141");
    assert_eq!(c.contract_account_id, Some("wrap.near".to_string()));
    assert_eq!((c.balance, c.symbol.as_str(), c.decimals), (999, "WRP", 18));
    assert_eq!(c.icon, Some("data:icon".to_string()));
}

#[test]
fn account_exists_by_last_action() {
    assert!(!account_exists(&vec![]));
    assert!(account_exists(&vec!["TRANSFER".to_string(), "DELETE_ACCOUNT".to_string()]));
    assert!(!account_exists(&vec!["DELETE_ACCOUNT".to_string(), "TRANSFER".to_string()]));
}

fn row(height: &str, amount: &str, from: &str, to: &str) -> FtEventRow {
    FtEventRow {
        block_height: height.to_string(),
        block_timestamp: format!("{}000", height),
        amount: amount.to_string(),
        event_kind: "TRANSFER".to_string(),
        old_owner_id: from.to_string(),
        new_owner_id: to.to_string(),
    }
}

#[test]
fn rows_become_events() {
    let es = events_from_rows(&vec![row("3", "40", "alice", "bob")]).unwrap();
    assert_eq!((es[0].block_height, es[0].block_timestamp, es[0].amount), (3, 3000, 40));
    assert!(events_from_rows(&vec![row("3", "-40", "alice", "bob")]).is_err());
}

#[test]
fn token_history_from_rows() {
    let rows = vec![row("1", "10", "", "alice"), row("2", "30", "alice", "bob")];
    let a = "alice".to_string();
    let c = "token.near".to_string();
    // Scenario of a missing earlier mint: 5 after sending 30 means 35 before,
    // and the mint of 10 leaves 25 unexplained.
    match ft_history(&a, &c, 5, &rows) {
        Err(ErrorKind::DataIntegrity(m)) => {
            assert_eq!(m, "We have found the money from nowhere for account alice, contract token.near")
        }
        other => panic!("unexpected {:?}", other),
    }
    let out = ft_history(&"bob".to_string(), &c, 30, &rows[1..].to_vec()).unwrap();
    assert_eq!(out.len(), 1);
    assert_eq!((out[0].delta_balance, out[0].balance, out[0].block_height), (30, 30, 2));
    assert!(matches!(ft_history(&a, &c, 5, &vec![row("x", "1", "", "alice")]), Err(ErrorKind::DataIntegrity(_))));
}

#[test]
fn retry_once_then_give_up() {
    assert_eq!(after_failed_fetch(1), FetchStep::Retry);
    assert_eq!(after_failed_fetch(2), FetchStep::GiveUp);
    assert_eq!(after_failed_fetch(usize::MAX), FetchStep::GiveUp);
    match fetch_gave_up(&"timeout".to_string()) {
        ErrorKind::DBError(m) => assert_eq!(m, "retries exhausted: timeout"),
        other => panic!("unexpected {:?}", other),
    }
}

#[test]
fn unreadable_row_names_its_first_bad_field() {
    let a = "alice".to_string();
    let c = "token.near".to_string();
    let rows = vec![row("1", "10", "", "alice"), row("2", "99999999999999999999999999999999999999999", "alice", "bob")];
    match ft_history(&a, &c, 0, &rows) {
        Err(ErrorKind::DataIntegrity(m)) => assert_eq!(m, "stored value is out of range"),
        other => panic!("unexpected {:?}", other),
    }
    let rows = vec![row("1", "x", "", "alice")];
    match ft_history(&a, &c, 0, &rows) {
        Err(ErrorKind::DataIntegrity(m)) => assert_eq!(m, "stored value is not a number"),
        other => panic!("unexpected {:?}", other),
    }
}

#[test]
fn missing_snapshot_is_no_data_not_a_fault() {
    let kind = native_balance(&"alice".to_string(), &vec![]).unwrap_err().to_error_kind();
    let e = Error::from_error_kind(kind);
    assert_eq!(e.code, 404);
    assert!(!e.retriable);
    assert_eq!(e.message, "Not Found: Could not find the data in account_changes table for account_id alice");
}

#[test]
fn bad_snapshot_is_a_permanent_fault() {
    let max = u128::MAX.to_string();
    let kind = native_balance(&"a".to_string(), &vec![snap(&max, "1")]).unwrap_err().to_error_kind();
    let e = Error::from_error_kind(kind);
    assert_eq!((e.code, e.retriable), (500, false));
    assert_eq!(e.message, "Data Integrity Error: stored balance is out of range");
    let kind = native_balance(&"a".to_string(), &vec![snap("1", "x")]).unwrap_err().to_error_kind();
    assert_eq!(Error::from_error_kind(kind).message, "Data Integrity Error: stored value is not a number");
}

#[test]
fn history_faults_are_not_retriable_but_exhausted_reads_are() {
    let rows = vec![row("1", "10", "", "alice"), row("2", "30", "alice", "bob")];
    let kind = ft_history(&"alice".to_string(), &"token.near".to_string(), 5, &rows).unwrap_err();
    let e = Error::from_error_kind(kind);
    assert_eq!((e.code, e.retriable), (500, false));
    let e = Error::from_error_kind(fetch_gave_up(&"timeout".to_string()));
    assert_eq!((e.code, e.retriable), (500, true));
}
