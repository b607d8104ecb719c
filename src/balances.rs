//! Present balances of an account: the native coin from its latest snapshot,
//! tokens from what their contracts report.
use vstd::prelude::*;
use crate::errors::ErrorKind;
use crate::numeric::{NumericError, decimal_value, fit_error, is_decimal, parse_u128};
use crate::types::FungibleTokenMetadata;

verus! {

/// One balance of an account, in the coin's own units.
#[derive(Debug, Clone)]
pub struct CoinInfo {
    pub standard: String,
    /// The issuing contract, absent for the native coin.
    pub contract_account_id: Option<String>,
    pub balance: u128,
    pub symbol: String,
    pub decimals: u8,
    pub icon: Option<String>,
}

/// A recorded native balance, as stored: the free part and the staked part.
#[derive(Debug, Clone)]
pub struct BalanceSnapshot {
    pub nonstaked: String,
    pub staked: String,
}

/// Why the native balance could not be given.
#[derive(Debug, Clone)]
pub enum SnapshotError {
    /// No snapshot exists at or before the time asked about.
    NotFound(ErrorKind),
    /// A stored part is not a number.
    DataFormat(NumericError),
    /// The two parts together do not fit 128 bits.
    Overflow,
}

pub open spec fn readable(s: Seq<char>) -> bool {
    is_decimal(s) && decimal_value(s) <= u128::MAX
}

/// The native balance from the snapshots at or before a time, latest first:
/// the first one's free and staked parts added up.
pub fn native_balance(account_id: &String, snapshots: &Vec<BalanceSnapshot>) -> (r: Result<
    CoinInfo,
    SnapshotError,
>)
    ensures
        snapshots@.len() == 0 <==> r matches Err(SnapshotError::NotFound(_)),
        snapshots@.len() == 0 ==> (r matches Err(SnapshotError::NotFound(k)) && k is NotFound
            && crate::errors::kind_detail(k)
            == "Could not find the data in account_changes table for account_id "@ + account_id@),
        snapshots@.len() > 0 ==> {
            let s = snapshots@[0];
            &&& (r is Ok <==> readable(s.nonstaked@) && readable(s.staked@) && decimal_value(
                s.nonstaked@,
            ) + decimal_value(s.staked@) <= u128::MAX)
            &&& (r matches Err(SnapshotError::DataFormat(_)) <==> !readable(s.nonstaked@)
                || !readable(s.staked@))
            &&& (r matches Err(SnapshotError::DataFormat(e)) ==> e == (if !readable(s.nonstaked@) {
                fit_error(s.nonstaked@)
            } else {
                fit_error(s.staked@)
            }))
        },
        r matches Ok(c) ==> c.balance == decimal_value(snapshots@[0].nonstaked@) + decimal_value(
            snapshots@[0].staked@,
        ) && c.standard@ == "nearprotocol"@ && c.contract_account_id is None && c.symbol@
            == "NEAR"@ && c.decimals == 24 && c.icon is None,
{
    if snapshots.len() == 0 {
        let m = String::from_str("Could not find the data in account_changes table for account_id ")
            .concat(account_id.as_str());
        return Err(SnapshotError::NotFound(ErrorKind::NotFound(m)));
    }
    let s = &snapshots[0];
    let nonstaked = match parse_u128(s.nonstaked.as_str()) {
        Ok(v) => v,
        Err(e) => return Err(SnapshotError::DataFormat(e)),
    };
    let staked = match parse_u128(s.staked.as_str()) {
        Ok(v) => v,
        Err(e) => return Err(SnapshotError::DataFormat(e)),
    };
    match nonstaked.checked_add(staked) {
        Some(amount) => Ok(
            CoinInfo {
                standard: String::from_str("nearprotocol"),
                contract_account_id: None,
                balance: amount,
                symbol: String::from_str("NEAR"),
                decimals: 24,
                icon: None,
            },
        ),
        None => Err(SnapshotError::Overflow),
    }
}

/// The balance of a token as its contract reports it, with the token's
/// symbol, decimals and icon.
pub fn ft_balance_for_contract(contract_id: &String, balance: u128, metadata: FungibleTokenMetadata) -> (r:
    CoinInfo)
    ensures
        r.standard@ == "nep141"@,
        r.contract_account_id == Some(*contract_id),
        r.balance == balance,
        r.symbol == metadata.symbol,
        r.decimals == metadata.decimals,
        r.icon == metadata.icon,
{
    CoinInfo {
        standard: String::from_str("nep141"),
        contract_account_id: Some(contract_id.clone()),
        balance,
        symbol: metadata.symbol,
        decimals: metadata.decimals,
        icon: metadata.icon,
    }
}

/// Whether an account exists, given the kinds of its successful actions at
/// or before a time, latest first: it has acted, and its last act was not to
/// delete itself.
pub fn account_exists(action_kinds: &Vec<String>) -> (r: bool)
    ensures
        r == (action_kinds@.len() > 0 && action_kinds@[0]@ != "DELETE_ACCOUNT"@),
{
    if action_kinds.len() == 0 {
        return false;
    }
    let deleted = String::from_str("DELETE_ACCOUNT");
    !(action_kinds[0] == deleted)
}

impl SnapshotError {
    /// The fault kind reported for this failure: a missing snapshot is the
    /// store's answer, a bad one a fault of the stored data that a retry
    /// cannot mend.
    pub fn to_error_kind(self) -> (r: ErrorKind)
        ensures
            self matches SnapshotError::NotFound(k) ==> r == k,
            !(self is NotFound) ==> r is DataIntegrity,
            self matches SnapshotError::DataFormat(e) ==> crate::errors::kind_detail(r)
                == crate::errors::numeric_detail(e),
            self is Overflow ==> crate::errors::kind_detail(r) == "stored balance is out of range"@,
    {
        match self {
            SnapshotError::NotFound(k) => k,
            SnapshotError::DataFormat(e) => e.to_error_kind(),
            SnapshotError::Overflow => ErrorKind::DataIntegrity(
                String::from_str("stored balance is out of range"),
            ),
        }
    }
}

} // verus!
