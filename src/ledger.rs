//! Token histories from the rows the event index stores.
use vstd::prelude::*;
use crate::errors::{ErrorKind, history_detail, kind_detail, numeric_detail};
use crate::history::{FtEvent, FtHistoryInfo, HistoryError, is_failure_of, is_history_of, reconstructs_ok, reconstruct};
use crate::numeric::{NumericError, decimal_value, fit_error, is_decimal, parse_u128, parse_u64};

verus! {

/// How many times a failed read of the index is tried again.
pub const RETRY_COUNT: usize = 1;

/// What to do after a read of the index failed.
#[derive(Debug, Clone, Copy, PartialEq, Eq, Structural)]
pub enum FetchStep {
    /// Send the same read again.
    Retry,
    /// Give up: the request fails, and the caller may send it again later.
    GiveUp,
}

/// The decision after `failed_attempts` reads in a row have failed: retry
/// while no more than `RETRY_COUNT` retries have been made.
pub fn after_failed_fetch(failed_attempts: usize) -> (r: FetchStep)
    requires
        failed_attempts >= 1,
    ensures
        r == (if failed_attempts <= RETRY_COUNT { FetchStep::Retry } else { FetchStep::GiveUp }),
{
    if failed_attempts <= RETRY_COUNT {
        FetchStep::Retry
    } else {
        FetchStep::GiveUp
    }
}

/// The fault reported once the retries are used up.
pub fn fetch_gave_up(detail: &String) -> (r: ErrorKind)
    ensures
        r is DBError,
        kind_detail(r) == "retries exhausted: "@ + detail@,
{
    ErrorKind::DBError(String::from_str("retries exhausted: ").concat(detail.as_str()))
}

/// A transfer event as the index stores it, numbers as decimal text.
#[derive(Debug, Clone)]
pub struct FtEventRow {
    pub block_height: String,
    pub block_timestamp: String,
    pub amount: String,
    pub event_kind: String,
    pub old_owner_id: String,
    pub new_owner_id: String,
}

pub open spec fn fits(s: Seq<char>, max: int) -> bool {
    is_decimal(s) && decimal_value(s) <= max
}

pub open spec fn row_readable(r: FtEventRow) -> bool {
    fits(r.block_height@, u64::MAX as int) && fits(r.block_timestamp@, u64::MAX as int) && fits(
        r.amount@,
        u128::MAX as int,
    )
}

/// The error of an unreadable row: that of its first field that does not fit,
/// in the order height, timestamp, amount.
pub open spec fn row_error(r: FtEventRow) -> NumericError {
    if !fits(r.block_height@, u64::MAX as int) {
        fit_error(r.block_height@)
    } else if !fits(r.block_timestamp@, u64::MAX as int) {
        fit_error(r.block_timestamp@)
    } else {
        fit_error(r.amount@)
    }
}

/// The event a readable row stands for.
pub open spec fn row_event(r: FtEventRow) -> FtEvent {
    FtEvent {
        block_height: decimal_value(r.block_height@) as u64,
        block_timestamp: decimal_value(r.block_timestamp@) as u64,
        amount: decimal_value(r.amount@) as u128,
        event_kind: r.event_kind,
        old_owner_id: r.old_owner_id,
        new_owner_id: r.new_owner_id,
    }
}

/// Reads stored rows as events, in the same order.
pub fn events_from_rows(rows: &Vec<FtEventRow>) -> (r: Result<Vec<FtEvent>, NumericError>)
    ensures
        r is Ok <==> forall|i: int| 0 <= i < rows@.len() ==> row_readable(#[trigger] rows@[i]),
        r matches Ok(es) ==> es@ == rows@.map_values(|row: FtEventRow| row_event(row)),
        r matches Err(e) ==> exists|i: int|
            0 <= i < rows@.len() && (forall|j: int| 0 <= j < i ==> row_readable(#[trigger] rows@[j]))
                && !row_readable(#[trigger] rows@[i]) && e == row_error(rows@[i]),
{
    let mut out: Vec<FtEvent> = Vec::new();
    let mut i: usize = 0;
    while i < rows.len()
        invariant
            i <= rows@.len(),
            forall|j: int| 0 <= j < i ==> row_readable(#[trigger] rows@[j]),
            out@ =~= rows@.subrange(0, i as int).map_values(|row: FtEventRow| row_event(row)),
        decreases rows@.len() - i,
    {
        let row = &rows[i];
        let block_height = match parse_u64(row.block_height.as_str()) {
            Ok(v) => v,
            Err(e) => return Err(e),
        };
        let block_timestamp = match parse_u64(row.block_timestamp.as_str()) {
            Ok(v) => v,
            Err(e) => return Err(e),
        };
        let amount = match parse_u128(row.amount.as_str()) {
            Ok(v) => v,
            Err(e) => return Err(e),
        };
        out.push(
            FtEvent {
                block_height,
                block_timestamp,
                amount,
                event_kind: row.event_kind.clone(),
                old_owner_id: row.old_owner_id.clone(),
                new_owner_id: row.new_owner_id.clone(),
            },
        );
        i = i + 1;
        assert(out@ =~= rows@.subrange(0, i as int).map_values(|row: FtEventRow| row_event(row)));
    }
    assert(rows@.subrange(0, i as int) =~= rows@);
    Ok(out)
}

/// The history of `account_id` for the token of `contract_id`, newest first,
/// from its balance at the reference block and the stored rows of its events
/// up to that block in ascending order.
pub fn ft_history(
    account_id: &String,
    contract_id: &String,
    current_balance: u128,
    rows: &Vec<FtEventRow>,
) -> (r: Result<Vec<FtHistoryInfo>, ErrorKind>)
    ensures
        ({
            let readable = forall|i: int| 0 <= i < rows@.len() ==> row_readable(#[trigger] rows@[i]);
            let es = rows@.map_values(|row: FtEventRow| row_event(row));
            &&& (r is Ok <==> readable && reconstructs_ok(account_id@, current_balance as int, es))
            &&& (r matches Ok(out) ==> is_history_of(account_id@, current_balance as int, es, out@))
            &&& (readable ==> (r matches Err(k) ==> k is DataIntegrity && exists|e: HistoryError|
                is_failure_of(account_id@, current_balance as int, es, e) && kind_detail(k)
                    == history_detail(e, account_id@, contract_id@)))
            &&& (!readable ==> (r matches Err(k) && k is DataIntegrity && exists|i: int|
                0 <= i < rows@.len() && (forall|j: int| 0 <= j < i ==> row_readable(#[trigger] rows@[j]))
                    && !row_readable(#[trigger] rows@[i]) && kind_detail(k) == numeric_detail(
                    row_error(rows@[i]),
                )))
        }),
{
    let events = match events_from_rows(rows) {
        Ok(es) => es,
        Err(e) => return Err(e.to_error_kind()),
    };
    match reconstruct(account_id, current_balance, &events) {
        Ok(out) => Ok(out),
        Err(e) => Err(e.to_error_kind(account_id, contract_id)),
    }
}

} // verus!
