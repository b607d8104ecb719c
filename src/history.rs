//! Rebuilding one account's balance history for one token, newest first,
//! from its present balance and its transfer events in ascending order.
use vstd::prelude::*;
use crate::account::{is_account_id, valid_account_id};

verus! {

/// One indexed transfer event of a token. An empty owner stands for a side
/// outside the tracked accounts (a mint or a burn).
#[derive(Debug, Clone)]
pub struct FtEvent {
    pub block_height: u64,
    pub block_timestamp: u64,
    pub amount: u128,
    pub event_kind: String,
    pub old_owner_id: String,
    pub new_owner_id: String,
}

/// One step of a reconstructed history.
#[derive(Debug, Clone)]
pub struct FtHistoryInfo {
    pub action_kind: String,
    /// The other side of the event, absent for a mint or a burn.
    pub affected_account_id: Option<String>,
    /// The change of the subject's balance caused by the event.
    pub delta_balance: i128,
    /// The subject's balance right after the event.
    pub balance: u128,
    pub block_timestamp_nanos: u64,
    pub block_height: u64,
}

/// Why a history could not be rebuilt.
#[derive(Debug, Clone, Copy, PartialEq, Eq, Structural)]
pub enum HistoryError {
    /// An amount does not fit a signed 128-bit change, or a rebuilt balance
    /// does not fit 128 bits.
    DataFormat,
    /// An event names the subject on neither side.
    NotInvolved,
    /// The other side of an event is not a well-formed account ID.
    InvalidAccountId,
    /// The balance before some event would be negative.
    NegativeBalance,
    /// The balance before the earliest event is not zero.
    Reconciliation,
}

pub open spec fn involves(subject: Seq<char>, e: FtEvent) -> bool {
    subject == e.old_owner_id@ || subject == e.new_owner_id@
}

/// The change that `e` makes to the subject's balance; the sending side
/// decides when the subject stands on both.
pub open spec fn event_delta(subject: Seq<char>, e: FtEvent) -> int {
    if subject == e.old_owner_id@ {
        -(e.amount as int)
    } else if subject == e.new_owner_id@ {
        e.amount as int
    } else {
        0
    }
}

/// The owner field of `e` on the side that is not the subject.
pub open spec fn other_side(subject: Seq<char>, e: FtEvent) -> String {
    if subject == e.old_owner_id@ {
        e.new_owner_id
    } else {
        e.old_owner_id
    }
}

/// The side of `e` that is not the subject, if it is an account.
pub open spec fn counterparty(subject: Seq<char>, e: FtEvent) -> Option<String> {
    let other = other_side(subject, e);
    if other@.len() == 0 {
        None
    } else {
        Some(other)
    }
}

/// Sum of the changes made by a run of events.
pub open spec fn delta_sum(subject: Seq<char>, es: Seq<FtEvent>) -> int
    decreases es.len(),
{
    if es.len() == 0 {
        0
    } else {
        event_delta(subject, es[0]) + delta_sum(subject, es.drop_first())
    }
}

/// The subject's balance right after event `k`: the present balance minus
/// what every later event changed.
pub open spec fn balance_after(subject: Seq<char>, current: int, es: Seq<FtEvent>, k: int) -> int {
    current - delta_sum(subject, es.subrange(k + 1, es.len() as int))
}

/// The subject's balance right before event `k`.
pub open spec fn balance_before(subject: Seq<char>, current: int, es: Seq<FtEvent>, k: int) -> int {
    current - delta_sum(subject, es.subrange(k, es.len() as int))
}

/// What goes wrong at event `k`, given that every later event went well.
pub open spec fn step_error(subject: Seq<char>, current: int, es: Seq<FtEvent>, k: int) -> Option<
    HistoryError,
> {
    let pre = balance_before(subject, current, es, k);
    if es[k].amount > i128::MAX {
        Some(HistoryError::DataFormat)
    } else if !involves(subject, es[k]) {
        Some(HistoryError::NotInvolved)
    } else if other_side(subject, es[k])@.len() > 0 && !valid_account_id(other_side(subject, es[k])@) {
        Some(HistoryError::InvalidAccountId)
    } else if pre < 0 {
        Some(HistoryError::NegativeBalance)
    } else if pre > u128::MAX {
        Some(HistoryError::DataFormat)
    } else {
        None
    }
}

/// No event from `k` on goes wrong.
pub open spec fn steps_ok_from(subject: Seq<char>, current: int, es: Seq<FtEvent>, k: int) -> bool {
    forall|j: int| k <= j < es.len() ==> #[trigger] step_error(subject, current, es, j) is None
}

/// Nothing appeared from nowhere: before the earliest event the balance was zero.
pub open spec fn reconciles(subject: Seq<char>, current: int, es: Seq<FtEvent>) -> bool {
    es.len() > 0 ==> balance_before(subject, current, es, 0) == 0
}

/// Reconstruction succeeds: no event goes wrong and the window reconciles.
pub open spec fn reconstructs_ok(subject: Seq<char>, current: int, es: Seq<FtEvent>) -> bool {
    steps_ok_from(subject, current, es, 0) && reconciles(subject, current, es)
}

/// The history entry made for event `k`.
pub open spec fn entry_for(subject: Seq<char>, current: int, es: Seq<FtEvent>, k: int) -> FtHistoryInfo {
    FtHistoryInfo {
        action_kind: es[k].event_kind,
        affected_account_id: counterparty(subject, es[k]),
        delta_balance: event_delta(subject, es[k]) as i128,
        balance: balance_after(subject, current, es, k) as u128,
        block_timestamp_nanos: es[k].block_timestamp,
        block_height: es[k].block_height,
    }
}

/// The full history, newest first.
pub open spec fn expected_history(subject: Seq<char>, current: int, es: Seq<FtEvent>) -> Seq<
    FtHistoryInfo,
> {
    Seq::new(es.len(), |j: int| entry_for(subject, current, es, es.len() - 1 - j))
}

/// `out` is the history that reconstruction gives for these inputs.
pub open spec fn is_history_of(
    subject: Seq<char>,
    current: int,
    es: Seq<FtEvent>,
    out: Seq<FtHistoryInfo>,
) -> bool {
    steps_ok_from(subject, current, es, 0) && reconciles(subject, current, es) && out
        == expected_history(subject, current, es)
}

/// What reconstruction fails with: the error of the latest event that goes
/// wrong, else a failed reconciliation.
pub open spec fn is_failure_of(subject: Seq<char>, current: int, es: Seq<FtEvent>, e: HistoryError) -> bool {
    (exists|k: int|
        0 <= k < es.len() && steps_ok_from(subject, current, es, k + 1) && #[trigger] step_error(
            subject,
            current,
            es,
            k,
        ) == Some(e)) || (steps_ok_from(subject, current, es, 0) && !reconciles(subject, current, es)
        && e == HistoryError::Reconciliation)
}

proof fn lemma_suffix_step(subject: Seq<char>, es: Seq<FtEvent>, k: int)
    requires
        0 <= k < es.len(),
    ensures
        delta_sum(subject, es.subrange(k, es.len() as int)) == event_delta(subject, es[k])
            + delta_sum(subject, es.subrange(k + 1, es.len() as int)),
{
    assert(es.subrange(k, es.len() as int).drop_first() =~= es.subrange(k + 1, es.len() as int));
}

/// Rebuilds the history of `subject` from its present balance and its events
/// in ascending order; the result is newest first.
#[verifier::rlimit(30)]
pub fn reconstruct(subject: &String, current_balance: u128, events: &Vec<FtEvent>) -> (r: Result<
    Vec<FtHistoryInfo>,
    HistoryError,
>)
    ensures
        r matches Ok(out) ==> is_history_of(subject@, current_balance as int, events@, out@),
        r matches Err(e) ==> is_failure_of(subject@, current_balance as int, events@, e),
        r is Ok <==> reconstructs_ok(subject@, current_balance as int, events@),
{
    let ghost cur = current_balance as int;
    let ghost es = events@;
    let n = events.len();
    let mut result: Vec<FtHistoryInfo> = Vec::new();
    let mut last_balance: u128 = current_balance;
    let mut k: usize = n;
    assert(es.subrange(n as int, n as int) =~= Seq::<FtEvent>::empty());
    while k > 0
        invariant
            n == es.len(),
            es == events@,
            cur == current_balance as int,
            k <= n,
            last_balance as int == balance_before(subject@, cur, es, k as int),
            steps_ok_from(subject@, cur, es, k as int),
            result@.len() == n - k,
            forall|j: int|
                0 <= j < n - k ==> #[trigger] result@[j] == entry_for(
                    subject@,
                    cur,
                    es,
                    n - 1 - j,
                ),
        decreases k,
    {
        k = k - 1;
        let ev = &events[k];
        proof {
            lemma_suffix_step(subject@, es, k as int);
        }
        if ev.amount > i128::MAX as u128 {
            return Err(HistoryError::DataFormat);
        }
        let amount = ev.amount as i128;
        let delta: i128;
        let other: &String;
        if *subject == ev.old_owner_id {
            delta = -amount;
            other = &ev.new_owner_id;
        } else if *subject == ev.new_owner_id {
            delta = amount;
            other = &ev.old_owner_id;
        } else {
            return Err(HistoryError::NotInvolved);
        }
        assert(*other == other_side(subject@, es[k as int]));
        assert(delta as int == event_delta(subject@, es[k as int]));
        let affected: Option<String> = if other.unicode_len() == 0 {
            None
        } else {
            if !is_account_id(other.as_str()) {
                return Err(HistoryError::InvalidAccountId);
            }
            Some(other.clone())
        };
        assert(affected == counterparty(subject@, es[k as int]));
        let balance = last_balance;
        if delta > 0 && (delta as u128) > last_balance {
            return Err(HistoryError::NegativeBalance);
        }
        if delta < 0 && ((-delta) as u128) > u128::MAX - last_balance {
            return Err(HistoryError::DataFormat);
        }
        if delta >= 0 {
            last_balance = last_balance - delta as u128;
        } else {
            last_balance = last_balance + (-delta) as u128;
        }
        result.push(
            FtHistoryInfo {
                action_kind: ev.event_kind.clone(),
                affected_account_id: affected,
                delta_balance: delta,
                balance,
                block_timestamp_nanos: ev.block_timestamp,
                block_height: ev.block_height,
            },
        );
        assert(step_error(subject@, cur, es, k as int) is None);
        assert forall|j: int| k <= j < n implies #[trigger] step_error(subject@, cur, es, j) is None by {
            if j > k {
                assert(steps_ok_from(subject@, cur, es, k + 1));
            }
        }
    }
    // Only the window's start is checked: events missing in the middle that
    // cancel out go unnoticed.
    if n > 0 && last_balance != 0 {
        return Err(HistoryError::Reconciliation);
    }
    assert(result@ =~= expected_history(subject@, cur, es));
    Ok(result)
}

} // verus!
