//! Properties of reconstructed histories, stated over the model that
//! `history::reconstruct` is specified by.
use vstd::prelude::*;
use crate::account::valid_account_id;
use crate::history::{
    FtEvent,
    FtHistoryInfo,
    HistoryError,
    balance_after,
    balance_before,
    entry_for,
    event_delta,
    is_failure_of,
    is_history_of,
    other_side,
    reconstructs_ok,
    step_error,
    steps_ok_from,
};

verus! {

proof fn lemma_after_is_next_before(subject: Seq<char>, current: int, es: Seq<FtEvent>, k: int)
    requires
        0 <= k < es.len(),
    ensures
        balance_before(subject, current, es, k) == balance_after(subject, current, es, k)
            - event_delta(subject, es[k]),
{
    assert(es.subrange(k, es.len() as int).drop_first() =~= es.subrange(k + 1, es.len() as int));
}

proof fn lemma_entry_values(subject: Seq<char>, current: int, es: Seq<FtEvent>, k: int)
    requires
        0 <= k < es.len(),
        0 <= current <= u128::MAX,
        steps_ok_from(subject, current, es, 0),
    ensures
        entry_for(subject, current, es, k).balance as int == balance_after(subject, current, es, k),
        entry_for(subject, current, es, k).delta_balance as int == event_delta(subject, es[k]),
{
    assert(step_error(subject, current, es, k) is None);
    if k + 1 < es.len() {
        assert(step_error(subject, current, es, k + 1) is None);
        assert(es.subrange(k + 1, es.len() as int) == es.subrange((k + 1) as int, es.len() as int));
    } else {
        assert(es.subrange(k + 1, es.len() as int) =~= Seq::<FtEvent>::empty());
    }
}

/// The balance reached by applying, oldest first, the changes of the `i + 1`
/// oldest entries of a newest-first history to a starting balance `b0`.
pub open spec fn replayed(out: Seq<FtHistoryInfo>, b0: int, i: int) -> int
    decreases i + 1,
{
    if i < 0 {
        b0
    } else {
        replayed(out, b0, i - 1) + out[out.len() - 1 - i].delta_balance as int
    }
}

proof fn lemma_replay_from(out: Seq<FtHistoryInfo>, b0: int, i: int)
    requires
        0 <= i < out.len(),
        out[out.len() - 1].balance as int == b0 + out[out.len() - 1].delta_balance as int,
        forall|t: int|
            0 < t < out.len() ==> (#[trigger] out[out.len() - 1 - t]).balance as int
                == out[out.len() - t].balance as int + out[out.len() - 1 - t].delta_balance as int,
    ensures
        out[out.len() - 1 - i].balance as int == replayed(out, b0, i),
    decreases i,
{
    if i > 0 {
        lemma_replay_from(out, b0, i - 1);
        assert(out[out.len() - 1 - i].balance as int == out[out.len() - i].balance as int
            + out[out.len() - 1 - i].delta_balance as int);
        assert(out.len() - 1 - (i - 1) == out.len() - i);
    }
    assert(replayed(out, b0, i) == replayed(out, b0, i - 1) + out[out.len() - 1 - i].delta_balance as int);
    assert(replayed(out, b0, -1) == b0);
}

/// Replaying a reconstructed history forward: read oldest first, each entry's
/// balance is the one before it plus its change, so applying the changes in
/// turn to the balance before the oldest entry (never negative) gives every
/// entry's balance, and ends at the present balance.
pub proof fn lemma_replay_consistent(
    subject: Seq<char>,
    current: u128,
    es: Seq<FtEvent>,
    out: Seq<FtHistoryInfo>,
)
    requires
        is_history_of(subject, current as int, es, out),
        out.len() > 0,
    ensures
        out[0].balance == current,
        out[out.len() - 1].balance as int - out[out.len() - 1].delta_balance as int >= 0,
        forall|i: int|
            0 < i < out.len() ==> (#[trigger] out[out.len() - 1 - i]).balance as int
                == out[out.len() - i].balance as int + out[out.len() - 1 - i].delta_balance as int,
        forall|i: int|
            0 <= i < out.len() ==> (#[trigger] out[out.len() - 1 - i]).balance as int == replayed(
                out,
                out[out.len() - 1].balance as int - out[out.len() - 1].delta_balance as int,
                i,
            ),
        replayed(
            out,
            out[out.len() - 1].balance as int - out[out.len() - 1].delta_balance as int,
            out.len() - 1,
        ) == current,
{
    let n = es.len() as int;
    let cur = current as int;
    lemma_entry_values(subject, cur, es, n - 1);
    assert(es.subrange(n, n) =~= Seq::<FtEvent>::empty());
    lemma_entry_values(subject, cur, es, 0);
    lemma_after_is_next_before(subject, cur, es, 0);
    assert(step_error(subject, cur, es, 0) is None);
    assert forall|i: int| 0 < i < out.len() implies (#[trigger] out[out.len() - 1 - i]).balance as int
        == out[out.len() - i].balance as int + out[out.len() - 1 - i].delta_balance as int by {
        lemma_entry_values(subject, cur, es, i);
        lemma_entry_values(subject, cur, es, i - 1);
        lemma_after_is_next_before(subject, cur, es, i);
        assert(es.subrange(i, n) == es.subrange((i - 1) + 1, n));
    }
    let b0 = out[out.len() - 1].balance as int - out[out.len() - 1].delta_balance as int;
    assert forall|i: int| 0 <= i < out.len() implies (#[trigger] out[out.len() - 1 - i]).balance as int
        == replayed(out, b0, i) by {
        lemma_replay_from(out, b0, i);
    }
    lemma_replay_from(out, b0, out.len() - 1);
}

/// Every balance that reconstruction passes through, before or after an
/// event, is at least zero.
pub proof fn lemma_balances_non_negative(
    subject: Seq<char>,
    current: u128,
    es: Seq<FtEvent>,
    out: Seq<FtHistoryInfo>,
)
    requires
        is_history_of(subject, current as int, es, out),
    ensures
        forall|k: int| 0 <= k < es.len() ==> #[trigger] balance_before(subject, current as int, es, k) >= 0,
        forall|k: int| 0 <= k < es.len() ==> #[trigger] balance_after(subject, current as int, es, k) >= 0,
{
    let cur = current as int;
    assert forall|k: int| 0 <= k < es.len() implies #[trigger] balance_before(subject, cur, es, k) >= 0 by {
        assert(step_error(subject, cur, es, k) is None);
    }
    assert forall|k: int| 0 <= k < es.len() implies #[trigger] balance_after(subject, cur, es, k) >= 0 by {
        if k + 1 < es.len() {
            assert(step_error(subject, cur, es, k + 1) is None);
            assert(es.subrange(k + 1, es.len() as int) == es.subrange((k + 1) as int, es.len() as int));
        } else {
            assert(es.subrange(k + 1, es.len() as int) =~= Seq::<FtEvent>::empty());
        }
    }
}

/// A list of well-formed events that forces some balance before an event
/// below zero is never reconstructed: it fails, and with a negative balance
/// and nothing else. Well-formed: every amount fits a signed change, every
/// event names the subject, every other side is absent or a valid account
/// ID, and no balance before an event exceeds 128 bits (that fails first, as
/// a value out of range).
pub proof fn lemma_negative_balance_rejected(subject: Seq<char>, current: u128, es: Seq<FtEvent>, k: int)
    requires
        0 <= k < es.len(),
        balance_before(subject, current as int, es, k) < 0,
        forall|j: int| 0 <= j < es.len() ==> (#[trigger] es[j]).amount <= i128::MAX,
        forall|j: int|
            0 <= j < es.len() ==> subject == (#[trigger] es[j]).old_owner_id@ || subject
                == es[j].new_owner_id@,
        forall|j: int|
            0 <= j < es.len() ==> other_side(subject, #[trigger] es[j])@.len() == 0 || valid_account_id(
                other_side(subject, es[j])@,
            ),
        forall|j: int|
            0 <= j < es.len() ==> #[trigger] balance_before(subject, current as int, es, j) <= u128::MAX,
    ensures
        !reconstructs_ok(subject, current as int, es),
        forall|e: HistoryError| #[trigger] is_failure_of(subject, current as int, es, e) ==> e
            == HistoryError::NegativeBalance,
{
    let cur = current as int;
    assert(step_error(subject, cur, es, k) == Some(HistoryError::NegativeBalance));
    assert forall|j: int| 0 <= j < es.len() implies #[trigger] step_error(subject, cur, es, j) is None
        || step_error(subject, cur, es, j) == Some(HistoryError::NegativeBalance) by {
        assert(es[j].amount <= i128::MAX);
        assert(subject == es[j].old_owner_id@ || subject == es[j].new_owner_id@);
        assert(other_side(subject, es[j])@.len() == 0 || valid_account_id(other_side(subject, es[j])@));
        assert(balance_before(subject, cur, es, j) <= u128::MAX);
    }
    assert forall|e: HistoryError| #[trigger] is_failure_of(subject, cur, es, e) implies e
        == HistoryError::NegativeBalance by {
        if exists|k2: int|
            0 <= k2 < es.len() && steps_ok_from(subject, cur, es, k2 + 1) && #[trigger] step_error(
                subject,
                cur,
                es,
                k2,
            ) == Some(e) {
            let k2 = choose|k2: int|
                0 <= k2 < es.len() && steps_ok_from(subject, cur, es, k2 + 1) && #[trigger] step_error(
                    subject,
                    cur,
                    es,
                    k2,
                ) == Some(e);
            assert(step_error(subject, cur, es, k2) is None || step_error(subject, cur, es, k2) == Some(
                HistoryError::NegativeBalance,
            ));
        } else {
            assert(step_error(subject, cur, es, k) is None);
        }
    }
}

/// The history lists the events in exactly the reverse of their order.
pub proof fn lemma_order_reversed(
    subject: Seq<char>,
    current: u128,
    es: Seq<FtEvent>,
    out: Seq<FtHistoryInfo>,
)
    requires
        is_history_of(subject, current as int, es, out),
    ensures
        out.len() == es.len(),
        forall|j: int|
            0 <= j < out.len() ==> (#[trigger] out[j]).block_height == es[es.len() - 1 - j].block_height
                && out[j].block_timestamp_nanos == es[es.len() - 1 - j].block_timestamp
                && out[j].action_kind == es[es.len() - 1 - j].event_kind,
{
}

/// For a transfer of `amount` from one account to another, the sender sees
/// the amount leave towards the receiver and the receiver sees it arrive
/// from the sender.
pub proof fn lemma_counterparty_symmetry(es: Seq<FtEvent>, current: int, k: int)
    requires
        0 <= k < es.len(),
        es[k].amount <= i128::MAX,
        es[k].old_owner_id@ != es[k].new_owner_id@,
        es[k].old_owner_id@.len() > 0,
        es[k].new_owner_id@.len() > 0,
    ensures
        entry_for(es[k].old_owner_id@, current, es, k).delta_balance as int == -(es[k].amount as int),
        entry_for(es[k].old_owner_id@, current, es, k).affected_account_id == Some(es[k].new_owner_id),
        entry_for(es[k].new_owner_id@, current, es, k).delta_balance as int == es[k].amount as int,
        entry_for(es[k].new_owner_id@, current, es, k).affected_account_id == Some(es[k].old_owner_id),
{
}

/// No events: the history is empty and reconstruction cannot fail, so no
/// reconciliation is made.
pub proof fn lemma_empty_history(subject: Seq<char>, current: u128, es: Seq<FtEvent>)
    requires
        es.len() == 0,
    ensures
        is_history_of(subject, current as int, es, Seq::empty()),
        forall|e: HistoryError| !#[trigger] is_failure_of(subject, current as int, es, e),
{
    assert(crate::history::expected_history(subject, current as int, es) =~= Seq::<FtHistoryInfo>::empty());
}

} // verus!
