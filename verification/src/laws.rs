//! General laws of the ledger state machine, stated over the account model
//! and proved once for all inputs.

use vstd::prelude::*;

use crate::client::{
    fits_i64, spec_apply, spec_chargeback, spec_deposit, spec_dispute, spec_new_account,
    spec_resolve, spec_withdrawal, wf_model, AccountModel, DisputeStatus, TransactionType,
};

verus! {

/// Money conservation: applying any operation to a well-formed account yields
/// a well-formed account, so the derived total `available + held` is always
/// exactly representable. Together with the fact that the total is never
/// stored, this is the invariant `total == available + held` after every
/// mutation.
pub proof fn lemma_apply_preserves_wf(
    m: AccountModel,
    kind: TransactionType,
    tx_id: u32,
    amount: i64,
)
    requires
        wf_model(m),
    ensures
        wf_model(spec_apply(m, kind, tx_id, amount)),
{
}

/// Every freshly created account is well formed.
pub proof fn lemma_new_account_wf(kind: TransactionType, tx_id: u32, amount: i64)
    ensures
        wf_model(spec_new_account(kind, tx_id, amount)),
{
}

/// A dispute or a resolve never changes the derived total: funds only move
/// between the available and the held balance.
pub proof fn lemma_dispute_lifecycle_preserves_total(m: AccountModel, tx_id: u32)
    ensures
        spec_dispute(m, tx_id).available + spec_dispute(m, tx_id).held == m.available + m.held,
        spec_resolve(m, tx_id).available + spec_resolve(m, tx_id).held == m.available + m.held,
{
}

/// Idempotence of settlement: once a transaction's dispute has been settled
/// (resolved or charged back), re-issuing a resolve or a chargeback on that
/// transaction is a no-op.
pub proof fn lemma_settled_reissue_noop(m: AccountModel, tx_id: u32)
    requires
        m.txs.contains_key(tx_id),
        m.txs[tx_id].status == DisputeStatus::Resolved || m.txs[tx_id].status
            == DisputeStatus::ChargedBack,
    ensures
        spec_resolve(m, tx_id) == m,
        spec_chargeback(m, tx_id) == m,
{
}

/// Ordering sensitivity: a dispute that names a transaction the account has
/// never recorded is a no-op.
pub proof fn lemma_dispute_unknown_noop(m: AccountModel, tx_id: u32)
    requires
        !m.txs.contains_key(tx_id),
    ensures
        spec_dispute(m, tx_id) == m,
{
}

/// Lock finality: once an account is locked, any withdrawal leaves it
/// unchanged, while a deposit still applies and never unlocks it.
pub proof fn lemma_lock_finality(m: AccountModel, tx_id: u32, amount: i64)
    requires
        m.locked,
    ensures
        spec_withdrawal(m, tx_id, amount) == m,
        spec_deposit(m, tx_id, amount).locked,
        fits_i64(m.available + amount) && fits_i64(m.available + m.held + amount)
            ==> spec_deposit(m, tx_id, amount).available == m.available + amount,
{
}

/// Strict withdrawal bound: withdrawing exactly the available balance is
/// rejected, while withdrawing any smaller non-negative amount from an
/// unlocked account succeeds and debits exactly that amount, leaving the held
/// funds untouched.
pub proof fn lemma_withdrawal_bound(m: AccountModel, tx_id: u32, amount: i64)
    requires
        wf_model(m),
        0 <= amount,
    ensures
        amount == m.available ==> spec_withdrawal(m, tx_id, amount) == m,
        amount < m.available && !m.locked ==> {
            let m2 = spec_withdrawal(m, tx_id, amount);
            &&& m2.available == m.available - amount
            &&& m2.held == m.held
            &&& m2.available + m2.held == m.available + m.held - amount
        },
{
}

} // verus!
