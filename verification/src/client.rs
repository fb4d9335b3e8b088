//! The per-client ledger state machine.
//!
//! A [`Client`] holds the balances and transaction history of one account.
//! Amounts are signed 64-bit integers in minor units (fixed-point), so that
//! the conservation invariant `total == available + held` is exact. The total
//! is never stored: it is always derived as `available + held`.

use vstd::prelude::*;
use vstd::string::StringExecFns;

verus! {

broadcast use vstd::std_specs::hash::group_hash_axioms;

/// The kind of an incoming transaction record.
#[derive(Clone, Copy, Debug, PartialEq, Eq, Structural)]
pub enum TransactionType {
    Deposit,
    Withdrawal,
    Dispute,
    Resolve,
    Chargeback,
}

/// The transaction kind named by a record's type field. Any unrecognized
/// name falls back to `Dispute`, a deliberate quirk of the record format.
pub open spec fn spec_kind_of(s: Seq<char>) -> TransactionType {
    if s == "deposit"@ {
        TransactionType::Deposit
    } else if s == "withdrawal"@ {
        TransactionType::Withdrawal
    } else if s == "resolve"@ {
        TransactionType::Resolve
    } else if s == "chargeback"@ {
        TransactionType::Chargeback
    } else {
        TransactionType::Dispute
    }
}

impl From<String> for TransactionType {
    /// Parses a record's type field; unrecognized names become `Dispute`.
    fn from(value: String) -> (r: TransactionType) {
        if value == String::from_str("deposit") {
            TransactionType::Deposit
        } else if value == String::from_str("withdrawal") {
            TransactionType::Withdrawal
        } else if value == String::from_str("resolve") {
            TransactionType::Resolve
        } else if value == String::from_str("chargeback") {
            TransactionType::Chargeback
        } else {
            TransactionType::Dispute
        }
    }
}

impl vstd::std_specs::convert::FromSpecImpl<String> for TransactionType {
    open spec fn obeys_from_spec() -> bool {
        true
    }

    open spec fn from_spec(value: String) -> TransactionType {
        spec_kind_of(value@)
    }
}

/// Where a recorded transaction stands in the dispute lifecycle.
#[derive(Clone, Copy, Debug, PartialEq, Eq, Structural)]
pub enum DisputeStatus {
    Undisputed,
    Disputed,
    Resolved,
    ChargedBack,
}

/// One entry of a client's transaction history: the original kind and amount,
/// plus the entry's current dispute status.
#[derive(Clone, Copy, Debug, PartialEq, Eq, Structural)]
pub struct TxEntry {
    pub kind: TransactionType,
    pub amount: i64,
    pub status: DisputeStatus,
}

/// The mathematical model of one client account: exact integer balances and
/// the history as a map from transaction id to its entry.
#[verifier::ext_equal]
pub ghost struct AccountModel {
    pub available: int,
    pub held: int,
    pub locked: bool,
    pub txs: Map<u32, TxEntry>,
}

/// True when `x` is representable as an `i64`.
pub open spec fn fits_i64(x: int) -> bool {
    i64::MIN <= x <= i64::MAX
}

/// Well-formedness of an account model: both balances and their sum are
/// representable, so the derived total can always be computed exactly.
pub open spec fn wf_model(m: AccountModel) -> bool {
    &&& fits_i64(m.available)
    &&& fits_i64(m.held)
    &&& fits_i64(m.available + m.held)
}

/// The account created by the first record seen for a client. A deposit or
/// withdrawal seeds the available balance with its amount and is recorded in
/// the history; a first record from the dispute lifecycle carries no funds and
/// creates an empty, undisputed account.
pub open spec fn spec_new_account(kind: TransactionType, tx_id: u32, amount: i64) -> AccountModel {
    match kind {
        TransactionType::Deposit | TransactionType::Withdrawal => AccountModel {
            available: amount as int,
            held: 0,
            locked: false,
            txs: Map::empty().insert(
                tx_id,
                TxEntry { kind, amount, status: DisputeStatus::Undisputed },
            ),
        },
        _ => AccountModel { available: 0, held: 0, locked: false, txs: Map::empty() },
    }
}

/// Effect of a deposit: the amount is credited to the available balance and
/// the transaction is recorded. A deposit never fails; only an amount whose
/// credit would leave a balance unrepresentable is ignored.
pub open spec fn spec_deposit(m: AccountModel, tx_id: u32, amount: i64) -> AccountModel {
    if fits_i64(m.available + amount) && fits_i64(m.available + m.held + amount) {
        AccountModel {
            available: m.available + amount,
            txs: m.txs.insert(
                tx_id,
                TxEntry {
                    kind: TransactionType::Deposit,
                    amount,
                    status: DisputeStatus::Undisputed,
                },
            ),
            ..m
        }
    } else {
        m
    }
}

/// Effect of a withdrawal: it applies only when the available balance strictly
/// exceeds the amount and the account is not locked; otherwise the record is
/// silently ignored. Withdrawing exactly the available balance is rejected.
pub open spec fn spec_withdrawal(m: AccountModel, tx_id: u32, amount: i64) -> AccountModel {
    if m.available > amount && !m.locked && fits_i64(m.available - amount) && fits_i64(
        m.available + m.held - amount,
    ) {
        AccountModel {
            available: m.available - amount,
            txs: m.txs.insert(
                tx_id,
                TxEntry {
                    kind: TransactionType::Withdrawal,
                    amount,
                    status: DisputeStatus::Undisputed,
                },
            ),
            ..m
        }
    } else {
        m
    }
}

/// Effect of a dispute: if the referenced transaction exists, its amount moves
/// from available to held and the entry is marked disputed; otherwise the
/// record is silently ignored. The total is unchanged either way.
pub open spec fn spec_dispute(m: AccountModel, tx_id: u32) -> AccountModel {
    if m.txs.contains_key(tx_id) {
        let e = m.txs[tx_id];
        if fits_i64(m.available - e.amount) && fits_i64(m.held + e.amount) {
            AccountModel {
                available: m.available - e.amount,
                held: m.held + e.amount,
                txs: m.txs.insert(tx_id, TxEntry { status: DisputeStatus::Disputed, ..e }),
                ..m
            }
        } else {
            m
        }
    } else {
        m
    }
}

/// Effect of a resolve: it applies only to a currently disputed transaction of
/// an unlocked account; the disputed amount moves back from held to available
/// and the entry is marked resolved. Otherwise the record is silently ignored.
pub open spec fn spec_resolve(m: AccountModel, tx_id: u32) -> AccountModel {
    if m.txs.contains_key(tx_id) {
        let e = m.txs[tx_id];
        if e.status == DisputeStatus::Disputed && !m.locked && fits_i64(m.available + e.amount)
            && fits_i64(m.held - e.amount) {
            AccountModel {
                available: m.available + e.amount,
                held: m.held - e.amount,
                txs: m.txs.insert(tx_id, TxEntry { status: DisputeStatus::Resolved, ..e }),
                ..m
            }
        } else {
            m
        }
    } else {
        m
    }
}

/// Effect of a chargeback: it applies only to a currently disputed
/// transaction; the disputed amount leaves the held funds, the entry is marked
/// charged back, and the account is locked for good. Otherwise the record is
/// silently ignored.
pub open spec fn spec_chargeback(m: AccountModel, tx_id: u32) -> AccountModel {
    if m.txs.contains_key(tx_id) {
        let e = m.txs[tx_id];
        if e.status == DisputeStatus::Disputed && fits_i64(m.held - e.amount) && fits_i64(
            m.available + m.held - e.amount,
        ) {
            AccountModel {
                held: m.held - e.amount,
                locked: true,
                txs: m.txs.insert(tx_id, TxEntry { status: DisputeStatus::ChargedBack, ..e }),
                ..m
            }
        } else {
            m
        }
    } else {
        m
    }
}

/// The full transition function of the per-client state machine.
pub open spec fn spec_apply(
    m: AccountModel,
    kind: TransactionType,
    tx_id: u32,
    amount: i64,
) -> AccountModel {
    match kind {
        TransactionType::Deposit => spec_deposit(m, tx_id, amount),
        TransactionType::Withdrawal => spec_withdrawal(m, tx_id, amount),
        TransactionType::Dispute => spec_dispute(m, tx_id),
        TransactionType::Resolve => spec_resolve(m, tx_id),
        TransactionType::Chargeback => spec_chargeback(m, tx_id),
    }
}

/// A record is rejected for a reason the run can recover from.
#[derive(Clone, Copy, Debug, PartialEq, Eq, Structural)]
pub enum TransactionError {
    /// A required identifier field was absent from the record.
    MalformedRecord,
}

/// True when `a + b` is representable as an `i64`.
fn add_fits(a: i64, b: i64) -> (r: bool)
    ensures
        r == fits_i64(a + b),
{
    if b >= 0 {
        a <= i64::MAX - b
    } else {
        a >= i64::MIN - b
    }
}

/// True when `a - b` is representable as an `i64`.
fn sub_fits(a: i64, b: i64) -> (r: bool)
    ensures
        r == fits_i64(a - b),
{
    if b >= 0 {
        a >= i64::MIN + b
    } else {
        a <= i64::MAX + b
    }
}

/// One client account: balances, lock flag, and transaction history.
/// The total is derived, never stored.
pub struct Client {
    pub id: u16,
    pub available: i64,
    pub held: i64,
    pub locked: bool,
    pub transactions: std::collections::HashMap<u32, TxEntry>,
}

impl View for Client {
    type V = AccountModel;

    open spec fn view(&self) -> AccountModel {
        AccountModel {
            available: self.available as int,
            held: self.held as int,
            locked: self.locked,
            txs: self.transactions@,
        }
    }
}

impl Client {
    /// The account's invariant: the derived total is representable.
    pub open spec fn wf(&self) -> bool {
        wf_model(self@)
    }

    /// Creates the account for a client first seen through the given record.
    pub fn new(id: u16, tx_id: u32, transaction_type: TransactionType, amount: i64) -> (c: Client)
        ensures
            c@ == spec_new_account(transaction_type, tx_id, amount),
            c.id == id,
            c.wf(),
    {
        match transaction_type {
            TransactionType::Deposit | TransactionType::Withdrawal => {
                let mut transactions = std::collections::HashMap::new();
                transactions.insert(
                    tx_id,
                    TxEntry { kind: transaction_type, amount, status: DisputeStatus::Undisputed },
                );
                let c = Client { id, available: amount, held: 0, locked: false, transactions };
                proof {
                    assert(c@ =~= spec_new_account(transaction_type, tx_id, amount));
                }
                c
            },
            _ => {
                let c = Client {
                    id,
                    available: 0,
                    held: 0,
                    locked: false,
                    transactions: std::collections::HashMap::new(),
                };
                proof {
                    assert(c@ =~= spec_new_account(transaction_type, tx_id, amount));
                }
                c
            },
        }
    }

    /// Credits a deposit and records the transaction.
    fn perform_deposit(&mut self, tx_id: u32, amount: i64)
        requires
            old(self).wf(),
        ensures
            final(self)@ == spec_deposit(old(self)@, tx_id, amount),
            final(self).id == old(self).id,
            final(self).wf(),
    {
        let sum = self.available + self.held;
        if add_fits(self.available, amount) && add_fits(sum, amount) {
            self.available = self.available + amount;
            self.transactions.insert(
                tx_id,
                TxEntry {
                    kind: TransactionType::Deposit,
                    amount,
                    status: DisputeStatus::Undisputed,
                },
            );
            proof {
                assert(self@ =~= spec_deposit(old(self)@, tx_id, amount));
            }
        } else {
            proof {
                assert(self@ =~= spec_deposit(old(self)@, tx_id, amount));
            }
        }
    }

    /// Debits a withdrawal when the available balance strictly exceeds the
    /// amount and the account is not locked; otherwise leaves the account
    /// unchanged.
    fn perform_withdrawal(&mut self, tx_id: u32, amount: i64)
        requires
            old(self).wf(),
        ensures
            final(self)@ == spec_withdrawal(old(self)@, tx_id, amount),
            final(self).id == old(self).id,
            final(self).wf(),
    {
        let sum = self.available + self.held;
        if self.available > amount && !self.locked && sub_fits(self.available, amount) && sub_fits(
            sum,
            amount,
        ) {
            self.available = self.available - amount;
            self.transactions.insert(
                tx_id,
                TxEntry {
                    kind: TransactionType::Withdrawal,
                    amount,
                    status: DisputeStatus::Undisputed,
                },
            );
            proof {
                assert(self@ =~= spec_withdrawal(old(self)@, tx_id, amount));
            }
        } else {
            proof {
                assert(self@ =~= spec_withdrawal(old(self)@, tx_id, amount));
            }
        }
    }

    /// Moves a known transaction's amount from available to held and marks
    /// the entry disputed; unknown transaction ids are ignored.
    fn perform_dispute(&mut self, tx_id: u32)
        requires
            old(self).wf(),
        ensures
            final(self)@ == spec_dispute(old(self)@, tx_id),
            final(self).id == old(self).id,
            final(self).wf(),
    {
        let entry = match self.transactions.get(&tx_id) {
            Some(e) => Some(*e),
            None => None,
        };
        match entry {
            Some(e) => {
                if sub_fits(self.available, e.amount) && add_fits(self.held, e.amount) {
                    self.available = self.available - e.amount;
                    self.held = self.held + e.amount;
                    self.transactions.insert(
                        tx_id,
                        TxEntry { status: DisputeStatus::Disputed, ..e },
                    );
                    proof {
                        assert(self@ =~= spec_dispute(old(self)@, tx_id));
                    }
                } else {
                    proof {
                        assert(self@ =~= spec_dispute(old(self)@, tx_id));
                    }
                }
            },
            None => {
                proof {
                    assert(self@ =~= spec_dispute(old(self)@, tx_id));
                }
            },
        }
    }

    /// Returns a disputed transaction's amount from held to available and
    /// marks the entry resolved; applies only to disputed entries of an
    /// unlocked account.
    fn perform_resolve(&mut self, tx_id: u32)
        requires
            old(self).wf(),
        ensures
            final(self)@ == spec_resolve(old(self)@, tx_id),
            final(self).id == old(self).id,
            final(self).wf(),
    {
        let entry = match self.transactions.get(&tx_id) {
            Some(e) => Some(*e),
            None => None,
        };
        match entry {
            Some(e) => {
                if e.status == DisputeStatus::Disputed && !self.locked && add_fits(
                    self.available,
                    e.amount,
                ) && sub_fits(self.held, e.amount) {
                    self.available = self.available + e.amount;
                    self.held = self.held - e.amount;
                    self.transactions.insert(
                        tx_id,
                        TxEntry { status: DisputeStatus::Resolved, ..e },
                    );
                    proof {
                        assert(self@ =~= spec_resolve(old(self)@, tx_id));
                    }
                } else {
                    proof {
                        assert(self@ =~= spec_resolve(old(self)@, tx_id));
                    }
                }
            },
            None => {
                proof {
                    assert(self@ =~= spec_resolve(old(self)@, tx_id));
                }
            },
        }
    }

    /// Removes a disputed transaction's amount from held funds, marks the
    /// entry charged back, and locks the account for good.
    fn perform_chargeback(&mut self, tx_id: u32)
        requires
            old(self).wf(),
        ensures
            final(self)@ == spec_chargeback(old(self)@, tx_id),
            final(self).id == old(self).id,
            final(self).wf(),
    {
        let sum = self.available + self.held;
        let entry = match self.transactions.get(&tx_id) {
            Some(e) => Some(*e),
            None => None,
        };
        match entry {
            Some(e) => {
                if e.status == DisputeStatus::Disputed && sub_fits(self.held, e.amount)
                    && sub_fits(sum, e.amount) {
                    self.held = self.held - e.amount;
                    self.locked = true;
                    self.transactions.insert(
                        tx_id,
                        TxEntry { status: DisputeStatus::ChargedBack, ..e },
                    );
                    proof {
                        assert(self@ =~= spec_chargeback(old(self)@, tx_id));
                    }
                } else {
                    proof {
                        assert(self@ =~= spec_chargeback(old(self)@, tx_id));
                    }
                }
            },
            None => {
                proof {
                    assert(self@ =~= spec_chargeback(old(self)@, tx_id));
                }
            },
        }
    }

    /// Applies one transaction record to this account, following the
    /// state-machine transition function. Preconditions that fail are not
    /// errors: the record is silently ignored and the call still succeeds.
    pub fn execute_transaction(
        &mut self,
        tx_id: u32,
        transaction_type: TransactionType,
        amount: i64,
    ) -> (r: Result<(), TransactionError>)
        requires
            old(self).wf(),
        ensures
            r is Ok,
            final(self)@ == spec_apply(old(self)@, transaction_type, tx_id, amount),
            final(self).id == old(self).id,
            final(self).wf(),
    {
        match transaction_type {
            TransactionType::Deposit => self.perform_deposit(tx_id, amount),
            TransactionType::Withdrawal => self.perform_withdrawal(tx_id, amount),
            TransactionType::Dispute => self.perform_dispute(tx_id),
            TransactionType::Resolve => self.perform_resolve(tx_id),
            TransactionType::Chargeback => self.perform_chargeback(tx_id),
        }
        Ok(())
    }
}

} // verus!
