//! The routing engine: dispatches each incoming record to the right client
//! account, creating accounts on first sight of a client, and emits the final
//! per-client snapshots.

use vstd::prelude::*;

use crate::client::{
    spec_apply, spec_kind_of, spec_new_account, AccountModel, Client, TransactionError,
    TransactionType,
};

verus! {

broadcast use vstd::std_specs::hash::group_hash_axioms, vstd::seq_lib::group_to_multiset_ensures;

/// One parsed input record. The identifier fields are optional because the
/// input format does not guarantee them; a record missing one is malformed.
/// The amount is absent for dispute-lifecycle records and defaults to zero.
#[derive(Debug)]
pub struct Record {
    pub tx_type: String,
    pub client: Option<u16>,
    pub tx: Option<u32>,
    pub amount: Option<i64>,
}

/// The final state of one client account, as handed to the output sink.
/// The total is derived: it always equals `available + held`.
#[derive(Clone, Copy, Debug, PartialEq, Eq, Structural)]
pub struct Snapshot {
    pub client: u16,
    pub available: i64,
    pub held: i64,
    pub total: i64,
    pub locked: bool,
}

/// The amount carried by a record: zero when the field is absent.
pub open spec fn spec_amount(a: Option<i64>) -> i64 {
    match a {
        Some(x) => x,
        None => 0,
    }
}

/// The snapshot of one account under a given client id.
pub open spec fn spec_snapshot(id: u16, m: AccountModel) -> Snapshot {
    Snapshot {
        client: id,
        available: m.available as i64,
        held: m.held as i64,
        total: (m.available + m.held) as i64,
        locked: m.locked,
    }
}

/// The transaction engine: one ledger per client, keyed by client id, plus
/// the ids in order of first sight.
pub struct TransactionEngine {
    pub clients: std::collections::HashMap<u16, Client>,
    pub ids: Vec<u16>,
}

impl View for TransactionEngine {
    type V = Map<u16, AccountModel>;

    open spec fn view(&self) -> Map<u16, AccountModel> {
        self.clients@.map_values(|c: Client| c@)
    }
}

impl TransactionEngine {
    /// The engine's invariant: the id list holds exactly the known clients,
    /// each once, and every account is well formed and filed under its own id.
    pub open spec fn wf(&self) -> bool {
        &&& self.ids@.no_duplicates()
        &&& forall|i: int|
            0 <= i < self.ids@.len() ==> self.clients@.contains_key(#[trigger] self.ids@[i])
        &&& forall|k: u16| #[trigger] self.clients@.contains_key(k) ==> self.ids@.contains(k)
        &&& forall|k: u16|
            #[trigger] self.clients@.contains_key(k) ==> self.clients@[k].wf()
                && self.clients@[k].id == k
    }

    /// Creates an engine that knows no clients yet.
    pub fn new() -> (e: TransactionEngine)
        ensures
            e@ == Map::<u16, AccountModel>::empty(),
            e.ids@ == Seq::<u16>::empty(),
            e.wf(),
    {
        let e = TransactionEngine {
            clients: std::collections::HashMap::new(),
            ids: Vec::new(),
        };
        proof {
            assert(e@ =~= Map::<u16, AccountModel>::empty());
        }
        e
    }

    /// Routes one record. A record missing its client or transaction id is
    /// malformed and leaves the engine unchanged; otherwise the record either
    /// seeds a new account for a first-seen client or is applied to the
    /// existing account by the state machine.
    pub fn process_transactions(&mut self, record: Record) -> (r: Result<(), TransactionError>)
        requires
            old(self).wf(),
        ensures
            final(self).wf(),
            match r {
                Result::Err(e) => {
                    &&& e == TransactionError::MalformedRecord
                    &&& (record.client is None || record.tx is None)
                    &&& final(self)@ == old(self)@
                    &&& final(self).ids@ == old(self).ids@
                },
                Result::Ok(_) => {
                    &&& record.client is Some
                    &&& record.tx is Some
                    &&& {
                        let cid = record.client.unwrap();
                        let tx = record.tx.unwrap();
                        let amt = spec_amount(record.amount);
                        let kind = spec_kind_of(record.tx_type@);
                        if old(self)@.contains_key(cid) {
                            &&& final(self)@ == old(self)@.insert(
                                cid,
                                spec_apply(old(self)@[cid], kind, tx, amt),
                            )
                            &&& final(self).ids@ == old(self).ids@
                        } else {
                            &&& final(self)@ == old(self)@.insert(
                                cid,
                                spec_new_account(kind, tx, amt),
                            )
                            &&& final(self).ids@ == old(self).ids@.push(cid)
                        }
                    }
                },
            },
    {
        let client_id = match record.client {
            Some(c) => c,
            None => {
                return Err(TransactionError::MalformedRecord);
            },
        };
        let tx_id = match record.tx {
            Some(t) => t,
            None => {
                return Err(TransactionError::MalformedRecord);
            },
        };
        let amount = match record.amount {
            Some(a) => a,
            None => 0,
        };
        let transaction_type = TransactionType::from(record.tx_type);
        if self.clients.contains_key(&client_id) {
            let mut c = self.clients.remove(&client_id).unwrap();
            let res = c.execute_transaction(tx_id, transaction_type, amount);
            self.clients.insert(client_id, c);
            proof {
                assert(self.clients@.dom() =~= old(self).clients@.dom());
                assert(self@ =~= old(self)@.insert(
                    client_id,
                    spec_apply(old(self)@[client_id], transaction_type, tx_id, amount),
                ));
                assert(old(self)@.contains_key(client_id));
                assert(self.ids@.no_duplicates());
                assert forall|i: int| 0 <= i < self.ids@.len() implies self.clients@.contains_key(
                    #[trigger] self.ids@[i],
                ) by {
                    assert(old(self).clients@.contains_key(self.ids@[i]));
                }
                assert forall|k: u16| #[trigger] self.clients@.contains_key(k) implies self.ids@.contains(
                    k,
                ) by {
                    assert(old(self).clients@.contains_key(k));
                }
                assert forall|k: u16| #[trigger] self.clients@.contains_key(k) implies self.clients@[k].wf()
                    && self.clients@[k].id == k by {
                    if k != client_id {
                        assert(self.clients@[k] == old(self).clients@[k]);
                    }
                }
            }
            match res {
                Ok(_) => Ok(()),
                Err(e) => Err(e),
            }
        } else {
            let c = Client::new(client_id, tx_id, transaction_type, amount);
            self.clients.insert(client_id, c);
            self.ids.push(client_id);
            proof {
                assert(!old(self)@.contains_key(client_id));
                assert(self@ =~= old(self)@.insert(
                    client_id,
                    spec_new_account(transaction_type, tx_id, amount),
                ));
                assert(!old(self).ids@.contains(client_id)) by {
                    if old(self).ids@.contains(client_id) {
                        let i = choose|i: int|
                            0 <= i < old(self).ids@.len() && old(self).ids@[i] == client_id;
                        assert(old(self).clients@.contains_key(old(self).ids@[i]));
                    }
                }
                assert(self.ids@.no_duplicates());
                assert forall|i: int| 0 <= i < self.ids@.len() implies self.clients@.contains_key(
                    #[trigger] self.ids@[i],
                ) by {
                    if i < old(self).ids@.len() {
                        assert(old(self).clients@.contains_key(self.ids@[i]));
                    }
                }
                assert forall|k: u16| #[trigger] self.clients@.contains_key(k) implies self.ids@.contains(
                    k,
                ) by {
                    if k != client_id {
                        assert(old(self).clients@.contains_key(k));
                        let i = choose|i: int|
                            0 <= i < old(self).ids@.len() && old(self).ids@[i] == k;
                        assert(self.ids@[i] == k);
                    } else {
                        assert(self.ids@[self.ids@.len() - 1] == k);
                    }
                }
            }
            Ok(())
        }
    }

    /// The snapshot of every known client, in order of first sight. Callers
    /// that need an order independent of the input stream sort by client id
    /// themselves or use `snapshot_sorted`.
    pub fn snapshot_all(&self) -> (r: Vec<Snapshot>)
        requires
            self.wf(),
        ensures
            r@.len() == self.ids@.len(),
            forall|i: int|
                0 <= i < r@.len() ==> r@[i] == spec_snapshot(
                    self.ids@[i],
                    self@[self.ids@[i]],
                ),
    {
        let mut r: Vec<Snapshot> = Vec::new();
        let mut i: usize = 0;
        while i < self.ids.len()
            invariant
                self.wf(),
                i <= self.ids@.len(),
                r@.len() == i,
                forall|j: int|
                    0 <= j < i ==> r@[j] == spec_snapshot(self.ids@[j], self@[self.ids@[j]]),
            decreases self.ids@.len() - i,
        {
            let id = self.ids[i];
            let c = self.clients.get(&id).unwrap();
            r.push(
                Snapshot {
                    client: id,
                    available: c.available,
                    held: c.held,
                    total: c.available + c.held,
                    locked: c.locked,
                },
            );
            i = i + 1;
        }
        r
    }

    /// The snapshot of every known client, sorted by client id in increasing
    /// order.
    pub fn snapshot_sorted(&self) -> (r: Vec<Snapshot>)
        requires
            self.wf(),
        ensures
            r@.len() == self.ids@.len(),
            r@.map_values(|s: Snapshot| s.client).to_multiset() == self.ids@.to_multiset(),
            forall|a: int, b: int| 0 <= a < b < r@.len() ==> r@[a].client <= r@[b].client,
            forall|i: int|
                0 <= i < r@.len() ==> r@[i] == spec_snapshot(r@[i].client, self@[r@[i].client]),
    {
        let sorted = sorted_ids(&self.ids);
        let mut r: Vec<Snapshot> = Vec::new();
        let mut i: usize = 0;
        while i < sorted.len()
            invariant
                self.wf(),
                i <= sorted@.len(),
                sorted@.to_multiset() == self.ids@.to_multiset(),
                forall|a: int, b: int|
                    0 <= a < b < sorted@.len() ==> sorted@[a] <= sorted@[b],
                r@.len() == i,
                forall|j: int| 0 <= j < i ==> r@[j].client == sorted@[j],
                forall|j: int|
                    0 <= j < i ==> r@[j] == spec_snapshot(r@[j].client, self@[r@[j].client]),
            decreases sorted@.len() - i,
        {
            let id = sorted[i];
            proof {
                assert(sorted@.to_multiset().count(id) > 0) by {
                    assert(sorted@.contains(sorted@[i as int]));
                }
                assert(self.ids@.contains(id));
                let w = choose|w: int| 0 <= w < self.ids@.len() && self.ids@[w] == id;
                assert(self.clients@.contains_key(self.ids@[w]));
            }
            let c = self.clients.get(&id).unwrap();
            r.push(
                Snapshot {
                    client: id,
                    available: c.available,
                    held: c.held,
                    total: c.available + c.held,
                    locked: c.locked,
                },
            );
            i = i + 1;
        }
        proof {
            assert(r@.map_values(|s: Snapshot| s.client) =~= sorted@);
            assert forall|a: int, b: int| 0 <= a < b < r@.len() implies r@[a].client
                <= r@[b].client by {
                assert(r@[a].client == sorted@[a]);
                assert(r@[b].client == sorted@[b]);
            }
        }
        r
    }
}

impl Default for TransactionEngine {
    /// Same as `TransactionEngine::new`: an engine that knows no clients.
    fn default() -> (e: TransactionEngine)
        ensures
            e@ == Map::<u16, AccountModel>::empty(),
            e.ids@ == Seq::<u16>::empty(),
            e.wf(),
    {
        TransactionEngine::new()
    }
}

/// A copy of the given ids, sorted in increasing order.
fn sorted_ids(ids: &Vec<u16>) -> (r: Vec<u16>)
    ensures
        r@.len() == ids@.len(),
        r@.to_multiset() == ids@.to_multiset(),
        forall|a: int, b: int| 0 <= a < b < r@.len() ==> r@[a] <= r@[b],
{
    let mut r: Vec<u16> = Vec::new();
    let mut i: usize = 0;
    while i < ids.len()
        invariant
            i <= ids@.len(),
            r@.len() == i,
            r@.to_multiset() == ids@.take(i as int).to_multiset(),
            forall|a: int, b: int| 0 <= a < b < r@.len() ==> r@[a] <= r@[b],
        decreases ids@.len() - i,
    {
        let x = ids[i];
        let mut p: usize = 0;
        while p < r.len() && r[p] <= x
            invariant
                p <= r@.len(),
                forall|q: int| 0 <= q < p ==> r@[q] <= x,
                forall|a: int, b: int| 0 <= a < b < r@.len() ==> r@[a] <= r@[b],
            decreases r@.len() - p,
        {
            p = p + 1;
        }
        let ghost prev = r@;
        r.insert(p, x);
        proof {
            assert(prev.insert(p as int, x).to_multiset() == prev.to_multiset().insert(x));
            assert(ids@.take(i as int + 1) =~= ids@.take(i as int).push(ids@[i as int]));
            assert(ids@.take(i as int).push(x).to_multiset() == ids@.take(
                i as int,
            ).to_multiset().insert(x));
            assert forall|a: int, b: int| 0 <= a < b < r@.len() implies r@[a] <= r@[b] by {
                if b < p {
                    assert(prev[a] <= prev[b]);
                } else if a > p {
                    assert(prev[a - 1] <= prev[b - 1]);
                } else if a < p && b == p {
                    assert(prev[a] <= x);
                } else if a == p && b > p {
                    assert(r@[b] == prev[b - 1]);
                    if p < prev.len() {
                        assert(prev[p as int] > x);
                        assert(prev[p as int] <= prev[b - 1] || p as int == b - 1);
                    }
                } else if a < p && b > p {
                    assert(prev[a] <= x);
                    assert(x <= r@[b]) by {
                        assert(r@[b] == prev[b - 1]);
                        if p < prev.len() {
                            assert(prev[p as int] > x);
                            assert(prev[p as int] <= prev[b - 1] || p as int == b - 1);
                        }
                    }
                }
            }
        }
        i = i + 1;
    }
    proof {
        assert(ids@.take(ids@.len() as int) =~= ids@);
    }
    r
}

} // verus!
