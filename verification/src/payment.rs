use vstd::prelude::*;

use crate::consensus_client::StateCommitment;
use crate::error::Error;
use crate::host::{IsmpHost, StateMachine};
use crate::router::copy_bytes;

verus! {

/// The lookup key correlating a receipt to the message it settles.
#[derive(Clone, Debug)]
pub struct Query {
    pub source_chain: StateMachine,
    pub dest_chain: StateMachine,
    pub nonce: u64,
    pub commitment: Vec<u8>,
}

/// The content of a `Query`, with the commitment read as a byte sequence.
#[verifier::ext_equal]
pub struct QueryV {
    pub source_chain: StateMachine,
    pub dest_chain: StateMachine,
    pub nonce: u64,
    pub commitment: Seq<u8>,
}

impl View for Query {
    type V = QueryV;

    open spec fn view(&self) -> QueryV {
        QueryV {
            source_chain: self.source_chain,
            dest_chain: self.dest_chain,
            nonce: self.nonce,
            commitment: self.commitment@,
        }
    }
}

/// A local record that one cross-chain message was observed settled:
/// either a relayed request, or a relayed response together with the
/// commitment of the request it answers. Created once per settled message
/// and never mutated.
#[derive(Clone, Debug)]
pub enum TxReceipt {
    Request(Query),
    Response { query: Query, request_commitment: Vec<u8> },
}

/// The content of a receipt: its tag, its query, and (for a response) the
/// commitment of the answered request.
#[verifier::ext_equal]
pub struct ReceiptV {
    pub is_response: bool,
    pub query: QueryV,
    pub request_commitment: Seq<u8>,
}

impl View for TxReceipt {
    type V = ReceiptV;

    open spec fn view(&self) -> ReceiptV {
        match self {
            TxReceipt::Request(q) => ReceiptV {
                is_response: false,
                query: q@,
                request_commitment: Seq::empty(),
            },
            TxReceipt::Response { query, request_commitment } => ReceiptV {
                is_response: true,
                query: query@,
                request_commitment: request_commitment@,
            },
        }
    }
}

/// The contents of a vector of receipts.
pub open spec fn receipts_view(v: Seq<TxReceipt>) -> Seq<ReceiptV> {
    v.map_values(|r: TxReceipt| r@)
}

/// The identity of a receipt: its tag and its (source, dest, nonce)
/// triple. No two stored receipts may share it.
pub open spec fn key_of(r: ReceiptV) -> (bool, StateMachine, StateMachine, u64) {
    (r.is_response, r.query.source_chain, r.query.dest_chain, r.query.nonce)
}

/// Does some receipt in the store carry this key?
pub open spec fn has_key(store: Seq<ReceiptV>, k: (bool, StateMachine, StateMachine, u64)) -> bool {
    exists|i: int| 0 <= i < store.len() && key_of(#[trigger] store[i]) == k
}

/// A receipt conflicts with a store that binds its key to different content.
pub open spec fn conflicting(store: Seq<ReceiptV>, r: ReceiptV) -> bool {
    exists|i: int|
        0 <= i < store.len() && key_of(#[trigger] store[i]) == key_of(r) && store[i] != r
}

/// No two receipts of the store share a key.
pub open spec fn unique_keys(store: Seq<ReceiptV>) -> bool {
    forall|i: int, j: int|
        0 <= i < j < store.len() ==> key_of(#[trigger] store[i]) != key_of(#[trigger] store[j])
}

/// Storing one receipt: a key already bound (necessarily to identical
/// content, once conflicts are ruled out) leaves the store as it is; a new
/// key appends the receipt.
pub open spec fn insert_one(store: Seq<ReceiptV>, r: ReceiptV) -> Seq<ReceiptV> {
    if has_key(store, key_of(r)) {
        store
    } else {
        store.push(r)
    }
}

/// Storing a batch, receipt by receipt, left to right: None as soon as a
/// receipt conflicts with what the store holds by then, otherwise the
/// store grown by exactly the receipts whose keys were new.
pub open spec fn apply_batch(store: Seq<ReceiptV>, batch: Seq<ReceiptV>) -> Option<Seq<ReceiptV>>
    decreases batch.len(),
{
    if batch.len() == 0 {
        Some(store)
    } else if conflicting(store, batch[0]) {
        None
    } else {
        apply_batch(insert_one(store, batch[0]), batch.drop_first())
    }
}

/// Does the receipt lie on the corridor between the two chains, in either
/// direction?
pub open spec fn on_corridor(r: ReceiptV, a: StateMachine, b: StateMachine) -> bool {
    (r.query.source_chain == a && r.query.dest_chain == b) || (r.query.source_chain == b
        && r.query.dest_chain == a)
}

/// The commitments a claim for the (a, b) corridor collects: one per
/// matching receipt, in store order, no duplication and no omission.
pub open spec fn claim_commitments(store: Seq<ReceiptV>, a: StateMachine, b: StateMachine) -> Seq<
    Seq<u8>,
>
    decreases store.len(),
{
    if store.len() == 0 {
        Seq::empty()
    } else {
        let rest = claim_commitments(store.drop_last(), a, b);
        if on_corridor(store.last(), a, b) {
            rest.push(store.last().query.commitment)
        } else {
            rest
        }
    }
}

/// Are two byte strings equal?
fn bytes_eq(a: &Vec<u8>, b: &Vec<u8>) -> (r: bool)
    ensures
        r == (a@ == b@),
{
    if a.len() != b.len() {
        return false;
    }
    let mut i: usize = 0;
    while i < a.len()
        invariant
            a@.len() == b@.len(),
            i <= a@.len(),
            forall|j: int| 0 <= j < i ==> a@[j] == b@[j],
        decreases a@.len() - i,
    {
        if a[i] != b[i] {
            proof {
                if a@ == b@ {
                    assert(a@[i as int] == b@[i as int]);
                    assert(false);
                }
            }
            return false;
        }
        i += 1;
    }
    proof {
        assert(a@ =~= b@);
    }
    true
}

/// Do two receipts carry the same key?
fn same_key(a: &TxReceipt, b: &TxReceipt) -> (r: bool)
    ensures
        r == (key_of(a@) == key_of(b@)),
{
    match (a, b) {
        (TxReceipt::Request(qa), TxReceipt::Request(qb)) => qa.source_chain == qb.source_chain
            && qa.dest_chain == qb.dest_chain && qa.nonce == qb.nonce,
        (
            TxReceipt::Response { query: qa, .. },
            TxReceipt::Response { query: qb, .. },
        ) => qa.source_chain == qb.source_chain && qa.dest_chain == qb.dest_chain && qa.nonce
            == qb.nonce,
        _ => false,
    }
}

/// Are two receipts identical in content?
fn identical(a: &TxReceipt, b: &TxReceipt) -> (r: bool)
    ensures
        r == (a@ == b@),
{
    match (a, b) {
        (TxReceipt::Request(qa), TxReceipt::Request(qb)) => {
            let r = qa.source_chain == qb.source_chain && qa.dest_chain == qb.dest_chain
                && qa.nonce == qb.nonce && bytes_eq(&qa.commitment, &qb.commitment);
            proof {
                if r {
                    assert(qa@ =~= qb@);
                    assert(a@ =~= b@);
                } else if a@ == b@ {
                    assert(qa@ == qb@);
                    assert(false);
                }
            }
            r
        },
        (
            TxReceipt::Response { query: qa, request_commitment: ca },
            TxReceipt::Response { query: qb, request_commitment: cb },
        ) => {
            let r = qa.source_chain == qb.source_chain && qa.dest_chain == qb.dest_chain
                && qa.nonce == qb.nonce && bytes_eq(&qa.commitment, &qb.commitment) && bytes_eq(
                ca,
                cb,
            );
            proof {
                if r {
                    assert(qa@ =~= qb@);
                    assert(a@ =~= b@);
                } else if a@ == b@ {
                    assert(qa@ == qb@);
                    assert(false);
                }
            }
            r
        },
        _ => {
            proof {
                assert(a@.is_response != b@.is_response);
            }
            false
        },
    }
}

/// Copy a query field for field.
fn copy_query(q: &Query) -> (c: Query)
    ensures
        c@ == q@,
{
    let c = Query {
        source_chain: q.source_chain,
        dest_chain: q.dest_chain,
        nonce: q.nonce,
        commitment: copy_bytes(&q.commitment),
    };
    proof {
        assert(c@ =~= q@);
    }
    c
}

/// Copy a receipt field for field.
fn copy_receipt(r: &TxReceipt) -> (c: TxReceipt)
    ensures
        c@ == r@,
{
    match r {
        TxReceipt::Request(q) => {
            let c = TxReceipt::Request(copy_query(q));
            proof {
                assert(c@ =~= r@);
            }
            c
        },
        TxReceipt::Response { query, request_commitment } => {
            let c = TxReceipt::Response {
                query: copy_query(query),
                request_commitment: copy_bytes(request_commitment),
            };
            proof {
                assert(c@ =~= r@);
            }
            c
        },
    }
}

/// Find a receipt in `v` that carries the key of `r`, if any.
fn find_same_key(v: &Vec<TxReceipt>, r: &TxReceipt) -> (res: Option<usize>)
    ensures
        match res {
            Some(i) => i < v@.len() && key_of(receipts_view(v@)[i as int]) == key_of(r@),
            None => !has_key(receipts_view(v@), key_of(r@)),
        },
{
    let mut i: usize = 0;
    while i < v.len()
        invariant
            i <= v@.len(),
            forall|j: int| 0 <= j < i ==> key_of(#[trigger] receipts_view(v@)[j]) != key_of(r@),
        decreases v@.len() - i,
    {
        if same_key(&v[i], r) {
            proof {
                assert(receipts_view(v@)[i as int] == v@[i as int]@);
            }
            return Some(i);
        }
        proof {
            assert(receipts_view(v@)[i as int] == v@[i as int]@);
        }
        i += 1;
    }
    None
}

/// The aggregated evidence of settled messages on one corridor: every
/// matching commitment, and the state-commitment evidence of both chains
/// at the claimed heights.
#[derive(Debug)]
pub struct ClaimProof {
    pub source_chain: StateMachine,
    pub dest_chain: StateMachine,
    pub from_height: u64,
    pub to_height: u64,
    pub commitments: Vec<Vec<u8>>,
    pub source_state: StateCommitment,
    pub dest_state: StateCommitment,
}

/// The receipt store: one receipt per settled message, keyed by tag,
/// source, destination and nonce. The store is an explicitly owned handle,
/// passed into each operation.
pub struct TransactionPayment {
    receipts: Vec<TxReceipt>,
}

impl View for TransactionPayment {
    type V = Seq<ReceiptV>;

    closed spec fn view(&self) -> Seq<ReceiptV> {
        receipts_view(self.receipts@)
    }
}

impl TransactionPayment {
    /// Well-formed: no two stored receipts share a key.
    pub open spec fn wf(&self) -> bool {
        unique_keys(self@)
    }

    /// An empty store.
    pub fn initialize() -> (r: TransactionPayment)
        ensures
            r.wf(),
            r@ == Seq::<ReceiptV>::empty(),
    {
        let t = TransactionPayment { receipts: Vec::new() };
        proof {
            assert(t@ =~= Seq::<ReceiptV>::empty());
        }
        t
    }

    /// How many receipts are stored.
    pub fn receipt_count(&self) -> (n: usize)
        ensures
            n == self@.len(),
    {
        self.receipts.len()
    }

    /// Persist a batch of receipts, left to right, all or nothing: a
    /// receipt whose key is already bound to identical content is an
    /// idempotent no-op; one whose key is bound to different content is a
    /// duplicate, the whole batch is rejected, and the store is left
    /// exactly as it was.
    pub fn store_messages(&mut self, receipts: Vec<TxReceipt>) -> (r: Result<(), Error>)
        requires
            old(self).wf(),
        ensures
            final(self).wf(),
            match r {
                Ok(_) => apply_batch(old(self)@, receipts_view(receipts@)) == Some(
                    final(self)@,
                ),
                Err(e) => e == Error::DuplicateReceiptError && final(self)@ == old(self)@
                    && apply_batch(old(self)@, receipts_view(receipts@)) is None,
            },
    {
        let ghost batch0 = receipts_view(receipts@);
        let mut fresh: Vec<TxReceipt> = Vec::new();
        let mut i: usize = 0;
        proof {
            assert(old(self)@ + receipts_view(fresh@) =~= old(self)@);
            assert(batch0.skip(0) =~= batch0);
        }
        while i < receipts.len()
            invariant
                i <= receipts@.len(),
                batch0 == receipts_view(receipts@),
                self@ == old(self)@,
                unique_keys(old(self)@),
                unique_keys(old(self)@ + receipts_view(fresh@)),
                apply_batch(old(self)@, batch0) == apply_batch(
                    old(self)@ + receipts_view(fresh@),
                    batch0.skip(i as int),
                ),
            decreases receipts@.len() - i,
        {
            let ghost acc = old(self)@ + receipts_view(fresh@);
            let ghost rv = receipts@[i as int]@;
            proof {
                assert(batch0.skip(i as int)[0] == rv);
                assert(batch0.skip(i as int).drop_first() =~= batch0.skip(i + 1));
            }
            let r = &receipts[i];
            match find_same_key(&self.receipts, r) {
                Some(at) => {
                    proof {
                        assert(acc[at as int] == self@[at as int]);
                    }
                    if identical(&self.receipts[at], r) {
                        proof {
                            assert(self@[at as int] == self.receipts@[at as int]@);
                            assert(acc[at as int] == rv);
                            assert(has_key(acc, key_of(rv)));
                            assert(!conflicting(acc, rv)) by {
                                if conflicting(acc, rv) {
                                    let bad = choose|bad: int|
                                        0 <= bad < acc.len() && key_of(acc[bad]) == key_of(rv)
                                            && acc[bad] != rv;
                                    assert(key_of(acc[at as int]) == key_of(rv));
                                    assert(bad != at);
                                    assert(false);
                                }
                            };
                            assert(insert_one(acc, rv) == acc);
                        }
                    } else {
                        proof {
                            assert(self@[at as int] == self.receipts@[at as int]@);
                            assert(conflicting(acc, rv)) by {
                                assert(key_of(acc[at as int]) == key_of(rv) && acc[at as int]
                                    != rv);
                            };
                            assert(apply_batch(old(self)@, batch0) is None);
                        }
                        return Err(Error::DuplicateReceiptError);
                    }
                },
                None => {
                    match find_same_key(&fresh, r) {
                        Some(at) => {
                            proof {
                                assert(acc[old(self)@.len() + at] == receipts_view(fresh@)[at as int]);
                            }
                            if identical(&fresh[at], r) {
                                proof {
                                    assert(receipts_view(fresh@)[at as int] == fresh@[at as int]@);
                                    let ghost full = old(self)@.len() + at;
                                    assert(acc[full as int] == rv);
                                    assert(has_key(acc, key_of(rv)));
                                    assert(!conflicting(acc, rv)) by {
                                        if conflicting(acc, rv) {
                                            let bad = choose|bad: int|
                                                0 <= bad < acc.len() && key_of(acc[bad])
                                                    == key_of(rv) && acc[bad] != rv;
                                            assert(key_of(acc[full as int]) == key_of(rv));
                                            assert(bad != full);
                                            assert(false);
                                        }
                                    };
                                    assert(insert_one(acc, rv) == acc);
                                }
                            } else {
                                proof {
                                    assert(receipts_view(fresh@)[at as int] == fresh@[at as int]@);
                                    assert(conflicting(acc, rv)) by {
                                        let ghost full = old(self)@.len() + at;
                                        assert(key_of(acc[full as int]) == key_of(rv) && acc[full as int] != rv);
                                    };
                                    assert(apply_batch(old(self)@, batch0) is None);
                                }
                                return Err(Error::DuplicateReceiptError);
                            }
                        },
                        None => {
                            proof {
                                assert(!has_key(acc, key_of(rv))) by {
                                    if has_key(acc, key_of(rv)) {
                                        let bad = choose|bad: int|
                                            0 <= bad < acc.len() && key_of(acc[bad]) == key_of(
                                                rv,
                                            );
                                        if bad < old(self)@.len() {
                                            assert(key_of(self@[bad]) == key_of(rv));
                                            assert(false);
                                        } else {
                                            assert(key_of(receipts_view(fresh@)[bad - old(self)@.len()]) == key_of(rv));
                                            assert(false);
                                        }
                                    }
                                };
                                assert(!conflicting(acc, rv)) by {
                                    if conflicting(acc, rv) {
                                        let bad = choose|bad: int|
                                            0 <= bad < acc.len() && key_of(acc[bad]) == key_of(
                                                rv,
                                            ) && acc[bad] != rv;
                                        assert(has_key(acc, key_of(rv)));
                                    }
                                };
                                assert(insert_one(acc, rv) == acc.push(rv));
                            }
                            let copied = copy_receipt(r);
                            fresh.push(copied);
                            proof {
                                assert(receipts_view(fresh@) =~= receipts_view(
                                    fresh@.drop_last(),
                                ).push(rv));
                                assert(old(self)@ + receipts_view(fresh@) =~= acc.push(rv));
                                assert(unique_keys(acc.push(rv))) by {
                                    assert forall|x: int, y: int|
                                        0 <= x < y < acc.push(rv).len() implies key_of(
                                        acc.push(rv)[x],
                                    ) != key_of(acc.push(rv)[y]) by {
                                        if y < acc.len() {
                                            assert(key_of(acc[x]) != key_of(acc[y]));
                                        } else {
                                            assert(acc.push(rv)[y] == rv);
                                            if key_of(acc[x]) == key_of(rv) {
                                                assert(has_key(acc, key_of(rv)));
                                            }
                                        }
                                    }
                                };
                            }
                        },
                    }
                },
            }
            i += 1;
        }
        proof {
            assert(batch0.skip(i as int) =~= Seq::<ReceiptV>::empty());
            assert(apply_batch(old(self)@, batch0) == Some(old(self)@ + receipts_view(fresh@)));
        }
        let ghost fresh_final = receipts_view(fresh@);
        self.receipts.append(&mut fresh);
        proof {
            assert(self@ =~= old(self)@ + fresh_final);
        }
        Ok(())
    }

    /// Collect the commitments of every stored receipt on the (a, b)
    /// corridor, in store order.
    fn collect_commitments(&self, a: StateMachine, b: StateMachine) -> (out: Vec<Vec<u8>>)
        ensures
            out.deep_view() == claim_commitments(self@, a, b),
    {
        let mut out: Vec<Vec<u8>> = Vec::new();
        let mut i: usize = 0;
        proof {
            assert(out.deep_view() =~= claim_commitments(self@.take(0), a, b));
        }
        while i < self.receipts.len()
            invariant
                i <= self@.len(),
                self@.len() == self.receipts@.len(),
                out.deep_view() == claim_commitments(self@.take(i as int), a, b),
            decreases self@.len() - i,
        {
            let ghost rv = self@[i as int];
            proof {
                assert(rv == self.receipts@[i as int]@);
                assert(self@.take(i + 1).drop_last() =~= self@.take(i as int));
                assert(self@.take(i + 1).last() == rv);
            }
            let q = match &self.receipts[i] {
                TxReceipt::Request(q) => q,
                TxReceipt::Response { query, .. } => query,
            };
            proof {
                assert(rv.query == q@);
            }
            if (q.source_chain == a && q.dest_chain == b) || (q.source_chain == b && q.dest_chain
                == a) {
                let ghost prev = out.deep_view();
                let c = copy_bytes(&q.commitment);
                proof {
                    assert(c.deep_view() =~= c@);
                    assert(c@ == rv.query.commitment);
                }
                out.push(c);
                proof {
                    assert(out.deep_view() =~= prev.push(rv.query.commitment));
                    assert(claim_commitments(self@.take(i + 1), a, b) == claim_commitments(
                        self@.take(i as int),
                        a,
                        b,
                    ).push(rv.query.commitment));
                }
            } else {
                proof {
                    assert(!on_corridor(rv, a, b));
                }
            }
            i += 1;
        }
        proof {
            assert(self@.take(self@.len() as int) =~= self@);
        }
        out
    }

    /// Build the claim for one corridor: the commitment of every stored
    /// receipt whose source and destination are the two hosts' chains, in
    /// either direction, together with both hosts' state commitments at
    /// the claimed heights. An empty corridor aborts with
    /// `NoClaimableReceipts` before any host is asked; a host that cannot
    /// answer aborts with `HostQueryError`; nothing partial is returned.
    pub fn create_claim_proof<H1: IsmpHost, H2: IsmpHost>(
        &self,
        from_height: u64,
        to_height: u64,
        source_host: &H1,
        dest_host: &H2,
    ) -> (r: Result<ClaimProof, Error>)
        ensures
            match r {
                Ok(cp) => {
                    &&& claim_commitments(self@, source_host.chain(), dest_host.chain()).len()
                        > 0
                    &&& cp.commitments.deep_view() == claim_commitments(
                        self@,
                        source_host.chain(),
                        dest_host.chain(),
                    )
                    &&& cp.source_chain == source_host.chain()
                    &&& cp.dest_chain == dest_host.chain()
                    &&& cp.from_height == from_height
                    &&& cp.to_height == to_height
                    &&& source_host.commitment_at(from_height) == Some(
                        (cp.source_state.timestamp, cp.source_state.commitment_root@),
                    )
                    &&& dest_host.commitment_at(to_height) == Some(
                        (cp.dest_state.timestamp, cp.dest_state.commitment_root@),
                    )
                },
                Err(e) => {
                    if claim_commitments(self@, source_host.chain(), dest_host.chain()).len()
                        == 0 {
                        e == Error::NoClaimableReceipts
                    } else {
                        e == Error::HostQueryError && (source_host.commitment_at(from_height)
                            is None || dest_host.commitment_at(to_height) is None)
                    }
                },
            },
    {
        let source = source_host.host_state_machine();
        let dest = dest_host.host_state_machine();
        let commitments = self.collect_commitments(source, dest);
        if commitments.len() == 0 {
            return Err(Error::NoClaimableReceipts);
        }
        let source_state = match source_host.query_state_commitment(from_height) {
            Ok(c) => c,
            Err(_) => {
                return Err(Error::HostQueryError);
            },
        };
        let dest_state = match dest_host.query_state_commitment(to_height) {
            Ok(c) => c,
            Err(_) => {
                return Err(Error::HostQueryError);
            },
        };
        Ok(
            ClaimProof {
                source_chain: source,
                dest_chain: dest,
                from_height,
                to_height,
                commitments,
                source_state,
                dest_state,
            },
        )
    }
}

/// A claim covers a corridor completely: when every receipt of the store
/// lies on the (a, b) corridor, the claim holds exactly one commitment per
/// stored receipt.
pub proof fn lemma_claim_counts_all(store: Seq<ReceiptV>, a: StateMachine, b: StateMachine)
    requires
        forall|i: int| 0 <= i < store.len() ==> on_corridor(#[trigger] store[i], a, b),
    ensures
        claim_commitments(store, a, b).len() == store.len(),
    decreases store.len(),
{
    if store.len() > 0 {
        lemma_claim_counts_all(store.drop_last(), a, b);
    }
}

/// Storing receipts whose keys are pairwise distinct and all new to the
/// store succeeds and appends exactly the batch, in order.
pub proof fn lemma_store_all_fresh(store: Seq<ReceiptV>, batch: Seq<ReceiptV>)
    requires
        forall|i: int| 0 <= i < batch.len() ==> !has_key(store, key_of(#[trigger] batch[i])),
        forall|i: int, j: int|
            0 <= i < j < batch.len() ==> key_of(#[trigger] batch[i]) != key_of(
                #[trigger] batch[j],
            ),
    ensures
        apply_batch(store, batch) == Some(store + batch),
    decreases batch.len(),
{
    if batch.len() == 0 {
        assert(store + batch =~= store);
    } else {
        let x = batch[0];
        assert(!has_key(store, key_of(x)));
        assert(!conflicting(store, x)) by {
            if conflicting(store, x) {
                let bad = choose|bad: int|
                    0 <= bad < store.len() && key_of(store[bad]) == key_of(x) && store[bad] != x;
                assert(has_key(store, key_of(x)));
            }
        };
        let grown = store.push(x);
        assert(insert_one(store, x) == grown);
        let rest = batch.drop_first();
        assert forall|i: int| 0 <= i < rest.len() implies !has_key(
            grown,
            key_of(#[trigger] rest[i]),
        ) by {
            assert(rest[i] == batch[i + 1]);
            if has_key(grown, key_of(rest[i])) {
                let bad = choose|bad: int|
                    0 <= bad < grown.len() && key_of(grown[bad]) == key_of(rest[i]);
                if bad < store.len() {
                    assert(key_of(store[bad]) == key_of(batch[i + 1]));
                    assert(has_key(store, key_of(batch[i + 1])));
                    assert(false);
                } else {
                    assert(grown[bad] == x);
                    assert(key_of(batch[0]) == key_of(batch[i + 1]));
                    assert(false);
                }
            }
        }
        assert forall|i: int, j: int| 0 <= i < j < rest.len() implies key_of(#[trigger] rest[i])
            != key_of(#[trigger] rest[j]) by {
            assert(rest[i] == batch[i + 1]);
            assert(rest[j] == batch[j + 1]);
        }
        lemma_store_all_fresh(grown, rest);
        assert(grown + rest =~= store + batch);
    }
}

/// Storing a batch of distinct fresh receipts, all on one corridor, into a
/// store that already lies on that corridor grows the claim by exactly the
/// batch size: no receipt is dropped, none is counted twice.
pub proof fn lemma_claim_after_store(
    store: Seq<ReceiptV>,
    batch: Seq<ReceiptV>,
    a: StateMachine,
    b: StateMachine,
)
    requires
        forall|i: int| 0 <= i < store.len() ==> on_corridor(#[trigger] store[i], a, b),
        forall|i: int| 0 <= i < batch.len() ==> on_corridor(#[trigger] batch[i], a, b),
        forall|i: int| 0 <= i < batch.len() ==> !has_key(store, key_of(#[trigger] batch[i])),
        forall|i: int, j: int|
            0 <= i < j < batch.len() ==> key_of(#[trigger] batch[i]) != key_of(
                #[trigger] batch[j],
            ),
    ensures
        apply_batch(store, batch) == Some(store + batch),
        claim_commitments(store + batch, a, b).len() == store.len() + batch.len(),
{
    lemma_store_all_fresh(store, batch);
    assert forall|i: int| 0 <= i < (store + batch).len() implies on_corridor(
        #[trigger] (store + batch)[i],
        a,
        b,
    ) by {
        if i < store.len() {
            assert((store + batch)[i] == store[i]);
        } else {
            assert((store + batch)[i] == batch[i - store.len()]);
        }
    }
    lemma_claim_counts_all(store + batch, a, b);
}

/// Re-storing a receipt that the store already holds, identically, is a
/// no-op: the store, its size, and therefore every claim built from it are
/// unchanged.
pub proof fn lemma_restore_identical_noop(store: Seq<ReceiptV>, x: ReceiptV)
    requires
        unique_keys(store),
        store.contains(x),
    ensures
        apply_batch(store, seq![x]) == Some(store),
{
    let at = choose|at: int| 0 <= at < store.len() && store[at] == x;
    assert(key_of(store[at]) == key_of(x));
    assert(has_key(store, key_of(x)));
    assert(!conflicting(store, x)) by {
        if conflicting(store, x) {
            let bad = choose|bad: int|
                0 <= bad < store.len() && key_of(store[bad]) == key_of(x) && store[bad] != x;
            assert(bad != at);
            assert(false);
        }
    };
    assert(insert_one(store, x) == store);
    assert(seq![x].drop_first() =~= Seq::<ReceiptV>::empty());
    assert(apply_batch(store, seq![x].drop_first()) == Some(store));
}

/// Storing a receipt whose key the store already binds to different
/// content is rejected: the batch yields no store at all, and
/// `store_messages` then reports the duplicate and leaves the store
/// unchanged.
pub proof fn lemma_store_conflict_rejected(store: Seq<ReceiptV>, x: ReceiptV)
    requires
        exists|i: int|
            0 <= i < store.len() && key_of(#[trigger] store[i]) == key_of(x) && store[i] != x,
    ensures
        apply_batch(store, seq![x]) is None,
{
    assert(conflicting(store, x));
    assert(seq![x].len() == 1);
    assert(seq![x][0] == x);
}

} // verus!
