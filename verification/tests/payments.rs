use ismp_core::error::Error;
use ismp_core::host::{MockHost, StateMachine};
use ismp_core::payment::{Query, TransactionPayment, TxReceipt};
use ismp_core::router::{Post, PostResponse, Request, Response};
use ismp_core::util::{hash_request, hash_response};

fn request_receipt(source: StateMachine, dest: StateMachine, nonce: u64, gas_limit: u64) -> TxReceipt {
    let post = Post {
        source,
        dest,
        nonce,
        from: vec![],
        to: vec![],
        timeout_timestamp: 0,
        data: vec![],
        gas_limit,
    };
    let req = Request::Post(post);
    let commitment = hash_request(&req);
    TxReceipt::Request(Query {
        source_chain: req.source_chain(),
        dest_chain: req.dest_chain(),
        nonce: req.nonce(),
        commitment,
    })
}

fn response_receipt(source: StateMachine, dest: StateMachine, nonce: u64, gas_limit: u64) -> TxReceipt {
    let resp = Response::Post(PostResponse {
        post: Post {
            source,
            dest,
            nonce,
            from: vec![],
            to: vec![],
            timeout_timestamp: 0,
            data: vec![],
            gas_limit,
        },
        response: vec![0u8; 64],
        timeout_timestamp: nonce,
        gas_limit,
    });
    let commitment = hash_response(&resp);
    let request_commitment = hash_request(&resp.request());
    TxReceipt::Response {
        query: Query {
            source_chain: resp.source_chain(),
            dest_chain: resp.dest_chain(),
            nonce: resp.nonce(),
            commitment,
        },
        request_commitment,
    }
}

#[test]
fn transaction_payments_flow() {
    let mut tx_payment = TransactionPayment::initialize();
    let mut receipts: Vec<TxReceipt> = Vec::new();
    for i in 0..500u64 {
        receipts.push(request_receipt(StateMachine::Bsc, StateMachine::Polygon, i, i));
    }
    for i in 0..500u64 {
        receipts.push(response_receipt(StateMachine::Polygon, StateMachine::Bsc, i, i));
    }

    tx_payment.store_messages(receipts).unwrap();

    let claim_proof = tx_payment
        .create_claim_proof(
            0,
            0,
            &MockHost::new(0, StateMachine::Bsc),
            &MockHost::new(0, StateMachine::Polygon),
        )
        .unwrap();

    assert_eq!(claim_proof.commitments.len(), 1000);
}

#[test]
fn restore_identical_receipt_is_a_noop() {
    let mut store = TransactionPayment::initialize();
    let r = request_receipt(StateMachine::Bsc, StateMachine::Polygon, 3, 10);
    store.store_messages(vec![r.clone()]).unwrap();
    assert_eq!(store.receipt_count(), 1);

    store.store_messages(vec![r]).unwrap();
    assert_eq!(store.receipt_count(), 1);

    let claim = store
        .create_claim_proof(
            0,
            0,
            &MockHost::new(0, StateMachine::Bsc),
            &MockHost::new(0, StateMachine::Polygon),
        )
        .unwrap();
    assert_eq!(claim.commitments.len(), 1);
}

#[test]
fn conflicting_receipt_is_rejected_and_store_unchanged() {
    let mut store = TransactionPayment::initialize();
    let r = request_receipt(StateMachine::Bsc, StateMachine::Polygon, 3, 10);
    store.store_messages(vec![r]).unwrap();
    assert_eq!(store.receipt_count(), 1);

    // Same key (tag, source, dest, nonce), different content: the gas limit
    // differs, so the commitment differs.
    let conflict = request_receipt(StateMachine::Bsc, StateMachine::Polygon, 3, 11);
    let err = store.store_messages(vec![conflict]).unwrap_err();
    assert_eq!(err, Error::DuplicateReceiptError);
    assert_eq!(store.receipt_count(), 1);

    let claim = store
        .create_claim_proof(
            0,
            0,
            &MockHost::new(0, StateMachine::Bsc),
            &MockHost::new(0, StateMachine::Polygon),
        )
        .unwrap();
    assert_eq!(claim.commitments.len(), 1);
}

#[test]
fn conflicting_batch_stores_nothing() {
    let mut store = TransactionPayment::initialize();
    let good = request_receipt(StateMachine::Bsc, StateMachine::Polygon, 0, 1);
    let first = request_receipt(StateMachine::Bsc, StateMachine::Polygon, 1, 2);
    let conflict = request_receipt(StateMachine::Bsc, StateMachine::Polygon, 1, 3);
    let err = store.store_messages(vec![good, first, conflict]).unwrap_err();
    assert_eq!(err, Error::DuplicateReceiptError);
    assert_eq!(store.receipt_count(), 0);
}

#[test]
fn empty_batch_stores_nothing_and_succeeds() {
    let mut store = TransactionPayment::initialize();
    store.store_messages(vec![]).unwrap();
    assert_eq!(store.receipt_count(), 0);
}

#[test]
fn request_and_response_tags_do_not_collide() {
    let mut store = TransactionPayment::initialize();
    let req = request_receipt(StateMachine::Bsc, StateMachine::Polygon, 7, 1);
    let resp = response_receipt(StateMachine::Bsc, StateMachine::Polygon, 7, 1);
    store.store_messages(vec![req, resp]).unwrap();
    assert_eq!(store.receipt_count(), 2);
}

#[test]
fn empty_corridor_yields_no_claimable_receipts() {
    let store = TransactionPayment::initialize();
    let err = store
        .create_claim_proof(
            0,
            0,
            &MockHost::new(0, StateMachine::Bsc),
            &MockHost::new(0, StateMachine::Polygon),
        )
        .unwrap_err();
    assert_eq!(err, Error::NoClaimableReceipts);
}

#[test]
fn foreign_corridor_yields_no_claimable_receipts() {
    let mut store = TransactionPayment::initialize();
    let r = request_receipt(StateMachine::Bsc, StateMachine::Polygon, 0, 1);
    store.store_messages(vec![r]).unwrap();
    let err = store
        .create_claim_proof(
            0,
            0,
            &MockHost::new(0, StateMachine::Ethereum),
            &MockHost::new(0, StateMachine::Base),
        )
        .unwrap_err();
    assert_eq!(err, Error::NoClaimableReceipts);
}

#[test]
fn unanswerable_host_yields_host_query_error() {
    let mut store = TransactionPayment::initialize();
    let r = request_receipt(StateMachine::Bsc, StateMachine::Polygon, 0, 1);
    store.store_messages(vec![r]).unwrap();
    let broken = MockHost {
        chain: StateMachine::Bsc,
        timestamp: 0,
        last_consensus_update: 0,
        state_available: false,
    };
    let err = store
        .create_claim_proof(0, 0, &broken, &MockHost::new(0, StateMachine::Polygon))
        .unwrap_err();
    assert_eq!(err, Error::HostQueryError);
}

#[test]
fn claim_proof_carries_both_directions_and_evidence() {
    let mut store = TransactionPayment::initialize();
    store
        .store_messages(vec![
            request_receipt(StateMachine::Bsc, StateMachine::Polygon, 0, 1),
            response_receipt(StateMachine::Polygon, StateMachine::Bsc, 0, 1),
            request_receipt(StateMachine::Bsc, StateMachine::Ethereum, 0, 1),
        ])
        .unwrap();
    let claim = store
        .create_claim_proof(
            11,
            22,
            &MockHost::new(5, StateMachine::Bsc),
            &MockHost::new(9, StateMachine::Polygon),
        )
        .unwrap();
    // Both directions of the (Bsc, Polygon) corridor count; the
    // (Bsc, Ethereum) receipt does not.
    assert_eq!(claim.commitments.len(), 2);
    assert_eq!(claim.source_chain, StateMachine::Bsc);
    assert_eq!(claim.dest_chain, StateMachine::Polygon);
    assert_eq!(claim.from_height, 11);
    assert_eq!(claim.to_height, 22);
    assert_eq!(claim.source_state.timestamp, 5);
    assert_eq!(claim.dest_state.timestamp, 9);
}
