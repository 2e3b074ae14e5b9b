use ismp_core::consensus_client::{
    is_expired_at, verify_intermediate_states, ConsensusClient, IntermediateState,
    MockConsensusClient, StateCommitment, StateMachineHeight, ETHEREUM_CONSENSUS_CLIENT_ID,
};
use ismp_core::error::Error;
use ismp_core::host::{MockHost, StateMachine};

fn state_at(id: u64, height: u64) -> IntermediateState {
    IntermediateState {
        height: StateMachineHeight { id, height },
        commitment: StateCommitment { timestamp: height, commitment_root: vec![height as u8] },
    }
}

#[test]
fn expiry_is_exactly_beyond_the_unbonding_period() {
    // Staleness equal to the unbonding period: not expired.
    assert!(!is_expired_at(100, 40, 60));
    // One nanosecond beyond: expired.
    assert!(is_expired_at(101, 40, 60));
    // Well beyond: expired.
    assert!(is_expired_at(1_000, 40, 60));
}

#[test]
fn expiry_never_underflows_when_the_clock_lags() {
    // Host clock behind the last update: staleness saturates to zero.
    assert!(!is_expired_at(10, 40, 60));
    assert!(!is_expired_at(0, u64::MAX, 0));
}

#[test]
fn client_is_expired_reads_the_host_clock() {
    let client = MockConsensusClient {
        client_id: ETHEREUM_CONSENSUS_CLIENT_ID,
        unbonding_period_ns: 60,
        frozen: false,
    };
    let fresh = MockHost {
        chain: StateMachine::Ethereum,
        timestamp: 100,
        last_consensus_update: 40,
        state_available: true,
    };
    assert!(!client.is_expired(&fresh).unwrap());

    let stale = MockHost { timestamp: 101, ..fresh };
    assert!(client.is_expired(&stale).unwrap());

    let lagging = MockHost { timestamp: 10, ..fresh };
    assert!(!client.is_expired(&lagging).unwrap());
}

#[test]
fn chaining_batch_advances_the_trusted_height() {
    let trusted = StateMachineHeight { id: 1, height: 5 };
    let states = vec![state_at(1, 6), state_at(1, 7), state_at(1, 8)];
    let latest = verify_intermediate_states(&trusted, false, &states).unwrap();
    assert_eq!(latest, StateMachineHeight { id: 1, height: 8 });
}

#[test]
fn empty_batch_keeps_the_trusted_height() {
    let trusted = StateMachineHeight { id: 1, height: 5 };
    let latest = verify_intermediate_states(&trusted, false, &vec![]).unwrap();
    assert_eq!(latest, trusted);
}

#[test]
fn non_chaining_batch_is_rejected_and_trusted_state_unchanged() {
    let trusted = StateMachineHeight { id: 1, height: 5 };
    // A gap: 6 then 8.
    let gap = vec![state_at(1, 6), state_at(1, 8)];
    let err = verify_intermediate_states(&trusted, false, &gap).unwrap_err();
    assert_eq!(err, Error::VerificationError);
    // The trusted height is borrowed, never written: it reads as before.
    assert_eq!(trusted, StateMachineHeight { id: 1, height: 5 });

    // Not starting right above the trusted height.
    let skewed = vec![state_at(1, 7)];
    let err = verify_intermediate_states(&trusted, false, &skewed).unwrap_err();
    assert_eq!(err, Error::VerificationError);

    // A foreign state machine.
    let foreign = vec![state_at(2, 6)];
    let err = verify_intermediate_states(&trusted, false, &foreign).unwrap_err();
    assert_eq!(err, Error::VerificationError);
}

#[test]
fn frozen_client_fails_fast() {
    let trusted = StateMachineHeight { id: 1, height: 5 };
    let states = vec![state_at(1, 6)];
    let err = verify_intermediate_states(&trusted, true, &states).unwrap_err();
    assert_eq!(err, Error::ClientFrozen);

    let client = MockConsensusClient { client_id: 7, unbonding_period_ns: 60, frozen: true };
    let host = MockHost::new(0, StateMachine::Ethereum);
    let err = client.verify(&host, vec![1, 2, 3], vec![]).unwrap_err();
    assert_eq!(err, Error::ClientFrozen);
}

#[test]
fn mock_client_echoes_the_trusted_state() {
    let client = MockConsensusClient { client_id: 7, unbonding_period_ns: 60, frozen: false };
    let host = MockHost::new(0, StateMachine::Ethereum);
    assert_eq!(client.consensus_id(), 7);
    assert_eq!(client.unbonding_period(), 60);
    let (state, states) = client.verify(&host, vec![1, 2, 3], vec![9]).unwrap();
    assert_eq!(state, vec![1, 2, 3]);
    assert!(states.is_empty());
}
