use vstd::prelude::*;

use crate::consensus_client::{ConsensusClientId, StateCommitment};
use crate::error::Error;

verus! {

/// Identifier of a chain whose state transitions the protocol tracks.
#[derive(Clone, Copy, Debug, PartialEq, Eq, Structural)]
pub enum StateMachine {
    Ethereum,
    Arbitrum,
    Optimism,
    Base,
    Bsc,
    Polygon,
}

/// The host adapter: the local chain's runtime, which supplies the current
/// timestamp, the last-update time of each consensus client, and the state
/// commitments it has persisted. Concrete hosts live outside the core and
/// implement this trait; the spec functions name what each call returns so
/// that callers can state exact contracts over them.
pub trait IsmpHost {
    /// The chain this host runs on.
    spec fn chain(&self) -> StateMachine;

    /// The host clock, in nanoseconds.
    spec fn timestamp(&self) -> u64;

    /// When the given consensus client was last updated, if known.
    spec fn update_time(&self, id: ConsensusClientId) -> Option<u64>;

    /// The state commitment persisted at the given height, as a
    /// (timestamp, commitment root) pair, if one was recorded.
    spec fn commitment_at(&self, height: u64) -> Option<(u64, Seq<u8>)>;

    /// Which state machine this host is.
    fn host_state_machine(&self) -> (r: StateMachine)
        ensures
            r == self.chain(),
    ;

    /// Current host timestamp in nanoseconds.
    fn host_timestamp(&self) -> (r: u64)
        ensures
            r == self.timestamp(),
    ;

    /// When the given consensus client was last updated, in nanoseconds.
    fn consensus_update_time(&self, id: ConsensusClientId) -> (r: Result<u64, Error>)
        ensures
            match r {
                Ok(t) => self.update_time(id) == Some(t),
                Err(e) => self.update_time(id) is None && e == Error::HostQueryError,
            },
    ;

    /// Read the state commitment persisted at the given height.
    fn query_state_commitment(&self, height: u64) -> (r: Result<StateCommitment, Error>)
        ensures
            match r {
                Ok(c) => self.commitment_at(height) == Some((c.timestamp, c.commitment_root@)),
                Err(e) => self.commitment_at(height) is None && e == Error::HostQueryError,
            },
    ;
}

/// An in-memory host for tests: a fixed clock, a fixed last-update time,
/// and an empty commitment root at every height (or none at all, when
/// `state_available` is false).
pub struct MockHost {
    pub chain: StateMachine,
    pub timestamp: u64,
    pub last_consensus_update: u64,
    pub state_available: bool,
}

impl MockHost {
    pub fn new(timestamp: u64, chain: StateMachine) -> (r: MockHost)
        ensures
            r.chain == chain,
            r.timestamp == timestamp,
            r.last_consensus_update == 0,
            r.state_available,
    {
        MockHost { chain, timestamp, last_consensus_update: 0, state_available: true }
    }
}

impl IsmpHost for MockHost {
    open spec fn chain(&self) -> StateMachine {
        self.chain
    }

    open spec fn timestamp(&self) -> u64 {
        self.timestamp
    }

    open spec fn update_time(&self, id: ConsensusClientId) -> Option<u64> {
        Some(self.last_consensus_update)
    }

    open spec fn commitment_at(&self, height: u64) -> Option<(u64, Seq<u8>)> {
        if self.state_available {
            Some((self.timestamp, Seq::empty()))
        } else {
            None
        }
    }

    fn host_state_machine(&self) -> (r: StateMachine) {
        self.chain
    }

    fn host_timestamp(&self) -> (r: u64) {
        self.timestamp
    }

    fn consensus_update_time(&self, id: ConsensusClientId) -> (r: Result<u64, Error>) {
        Ok(self.last_consensus_update)
    }

    fn query_state_commitment(&self, height: u64) -> (r: Result<StateCommitment, Error>) {
        if self.state_available {
            let root: Vec<u8> = Vec::new();
            let c = StateCommitment { timestamp: self.timestamp, commitment_root: root };
            proof {
                assert(c.commitment_root@ =~= Seq::<u8>::empty());
            }
            Ok(c)
        } else {
            Err(Error::HostQueryError)
        }
    }
}

} // verus!
