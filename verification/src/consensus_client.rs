use vstd::prelude::*;

use crate::error::Error;
use crate::host::IsmpHost;
use crate::messaging::RequestMessage;

verus! {

/// Identifier of a remote state machine tracked by a consensus client.
pub type StateMachineId = u64;

/// Identifier of one consensus-verification algorithm instance. One client
/// may verify many state machines of the same consensus family.
pub type ConsensusClientId = u64;

pub const ETHEREUM_CONSENSUS_CLIENT_ID: ConsensusClientId = 100;

pub const GNOSIS_CONSENSUS_CLIENT_ID: ConsensusClientId = 200;

/// A remote chain's state digest at one height: a chain-reported timestamp
/// (nanoseconds) and an opaque commitment root. Never mutated, only
/// superseded by a later height's commitment.
#[derive(Clone, Debug)]
pub struct StateCommitment {
    /// Timestamp in nanoseconds
    pub timestamp: u64,
    pub commitment_root: Vec<u8>,
}

/// A point in a remote chain's history. Heights of the same state machine
/// are totally ordered; heights of different state machines are
/// incomparable.
#[derive(Clone, Copy, Debug, PartialEq, Eq, Structural)]
pub struct StateMachineHeight {
    pub id: StateMachineId,
    pub height: u64,
}

/// The atomic unit of consensus progress: a height bound to its commitment.
#[derive(Clone, Debug)]
pub struct IntermediateState {
    pub height: StateMachineHeight,
    pub commitment: StateCommitment,
}

/// How long since the last update, saturating at zero when the host clock
/// reads earlier than the last update.
pub open spec fn staleness(host_timestamp: u64, last_update: u64) -> u64 {
    if host_timestamp >= last_update {
        (host_timestamp - last_update) as u64
    } else {
        0
    }
}

/// The staleness rule of the protocol: a client is expired exactly when the
/// time since its last update exceeds its unbonding period. The subtraction
/// saturates, so a host clock behind the last update never underflows and
/// reads as zero staleness.
pub fn is_expired_at(host_timestamp: u64, last_update: u64, unbonding_period: u64) -> (expired:
    bool)
    ensures
        expired == (staleness(host_timestamp, last_update) > unbonding_period),
        host_timestamp < last_update ==> !expired,
        host_timestamp >= last_update ==> expired == (host_timestamp - last_update
            > unbonding_period),
{
    if host_timestamp >= last_update {
        host_timestamp - last_update > unbonding_period
    } else {
        false
    }
}

/// A batch of newly finalized states chains from the trusted height when
/// every entry stays on the trusted state machine and the heights ascend
/// without a gap, starting right above the trusted height.
pub open spec fn chains_from(trusted: StateMachineHeight, states: Seq<IntermediateState>) -> bool {
    forall|i: int|
        0 <= i < states.len() ==> (#[trigger] states[i]).height.id == trusted.id
            && states[i].height.height == trusted.height + 1 + i
}

/// The heights of a batch ascend contiguously within one state machine.
pub open spec fn contiguous_ascending(states: Seq<IntermediateState>) -> bool {
    forall|i: int|
        1 <= i < states.len() ==> (#[trigger] states[i]).height.id == states[i - 1].height.id
            && states[i].height.height == states[i - 1].height.height + 1
}

/// Accept a batch of newly finalized states only as a whole: a frozen client
/// fails fast, a gap or a foreign state machine is a verification failure,
/// and only a batch that chains gap-free from the trusted height yields the
/// new latest height. The trusted height is read, never changed, so a
/// rejected proof leaves the trusted state exactly as it was.
pub fn verify_intermediate_states(
    trusted: &StateMachineHeight,
    frozen: bool,
    states: &Vec<IntermediateState>,
) -> (r: Result<StateMachineHeight, Error>)
    ensures
        frozen ==> r == Err::<StateMachineHeight, Error>(Error::ClientFrozen),
        !frozen && !chains_from(*trusted, states@) ==> r == Err::<StateMachineHeight, Error>(
            Error::VerificationError,
        ),
        !frozen && chains_from(*trusted, states@) ==> (r matches Ok(h) && h == (if states@.len()
            == 0 {
            *trusted
        } else {
            states@[states@.len() - 1].height
        })),
{
    if frozen {
        return Err(Error::ClientFrozen);
    }
    let mut i: usize = 0;
    while i < states.len()
        invariant
            !frozen,
            i <= states@.len(),
            forall|j: int|
                0 <= j < i ==> (#[trigger] states@[j]).height.id == trusted.id
                    && states@[j].height.height == trusted.height + 1 + j,
        decreases states@.len() - i,
    {
        let candidate = states[i].height;
        if candidate.id != trusted.id {
            proof {
                if chains_from(*trusted, states@) {
                    assert(states@[i as int].height.id == trusted.id);
                    assert(false);
                }
            }
            return Err(Error::VerificationError);
        }
        let expected: u128 = trusted.height as u128 + 1 + i as u128;
        if candidate.height as u128 != expected {
            proof {
                if chains_from(*trusted, states@) {
                    assert(states@[i as int].height.height == trusted.height + 1 + i);
                    assert(false);
                }
            }
            return Err(Error::VerificationError);
        }
        i += 1;
    }
    if states.len() == 0 {
        Ok(*trusted)
    } else {
        Ok(states[states.len() - 1].height)
    }
}

/// A pluggable verifier for one consensus family. Concrete clients decode
/// the opaque consensus state and proof for their family; this interface
/// fixes what every client owes its callers: a verified batch of states
/// ascends without a gap, and expiry follows the staleness rule.
pub trait ConsensusClient {
    /// The client's identifier.
    spec fn id(&self) -> ConsensusClientId;

    /// The client's unbonding period, in nanoseconds.
    spec fn unbonding(&self) -> u64;

    /// Is the client frozen? A frozen client accepts no proof at all.
    spec fn is_frozen(&self) -> bool;

    /// Decode the trusted consensus state and the new consensus proof,
    /// verifying that the client is not frozen, that there is no byzantine
    /// behaviour, and that the proof chains; on success return the new
    /// consensus state and the newly finalized state commitments,
    /// height-ascending with no gaps.
    fn verify<H: IsmpHost>(
        &self,
        host: &H,
        trusted_consensus_state: Vec<u8>,
        proof: Vec<u8>,
    ) -> (r: Result<(Vec<u8>, Vec<IntermediateState>), Error>)
        ensures
            self.is_frozen() ==> (r matches Err(e) && e == Error::ClientFrozen),
            r matches Ok(p) ==> contiguous_ascending(p.1@),
    ;

    /// Check if the client has expired since the last update: expired
    /// exactly when the host clock has run past the last update by more
    /// than the unbonding period, with saturating subtraction.
    fn is_expired<H: IsmpHost>(&self, host: &H) -> (r: Result<bool, Error>)
        ensures
            match r {
                Ok(expired) => host.update_time(self.id()) matches Some(t) && expired == (
                staleness(host.timestamp(), t) > self.unbonding()),
                Err(e) => host.update_time(self.id()) is None && e == Error::HostQueryError,
            },
    {
        let host_timestamp = host.host_timestamp();
        let unbonding_period = self.unbonding_period();
        let last_update = match host.consensus_update_time(self.consensus_id()) {
            Ok(t) => t,
            Err(e) => {
                return Err(e);
            },
        };
        Ok(is_expired_at(host_timestamp, last_update, unbonding_period))
    }

    /// Return the consensus client id.
    fn consensus_id(&self) -> (r: ConsensusClientId)
        ensures
            r == self.id(),
    ;

    /// Return the unbonding period, in nanoseconds.
    fn unbonding_period(&self) -> (r: u64)
        ensures
            r == self.unbonding(),
    ;

    /// Verify a membership proof of a batch of requests.
    fn verify_request(&self, msg: RequestMessage) -> Result<(), Error>;

    /// Verify a membership proof of a batch of responses.
    fn verify_response(&self, msg: RequestMessage) -> Result<(), Error>;
}

/// A minimal client for tests: it tracks nothing, accepts every membership
/// proof, and its `verify` echoes the trusted state with no new
/// commitments, failing fast when frozen.
pub struct MockConsensusClient {
    pub client_id: ConsensusClientId,
    pub unbonding_period_ns: u64,
    pub frozen: bool,
}

impl ConsensusClient for MockConsensusClient {
    open spec fn id(&self) -> ConsensusClientId {
        self.client_id
    }

    open spec fn unbonding(&self) -> u64 {
        self.unbonding_period_ns
    }

    open spec fn is_frozen(&self) -> bool {
        self.frozen
    }

    fn verify<H: IsmpHost>(
        &self,
        host: &H,
        trusted_consensus_state: Vec<u8>,
        proof: Vec<u8>,
    ) -> (r: Result<(Vec<u8>, Vec<IntermediateState>), Error>)
        ensures
            self.frozen ==> (r matches Err(e) && e == Error::ClientFrozen),
            !self.frozen ==> (r matches Ok(p) && p.0@ == trusted_consensus_state@ && p.1@.len()
                == 0),
    {
        if self.frozen {
            return Err(Error::ClientFrozen);
        }
        let states: Vec<IntermediateState> = Vec::new();
        Ok((trusted_consensus_state, states))
    }

    fn consensus_id(&self) -> (r: ConsensusClientId) {
        self.client_id
    }

    fn unbonding_period(&self) -> (r: u64) {
        self.unbonding_period_ns
    }

    fn verify_request(&self, msg: RequestMessage) -> Result<(), Error> {
        Ok(())
    }

    fn verify_response(&self, msg: RequestMessage) -> Result<(), Error> {
        Ok(())
    }
}

} // verus!
