//! The producer/consumer pipeline around the miner: the decision logic of
//! the two tasks as a state machine, and the consumer's work of mining one
//! block per payload and appending it to the chain. The channel, the timer
//! and the payload source live outside the library; they hand payloads in
//! and are told by `pipeline_step` what to do next.

use crate::block::{Block, MineError};
use crate::chain::{spec_tip_hash, Chain};
use crate::difficulty::meets_difficulty;
use crate::digest::commitment_spec;
use vstd::prelude::*;

verus! {

/// Where the pipeline stands in its life cycle.
#[derive(Clone, Copy, Debug, PartialEq, Eq, Structural)]
pub enum PipelineState {
    /// Created but not started.
    Idle,
    /// Producer and consumer both live.
    Running,
    /// Shutdown was requested: the sending side is closed and the consumer
    /// works off the payloads still buffered in the channel.
    Draining,
    /// Terminal: nothing more is produced or consumed.
    Stopped,
}

/// What the outside world reports to the pipeline.
#[derive(Clone, Copy, Debug, PartialEq, Eq, Structural)]
pub enum PipelineEvent {
    /// The pipeline is started.
    Start,
    /// The consumer received one payload from the channel.
    PayloadArrived,
    /// A cooperative shutdown signal closed the channel's sending side.
    ShutdownRequested,
    /// The channel is closed and holds no more buffered payloads.
    QueueDrained,
}

/// What the consumer is to do in reaction to an event.
#[derive(Clone, Copy, Debug, PartialEq, Eq, Structural)]
pub enum PipelineAction {
    /// Mine a block from the arrived payload and append it to the chain.
    MineAndAppend,
    /// Nothing: the event carries no work.
    Ignore,
}

/// The transition table of the pipeline:
/// Idle -> Running -> { Draining -> Stopped | Stopped }, with payloads mined
/// while Running or Draining and every other event ignored.
pub open spec fn spec_pipeline_step(s: PipelineState, e: PipelineEvent) -> (
    PipelineState,
    PipelineAction,
) {
    match (s, e) {
        (PipelineState::Idle, PipelineEvent::Start) => (
            PipelineState::Running,
            PipelineAction::Ignore,
        ),
        (PipelineState::Running, PipelineEvent::PayloadArrived) => (
            PipelineState::Running,
            PipelineAction::MineAndAppend,
        ),
        (PipelineState::Running, PipelineEvent::ShutdownRequested) => (
            PipelineState::Draining,
            PipelineAction::Ignore,
        ),
        (PipelineState::Running, PipelineEvent::QueueDrained) => (
            PipelineState::Stopped,
            PipelineAction::Ignore,
        ),
        (PipelineState::Draining, PipelineEvent::PayloadArrived) => (
            PipelineState::Draining,
            PipelineAction::MineAndAppend,
        ),
        (PipelineState::Draining, PipelineEvent::QueueDrained) => (
            PipelineState::Stopped,
            PipelineAction::Ignore,
        ),
        _ => (s, PipelineAction::Ignore),
    }
}

/// Advances the pipeline's state machine by one event and says what the
/// consumer is to do.
pub fn pipeline_step(s: PipelineState, e: PipelineEvent) -> (r: (PipelineState, PipelineAction))
    ensures
        r == spec_pipeline_step(s, e),
{
    match (s, e) {
        (PipelineState::Idle, PipelineEvent::Start) => (
            PipelineState::Running,
            PipelineAction::Ignore,
        ),
        (PipelineState::Running, PipelineEvent::PayloadArrived) => (
            PipelineState::Running,
            PipelineAction::MineAndAppend,
        ),
        (PipelineState::Running, PipelineEvent::ShutdownRequested) => (
            PipelineState::Draining,
            PipelineAction::Ignore,
        ),
        (PipelineState::Running, PipelineEvent::QueueDrained) => (
            PipelineState::Stopped,
            PipelineAction::Ignore,
        ),
        (PipelineState::Draining, PipelineEvent::PayloadArrived) => (
            PipelineState::Draining,
            PipelineAction::MineAndAppend,
        ),
        (PipelineState::Draining, PipelineEvent::QueueDrained) => (
            PipelineState::Stopped,
            PipelineAction::Ignore,
        ),
        _ => (s, PipelineAction::Ignore),
    }
}

/// Stopped is terminal: no event leaves it.
pub proof fn lemma_stopped_is_terminal(e: PipelineEvent)
    ensures
        spec_pipeline_step(PipelineState::Stopped, e).0 == PipelineState::Stopped,
{
}

/// Payloads are mined only while the pipeline is running or draining, and
/// only when one actually arrived.
pub proof fn lemma_mine_only_while_active(s: PipelineState, e: PipelineEvent)
    ensures
        spec_pipeline_step(s, e).1 == PipelineAction::MineAndAppend ==> (s == PipelineState::Running
            || s == PipelineState::Draining) && e == PipelineEvent::PayloadArrived,
{
}

/// The consumer's work for one payload: mine a block at the chain's next
/// index, linked to the current tip, and append it. The append cannot be
/// rejected, because the mined block is proved to satisfy every constraint
/// the chain re-checks; the one failure left is an exhausted nonce space,
/// which leaves the chain unchanged.
pub fn process_payload(chain: &mut Chain, payload: Vec<u8>) -> (r: Result<(), MineError>)
    requires
        old(chain).wf(),
    ensures
        final(chain).wf(),
        final(chain).spec_difficulty() == old(chain).spec_difficulty(),
        match r {
            Ok(()) => {
                &&& final(chain)@.len() == old(chain)@.len() + 1
                &&& forall|i: int| 0 <= i < old(chain)@.len() ==> final(chain)@[i] == old(chain)@[i]
                &&& final(chain)@.last().payload@ == payload@
                &&& final(chain)@.last().index as int == old(chain)@.len()
                &&& final(chain)@.last().previous_hash@ == spec_tip_hash(old(chain)@)
                &&& final(chain)@.last().hash_consistent()
                &&& meets_difficulty(final(chain)@.last().hash@, old(chain).spec_difficulty())
            },
            Err(e) => {
                &&& final(chain)@ == old(chain)@
                &&& e == MineError::NonceSpaceExhausted
                &&& forall|m: u128|
                    !meets_difficulty(
                        #[trigger] commitment_spec(
                            old(chain)@.len() as u64,
                            payload@,
                            spec_tip_hash(old(chain)@),
                            m,
                        ),
                        old(chain).spec_difficulty(),
                    )
            },
        },
{
    let index = chain.len() as u64;
    let previous_hash: [u8; 32] = match chain.tip() {
        Some(b) => b.hash,
        None => [0u8; 32],
    };
    proof {
        assert(previous_hash@ =~= spec_tip_hash(chain@));
    }
    let difficulty = chain.difficulty();
    match Block::mine(index, payload, previous_hash, difficulty) {
        Ok(b) => {
            let appended = chain.append(b);
            proof {
                assert(appended.is_ok());
            }
            Ok(())
        },
        Err(e) => Err(e),
    }
}

/// Mines and appends one block per payload, in the order the payloads were
/// produced: the batch form of the consumer's work. On success the chain
/// has grown by exactly one block per payload, each carrying its payload at
/// the position the order dictates. The batch stops early only when the
/// payload at the failing position truly has no satisfying nonce against
/// the tip reached so far (so at difficulty zero it cannot fail); the
/// blocks already appended stay in place. Treating such a failure as local
/// to its payload and carrying on with later ones is the caller's loop, as
/// the consumer task does with one call of `process_payload` per payload.
pub fn process_payloads(chain: &mut Chain, payloads: Vec<Vec<u8>>) -> (r: Result<(), MineError>)
    requires
        old(chain).wf(),
    ensures
        final(chain).wf(),
        final(chain).spec_difficulty() == old(chain).spec_difficulty(),
        forall|i: int| 0 <= i < old(chain)@.len() ==> final(chain)@[i] == old(chain)@[i],
        r.is_ok() ==> {
            &&& final(chain)@.len() == old(chain)@.len() + payloads@.len()
            &&& forall|i: int|
                0 <= i < payloads@.len() ==> {
                    &&& final(chain)@[old(chain)@.len() + i].payload@ == payloads@[i]@
                    &&& final(chain)@[old(chain)@.len() + i].index as int == old(chain)@.len() + i
                }
        },
        r.is_err() ==> {
            &&& old(chain)@.len() <= final(chain)@.len()
            &&& final(chain)@.len() - old(chain)@.len() < payloads@.len()
            &&& forall|i: int|
                0 <= i < final(chain)@.len() - old(chain)@.len() ==> {
                    &&& final(chain)@[old(chain)@.len() + i].payload@ == payloads@[i]@
                    &&& final(chain)@[old(chain)@.len() + i].index as int == old(chain)@.len() + i
                }
            &&& forall|m: u128|
                !meets_difficulty(
                    #[trigger] commitment_spec(
                        final(chain)@.len() as u64,
                        payloads@[final(chain)@.len() - old(chain)@.len()]@,
                        spec_tip_hash(final(chain)@),
                        m,
                    ),
                    old(chain).spec_difficulty(),
                )
        },
{
    let n = payloads.len();
    let mut j: usize = 0;
    while j < n
        invariant
            old(chain).wf(),
            chain.wf(),
            n == payloads@.len(),
            j <= n,
            chain.spec_difficulty() == old(chain).spec_difficulty(),
            chain@.len() == old(chain)@.len() + j,
            forall|i: int| 0 <= i < old(chain)@.len() ==> chain@[i] == old(chain)@[i],
            forall|i: int|
                0 <= i < j ==> {
                    &&& chain@[old(chain)@.len() + i].payload@ == payloads@[i]@
                    &&& chain@[old(chain)@.len() + i].index as int == old(chain)@.len() + i
                },
        decreases n - j,
    {
        let payload = payloads[j].clone();
        proof {
            assert(payload@ =~= payloads@[j as int]@);
        }
        let ghost pre = chain@;
        match process_payload(chain, payload) {
            Ok(()) => {
                proof {
                    let base = old(chain)@.len() as int;
                    assert forall|i: int| 0 <= i < j + 1 implies {
                        &&& chain@[base + i].payload@ == payloads@[i]@
                        &&& chain@[base + i].index as int == base + i
                    } by {
                        if i < j {
                            assert(pre[base + i].payload@ == payloads@[i]@);
                            assert(chain@[base + i] == pre[base + i]);
                        } else {
                            assert(chain@[base + i] == chain@.last());
                        }
                    }
                }
                j = j + 1;
            },
            Err(e) => {
                proof {
                    assert(chain@ == pre);
                    assert(chain@.len() - old(chain)@.len() == j as int);
                    assert forall|m: u128|
                        !meets_difficulty(
                            #[trigger] commitment_spec(
                                chain@.len() as u64,
                                payloads@[chain@.len() - old(chain)@.len()]@,
                                spec_tip_hash(chain@),
                                m,
                            ),
                            old(chain).spec_difficulty(),
                        ) by {
                        assert(payloads@[chain@.len() - old(chain)@.len()]@ == payload@);
                        assert(!meets_difficulty(
                            commitment_spec(pre.len() as u64, payload@, spec_tip_hash(pre), m),
                            chain.spec_difficulty(),
                        ));
                    }
                }
                return Err(e);
            },
        }
    }
    Ok(())
}

} // verus!
