//! Accepting connections that wait.

use vstd::prelude::*;

verus! {

/// What accepting a connection brought.
#[derive(Debug, Clone, Copy, PartialEq, Eq, Structural)]
pub enum AcceptOutcome {
    /// A connection; tells whether it could be prepared.
    Accepted { prepared: bool },
    /// Nobody waits.
    WouldBlock,
    Failed,
}

/// What the accepting does next.
#[derive(Debug, Clone, Copy, PartialEq, Eq, Structural)]
pub enum AcceptStep {
    /// Start the handshake of the connection under this id, then accept on.
    Serve { id: u64 },
    /// Drop the connection, then accept on.
    Skip,
    /// Stop for now.
    Stop,
}

/// What becomes of an accepted connection when `next_id` is the next free id.
pub open spec fn step_for(next_id: u64, outcome: AcceptOutcome) -> AcceptStep {
    match outcome {
        AcceptOutcome::Accepted { prepared } => if prepared {
            AcceptStep::Serve { id: next_id }
        } else {
            AcceptStep::Skip
        },
        _ => AcceptStep::Stop,
    }
}

/// The next free id afterwards: every accepted connection uses one up, also one
/// that is dropped, until the ids run out.
pub open spec fn id_after(next_id: u64, outcome: AcceptOutcome) -> u64 {
    if outcome is Accepted && next_id < u64::MAX {
        (next_id + 1) as u64
    } else {
        next_id
    }
}

/// Decide what becomes of an accepted connection, whoever is at its other end.
pub fn accept_step(next_id: &mut u64, outcome: AcceptOutcome) -> (step: AcceptStep)
    ensures
        *final(next_id) == id_after(*old(next_id), outcome),
        step == step_for(*old(next_id), outcome),
{
    match outcome {
        AcceptOutcome::Accepted { prepared } => {
            let id: u64 = *next_id;
            *next_id = next_id.saturating_add(1);
            if prepared {
                AcceptStep::Serve { id }
            } else {
                AcceptStep::Skip
            }
        },
        AcceptOutcome::WouldBlock | AcceptOutcome::Failed => AcceptStep::Stop,
    }
}

/// Decide what becomes of an accepted client connection.
pub fn accept_pending_client_connections(
    next_client_id: &mut u64,
    outcome: AcceptOutcome,
) -> (step: AcceptStep)
    ensures
        *final(next_client_id) == id_after(*old(next_client_id), outcome),
        step == step_for(*old(next_client_id), outcome),
{
    accept_step(next_client_id, outcome)
}

/// The ids of the connections that are served when accepting goes like this.
pub open spec fn served(next_id: u64, outcomes: Seq<AcceptOutcome>) -> Seq<u64>
    decreases outcomes.len(),
{
    if outcomes.len() == 0 {
        Seq::empty()
    } else {
        let rest = served(id_after(next_id, outcomes[0]), outcomes.drop_first());
        match step_for(next_id, outcomes[0]) {
            AcceptStep::Serve { id } => seq![id] + rest,
            _ => rest,
        }
    }
}

proof fn lemma_served_are_new(next_id: u64, outcomes: Seq<AcceptOutcome>)
    requires
        next_id + outcomes.len() <= u64::MAX,
    ensures
        served(next_id, outcomes).no_duplicates(),
        forall|k: int|
            0 <= k < served(next_id, outcomes).len() ==> served(next_id, outcomes)[k] >= next_id,
    decreases outcomes.len(),
{
    if outcomes.len() > 0 {
        let after = id_after(next_id, outcomes[0]);
        lemma_served_are_new(after, outcomes.drop_first());
        let rest = served(after, outcomes.drop_first());
        if step_for(next_id, outcomes[0]) is Serve {
            let all = served(next_id, outcomes);
            assert forall|i: int, j: int| 0 <= i < all.len() && 0 <= j < all.len() && i != j
                implies all[i] != all[j] by {
                if i > 0 {
                    assert(all[i] == rest[i - 1]);
                }
                if j > 0 {
                    assert(all[j] == rest[j - 1]);
                }
            }
            assert forall|k: int| 0 <= k < all.len() implies all[k] >= next_id by {
                if k > 0 {
                    assert(all[k] == rest[k - 1]);
                }
            }
        }
    }
}

/// Until the ids run out, no two connections are served under one id.
pub proof fn law_connection_ids_are_fresh(next_id: u64, outcomes: Seq<AcceptOutcome>)
    requires
        next_id + outcomes.len() <= u64::MAX,
    ensures
        served(next_id, outcomes).no_duplicates(),
{
    lemma_served_are_new(next_id, outcomes);
}

/// A connection that could be prepared is served under the next free id, one
/// that could not is dropped, and without one the accepting stops. Each accepted
/// connection uses up exactly one id.
pub proof fn law_prepared_connections_are_served(next_id: u64, outcome: AcceptOutcome)
    ensures
        outcome == (AcceptOutcome::Accepted { prepared: true }) ==> step_for(next_id, outcome) == (
        AcceptStep::Serve { id: next_id }),
        outcome == (AcceptOutcome::Accepted { prepared: false }) ==> step_for(next_id, outcome)
            == AcceptStep::Skip,
        outcome is WouldBlock || outcome is Failed ==> step_for(next_id, outcome)
            == AcceptStep::Stop && id_after(next_id, outcome) == next_id,
        outcome is Accepted && next_id < u64::MAX ==> id_after(next_id, outcome) == next_id + 1,
        outcome is Accepted && next_id == u64::MAX ==> id_after(next_id, outcome) == u64::MAX,
{
}

/// A prepared connection is served under the next number, which is then used up; a
/// connection that could not be prepared uses one up too, and where there is none,
/// accepting stops.
pub proof fn law_connections_are_numbered(
    next_id: &mut u64,
    outcome: AcceptOutcome,
    step: AcceptStep,
)
    requires
        call_ensures(accept_step, (next_id, outcome), step) || call_ensures(
            accept_pending_client_connections,
            (next_id, outcome),
            step,
        ),
    ensures
        outcome == (AcceptOutcome::Accepted { prepared: true }) ==> step == (AcceptStep::Serve {
            id: *old(next_id),
        }),
        outcome == (AcceptOutcome::Accepted { prepared: false }) ==> step is Skip,
        outcome is Accepted && *old(next_id) < u64::MAX ==> *final(next_id) == *old(next_id) + 1,
        !(outcome is Accepted) ==> step is Stop && *final(next_id) == *old(next_id),
{
}

} // verus!
