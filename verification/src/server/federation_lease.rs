//! Single-controller admission with linearized revocation.
//!
//! One connection at a time controls the server. Every accepted connection is
//! stamped with the admission epoch current at its registration. Revocation
//! closes admission, bumps the epoch and frees the slot; afterwards no command
//! stamped with an older epoch can take or use authority, whatever else runs.

use vstd::prelude::*;

verus! {

/// Identifies one accepted connection; never reused within a server process.
pub type ConnId = u64;

/// Monotonic admission epoch, bumped by every revocation.
pub type AcceptEpoch = u64;

/// Which phase of ownership a held lease is in.
#[derive(Debug, Clone, Copy, PartialEq, Eq, Structural)]
pub enum Phase {
    /// Admitted, not yet mounted.
    Reserved,
    /// Mounted; may issue mutating commands.
    Mounted,
}

#[derive(Debug, Clone, Copy, PartialEq, Eq, Structural)]
pub enum Slot {
    Free,
    Held { phase: Phase, epoch: AcceptEpoch, connid: ConnId },
}

/// Outcome of an admission attempt.
#[derive(Debug, Clone, Copy, PartialEq, Eq, Structural)]
pub enum Admission {
    /// Reserved the single-controller slot.
    Accepted,
    /// Another connection already holds the slot.
    Busy,
    /// The connection's epoch was superseded by a revocation.
    StaleEpoch,
    /// A revocation is in progress.
    Closed,
}

/// The single-controller lease of one live server.
#[derive(Debug, Clone, Copy, PartialEq, Eq, Structural)]
pub struct FederationLease {
    pub slot: Slot,
    pub epoch: AcceptEpoch,
    pub admission_open: bool,
}

/// One transition of the lease, as a value.
pub enum LeaseStep {
    Acquire { epoch: AcceptEpoch, connid: ConnId },
    Mount { epoch: AcceptEpoch, connid: ConnId },
    Release { epoch: AcceptEpoch, connid: ConnId },
    Revoke,
    Reopen,
}

impl FederationLease {
    /// A held slot always carries the lease's own epoch.
    pub open spec fn wf(self) -> bool {
        self.slot matches Slot::Held { epoch, .. } ==> epoch == self.epoch
    }

    /// The connection that holds the slot, in whichever phase.
    pub open spec fn holder(self) -> Option<(AcceptEpoch, ConnId)> {
        match self.slot {
            Slot::Free => None,
            Slot::Held { epoch, connid, .. } => Some((epoch, connid)),
        }
    }

    pub open spec fn is_controller(self, epoch: AcceptEpoch, connid: ConnId) -> bool {
        self.slot == (Slot::Held { phase: Phase::Mounted, epoch, connid })
    }

    /// What an admission attempt by `(epoch, _)` is answered.
    pub open spec fn admission(self, epoch: AcceptEpoch) -> Admission {
        if !self.admission_open {
            Admission::Closed
        } else if epoch != self.epoch {
            Admission::StaleEpoch
        } else if self.slot is Held {
            Admission::Busy
        } else {
            Admission::Accepted
        }
    }

    /// Whether `(epoch, connid)` may mount: it holds the current reservation.
    pub open spec fn mountable(self, epoch: AcceptEpoch, connid: ConnId) -> bool {
        epoch == self.epoch && self.slot == (Slot::Held { phase: Phase::Reserved, epoch, connid })
    }

    /// The lease after one transition.
    pub open spec fn after(self, step: LeaseStep) -> FederationLease {
        match step {
            LeaseStep::Acquire { epoch, connid } => if self.admission(epoch) is Accepted {
                FederationLease {
                    slot: Slot::Held { phase: Phase::Reserved, epoch, connid },
                    ..self
                }
            } else {
                self
            },
            LeaseStep::Mount { epoch, connid } => if self.mountable(epoch, connid) {
                FederationLease {
                    slot: Slot::Held { phase: Phase::Mounted, epoch, connid },
                    ..self
                }
            } else {
                self
            },
            LeaseStep::Release { epoch, connid } => if self.holder() == Some((epoch, connid)) {
                FederationLease { slot: Slot::Free, ..self }
            } else {
                self
            },
            LeaseStep::Revoke => FederationLease {
                slot: Slot::Free,
                epoch: (self.epoch + 1) as u64,
                admission_open: false,
            },
            LeaseStep::Reopen => FederationLease { admission_open: true, ..self },
        }
    }

    /// The lease after a whole history of transitions.
    pub open spec fn after_all(self, steps: Seq<LeaseStep>) -> FederationLease
        decreases steps.len(),
    {
        if steps.len() == 0 {
            self
        } else {
            self.after_all(steps.drop_last()).after(steps.last())
        }
    }

    pub fn new() -> (lease: FederationLease)
        ensures
            lease.slot is Free,
            lease.epoch == 0,
            lease.admission_open,
            lease.wf(),
    {
        FederationLease { slot: Slot::Free, epoch: 0, admission_open: true }
    }

    /// The epoch newly accepted connections are stamped with.
    pub fn current_epoch(&self) -> (epoch: AcceptEpoch)
        ensures
            epoch == self.epoch,
    {
        self.epoch
    }

    /// Attempt to reserve the slot for a connection registered at `epoch`. A
    /// closed admission or a stale epoch is refused before the busy check.
    pub fn try_acquire(&mut self, epoch: AcceptEpoch, connid: ConnId) -> (outcome: Admission)
        ensures
            outcome == old(self).admission(epoch),
            *final(self) == old(self).after(LeaseStep::Acquire { epoch, connid }),
            old(self).wf() ==> final(self).wf(),
    {
        if !self.admission_open {
            return Admission::Closed;
        }
        if epoch != self.epoch {
            return Admission::StaleEpoch;
        }
        match self.slot {
            Slot::Free => {
                self.slot = Slot::Held { phase: Phase::Reserved, epoch, connid };
                Admission::Accepted
            },
            Slot::Held { .. } => Admission::Busy,
        }
    }

    /// Promote the caller's reservation. Succeeds only for the connection that
    /// holds the reservation at the current epoch.
    pub fn try_mount(&mut self, epoch: AcceptEpoch, connid: ConnId) -> (mounted: bool)
        ensures
            mounted == old(self).mountable(epoch, connid),
            *final(self) == old(self).after(LeaseStep::Mount { epoch, connid }),
            mounted ==> final(self).is_controller(epoch, connid),
            old(self).wf() ==> final(self).wf(),
    {
        if epoch != self.epoch {
            return false;
        }
        match self.slot {
            Slot::Held { phase: Phase::Reserved, epoch: held_epoch, connid: held_connid } => {
                if held_epoch == epoch && held_connid == connid {
                    self.slot = Slot::Held { phase: Phase::Mounted, epoch, connid };
                    true
                } else {
                    false
                }
            },
            _ => false,
        }
    }

    /// Whether `(epoch, connid)` is the mounted controller: the authorization
    /// check of every mutating command.
    pub fn is_mounted_controller(&self, epoch: AcceptEpoch, connid: ConnId) -> (mounted: bool)
        ensures
            mounted == self.is_controller(epoch, connid),
    {
        match self.slot {
            Slot::Held { phase: Phase::Mounted, epoch: held_epoch, connid: held_connid } => {
                held_epoch == epoch && held_connid == connid
            },
            _ => false,
        }
    }

    /// Whether any connection holds a mounted lease.
    pub fn has_mounted_controller(&self) -> (mounted: bool)
        ensures
            mounted == exists|epoch: AcceptEpoch, connid: ConnId|
                self.is_controller(epoch, connid),
            mounted == (self.slot matches Slot::Held { phase: Phase::Mounted, .. }),
    {
        match self.slot {
            Slot::Held { phase: Phase::Mounted, epoch, connid } => {
                assert(self.is_controller(epoch, connid));
                true
            },
            _ => false,
        }
    }

    /// Compare-and-clear release: frees the slot only if exactly `(epoch,
    /// connid)` still holds it.
    pub fn release(&mut self, epoch: AcceptEpoch, connid: ConnId) -> (released: bool)
        ensures
            released == (old(self).holder() == Some((epoch, connid))),
            *final(self) == old(self).after(LeaseStep::Release { epoch, connid }),
            old(self).wf() ==> final(self).wf(),
    {
        match self.slot {
            Slot::Held { epoch: held_epoch, connid: held_connid, .. } => {
                if held_epoch == epoch && held_connid == connid {
                    self.slot = Slot::Free;
                    true
                } else {
                    false
                }
            },
            _ => false,
        }
    }

    /// Close admission, bump the epoch and free the slot. Returns the revoked
    /// holder's connection, so that the caller can tear it down.
    pub fn begin_revocation(&mut self) -> (revoked: Option<ConnId>)
        requires
            old(self).epoch < u64::MAX,
        ensures
            revoked == (match old(self).holder() {
                Some(holder) => Some(holder.1),
                None => None,
            }),
            *final(self) == old(self).after(LeaseStep::Revoke),
            final(self).wf(),
    {
        self.admission_open = false;
        self.epoch = self.epoch + 1;
        let revoked = match self.slot {
            Slot::Held { connid, .. } => Some(connid),
            Slot::Free => None,
        };
        self.slot = Slot::Free;
        revoked
    }

    /// Reopen admission. The epoch keeps its bumped value.
    pub fn reopen_admission(&mut self)
        ensures
            *final(self) == old(self).after(LeaseStep::Reopen),
            old(self).wf() ==> final(self).wf(),
    {
        self.admission_open = true;
    }
}

impl Default for FederationLease {
    fn default() -> (lease: Self)
        ensures
            lease == (FederationLease { slot: Slot::Free, epoch: 0, admission_open: true }),
    {
        FederationLease::new()
    }
}

/// Over any history the epoch never goes back, and a held slot always carries
/// the current epoch.
pub proof fn law_epoch_is_monotonic(lease: FederationLease, steps: Seq<LeaseStep>)
    requires
        lease.wf(),
        lease.epoch + steps.len() <= u64::MAX,
    ensures
        lease.after_all(steps).wf(),
        lease.epoch <= lease.after_all(steps).epoch <= lease.epoch + steps.len(),
    decreases steps.len(),
{
    if steps.len() > 0 {
        law_epoch_is_monotonic(lease, steps.drop_last());
    }
}

/// Once a revocation has run, no history of further commands gives authority
/// back to a connection stamped before it: it is never the controller, its
/// acquire is refused without a change, and so is its mount.
pub proof fn law_revoked_epoch_never_regains_authority(
    lease: FederationLease,
    steps: Seq<LeaseStep>,
    epoch: AcceptEpoch,
    connid: ConnId,
)
    requires
        lease.wf(),
        epoch <= lease.epoch,
        lease.epoch + 1 + steps.len() <= u64::MAX,
    ensures
        ({
            let later = lease.after(LeaseStep::Revoke).after_all(steps);
            &&& !later.is_controller(epoch, connid)
            &&& later.holder() != Some((epoch, connid))
            &&& later.admission(epoch) is StaleEpoch || later.admission(epoch) is Closed
            &&& later.after(LeaseStep::Acquire { epoch, connid }) == later
            &&& later.after(LeaseStep::Mount { epoch, connid }) == later
            &&& later.after(LeaseStep::Release { epoch, connid }) == later
        }),
{
    law_epoch_is_monotonic(lease.after(LeaseStep::Revoke), steps);
}

/// At most one connection is the controller, and while one is, every acquire is
/// refused.
pub proof fn law_single_controller(
    lease: FederationLease,
    epoch: AcceptEpoch,
    connid: ConnId,
    other_epoch: AcceptEpoch,
    other_connid: ConnId,
)
    requires
        lease.is_controller(epoch, connid),
    ensures
        lease.is_controller(other_epoch, other_connid) ==> other_epoch == epoch && other_connid
            == connid,
        !(lease.admission(other_epoch) is Accepted),
        lease.after(LeaseStep::Acquire { epoch: other_epoch, connid: other_connid }) == lease,
{
}

/// A release by any connection but the exact holder changes nothing.
pub proof fn law_late_release_is_inert(
    lease: FederationLease,
    epoch: AcceptEpoch,
    connid: ConnId,
)
    requires
        lease.holder() != Some((epoch, connid)),
    ensures
        lease.after(LeaseStep::Release { epoch, connid }) == lease,
{
}

/// A full session on a free, open lease: acquire, mount and release give the
/// slot back as it was.
pub proof fn law_session_returns_the_slot(lease: FederationLease, connid: ConnId)
    requires
        lease.slot is Free,
        lease.admission_open,
    ensures
        lease.after(LeaseStep::Acquire { epoch: lease.epoch, connid }).after(
            LeaseStep::Mount { epoch: lease.epoch, connid },
        ).is_controller(lease.epoch, connid),
        lease.after(LeaseStep::Acquire { epoch: lease.epoch, connid }).after(
            LeaseStep::Mount { epoch: lease.epoch, connid },
        ).after(LeaseStep::Release { epoch: lease.epoch, connid }) == lease,
{
}

/// A connection of the current epoch is admitted to a free slot while admission is
/// open, and reserves it; otherwise it is told why not, and nothing changes.
pub proof fn law_a_free_slot_is_reserved(
    lease: &mut FederationLease,
    epoch: AcceptEpoch,
    connid: ConnId,
    outcome: Admission,
)
    requires
        call_ensures(FederationLease::try_acquire, (lease, epoch, connid), outcome),
    ensures
        ({
            let open = old(lease).admission_open;
            let current = epoch == old(lease).epoch;
            let free = old(lease).slot is Free;
            &&& open && current && free ==> outcome is Accepted && *final(lease) == (
            FederationLease {
                slot: Slot::Held { phase: Phase::Reserved, epoch, connid },
                epoch: old(lease).epoch,
                admission_open: true,
            })
            &&& !(open && current && free) ==> *final(lease) == *old(lease)
            &&& !open ==> outcome is Closed
            &&& open && !current ==> outcome is StaleEpoch
            &&& open && current && !free ==> outcome is Busy
        }),
{
}

/// The reservation of the current epoch becomes the mounted controller, and
/// nothing else does.
pub proof fn law_a_reservation_is_mounted(
    lease: &mut FederationLease,
    epoch: AcceptEpoch,
    connid: ConnId,
    mounted: bool,
)
    requires
        call_ensures(FederationLease::try_mount, (lease, epoch, connid), mounted),
    ensures
        mounted <==> epoch == old(lease).epoch && old(lease).slot == (Slot::Held {
            phase: Phase::Reserved,
            epoch,
            connid,
        }),
        mounted ==> *final(lease) == (FederationLease {
            slot: Slot::Held { phase: Phase::Mounted, epoch, connid },
            epoch: old(lease).epoch,
            admission_open: old(lease).admission_open,
        }),
        !mounted ==> *final(lease) == *old(lease),
{
}

/// Only who holds the slot frees it, whatever it came to; the epoch stays.
pub proof fn law_only_the_holder_frees_the_slot(
    lease: &mut FederationLease,
    epoch: AcceptEpoch,
    connid: ConnId,
    released: bool,
)
    requires
        call_ensures(FederationLease::release, (lease, epoch, connid), released),
    ensures
        released <==> old(lease).slot is Held && old(lease).slot->epoch == epoch
            && old(lease).slot->connid == connid,
        released ==> final(lease).slot is Free && final(lease).epoch == old(lease).epoch
            && final(lease).admission_open == old(lease).admission_open,
        !released ==> *final(lease) == *old(lease),
{
}

/// A revocation names who held the slot, frees it, begins the next epoch and
/// admits nobody until admission is opened again, which changes nothing else.
pub proof fn law_a_revocation_begins_an_epoch(
    lease: &mut FederationLease,
    revoked: Option<ConnId>,
    reopened: &mut FederationLease,
)
    ensures
        old(lease).epoch < u64::MAX && call_ensures(
            FederationLease::begin_revocation,
            (lease,),
            revoked,
        ) ==> {
            &&& final(lease).slot is Free
            &&& final(lease).epoch == old(lease).epoch + 1
            &&& !final(lease).admission_open
            &&& old(lease).slot is Free ==> revoked is None
            &&& old(lease).slot is Held ==> revoked == Some(old(lease).slot->connid)
        },
        call_ensures(FederationLease::reopen_admission, (reopened,), ()) ==> {
            &&& final(reopened).admission_open
            &&& final(reopened).slot == old(reopened).slot
            &&& final(reopened).epoch == old(reopened).epoch
        },
{
}

/// The mounted controller is the connection that holds the slot and was mounted; a
/// reservation is none.
pub proof fn law_the_controller_is_mounted(
    lease: FederationLease,
    epoch: AcceptEpoch,
    connid: ConnId,
    mounted: bool,
)
    ensures
        call_ensures(FederationLease::is_mounted_controller, (&lease, epoch, connid), mounted) ==> (
        mounted <==> lease.slot is Held && lease.slot->phase is Mounted && lease.slot->epoch
            == epoch && lease.slot->connid == connid),
        call_ensures(FederationLease::has_mounted_controller, (&lease,), mounted) ==> (mounted
            <==> lease.slot is Held && lease.slot->phase is Mounted),
{
}

} // verus!
