use herdr::server::federation_fault::{FirstCauseCell, TunnelExit};
use herdr::server::federation_lease::{Admission, FederationLease, Slot};

#[test]
fn fresh_lease_is_free_admitting_at_epoch_zero() {
    let lease = FederationLease::new();
    assert_eq!(lease.current_epoch(), 0);
    assert!(lease.admission_open);
}

#[test]
fn single_controller_second_acquire_is_busy() {
    let mut lease = FederationLease::new();
    assert_eq!(lease.try_acquire(0, 1), Admission::Accepted);
    assert_eq!(lease.try_acquire(0, 2), Admission::Busy);
}

#[test]
fn acquire_with_a_stale_epoch_is_rejected() {
    let mut lease = FederationLease::new();
    lease.begin_revocation();
    lease.reopen_admission();
    // A connection stamped at the old epoch 0 must not be admitted.
    assert_eq!(lease.try_acquire(0, 1), Admission::StaleEpoch);
    assert_eq!(lease.try_acquire(1, 1), Admission::Accepted);
}

#[test]
fn mount_requires_the_holding_reservation() {
    let mut lease = FederationLease::new();
    lease.try_acquire(0, 1);
    assert!(!lease.try_mount(0, 2), "non-holder cannot mount");
    assert!(lease.try_mount(0, 1), "holder mounts");
    assert!(lease.is_mounted_controller(0, 1));
    assert!(!lease.is_mounted_controller(0, 2));
}

#[test]
fn release_is_compare_and_clear() {
    let mut lease = FederationLease::new();
    lease.try_acquire(0, 1);
    lease.try_mount(0, 1);
    // A late end of stream from a different connection must not release the lease.
    assert!(!lease.release(0, 2));
    assert!(lease.is_mounted_controller(0, 1));
    // The exact holder releases.
    assert!(lease.release(0, 1));
    assert_eq!(lease.try_acquire(0, 3), Admission::Accepted);
}

#[test]
fn revocation_frees_the_slot_closes_admission_and_bumps_the_epoch() {
    let mut lease = FederationLease::new();
    lease.try_acquire(0, 7);
    lease.try_mount(0, 7);
    assert_eq!(lease.begin_revocation(), Some(7));
    assert_eq!(lease.current_epoch(), 1);
    // Admission is closed: even a current-epoch acquire is refused.
    assert_eq!(lease.try_acquire(1, 8), Admission::Closed);
    lease.reopen_admission();
    assert_eq!(lease.try_acquire(1, 8), Admission::Accepted);
}

#[test]
fn a_queued_stale_command_cannot_resurrect_authority_after_rollback() {
    let mut lease = FederationLease::new();
    lease.try_acquire(0, 1);
    lease.begin_revocation();
    lease.reopen_admission();
    assert!(!lease.try_mount(0, 1), "stale mount is inert");
    assert_eq!(lease.try_acquire(0, 1), Admission::StaleEpoch);
    assert!(!lease.is_mounted_controller(0, 1));
}

#[test]
fn revocation_of_a_free_lease_returns_no_holder() {
    let mut lease = FederationLease::new();
    assert_eq!(lease.begin_revocation(), None);
    assert_eq!(lease.current_epoch(), 1);
}

#[test]
fn a_default_lease_is_a_fresh_one() {
    let lease = FederationLease::default();
    assert_eq!(lease, FederationLease::new());
    assert_eq!(lease.slot, Slot::Free);
    assert!(!lease.has_mounted_controller());
}

#[test]
fn a_reservation_alone_is_no_mounted_controller() {
    let mut lease = FederationLease::new();
    lease.try_acquire(0, 1);
    assert!(!lease.has_mounted_controller());
    assert!(!lease.is_mounted_controller(0, 1));
    lease.try_mount(0, 1);
    assert!(lease.has_mounted_controller());
}

#[test]
fn fresh_cell_has_no_cause() {
    let cell = FirstCauseCell::new();
    assert!(!cell.is_set());
    assert_eq!(cell.get(), None);
}

#[test]
fn the_first_cause_wins_and_later_ones_are_ignored() {
    let mut cell = FirstCauseCell::new();
    assert!(cell.set(TunnelExit::Lagged), "first set wins");
    assert!(!cell.set(TunnelExit::PeerClosed), "a secondary EOF must not win");
    assert!(!cell.set(TunnelExit::WriterFailed));
    // The initiating cause is preserved, not the secondary shutdown noise.
    assert_eq!(cell.get(), Some(TunnelExit::Lagged));
}

#[test]
fn peer_closed_is_clean_faults_are_not() {
    assert!(TunnelExit::PeerClosed.is_clean());
    assert!(!TunnelExit::Lagged.is_clean());
    assert!(!TunnelExit::EgressOverflow.is_clean());
}
