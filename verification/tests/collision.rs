//! Collision attribution: recovering logical IDs from contact events.

use steroids::registry::Registry;
use steroids::registry::unpack_user_data;

#[test]
fn tagged_pair_is_reported_exactly_once_per_event() {
    let r = Registry::new();
    assert_eq!(r.handle_contact_started(5, 9), Some((5, 9)));
    // Order-insensitive: the swapped event reports the same two IDs.
    assert_eq!(r.handle_contact_started(9, 5), Some((9, 5)));
}

#[test]
fn untagged_participant_drops_the_event_silently() {
    let r = Registry::new();
    assert_eq!(r.handle_contact_started(0, 9), None);
    assert_eq!(r.handle_contact_started(5, 0), None);
    assert_eq!(r.handle_contact_started(0, 0), None);
}

#[test]
fn user_data_unpacks_through_the_absent_sentinel() {
    assert_eq!(unpack_user_data(0), None);
    assert_eq!(unpack_user_data(7), Some(7));
    assert_eq!(unpack_user_data(u64::MAX), Some(u64::MAX));
}

#[test]
fn contact_ended_is_a_deliberate_noop() {
    let r = Registry::new();
    r.handle_contact_stopped(5, 9);
    r.handle_contact_stopped(0, 0);
}
