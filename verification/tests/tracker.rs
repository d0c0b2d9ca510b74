use caudices::body::BodyId;
use caudices::event::{ContactEvent, ContactStatus};
use caudices::tracker::ContactTracker;

const CHARACTER: BodyId = BodyId(0);
const BLOCK: BodyId = BodyId(1);
const OTHER: BodyId = BodyId(2);

#[test]
fn first_sighting_is_a_transition() {
    let mut tracker = ContactTracker::new();
    assert_eq!(tracker.len(), 0);
    assert!(tracker.has_transitioned(ContactEvent::Started(CHARACTER, BLOCK)));
    assert_eq!(tracker.status_of(CHARACTER, BLOCK), Some(ContactStatus::Started));
    assert_eq!(tracker.len(), 1);
}

#[test]
fn first_sighting_of_a_stop_is_a_transition_too() {
    let mut tracker = ContactTracker::new();
    assert!(tracker.has_transitioned(ContactEvent::Stopped(CHARACTER, BLOCK)));
    assert_eq!(tracker.status_of(CHARACTER, BLOCK), Some(ContactStatus::Stopped));
}

#[test]
fn overlap_over_many_ticks_is_reported_once() {
    let mut tracker = ContactTracker::new();
    let mut started = 0;
    for _ in 0..10 {
        if tracker.has_transitioned(ContactEvent::Started(CHARACTER, BLOCK)) {
            started += 1;
        }
    }
    assert_eq!(started, 1);
    let mut stopped = 0;
    for _ in 0..5 {
        if tracker.has_transitioned(ContactEvent::Stopped(CHARACTER, BLOCK)) {
            stopped += 1;
        }
    }
    assert_eq!(stopped, 1);
    assert_eq!(tracker.len(), 1);
    assert!(tracker.has_transitioned(ContactEvent::Started(CHARACTER, BLOCK)));
}

#[test]
fn pairs_are_tracked_apart() {
    let mut tracker = ContactTracker::new();
    assert!(tracker.has_transitioned(ContactEvent::Started(CHARACTER, BLOCK)));
    assert!(tracker.has_transitioned(ContactEvent::Started(CHARACTER, OTHER)));
    assert!(!tracker.has_transitioned(ContactEvent::Started(CHARACTER, BLOCK)));
    assert!(tracker.has_transitioned(ContactEvent::Stopped(CHARACTER, OTHER)));
    assert!(!tracker.has_transitioned(ContactEvent::Started(CHARACTER, BLOCK)));
    // The order within a pair matters: this is another pair.
    assert!(tracker.has_transitioned(ContactEvent::Started(BLOCK, CHARACTER)));
    assert_eq!(tracker.len(), 3);
    assert_eq!(tracker.status_of(CHARACTER, BLOCK), Some(ContactStatus::Started));
    assert_eq!(tracker.status_of(CHARACTER, OTHER), Some(ContactStatus::Stopped));
    assert_eq!(tracker.status_of(OTHER, CHARACTER), None);
}

#[test]
fn acknowledge_drops_stopped_records_only() {
    let mut tracker = ContactTracker::new();
    tracker.has_transitioned(ContactEvent::Started(CHARACTER, BLOCK));
    tracker.has_transitioned(ContactEvent::Stopped(CHARACTER, OTHER));
    assert!(!tracker.acknowledge(CHARACTER, BLOCK));
    assert_eq!(tracker.status_of(CHARACTER, BLOCK), Some(ContactStatus::Started));
    assert!(tracker.acknowledge(CHARACTER, OTHER));
    assert_eq!(tracker.status_of(CHARACTER, OTHER), None);
    assert!(!tracker.acknowledge(CHARACTER, OTHER));
    assert!(!tracker.acknowledge(BodyId(9), BodyId(9)));
    assert_eq!(tracker.len(), 1);
    // Once dropped, the next stop of the pair is news again.
    assert!(tracker.has_transitioned(ContactEvent::Stopped(CHARACTER, OTHER)));
}
