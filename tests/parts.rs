use scripty::admission::{Admission, AdmissionSet};
use scripty::registry::ParticipantRegistry;

#[test]
fn registry_keeps_one_source_per_speaker() {
    let mut r = ParticipantRegistry::new();
    assert_eq!(r.register(1, 100), None);
    assert_eq!(r.register(2, 200), None);
    assert_eq!(r.lookup(1), Some(100));
    assert_eq!(r.reverse_lookup(200), Some(2));
    // the same speaker on a new source drops the old one
    assert_eq!(r.register(3, 100), Some(1));
    assert_eq!(r.lookup(1), None);
    assert_eq!(r.reverse_lookup(100), Some(3));
    // overwriting a source with another speaker
    assert_eq!(r.register(3, 300), None);
    assert_eq!(r.reverse_lookup(100), None);
    assert_eq!(r.lookup(3), Some(300));
    // registering again is idempotent
    assert_eq!(r.register(3, 300), None);
    assert_eq!(r.unregister(3), Some(300));
    assert_eq!(r.unregister(3), None);
    assert_eq!(r.lookup(2), Some(200));
}

#[test]
fn admission_offer_and_release() {
    let mut a = AdmissionSet::new(2);
    assert_eq!(a.offer(9), Admission::Admitted);
    assert_eq!(a.offer(9), Admission::Admitted);
    assert_eq!(a.offer(4), Admission::Admitted);
    assert_eq!(a.offer(8), Admission::Queued);
    assert_eq!(a.offer(6), Admission::Queued);
    assert_eq!(a.offer(7), Admission::Queued);
    assert_eq!(a.offer(6), Admission::Queued);
    assert!(a.is_active(9) && a.is_active(4));
    assert_eq!(a.release(9), Some(6));
    assert!(a.is_active(6) && !a.is_queued(6));
    assert_eq!(a.release(8), None);
    assert!(!a.is_queued(8));
    assert_eq!(a.release(4), Some(7));
    assert_eq!(a.release(12345), None);
    assert_eq!(a.release(7), None);
    assert!(a.is_active(6));
    assert!(!a.is_active(7));
}

#[test]
fn admission_with_zero_bound_admits_nobody() {
    let mut a = AdmissionSet::new(0);
    assert_eq!(a.offer(1), Admission::Queued);
    assert_eq!(a.release(2), None);
    assert!(a.is_queued(1));
}
