use playwright_core::error::Error;
use playwright_core::pending::{PendingCall, PendingCalls};

#[test]
fn ids_are_given_from_one_upwards() {
    let mut calls = PendingCalls::new();
    assert_eq!(calls.len(), 0);
    assert!(!calls.is_closed());
    assert_eq!(calls.issue(true), Ok(1));
    assert_eq!(calls.issue(false), Ok(2));
    assert_eq!(calls.issue(true), Ok(3));
    assert_eq!(calls.len(), 3);
    assert!(calls.is_pending(1));
    assert!(calls.is_pending(3));
    assert!(!calls.is_pending(0));
    assert!(!calls.is_pending(4));
}

#[test]
fn responses_are_correlated_by_id_in_any_order() {
    let mut calls = PendingCalls::new();
    assert_eq!(calls.issue(true), Ok(1));
    assert_eq!(calls.issue(false), Ok(2));
    assert_eq!(calls.settle(2), Some(PendingCall { id: 2, wants_result: false }));
    assert!(calls.is_pending(1));
    assert!(!calls.is_pending(2));
    assert_eq!(calls.settle(1), Some(PendingCall { id: 1, wants_result: true }));
    assert_eq!(calls.len(), 0);
}

#[test]
fn a_call_is_settled_once() {
    let mut calls = PendingCalls::new();
    assert_eq!(calls.issue(true), Ok(1));
    assert_eq!(calls.settle(1), Some(PendingCall { id: 1, wants_result: true }));
    assert_eq!(calls.settle(1), None);
    assert_eq!(calls.settle(9), None);
    assert_eq!(calls.issue(true), Ok(2));
    assert_eq!(calls.settle(1), None);
    assert!(calls.is_pending(2));
}

#[test]
fn closing_fails_every_pending_call_once() {
    let mut calls = PendingCalls::new();
    for _ in 0..4 {
        calls.issue(true).unwrap();
    }
    assert_eq!(calls.settle(2), Some(PendingCall { id: 2, wants_result: true }));
    assert_eq!(calls.close(), vec![1, 3, 4]);
    assert!(calls.is_closed());
    assert_eq!(calls.len(), 0);
    assert_eq!(calls.close(), Vec::<u32>::new());
    assert_eq!(calls.settle(1), None);
    assert_eq!(calls.settle(3), None);
    assert_eq!(calls.issue(true), Err(Error::TransportClosed));
    assert_eq!(calls.len(), 0);
}

#[test]
fn closing_with_nothing_pending_hands_out_nothing() {
    let mut calls = PendingCalls::new();
    assert_eq!(calls.close(), Vec::<u32>::new());
    assert!(calls.is_closed());
}
