use fs_kitty::channel::{Endpoint, Route, ACCEPTOR_START, DIALER_START, STRIDE};

#[test]
fn dialer_issues_even_identifiers_from_two() {
    let mut e = Endpoint::dialer();
    assert_eq!(e.begin_call(), Some(2));
    assert_eq!(e.begin_call(), Some(4));
    assert_eq!(e.begin_call(), Some(6));
    assert_eq!(e.pending_len(), 3);
}

#[test]
fn acceptor_issues_odd_identifiers_from_one() {
    let mut e = Endpoint::acceptor();
    assert_eq!(e.begin_call(), Some(1));
    assert_eq!(e.begin_call(), Some(3));
    assert_eq!(e.begin_call(), Some(5));
}

#[test]
fn numbering_constants() {
    assert_eq!(STRIDE, 2);
    assert_eq!(DIALER_START, 2);
    assert_eq!(ACCEPTOR_START, 1);
}

#[test]
fn endpoints_never_issue_the_same_identifier() {
    let mut dialer = Endpoint::dialer();
    let mut acceptor = Endpoint::acceptor();
    let mut issued: Vec<u32> = Vec::new();
    for _ in 0..50 {
        issued.push(dialer.begin_call().unwrap());
        issued.push(acceptor.begin_call().unwrap());
    }
    let mut sorted = issued.clone();
    sorted.sort_unstable();
    sorted.dedup();
    assert_eq!(sorted.len(), issued.len());
}

#[test]
fn inbound_of_the_other_class_is_a_request() {
    let mut dialer = Endpoint::dialer();
    dialer.begin_call();
    assert_eq!(dialer.on_inbound(1), Route::Dispatch);
    assert_eq!(dialer.on_inbound(3), Route::Dispatch);
    assert_eq!(dialer.pending_len(), 1);
    let mut acceptor = Endpoint::acceptor();
    assert_eq!(acceptor.on_inbound(2), Route::Dispatch);
    assert_eq!(acceptor.on_inbound(0), Route::Dispatch);
}

#[test]
fn response_is_delivered_once_then_dropped() {
    let mut e = Endpoint::dialer();
    let a = e.begin_call().unwrap();
    let b = e.begin_call().unwrap();
    assert!(e.is_pending(a));
    assert_eq!(e.on_inbound(a), Route::Deliver);
    assert!(!e.is_pending(a));
    assert!(e.is_pending(b));
    assert_eq!(e.on_inbound(a), Route::Drop);
    assert_eq!(e.on_inbound(b), Route::Deliver);
    assert_eq!(e.pending_len(), 0);
}

#[test]
fn response_without_a_waiter_is_dropped() {
    let mut e = Endpoint::dialer();
    // never issued, own class
    assert_eq!(e.on_inbound(8), Route::Drop);
    assert_eq!(e.on_inbound(0), Route::Drop);
    assert_eq!(e.pending_len(), 0);
}

#[test]
fn close_releases_every_waiter() {
    let mut e = Endpoint::acceptor();
    e.begin_call();
    e.begin_call();
    e.begin_call();
    assert_eq!(e.on_inbound(3), Route::Deliver);
    let released = e.on_close();
    assert_eq!(released, vec![1, 5]);
    assert_eq!(e.pending_len(), 0);
    assert_eq!(e.on_inbound(1), Route::Drop);
    // Numbering goes on where it stood.
    assert_eq!(e.begin_call(), Some(7));
}

#[test]
fn class_runs_out_at_the_top() {
    let mut odd = Endpoint::with_channel_start(u32::MAX - 2);
    assert_eq!(odd.begin_call(), Some(u32::MAX - 2));
    assert_eq!(odd.begin_call(), Some(u32::MAX));
    assert_eq!(odd.begin_call(), None);
    assert_eq!(odd.begin_call(), None);
    assert_eq!(odd.pending_len(), 2);

    let mut even = Endpoint::with_channel_start(u32::MAX - 1);
    assert_eq!(even.begin_call(), Some(u32::MAX - 1));
    assert_eq!(even.begin_call(), None);
    assert!(even.is_own(0));
    assert!(!even.is_own(u32::MAX));
}

#[test]
fn custom_start_sets_the_class() {
    let mut e = Endpoint::with_channel_start(10);
    assert!(e.is_own(4));
    assert!(!e.is_own(11));
    assert_eq!(e.begin_call(), Some(10));
    assert_eq!(e.begin_call(), Some(12));
}
