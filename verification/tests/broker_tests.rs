use opendeck::broker::{Router, SendOutcome};

#[test]
fn send_to_unbound_destination_is_queued_not_failed() {
    let mut r: Router<String> = Router::new();
    let dest = "plugin-a".to_string();
    assert_eq!(r.send(&dest, "f1".to_string()), SendOutcome::Queued);
    assert_eq!(r.send(&dest, "f2".to_string()), SendOutcome::Queued);
}

#[test]
fn handshake_flushes_queue_in_original_order() {
    let mut r: Router<String> = Router::new();
    let dest = "plugin-a".to_string();
    r.send(&dest, "f1".to_string());
    r.send(&dest, "f2".to_string());
    r.send(&dest, "f3".to_string());
    let flushed = r.bind(&dest);
    assert_eq!(flushed, vec!["f1".to_string(), "f2".to_string(), "f3".to_string()]);
}

#[test]
fn bound_destination_delivers_immediately() {
    let mut r: Router<String> = Router::new();
    let dest = "plugin-a".to_string();
    let flushed = r.bind(&dest);
    assert!(flushed.is_empty());
    assert_eq!(
        r.send(&dest, "now".to_string()),
        SendOutcome::Deliver("now".to_string())
    );
    let flushed = r.bind(&dest);
    assert!(flushed.is_empty());
}

#[test]
fn disconnect_queues_again_without_reordering_flushed_frames() {
    let mut r: Router<String> = Router::new();
    let dest = "plugin-a".to_string();
    r.send(&dest, "early".to_string());
    let first_flush = r.bind(&dest);
    assert_eq!(first_flush, vec!["early".to_string()]);
    r.unbind(&dest);
    assert_eq!(r.send(&dest, "late1".to_string()), SendOutcome::Queued);
    assert_eq!(r.send(&dest, "late2".to_string()), SendOutcome::Queued);
    let second_flush = r.bind(&dest);
    assert_eq!(second_flush, vec!["late1".to_string(), "late2".to_string()]);
}

#[test]
fn destinations_do_not_cross_deliver() {
    let mut r: Router<String> = Router::new();
    let a = "plugin-a".to_string();
    let b = "plugin-b".to_string();
    r.send(&a, "for-a".to_string());
    r.send(&b, "for-b".to_string());
    assert_eq!(r.bind(&b), vec!["for-b".to_string()]);
    assert_eq!(r.bind(&a), vec!["for-a".to_string()]);
}
