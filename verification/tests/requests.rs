use legion::requests::RequestRegistry;

#[test]
fn registers_each_request_id_once() {
    let mut downloads = RequestRegistry::new();
    assert_eq!(downloads.register("Download", "r1", 1), Ok(()));
    assert_eq!(
        downloads.register("Download", "r1", 2),
        Err("Download request r1 is already active".to_owned())
    );
    assert_eq!(downloads.get("r1"), Some(&1));
    assert!(downloads.contains("r1"));
    assert_eq!(downloads.remove("r1"), Some(1));
    assert_eq!(downloads.get("r1"), None);
    assert_eq!(downloads.register("Download", "r1", 3), Ok(()));
    assert_eq!(downloads.get("r1"), Some(&3));
}

#[test]
fn answers_pending_approvals_once() {
    let mut pending = RequestRegistry::new();
    pending.register("Approval", "a", "sender").expect("new id");
    pending.register("Approval", "b", "other").expect("new id");
    assert_eq!(pending.take_pending("a"), Ok("sender"));
    assert_eq!(
        pending.take_pending("a"),
        Err("No pending approval found for a".to_owned())
    );
    assert_eq!(pending.get("b"), Some(&"other"));
}
