use musedesk::approvals::Approvals;

#[test]
fn a_decision_is_delivered_once() {
    let mut pending: Approvals<u32> = Approvals::new();
    pending.insert("a".to_string(), 1);
    pending.insert("b".to_string(), 2);
    pending.insert("c".to_string(), 3);
    assert_eq!(pending.resolve("b"), Ok(2));
    assert_eq!(pending.resolve("b"), Err("unknown approval id".to_string()));
    assert_eq!(pending.resolve("a"), Ok(1));
    assert_eq!(pending.resolve("c"), Ok(3));
    assert_eq!(pending.resolve("c"), Err("unknown approval id".to_string()));
}

#[test]
fn an_approval_that_is_registered_again_is_replaced() {
    let mut pending: Approvals<u32> = Approvals::new();
    assert_eq!(pending.resolve("a"), Err("unknown approval id".to_string()));
    pending.insert("a".to_string(), 1);
    pending.insert("a".to_string(), 2);
    assert_eq!(pending.resolve("a"), Ok(2));
    assert!(pending.resolve("a").is_err());
}
