use crystal_server::trade::{TradeError, TradeManager};

#[test]
fn request_accept_full_flow() {
    let mut mgr = TradeManager::new();
    mgr.request("A", "B");
    assert!(mgr.accept("B").is_ok());
    assert!(mgr.in_trade("A") && mgr.in_trade("B"));
    mgr.add_gold("A", 100).unwrap();
    mgr.add_item("A", 11).unwrap();
    mgr.add_item("B", 22).unwrap();
    assert!(mgr.complete("A").unwrap().is_none());
    mgr.confirm("A").unwrap();
    assert!(mgr.complete("A").unwrap().is_none());
    mgr.confirm("B").unwrap();
    let settle = mgr.complete("A").unwrap().expect("completed");
    assert_eq!(settle.a_items_to_b, vec![11]);
    assert_eq!(settle.b_items_to_a, vec![22]);
    assert_eq!(settle.a_gold_to_b, 100);
    assert_eq!(settle.b_gold_to_a, 0);
    assert!(!mgr.in_trade("A") && !mgr.in_trade("B"));
}

#[test]
fn accept_without_invite_fails() {
    let mut mgr = TradeManager::new();
    assert_eq!(mgr.accept("X"), Err(TradeError::NoPendingInvite));
}

#[test]
fn cancel_removes_trade() {
    let mut mgr = TradeManager::new();
    mgr.request("A", "B");
    mgr.accept("B").unwrap();
    assert!(mgr.cancel("A"));
    assert!(!mgr.in_trade("B"));
    assert!(!mgr.cancel("A"));
}

#[test]
fn locked_side_cannot_add_in_place_but_can_confirm() {
    let mut mgr = TradeManager::new();
    mgr.request("A", "B");
    mgr.accept("B").unwrap();
    mgr.confirm("A").unwrap();
    mgr.add_item("A", 99).unwrap();
    mgr.confirm("A").unwrap();
    mgr.confirm("B").unwrap();
    let s = mgr.complete("B").unwrap().unwrap();
    assert_eq!(s.a_items_to_b, vec![99]);
}

#[test]
fn self_request_and_outsiders() {
    let mut mgr = TradeManager::new();
    mgr.request("A", "A");
    assert_eq!(mgr.accept("A"), Err(TradeError::NoPendingInvite));
    assert_eq!(mgr.add_gold("Z", 1), Err(TradeError::NotInTrade));
    assert_eq!(mgr.add_item("Z", 1), Err(TradeError::NotInTrade));
    assert_eq!(mgr.confirm("Z"), Err(TradeError::NotInTrade));
    assert_eq!(mgr.complete("Z").unwrap_err(), TradeError::NotInTrade);
    mgr.request("A", "B");
    mgr.accept("B").unwrap();
    mgr.add_gold("B", 5).unwrap();
    mgr.add_gold("B", 7).unwrap();
    mgr.confirm("A").unwrap();
    mgr.confirm("B").unwrap();
    let s = mgr.complete("A").unwrap().unwrap();
    assert_eq!((s.a.as_str(), s.b.as_str()), ("A", "B"));
    assert_eq!(s.b_gold_to_a, 12);
}

#[test]
fn partner_of_names_the_other_side() {
    let mut t = TradeManager::new();
    assert_eq!(t.partner_of("甲"), None);
    t.request("甲", "乙");
    assert_eq!(t.partner_of("甲"), None);
    t.accept("乙").unwrap();
    assert_eq!(t.partner_of("甲").as_deref(), Some("乙"));
    assert_eq!(t.partner_of("乙").as_deref(), Some("甲"));
    assert!(t.cancel("乙"));
    assert_eq!(t.partner_of("甲"), None);
}

#[test]
fn reject_and_side_gold() {
    let mut t = TradeManager::new();
    assert_eq!(t.reject("乙"), None);
    t.request("甲", "乙");
    assert_eq!(t.reject("乙").as_deref(), Some("甲"));
    assert!(t.accept("乙").is_err());
    t.request("甲", "乙");
    t.accept("乙").unwrap();
    assert_eq!(t.side_gold("甲"), 0);
    t.add_gold("甲", 30).unwrap();
    t.add_gold("乙", 5).unwrap();
    assert_eq!(t.side_gold("甲"), 30);
    assert_eq!(t.side_gold("乙"), 5);
    assert_eq!(t.side_gold("丙"), 0);
}
