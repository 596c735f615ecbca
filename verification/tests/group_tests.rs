use crystal_server::group::{GroupError, GroupManager};

#[test]
fn create_invite_accept_flow() {
    let mut mgr = GroupManager::new();
    let gid = mgr.create("A");
    assert!(mgr.group_of("A").is_some());
    assert!(mgr.invite("A", "B").is_ok());
    assert_eq!(mgr.group_of("B"), None, "not in the group before accepting");
    let gid2 = mgr.create("C");
    let _ = gid2;
    let members = mgr.accept("B").unwrap();
    assert_eq!(members, vec!["A".to_string(), "B".to_string()]);
    assert_eq!(mgr.group_of("B"), Some(gid));
    assert_eq!(mgr.invite("A", "B"), Err(GroupError::AlreadyInGroup));
}

#[test]
fn leader_leave_disbands_group() {
    let mut mgr = GroupManager::new();
    let gid = mgr.create("A");
    mgr.invite("A", "B").unwrap();
    mgr.accept("B").unwrap();
    let members = mgr.leave("A").unwrap();
    assert!(members.is_empty());
    assert!(mgr.group_of("B").is_none(), "B leaves a disbanded group too");
    assert_eq!(mgr.group_of("A"), None);
    let _ = gid;
}

#[test]
fn member_leave_keeps_group() {
    let mut mgr = GroupManager::new();
    mgr.create("A");
    mgr.invite("A", "B").unwrap();
    mgr.accept("B").unwrap();
    let members = mgr.leave("B").unwrap();
    assert_eq!(members, vec!["A".to_string()]);
    assert!(mgr.group_of("B").is_none());
    assert!(mgr.group_of("A").is_some());
}

#[test]
fn errors_for_bad_cases() {
    let mut mgr = GroupManager::new();
    mgr.create("A");
    assert_eq!(mgr.invite("X", "B"), Err(GroupError::NotMember));
    assert_eq!(mgr.accept("B"), Err(GroupError::NoInvite));
    assert!(!mgr.decline("nobody"));
}

#[test]
fn group_ids_are_fresh_and_members_listed() {
    let mut mgr = GroupManager::new();
    let g1 = mgr.create("A");
    let g2 = mgr.create("B");
    assert_ne!(g1, g2);
    assert_eq!(mgr.members(g1), vec!["A".to_string()]);
    assert!(mgr.members(9999).is_empty());
}

#[test]
fn decline_removes_invite() {
    let mut mgr = GroupManager::new();
    mgr.create("A");
    mgr.invite("A", "B").unwrap();
    assert!(mgr.decline("B"));
    assert_eq!(mgr.accept("B"), Err(GroupError::NoInvite));
}
