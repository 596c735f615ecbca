use crystal_server::guild::{GuildError, GuildManager};

#[test]
fn create_join_members() {
    let mut mgr = GuildManager::new();
    mgr.create("华夏", "A").unwrap();
    assert_eq!(mgr.members("华夏"), Some(vec!["A".to_string()]));
    assert!(mgr.join("华夏", "B").is_ok());
    assert_eq!(mgr.members("华夏"), Some(vec!["A".to_string(), "B".to_string()]));
    assert_eq!(mgr.guild_of("B").unwrap().owner, "A");
    assert_eq!(mgr.join("华夏", "B"), Err(GuildError::AlreadyInGuild));
}

#[test]
fn duplicate_guild_name_fails() {
    let mut mgr = GuildManager::new();
    mgr.create("华夏", "A").unwrap();
    assert_eq!(mgr.create("华夏", "X"), Err(GuildError::GuildExists));
}

#[test]
fn owner_leave_disbands() {
    let mut mgr = GuildManager::new();
    mgr.create("华夏", "A").unwrap();
    mgr.join("华夏", "B").unwrap();
    assert!(mgr.leave("A"));
    assert!(mgr.guild_of("B").is_none(), "B leaves a disbanded guild too");
    assert!(mgr.guild_of("A").is_none());
    assert!(mgr.guilds.is_empty());
}

#[test]
fn member_leave_keeps_guild() {
    let mut mgr = GuildManager::new();
    mgr.create("华夏", "A").unwrap();
    mgr.join("华夏", "B").unwrap();
    assert!(mgr.leave("B"));
    assert_eq!(mgr.members("华夏"), Some(vec!["A".to_string()]));
    assert!(mgr.guild_of("A").is_some());
    assert!(mgr.remove_member("华夏", "A").is_some());
    assert!(mgr.guilds.is_empty());
}

#[test]
fn join_unknown_guild_fails() {
    let mut mgr = GuildManager::new();
    assert_eq!(mgr.join("nowhere", "A"), Err(GuildError::GuildExists));
    assert!(!mgr.leave("A"));
    assert_eq!(mgr.members("nowhere"), None);
}

#[test]
fn creator_switches_guild() {
    let mut mgr = GuildManager::new();
    mgr.create("one", "A").unwrap();
    mgr.join("one", "B").unwrap();
    mgr.create("two", "B").unwrap();
    assert_eq!(mgr.members("one"), Some(vec!["A".to_string()]));
    assert_eq!(mgr.guild_of("B").unwrap().name, "two");
}
