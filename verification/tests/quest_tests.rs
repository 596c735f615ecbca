use crystal_server::quest::{quests, register_kill, reward, QuestError, QuestManager, QuestProgress};

fn row(id: u32, killed: u32, completed: bool, finished: bool) -> QuestProgress {
    QuestProgress { quest_id: id, killed, completed, finished }
}

#[test]
fn kills_count_until_completed() {
    let mut rows = vec![row(1, 0, false, false)];
    for _ in 0..4 {
        assert_eq!(register_kill(&mut rows, 3), (true, 0));
    }
    assert_eq!(rows[0].killed, 4);
    assert_eq!(register_kill(&mut rows, 3), (true, 1));
    assert!(rows[0].completed);
    // a completed quest no longer counts
    assert_eq!(register_kill(&mut rows, 3), (false, 0));
    assert_eq!(rows[0].killed, 5);
}

#[test]
fn kills_of_other_monsters_or_unaccepted_quests_do_not_count() {
    let mut rows = vec![row(1, 0, false, false)];
    assert_eq!(register_kill(&mut rows, 2), (false, 0));
    assert_eq!(register_kill(&mut rows, 4), (false, 0));
    assert_eq!(rows, vec![row(1, 0, false, false)]);
    let mut none: Vec<QuestProgress> = vec![];
    assert_eq!(register_kill(&mut none, 3), (false, 0));
}

#[test]
fn reward_rules() {
    let mut rows = vec![row(1, 2, false, false), row(2, 3, true, false)];
    assert_eq!(reward(&mut rows, 9).unwrap_err(), QuestError::NoSuchQuest);
    assert_eq!(
        reward(&mut rows, 1).unwrap_err(),
        QuestError::NotCompleted { killed: 2, target: 5 }
    );
    let (def, gold, exp) = reward(&mut rows, 2).unwrap();
    assert_eq!((def.id, gold, exp), (2, 200, 150));
    assert!(rows[1].finished);
    assert_eq!(reward(&mut rows, 2).unwrap_err(), QuestError::AlreadyRewarded);
    let mut empty: Vec<QuestProgress> = vec![];
    assert_eq!(reward(&mut empty, 1).unwrap_err(), QuestError::NotAccepted);
}

#[test]
fn quest_for_touched_npc() {
    let mut qm = QuestManager::new();
    assert!(qm.touched_npc("p").is_none());
    assert!(qm.quest_for_touch("p", &vec![]).is_none());
    qm.touch("p", "任务管理员");
    assert_eq!(qm.touched_npc("p"), Some("任务管理员"));
    assert_eq!(qm.quest_for_touch("p", &vec![]).unwrap().id, 1);
    let done = vec![row(1, 5, true, false)];
    assert_eq!(qm.quest_for_touch("p", &done).unwrap().id, 2);
    let both = vec![row(1, 5, true, true), row(2, 3, true, false)];
    assert!(qm.quest_for_touch("p", &both).is_none());
    qm.touch("p", "someone else");
    assert!(qm.quest_for_touch("p", &vec![]).is_none());
    assert_eq!(quests().len(), 2);
    assert_eq!(QuestProgress::default(), row(0, 0, false, false));
}
