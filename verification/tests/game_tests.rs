use std::collections::{BTreeMap, HashMap};

use crystal_server::chat::{parse_chat_command, ChatCommand};
use crystal_server::entities::Player;
use crystal_server::game::{chat_step, Action, GameState, Notice};
use crystal_server::party::{group_step, GroupMsg, GroupRequest};
use crystal_server::services::{MentorRefusal, ProposalRefusal};
use crystal_server::group::GroupManager;
use crystal_server::guild::GuildManager;
use crystal_server::market::MarketManager;
use crystal_server::trade::TradeManager;
use crystal_server::types::{MirClass, MirDirection, MirGender, Point};

fn player(id: u32, name: &str, gold: u32, character_index: i32) -> Player {
    Player {
        object_id: id,
        account_id: "acc".to_string(),
        name: name.to_string(),
        class: MirClass::Warrior,
        gender: MirGender::Male,
        level: 1,
        location: Point::new(400, 400),
        direction: MirDirection::Down,
        max_hp: 48,
        hp: 48,
        max_mp: 10,
        mp: 10,
        attack: 5,
        defence: 0,
        experience: 0,
        gold,
        weapon: 0,
        armour: 0,
        character_index,
        hp_changed: false,
        equipment: BTreeMap::new(),
        map_index: 0,
        auto_pot_item: 0,
        auto_pot_hp: 0,
        recently_sold: vec![],
        fishing: false,
        fishing_progress: 0,
        auto_fish: false,
        storage_unlocked: false,
        pending_mentor: None,
        can_be_mentor: true,
        pending_marriage: None,
        dead: false,
        a_mode: 0,
        allow_group: true,
        p_mode: 0,
        magic_keys: HashMap::new(),
    }
}

fn game() -> GameState {
    GameState {
        players: vec![player(1, "卖家", 10, 11), player(2, "买家", 100, 22)],
        market: MarketManager::new(),
        guild: GuildManager::new(),
        trade: TradeManager::new(),
        group: GroupManager::new(),
    }
}

fn cmd(line: &str) -> ChatCommand {
    parse_chat_command(line).expect("a command")
}

fn tells(acts: &[Action]) -> Vec<Notice> {
    acts.iter()
        .filter_map(|a| match a {
            Action::Tell(n) => Some(*n),
            _ => None,
        })
        .collect()
}

#[test]
fn market_buy_moves_item_and_gold() {
    let mut g = game();
    let id = g.market.list("卖家", 55, 30).unwrap();
    assert_eq!(id, 1);
    let acts = chat_step(&mut g, 2, &cmd("/market_buy 1"));
    assert_eq!(acts.len(), 2);
    match &acts[0] {
        Action::TransferItem { from_char, to_char, item_uid } => {
            assert_eq!((*from_char, *to_char, *item_uid), (11, 22, 55));
        }
        _ => panic!("expected the item to move"),
    }
    assert_eq!(tells(&acts), vec![Notice::Bought { price: 30 }]);
    assert_eq!(g.players[1].gold, 70);
    assert_eq!(g.players[0].gold, 40);
    assert!(g.market.all_orders().is_empty());
}

#[test]
fn market_buy_with_seller_offline_pays_nobody_and_moves_nothing() {
    let mut g = game();
    g.market.list("离线者", 9, 25).unwrap();
    let acts = chat_step(&mut g, 2, &cmd("/market_buy 1"));
    assert_eq!(acts.len(), 1);
    assert_eq!(tells(&acts), vec![Notice::Bought { price: 25 }]);
    assert_eq!(g.players[1].gold, 75);
    assert_eq!(g.players[0].gold, 10);
}

#[test]
fn market_buy_refused_without_gold_or_order() {
    let mut g = game();
    g.market.list("卖家", 55, 500).unwrap();
    let acts = chat_step(&mut g, 2, &cmd("/market_buy 1"));
    assert_eq!(tells(&acts), vec![Notice::NotEnoughGold]);
    assert_eq!(g.players[1].gold, 100);
    assert_eq!(g.market.all_orders().len(), 1);
    // no such order: its price reads as 0, which is refused the same way
    let acts = chat_step(&mut g, 2, &cmd("/market_buy 9"));
    assert_eq!(tells(&acts), vec![Notice::NotEnoughGold]);
    // a player not online has no gold
    let acts = chat_step(&mut g, 77, &cmd("/market_buy 1"));
    assert_eq!(tells(&acts), vec![Notice::NotEnoughGold]);
    let acts = chat_step(&mut g, 2, &cmd("/market_buy"));
    assert_eq!(tells(&acts), vec![Notice::Usage]);
}

#[test]
fn market_cancel_and_show() {
    let mut g = game();
    g.market.list("卖家", 55, 30).unwrap();
    assert!(matches!(chat_step(&mut g, 1, &cmd("/market")).as_slice(), [Action::ShowMarket]));
    assert_eq!(tells(&chat_step(&mut g, 1, &cmd("/market_cancel 1"))), vec![Notice::OrderCancelled]);
    assert_eq!(tells(&chat_step(&mut g, 1, &cmd("/market_cancel 1"))), vec![Notice::OrderNotFound]);
    assert_eq!(tells(&chat_step(&mut g, 1, &cmd("/market_cancel x"))), vec![Notice::Usage]);
}

#[test]
fn guild_commands() {
    let mut g = game();
    assert_eq!(tells(&chat_step(&mut g, 1, &cmd("/guild"))), vec![Notice::NotInGuild]);
    assert_eq!(tells(&chat_step(&mut g, 1, &cmd("/guild_create 龙门"))), vec![Notice::GuildCreated]);
    assert_eq!(tells(&chat_step(&mut g, 2, &cmd("/guild_create 龙门"))), vec![Notice::GuildNameTaken]);
    assert_eq!(tells(&chat_step(&mut g, 2, &cmd("/guild_join 龙门"))), vec![Notice::GuildJoined]);
    assert_eq!(tells(&chat_step(&mut g, 2, &cmd("/guild_join 龙门"))), vec![Notice::GuildJoinFailed]);
    match chat_step(&mut g, 2, &cmd("/guild")).as_slice() {
        [Action::ShowGuild { name, owner, members }] => {
            assert_eq!((name.as_str(), owner.as_str(), *members), ("龙门", "卖家", 2));
        }
        _ => panic!("expected the guild"),
    }
    assert_eq!(tells(&chat_step(&mut g, 2, &cmd("/guild_leave"))), vec![Notice::GuildLeft]);
    assert_eq!(tells(&chat_step(&mut g, 2, &cmd("/guild_leave"))), vec![Notice::NotInGuild]);
    assert_eq!(tells(&chat_step(&mut g, 2, &cmd("/guild_join"))), vec![Notice::Usage]);
}

#[test]
fn trade_commands() {
    let mut g = game();
    assert_eq!(tells(&chat_step(&mut g, 1, &cmd("/trade_req 无人"))), vec![Notice::TargetOffline]);
    assert_eq!(tells(&chat_step(&mut g, 1, &cmd("/trade_req 买家"))), vec![Notice::TradeRequested]);
    assert_eq!(tells(&chat_step(&mut g, 1, &cmd("/trade_accept"))), vec![Notice::NoTradeRequest]);
    assert_eq!(tells(&chat_step(&mut g, 2, &cmd("/trade_accept"))), vec![Notice::TradeAccepted]);
    assert_eq!(tells(&chat_step(&mut g, 1, &cmd("/trade"))), vec![Notice::TradeStatus { open: true }]);
    assert_eq!(tells(&chat_step(&mut g, 2, &cmd("/trade_cancel"))), vec![Notice::TradeCancelled]);
    assert_eq!(tells(&chat_step(&mut g, 1, &cmd("/trade_info"))), vec![Notice::TradeStatus { open: false }]);
    assert_eq!(tells(&chat_step(&mut g, 1, &cmd("/trade_cancel"))), vec![Notice::NotInTrade]);
}

#[test]
fn store_commands_are_handed_back() {
    let mut g = game();
    assert!(matches!(chat_step(&mut g, 1, &cmd("/mail")).as_slice(), [Action::Delegate]));
    assert!(matches!(chat_step(&mut g, 1, &cmd("/market_sell 3 10")).as_slice(), [Action::Delegate]));
}

#[test]
fn trade_gold_and_confirm_settle_the_trade() {
    let mut g = game();
    assert_eq!(tells(&chat_step(&mut g, 1, &cmd("/trade_gold 5"))), vec![Notice::NotInTrade]);
    chat_step(&mut g, 1, &cmd("/trade_req 买家"));
    chat_step(&mut g, 2, &cmd("/trade_accept"));
    assert_eq!(tells(&chat_step(&mut g, 1, &cmd("/trade_gold 5"))), vec![Notice::GoldAdded { amount: 5 }]);
    assert_eq!(tells(&chat_step(&mut g, 2, &cmd("/trade_gold 30"))), vec![Notice::GoldAdded { amount: 30 }]);
    g.trade.add_item("卖家", 900).unwrap();
    assert_eq!(tells(&chat_step(&mut g, 1, &cmd("/trade_confirm"))), vec![Notice::TradeConfirmed]);
    let acts = chat_step(&mut g, 2, &cmd("/trade_confirm"));
    assert_eq!(acts.len(), 2);
    match &acts[0] {
        Action::TransferItem { from_char, to_char, item_uid } => {
            assert_eq!((*from_char, *to_char, *item_uid), (11, 22, 900));
        }
        _ => panic!("expected the item to move"),
    }
    assert_eq!(tells(&acts), vec![Notice::TradeDone]);
    // seller: 10 - 5 + 30; buyer: 100 - 30 + 5
    assert_eq!(g.players[0].gold, 35);
    assert_eq!(g.players[1].gold, 75);
    assert!(!g.trade.in_trade("卖家"));
}

#[test]
fn a_side_short_of_gold_pays_nothing() {
    let mut g = game();
    chat_step(&mut g, 1, &cmd("/trade_req 买家"));
    chat_step(&mut g, 2, &cmd("/trade_accept"));
    chat_step(&mut g, 1, &cmd("/trade_gold 50"));
    chat_step(&mut g, 1, &cmd("/trade_confirm"));
    let acts = chat_step(&mut g, 2, &cmd("/trade_confirm"));
    assert_eq!(tells(&acts), vec![Notice::TradeDone]);
    assert_eq!(g.players[0].gold, 10);
    assert_eq!(g.players[1].gold, 100);
}

fn group_msgs(acts: &[Action]) -> Vec<(u32, String)> {
    acts.iter()
        .filter_map(|a| match a {
            Action::Group { object_id, msg } => Some((
                *object_id,
                match msg {
                    GroupMsg::Switch(b) => format!("switch {b}"),
                    GroupMsg::Invite(n) => format!("invite {n}"),
                    GroupMsg::AddMember(n) => format!("add {n}"),
                    GroupMsg::DeleteGroup => "delete group".to_string(),
                    GroupMsg::DeleteMember(n) => format!("delete {n}"),
                    GroupMsg::Note(k, n) => format!("{k:?} {n}"),
                },
            )),
            _ => None,
        })
        .collect()
}

#[test]
fn group_invite_accept_and_remove() {
    let mut g = game();
    // only a leader can invite
    let acts = group_step(&mut g, 1, &GroupRequest::Add { name: "买家".to_string() });
    assert_eq!(group_msgs(&acts), vec![(1, "NotLeader ".to_string())]);
    g.group.create("卖家");
    let acts = group_step(&mut g, 1, &GroupRequest::Add { name: "买家".to_string() });
    assert_eq!(
        group_msgs(&acts),
        vec![(1, "switch true".to_string()), (2, "invite 卖家".to_string()), (1, "Invited 买家".to_string())]
    );
    let acts = group_step(&mut g, 2, &GroupRequest::Answer { accept: true });
    assert_eq!(
        group_msgs(&acts),
        vec![
            (2, "add 卖家".to_string()),
            (1, "add 买家".to_string()),
            (2, "add 买家".to_string()),
            (2, "Joined 卖家".to_string()),
        ]
    );
    // a member cannot remove the leader
    let acts = group_step(&mut g, 2, &GroupRequest::Del { name: "卖家".to_string() });
    assert_eq!(group_msgs(&acts), vec![(2, "OnlyLeaderRemoves ".to_string())]);
    let acts = group_step(&mut g, 1, &GroupRequest::Del { name: "买家".to_string() });
    assert_eq!(
        group_msgs(&acts),
        vec![
            (2, "delete group".to_string()),
            (2, "RemovedBy 卖家".to_string()),
            (2, "delete group".to_string()),
            (1, "delete group".to_string()),
        ]
    );
    assert_eq!(g.group.group_of("买家"), None);
}

#[test]
fn group_refusals() {
    let mut g = game();
    g.group.create("卖家");
    let acts = group_step(&mut g, 1, &GroupRequest::Add { name: "无人".to_string() });
    assert_eq!(group_msgs(&acts), vec![(1, "TargetOffline ".to_string())]);
    let acts = group_step(&mut g, 1, &GroupRequest::Add { name: "卖家".to_string() });
    assert_eq!(group_msgs(&acts), vec![(1, "InviteSelf ".to_string())]);
    group_step(&mut g, 2, &GroupRequest::Switch { allow: false });
    assert!(!g.players[1].allow_group);
    let acts = group_step(&mut g, 1, &GroupRequest::Add { name: "买家".to_string() });
    assert_eq!(group_msgs(&acts), vec![(1, "TargetClosed ".to_string())]);
    let acts = group_step(&mut g, 2, &GroupRequest::Answer { accept: true });
    assert_eq!(group_msgs(&acts), vec![(2, "NoInvite ".to_string())]);
    // declining tells the inviter
    group_step(&mut g, 2, &GroupRequest::Switch { allow: true });
    group_step(&mut g, 1, &GroupRequest::Add { name: "买家".to_string() });
    let acts = group_step(&mut g, 2, &GroupRequest::Answer { accept: false });
    assert_eq!(group_msgs(&acts), vec![(1, "Declined 买家".to_string())]);
    // switching invitations off leaves the group (the leader's disbands it)
    let acts = group_step(&mut g, 1, &GroupRequest::Switch { allow: false });
    assert_eq!(group_msgs(&acts), vec![(1, "switch false".to_string())]);
    assert_eq!(g.group.group_of("卖家"), None);
}

#[test]
fn mentor_request_and_answer() {
    let mut g = game();
    g.players[0].can_be_mentor = false;
    // refusals: usage, offline, oneself, not taking apprentices
    assert!(matches!(chat_step(&mut g, 2, &cmd("/mentor")).as_slice(), [Action::Tell(Notice::Usage)]));
    assert!(matches!(
        chat_step(&mut g, 2, &cmd("/mentor 无人")).as_slice(),
        [Action::Tell(Notice::MentorRequestRefused { why: MentorRefusal::Offline })]
    ));
    assert!(matches!(
        chat_step(&mut g, 2, &cmd("/mentor 买家")).as_slice(),
        [Action::Tell(Notice::MentorRequestRefused { why: MentorRefusal::IsSelf })]
    ));
    assert!(matches!(
        chat_step(&mut g, 2, &cmd("/mentor 卖家")).as_slice(),
        [Action::Tell(Notice::MentorRequestRefused { why: MentorRefusal::NotAccepting })]
    ));
    assert!(matches!(chat_step(&mut g, 1, &cmd("/mentor_toggle")).as_slice(), [Action::Tell(Notice::MentorToggled { on: true })]));
    let acts = chat_step(&mut g, 2, &cmd("/mentor 卖家"));
    assert!(matches!(
        acts.as_slice(),
        [Action::MentorInvite { object_id: 1, name, level: 1 }, Action::Tell(Notice::MentorRequested)] if name == "买家"
    ));
    assert_eq!(g.players[0].pending_mentor.as_deref(), Some("买家"));
    // the requester has nothing to answer
    assert!(matches!(chat_step(&mut g, 2, &cmd("/mentor_accept")).as_slice(), [Action::Tell(Notice::NoPendingInvite)]));
    let acts = chat_step(&mut g, 1, &cmd("/mentor_accept"));
    assert!(matches!(
        acts.as_slice(),
        [Action::BindMentor { mentee: 1, mentee_char: 11, mentor: 2, mentor_char: 22 }]
    ));
    assert_eq!(g.players[0].pending_mentor, None);
    // a refusal is told to the inviter
    g.players[0].pending_mentor = Some("买家".to_string());
    let acts = chat_step(&mut g, 1, &cmd("/mentor_refuse"));
    assert!(matches!(
        acts.as_slice(),
        [Action::Tell(Notice::InviteDeclined), Action::Declined { object_id: 2, by, marriage: false }] if by == "卖家"
    ));
    // an inviter who left keeps the invitation
    g.players[0].pending_mentor = Some("走了".to_string());
    assert!(matches!(chat_step(&mut g, 1, &cmd("/mentor_accept")).as_slice(), [Action::Tell(Notice::InviterOffline)]));
    assert_eq!(g.players[0].pending_mentor.as_deref(), Some("走了"));
}

#[test]
fn marriage_proposal_and_answer() {
    let mut g = game();
    assert!(matches!(
        chat_step(&mut g, 1, &cmd("/marry 无人")).as_slice(),
        [Action::Tell(Notice::ProposalRefused { why: ProposalRefusal::Offline })]
    ));
    assert!(matches!(
        chat_step(&mut g, 1, &cmd("/marry 卖家")).as_slice(),
        [Action::Tell(Notice::ProposalRefused { why: ProposalRefusal::IsSelf })]
    ));
    let acts = chat_step(&mut g, 1, &cmd("/marry 买家"));
    assert!(matches!(
        acts.as_slice(),
        [Action::Proposal { object_id: 2, name }, Action::Tell(Notice::Proposed)] if name == "卖家"
    ));
    assert_eq!(g.players[0].pending_marriage.as_deref(), Some("买家"));
    assert_eq!(g.players[1].pending_marriage.as_deref(), Some("卖家"));
    let acts = chat_step(&mut g, 2, &cmd("/marry_accept"));
    assert!(matches!(acts.as_slice(), [Action::Wed { me: 2, me_char: 22, spouse: 1, spouse_char: 11 }]));
    assert_eq!(g.players[0].pending_marriage, None);
    assert_eq!(g.players[1].pending_marriage, None);
    // declining clears both sides and tells the proposer
    chat_step(&mut g, 1, &cmd("/marry 买家"));
    let acts = chat_step(&mut g, 2, &cmd("/marry_refuse"));
    assert!(matches!(
        acts.as_slice(),
        [Action::Tell(Notice::InviteDeclined), Action::Declined { object_id: 1, by, marriage: true }] if by == "买家"
    ));
    assert_eq!(g.players[0].pending_marriage, None);
    assert!(matches!(chat_step(&mut g, 2, &cmd("/marry_accept")).as_slice(), [Action::Tell(Notice::NoPendingInvite)]));
    // the commands that need the store are handed back
    assert!(matches!(chat_step(&mut g, 2, &cmd("/divorce")).as_slice(), [Action::Delegate]));
    assert!(matches!(chat_step(&mut g, 2, &cmd("/mentor_cancel")).as_slice(), [Action::Delegate]));
}
