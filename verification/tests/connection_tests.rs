use crystal_server::chat::ChatCommand;
use crystal_server::connection::{connection_step, Action, ClientEvent, Connection};
use crystal_server::packets::{decode_client_packet, ClientPacket};
use crystal_server::replies::{
    connected_frame, login_success_frame, new_account_frame, object_chat_frame, reply_frame,
};
use crystal_server::session::{Reply, Session, SessionEvent};
use crystal_server::types::{MirClass, MirGender};

fn frame(id: i16, payload: &[u8]) -> Vec<u8> {
    let n = (payload.len() + 4) as u16;
    let mut v = n.to_le_bytes().to_vec();
    v.extend_from_slice(&id.to_le_bytes());
    v.extend_from_slice(payload);
    v
}

fn string(s: &str) -> Vec<u8> {
    let mut v = vec![s.len() as u8];
    v.extend_from_slice(s.as_bytes());
    v
}

fn conn() -> Connection {
    Connection { session: Session::new(), buf: Vec::new() }
}

#[test]
fn the_server_greets_first() {
    let mut c = conn();
    assert!(matches!(connection_step(&mut c, ClientEvent::Connected).as_slice(), [Action::Greet]));
    assert_eq!(connected_frame(), vec![4, 0, 0, 0]);
}

#[test]
fn frames_are_cut_across_reads() {
    let mut c = conn();
    let mut bytes = frame(2, &7i64.to_le_bytes());
    let mut login = string("abc");
    login.extend(string("pwd"));
    bytes.extend(frame(5, &login));
    let third = frame(13, &string("hello"));
    bytes.extend_from_slice(&third[..3]);
    let acts = connection_step(&mut c, ClientEvent::Received(bytes));
    assert_eq!(acts.len(), 2);
    assert!(matches!(&acts[0], Action::Packet(ClientPacket::KeepAlive { time: 7 })));
    match &acts[1] {
        Action::Packet(ClientPacket::Login { account_id, password }) => {
            assert_eq!((account_id.as_str(), password.as_str()), ("abc", "pwd"));
        }
        _ => panic!("expected a login"),
    }
    assert_eq!(c.buf, third[..3].to_vec());
    let acts = connection_step(&mut c, ClientEvent::Received(third[3..].to_vec()));
    match acts.as_slice() {
        [Action::Packet(ClientPacket::Chat { message })] => assert_eq!(message, "hello"),
        _ => panic!("expected the chat line"),
    }
    assert!(c.buf.is_empty());
}

#[test]
fn a_frame_that_does_not_decode_drops_the_buffer() {
    let mut c = conn();
    // a keep-alive too short for its time
    let mut bytes = frame(2, &[1, 2, 3]);
    bytes.extend(frame(9, &[]));
    let acts = connection_step(&mut c, ClientEvent::Received(bytes));
    assert!(acts.is_empty());
    assert!(c.buf.is_empty());
}

#[test]
fn a_request_not_taken_is_passed_on_and_reading_goes_on() {
    let mut c = conn();
    let mut bytes = frame(99, &[1, 2, 3]);
    bytes.extend(frame(9, &[]));
    let acts = connection_step(&mut c, ClientEvent::Received(bytes));
    assert_eq!(acts.len(), 2);
    assert!(matches!(&acts[0], Action::Packet(ClientPacket::Unsupported { id: 99 })));
    assert!(matches!(&acts[1], Action::Packet(ClientPacket::LogOut)));
    assert!(c.buf.is_empty());
}

#[test]
fn item_group_and_wallet_requests_decode() {
    let mut mv = vec![1];
    mv.extend(3i32.to_le_bytes());
    mv.extend(7i32.to_le_bytes());
    assert!(matches!(decode_client_packet(14, &mv), Some(ClientPacket::MoveItem { grid: 1, from: 3, to: 7 })));
    let mut eq = vec![1];
    eq.extend(7001u64.to_le_bytes());
    eq.extend(0i32.to_le_bytes());
    assert!(matches!(decode_client_packet(18, &eq), Some(ClientPacket::EquipItem { grid: 1, uid: 7001, to: 0 })));
    assert!(decode_client_packet(18, &eq[..12]).is_none());
    let mut sp = vec![1];
    sp.extend(7001u64.to_le_bytes());
    sp.extend(2u16.to_le_bytes());
    assert!(matches!(decode_client_packet(21, &sp), Some(ClientPacket::SplitItem { grid: 1, uid: 7001, count: 2 })));
    assert!(matches!(decode_client_packet(32, &500u32.to_le_bytes()), Some(ClientPacket::DropGold { amount: 500 })));
    assert!(matches!(decode_client_packet(51, &[0]), Some(ClientPacket::SwitchGroup { allow: false })));
    assert!(matches!(decode_client_packet(54, &[1]), Some(ClientPacket::GroupInvite { accept: true })));
    match decode_client_packet(52, &string("勇士")) {
        Some(ClientPacket::AddMember { name }) => assert_eq!(name, "勇士"),
        _ => panic!("expected an invitation"),
    }
    let mut wl = string("0xab");
    wl.extend(string("hi"));
    wl.extend([3, 9, 8, 7]);
    match decode_client_packet(201, &wl) {
        Some(ClientPacket::Web3Login { address, challenge, signature }) => {
            assert_eq!((address.as_str(), challenge.as_str(), signature), ("0xab", "hi", vec![9, 8, 7]));
        }
        _ => panic!("expected a wallet login"),
    }
    assert!(decode_client_packet(201, &wl[..wl.len() - 1]).is_none());
}

#[test]
fn requests_step_the_session() {
    let mut c = conn();
    let acts = connection_step(
        &mut c,
        ClientEvent::Request(SessionEvent::Login { account_id: "demo".to_string(), exists: true }),
    );
    assert!(matches!(acts.as_slice(), [Action::Reply(Reply::CharacterList)]));
    assert_eq!(c.session.account_id.as_deref(), Some("demo"));
}

#[test]
fn chat_lines_in_the_game_only() {
    let mut c = conn();
    assert!(connection_step(&mut c, ClientEvent::Chat("hi".to_string())).is_empty());
    connection_step(
        &mut c,
        ClientEvent::Request(SessionEvent::EnteredWorld {
            object_id: 5,
            class: MirClass::Warrior,
            gender: MirGender::Male,
            name: "勇士".to_string(),
        }),
    );
    match connection_step(&mut c, ClientEvent::Chat("hi there".to_string())).as_slice() {
        [Action::Say { object_id: 5, message }] => assert_eq!(message, "hi there"),
        _ => panic!("expected the line said aloud"),
    }
    match connection_step(&mut c, ClientEvent::Chat("  /market_buy 3 ".to_string())).as_slice() {
        [Action::Command { object_id: 5, cmd: ChatCommand::MarketBuy(Some(3)) }] => {}
        _ => panic!("expected a command"),
    }
}

#[test]
fn packets_decode_by_id() {
    assert!(decode_client_packet(0, &[]).is_none());
    assert!(matches!(decode_client_packet(0, &[0, 0, 0, 0]), Some(ClientPacket::ClientVersion)));
    assert!(matches!(decode_client_packet(2, &[0xff; 8]), Some(ClientPacket::KeepAlive { time: -1 })));
    assert!(decode_client_packet(2, &[1, 2, 3]).is_none());
    let mut nc = string("勇士");
    nc.extend([1, 2]);
    match decode_client_packet(6, &nc) {
        Some(ClientPacket::NewCharacter { name, gender: 1, class: 2 }) => assert_eq!(name, "勇士"),
        _ => panic!("expected a new character"),
    }
    assert!(decode_client_packet(6, &string("勇士")).is_none());
    assert!(matches!(decode_client_packet(8, &[3, 0, 0, 0]), Some(ClientPacket::StartGame { index: 3 })));
    assert!(matches!(decode_client_packet(7, &[0xff, 0xff, 0xff, 0xff]), Some(ClientPacket::DeleteCharacter { index: -1 })));
    assert!(matches!(decode_client_packet(11, &[4]), Some(ClientPacket::Walk { dir: 4 })));
    assert!(matches!(decode_client_packet(99, &[]), Some(ClientPacket::Unsupported { id: 99 })));
}

#[test]
fn long_strings_have_a_two_byte_length() {
    let text = "x".repeat(200);
    let mut p = vec![0xC8, 0x01];
    p.extend_from_slice(text.as_bytes());
    match decode_client_packet(13, &p) {
        Some(ClientPacket::Chat { message }) => assert_eq!(message, text),
        _ => panic!("expected a chat line"),
    }
    // the length runs past the payload
    assert!(decode_client_packet(13, &[0xC8, 0x01, b'x']).is_none());
    // invalid UTF-8 is replaced
    match decode_client_packet(13, &[2, 0xff, b'a']) {
        Some(ClientPacket::Chat { message }) => assert_eq!(message, "\u{FFFD}a"),
        _ => panic!("expected a chat line"),
    }
}

#[test]
fn answers_are_framed() {
    assert_eq!(reply_frame(Reply::ClientVersion), Some(vec![5, 0, 1, 0, 1]));
    assert_eq!(reply_frame(Reply::LoginFailed), Some(vec![5, 0, 7, 0, 3]));
    assert_eq!(
        reply_frame(Reply::KeepAlive { time: -1 }),
        Some(vec![12, 0, 3, 0, 0xff, 0xff, 0xff, 0xff, 0xff, 0xff, 0xff, 0xff])
    );
    assert_eq!(reply_frame(Reply::EnterWorld), Some(vec![9, 0, 14, 0, 0, 0, 4, 0, 0]));
    assert_eq!(reply_frame(Reply::StartGameFailed { result: 2 }), Some(vec![9, 0, 14, 0, 2, 0, 0, 0, 0]));
    assert_eq!(reply_frame(Reply::CharacterList), None);
    assert_eq!(new_account_frame(8), vec![5, 0, 4, 0, 8]);
    assert_eq!(login_success_frame(&vec![]), Some(vec![8, 0, 9, 0, 0, 0, 0, 0]));
    assert_eq!(
        object_chat_frame(7, "hi", 0),
        Some(vec![12, 0, 26, 0, 7, 0, 0, 0, 2, b'h', b'i', 0])
    );
    assert_eq!(
        object_chat_frame(1, "中", 1),
        Some(vec![13, 0, 26, 0, 1, 0, 0, 0, 3, 0xE4, 0xB8, 0xAD, 1])
    );
}

#[test]
fn combat_requests_decode() {
    assert!(matches!(decode_client_packet(38, &[2, 0]), Some(ClientPacket::Attack { dir: 2, spell: 0 })));
    assert!(decode_client_packet(38, &[2]).is_none());
    assert!(matches!(decode_client_packet(40, &[6]), Some(ClientPacket::Harvest { dir: 6 })));
    assert!(matches!(decode_client_packet(55, &[]), Some(ClientPacket::TownRevive)));
}

#[test]
fn strings_read_back_as_written() {
    // a chat line written in the same layout the server writes its strings in
    let text = "你好, world";
    let frame = object_chat_frame(0, text, 0).unwrap();
    // payload: object id (4 bytes), then the string, then the kind
    let string_part = &frame[8..frame.len() - 1];
    match decode_client_packet(13, string_part) {
        Some(ClientPacket::Chat { message }) => assert_eq!(message, text),
        _ => panic!("expected the text back"),
    }
}

#[test]
fn spell_shot_and_key_requests_decode() {
    assert!(matches!(decode_client_packet(50, &[3, 2, 0, 0]), Some(ClientPacket::Magic { spell: 3, dir: 2 })));
    assert!(decode_client_packet(50, &[3]).is_none());
    assert!(matches!(decode_client_packet(49, &[3, 5, 0]), Some(ClientPacket::MagicKey { spell: 3, key: 5 })));
    let mut shot = vec![4];
    shot.extend(10i32.to_le_bytes());
    shot.extend(20i32.to_le_bytes());
    shot.extend(1234u32.to_le_bytes());
    assert!(matches!(decode_client_packet(39, &shot), Some(ClientPacket::RangeAttack { dir: 4, target_id: 1234 })));
    assert!(decode_client_packet(39, &shot[..12]).is_none());
}

#[test]
fn npc_click_decodes() {
    assert!(matches!(decode_client_packet(41, &[7, 0, 0, 0, 0]), Some(ClientPacket::CallNpc { object_id: 7 })));
    assert!(decode_client_packet(41, &[7, 0, 0]).is_none());
}

#[test]
fn mentor_marriage_and_friend_requests_decode() {
    assert!(matches!(decode_client_packet(74, &[1]), Some(ClientPacket::MarriageReply { accept: true })));
    assert!(decode_client_packet(74, &[]).is_none());
    assert!(matches!(decode_client_packet(76, &[]), Some(ClientPacket::DivorceRequest)));
    assert!(matches!(decode_client_packet(79, &[0]), Some(ClientPacket::MentorReply { accept: false })));
    assert!(matches!(decode_client_packet(80, &[]), Some(ClientPacket::AllowMentor)));
    assert!(matches!(decode_client_packet(81, &[]), Some(ClientPacket::CancelMentor)));
    match decode_client_packet(113, &string("好友")) {
        Some(ClientPacket::AddFriend { name }) => assert_eq!(name, "好友"),
        _ => panic!("expected a friend request"),
    }
    assert!(matches!(decode_client_packet(114, &(-3i32).to_le_bytes()), Some(ClientPacket::RemoveFriend { index: -3 })));
    assert!(matches!(decode_client_packet(115, &[]), Some(ClientPacket::RefreshFriends)));
}

#[test]
fn fishing_requests_decode() {
    assert!(matches!(decode_client_packet(88, &[1]), Some(ClientPacket::FishingCast { cast_out: true })));
    assert!(matches!(decode_client_packet(89, &[0]), Some(ClientPacket::FishingAutocast { auto_cast: false })));
    assert!(decode_client_packet(88, &[]).is_none());
}

#[test]
fn reincarnation_requests_decode() {
    assert!(matches!(decode_client_packet(94, &[]), Some(ClientPacket::AcceptReincarnation)));
    assert!(matches!(decode_client_packet(95, &[]), Some(ClientPacket::CancelReincarnation)));
}

#[test]
fn trade_requests_decode() {
    assert!(matches!(decode_client_packet(82, &[]), Some(ClientPacket::TradeRequest)));
    assert!(matches!(decode_client_packet(83, &[1]), Some(ClientPacket::TradeReply { accept: true })));
    assert!(matches!(decode_client_packet(84, &250u32.to_le_bytes()), Some(ClientPacket::TradeGold { amount: 250 })));
    assert!(decode_client_packet(84, &[1, 0]).is_none());
    assert!(matches!(decode_client_packet(85, &[1]), Some(ClientPacket::TradeConfirm { locked: true })));
    assert!(matches!(decode_client_packet(86, &[]), Some(ClientPacket::TradeCancel)));
}

#[test]
fn gameshop_request_decodes() {
    let mut b = 4i32.to_le_bytes().to_vec();
    b.push(3);
    b.extend(0i32.to_le_bytes());
    assert!(matches!(decode_client_packet(119, &b), Some(ClientPacket::GameshopBuy { g_index: 4, quantity: 3, p_type: 0 })));
    assert!(decode_client_packet(119, &b[..8]).is_none());
}

#[test]
fn mail_requests_decode() {
    let mut b = string("收件人");
    b.extend(string("你好"));
    b.extend(100u32.to_le_bytes());
    for uid in [0u64, 42, 0, 0, 7] {
        b.extend(uid.to_le_bytes());
    }
    b.push(0);
    match decode_client_packet(104, &b) {
        Some(ClientPacket::SendMail { name, message, gold, items }) => {
            assert_eq!((name.as_str(), message.as_str(), gold), ("收件人", "你好", 100));
            assert_eq!(items, vec![0, 42, 0, 0, 7]);
        }
        _ => panic!("expected a mail"),
    }
    assert!(decode_client_packet(104, &b[..b.len() - 2]).is_none());
    assert!(matches!(decode_client_packet(105, &9u64.to_le_bytes()), Some(ClientPacket::ReadMail { mail_id: 9 })));
    assert!(matches!(decode_client_packet(106, &9u64.to_le_bytes()), Some(ClientPacket::CollectParcel { mail_id: 9 })));
    assert!(matches!(decode_client_packet(107, &9u64.to_le_bytes()), Some(ClientPacket::DeleteMail { mail_id: 9 })));
    let mut lk = 9u64.to_le_bytes().to_vec();
    lk.push(1);
    assert!(matches!(decode_client_packet(108, &lk), Some(ClientPacket::LockMail { mail_id: 9, lock: true })));
}
