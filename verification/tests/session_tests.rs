use crystal_server::net::Stage;
use crystal_server::session::{Reply, Session, SessionEvent};
use crystal_server::types::{MirClass, MirGender};
use crystal_server::web3::Web3Error;

#[test]
fn handshake_login_select_enter_and_log_out() {
    let mut s = Session::new();
    assert_eq!(s.stage, Stage::Initial);
    assert_eq!(s.step(SessionEvent::ClientVersion), Reply::ClientVersion);
    assert_eq!(s.stage, Stage::Login);
    assert_eq!(s.step(SessionEvent::KeepAlive { time: 42 }), Reply::KeepAlive { time: 42 });
    assert_eq!(
        s.step(SessionEvent::Login { account_id: "ghost".into(), exists: false }),
        Reply::LoginFailed
    );
    assert_eq!(s.account_id, None);
    assert_eq!(s.stage, Stage::Login);
    assert_eq!(
        s.step(SessionEvent::Login { account_id: "demo".into(), exists: true }),
        Reply::CharacterList
    );
    assert_eq!(s.account_id.as_deref(), Some("demo"));
    assert_eq!(s.stage, Stage::Select);
    assert_eq!(s.step(SessionEvent::NewCharacter { name_valid: false }), Reply::NewCharacterFailed { result: 1 });
    assert_eq!(s.step(SessionEvent::NewCharacter { name_valid: true }), Reply::CreateCharacter);
    assert_eq!(s.step(SessionEvent::DeleteCharacter), Reply::DeleteCharacter);
    assert_eq!(s.step(SessionEvent::StartGame { found: false }), Reply::StartGameFailed { result: 2 });
    assert_eq!(s.step(SessionEvent::StartGame { found: true }), Reply::EnterWorld);
    assert_eq!(
        s.step(SessionEvent::EnteredWorld {
            object_id: 17,
            class: MirClass::Wizard,
            gender: MirGender::Female,
            name: "法师一号".into()
        }),
        Reply::Nothing
    );
    assert_eq!(s.stage, Stage::Game);
    assert_eq!(s.object_id, Some(17));
    assert_eq!(s.char_info, Some((MirClass::Wizard, MirGender::Female, "法师一号".to_string())));
    assert_eq!(s.step(SessionEvent::LogOut), Reply::LeaveWorld { left: Some(17), list: true });
    assert_eq!(s.stage, Stage::Select);
    assert_eq!(s.object_id, None);
    assert_eq!(s.account_id.as_deref(), Some("demo"));
}

#[test]
fn nothing_works_before_login() {
    let mut s = Session::new();
    assert_eq!(s.step(SessionEvent::NewCharacter { name_valid: true }), Reply::NewCharacterFailed { result: 3 });
    assert_eq!(s.step(SessionEvent::DeleteCharacter), Reply::DeleteCharacterFailed);
    assert_eq!(s.step(SessionEvent::StartGame { found: true }), Reply::StartGameFailed { result: 1 });
    assert_eq!(s.step(SessionEvent::LogOut), Reply::LeaveWorld { left: None, list: false });
    assert_eq!(s.stage, Stage::Select);
    assert_eq!(s.step(SessionEvent::Disconnect), Reply::Cleanup { left: None });
}

#[test]
fn wallet_and_token_logins() {
    let mut s = Session::new();
    assert_eq!(
        s.step(SessionEvent::Web3Login { outcome: Err(Web3Error::ChallengeExpired) }),
        Reply::Web3Failed { result: 2 }
    );
    assert_eq!(
        s.step(SessionEvent::Web3Login { outcome: Err(Web3Error::InvalidSignature) }),
        Reply::Web3Failed { result: 3 }
    );
    assert_eq!(s.account_id, None);
    assert_eq!(s.step(SessionEvent::SessionLogin { address: None }), Reply::Web3Failed { result: 2 });
    let addr = "0x00000000000000000000000000000000000000aa".to_string();
    assert_eq!(s.step(SessionEvent::Web3Login { outcome: Ok(addr.clone()) }), Reply::Web3Success);
    assert_eq!(s.account_id.as_deref(), Some(addr.as_str()));
    assert_eq!(s.stage, Stage::Select);
    let other = "0x00000000000000000000000000000000000000bb".to_string();
    assert_eq!(s.step(SessionEvent::SessionLogin { address: Some(other.clone()) }), Reply::Web3Success);
    assert_eq!(s.account_id, Some(other));
}

#[test]
fn a_closed_connection_takes_its_player_out() {
    let mut s = Session::new();
    s.step(SessionEvent::Login { account_id: "demo".into(), exists: true });
    s.step(SessionEvent::EnteredWorld {
        object_id: 5,
        class: MirClass::Warrior,
        gender: MirGender::Male,
        name: "战士一号".into(),
    });
    assert_eq!(s.step(SessionEvent::Disconnect), Reply::Cleanup { left: Some(5) });
    // in the game a session always has its player
    assert_eq!(s.stage, Stage::Game);
    assert!(s.object_id.is_some());
}

#[test]
fn a_frame_reads_back_what_was_framed() {
    let payload = vec![9u8, 8, 7];
    let id: i16 = -300;
    let n = (payload.len() + 4) as u16;
    let mut buf = Vec::new();
    buf.extend_from_slice(&n.to_le_bytes());
    buf.extend_from_slice(&id.to_le_bytes());
    buf.extend_from_slice(&payload);
    buf.extend_from_slice(&[1, 2, 3, 4, 5]);
    assert_eq!(crystal_server::net::try_parse_frame(&buf), Some((id, payload, 7)));
}
