use crystal_server::account::AccountStore;
use crystal_server::chat::{parse_chat_command, parse_i32, parse_i64, parse_u32, parse_u64, split_words, ChatCommand};
use crystal_server::db::{default_db_path, hash_password, make_unique, num_to_class, num_to_gender, INVENTORY_SIZE, STORAGE_SIZE};
use crystal_server::net::{
    base_stats, char_name_valid, class_from_db, new_account_check, new_account_result, num_class,
    num_gender, try_parse_frame, valid_account_id, web3_login_code,
};
use crystal_server::types::{MirClass, MirGender};
use crystal_server::web3::Web3Error;

#[test]
fn words_split_on_any_white_space() {
    assert_eq!(split_words("  /map\t100  \n x "), vec!["/map", "100", "x"]);
    assert!(split_words("   ").is_empty());
    assert_eq!(split_words("一\u{3000}二"), vec!["一", "二"]);
}

#[test]
fn numbers_parse_like_str_parse() {
    assert_eq!(parse_u32("42"), Some(42));
    assert_eq!(parse_u32("+7"), Some(7));
    assert_eq!(parse_u32("-1"), None);
    assert_eq!(parse_u32("4294967295"), Some(u32::MAX));
    assert_eq!(parse_u32("4294967296"), None);
    assert_eq!(parse_u32(""), None);
    assert_eq!(parse_u32("+"), None);
    assert_eq!(parse_u32("1x"), None);
    assert_eq!(parse_i32("-2147483648"), Some(i32::MIN));
    assert_eq!(parse_i32("2147483648"), None);
    assert_eq!(parse_i32("-"), None);
    assert_eq!(parse_u64("18446744073709551615"), Some(u64::MAX));
    assert_eq!(parse_i64("-9223372036854775808"), Some(i64::MIN));
    assert_eq!(parse_i64("00012"), Some(12));
}

#[test]
fn chat_commands_are_recognised() {
    assert!(parse_chat_command("hello there").is_none());
    assert!(parse_chat_command("   ").is_none());
    match parse_chat_command("  /map 100 ") {
        Some(ChatCommand::GoToMap(Some(100))) => {}
        _ => panic!("map command"),
    }
    match parse_chat_command("/map abc") {
        Some(ChatCommand::GoToMap(None)) => {}
        _ => panic!("bad map index"),
    }
    match parse_chat_command("/trade_gold") {
        Some(ChatCommand::TradeGold(0)) => {}
        _ => panic!("trade gold defaults to 0"),
    }
    match parse_chat_command("/trade_req Bob") {
        Some(ChatCommand::TradeRequest(Some(n))) => assert_eq!(n, "Bob"),
        _ => panic!("trade request"),
    }
    match parse_chat_command("/market_sell 3 250") {
        Some(ChatCommand::MarketSell { slot: Some(3), price: 250 }) => {}
        _ => panic!("market sell"),
    }
    match parse_chat_command("/mail_send Bob 10 hello   there") {
        Some(ChatCommand::MailSend { target: Some(t), gold: 10, title }) => {
            assert_eq!(t, "Bob");
            assert_eq!(title, "hello there");
        }
        _ => panic!("mail send"),
    }
    match parse_chat_command("/mail_send Bob") {
        Some(ChatCommand::MailSend { target: Some(_), gold: 0, title }) => assert_eq!(title, "无标题"),
        _ => panic!("mail send default title"),
    }
    match parse_chat_command("/mail_send_item Bob 2") {
        Some(ChatCommand::MailSendItem { slot: Some(2), title, .. }) => assert_eq!(title, "物品附赠"),
        _ => panic!("mail send item"),
    }
    match parse_chat_command("/仓库") {
        Some(ChatCommand::Storage) => {}
        _ => panic!("storage alias"),
    }
    match parse_chat_command("/?") {
        Some(ChatCommand::Help) => {}
        _ => panic!("help"),
    }
    match parse_chat_command("  /dance now ") {
        Some(ChatCommand::Unknown(m)) => assert_eq!(m, "/dance now"),
        _ => panic!("unknown"),
    }
}

#[test]
fn frames_are_cut_from_the_stream() {
    assert_eq!(try_parse_frame(&[6, 0, 9]), None);
    assert_eq!(try_parse_frame(&[6, 0, 9, 0, 1]), None);
    assert_eq!(try_parse_frame(&[6, 0, 9, 0, 1, 2, 3]), Some((9, vec![1, 2], 6)));
    assert_eq!(try_parse_frame(&[4, 0, 0xff, 0xff]), Some((-1, vec![], 4)));
    // malformed length: the whole buffer is dropped
    assert_eq!(try_parse_frame(&[2, 0, 1, 1, 5]), Some((0, vec![], 5)));
}

#[test]
fn names_and_stats() {
    assert!(valid_account_id("player_01"));
    assert!(!valid_account_id(""));
    assert!(!valid_account_id("bad name"));
    assert!(!valid_account_id(&"a".repeat(31)));
    assert!(valid_account_id(&"a".repeat(30)));
    assert!(char_name_valid("测试"));
    assert!(!char_name_valid(""));
    assert!(!char_name_valid("一二三四五六"));
    assert_eq!(num_class(1), MirClass::Wizard);
    assert_eq!(num_class(200), MirClass::Archer);
    assert_eq!(class_from_db(3), MirClass::Assassin);
    assert_eq!(num_gender(0), MirGender::Male);
    assert_eq!(num_gender(5), MirGender::Female);
    assert_eq!(base_stats(MirClass::Taoist, 10), (120, 6));
    assert_eq!(new_account_check("bad id", "secret"), Some(1));
    assert_eq!(new_account_check("good", "ab"), Some(2));
    assert_eq!(new_account_check("good", "abc"), None);
    assert_eq!(new_account_result(true), 8);
    assert_eq!(new_account_result(false), 7);
    assert_eq!(web3_login_code::<u8>(&Ok(1)), 0);
    assert_eq!(web3_login_code::<u8>(&Err(Web3Error::ChallengeExpired)), 2);
    assert_eq!(web3_login_code::<u8>(&Err(Web3Error::InvalidSignature)), 3);
}

#[test]
fn account_store_rules() {
    let mut store = AccountStore::new();
    assert!(!store.login("demo"));
    assert!(store.register("demo"));
    assert!(!store.register("demo"));
    assert!(store.login("demo"));
    assert_eq!(store.add_character("nobody", "x", MirClass::Warrior, MirGender::Male).unwrap_err(), 3);
    let a = store.add_character("demo", "战士一号", MirClass::Warrior, MirGender::Male).unwrap();
    assert_eq!((a.index, a.level), (1, 1));
    assert_eq!(store.add_character("demo", "战士一号", MirClass::Wizard, MirGender::Male).unwrap_err(), 5);
    for n in ["b", "c", "d"] {
        store.add_character("demo", n, MirClass::Wizard, MirGender::Female).unwrap();
    }
    assert_eq!(store.add_character("demo", "e", MirClass::Wizard, MirGender::Female).unwrap_err(), 4);
    let infos = store.select_infos("demo");
    assert_eq!(infos.len(), 4);
    assert_eq!(infos[3].index, 4);
    assert!(store.delete_character("demo", 2));
    assert!(!store.delete_character("demo", 2));
    assert!(store.get_character("demo", 2).is_none());
    assert_eq!(store.get_character("demo", 3).unwrap().name, "c");
    assert!(store.select_infos("nobody").is_empty());
}

#[test]
fn storage_helpers() {
    assert_eq!(make_unique(12, 3), 12003);
    assert_eq!(make_unique(-1, 5), -995);
    assert_eq!(default_db_path(), std::path::Path::new("data").join("crystal.db"));
    assert_eq!(
        hash_password("abc"),
        "ba7816bf8f01cfea414140de5dae2223b00361a396177a9cb410ff61f20015ad"
    );
    assert_eq!(num_to_class(2), MirClass::Taoist);
    assert_eq!(num_to_gender(1), MirGender::Female);
    assert_eq!((INVENTORY_SIZE, STORAGE_SIZE), (40, 48));
}
