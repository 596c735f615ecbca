//! The life of one client connection: from the version handshake through
//! login (by account or by wallet) and character selection into the world
//! and back. The store and the world are asked by the caller; a step takes
//! the request together with what the store answered, updates the session
//! and says what to answer or do next.
use vstd::prelude::*;

use crate::net::Stage;
use crate::types::{MirClass, MirGender};
use crate::web3::Web3Error;

verus! {

/// What a connection knows about itself.
#[derive(Debug, Clone)]
pub struct Session {
    pub stage: Stage,
    /// The account logged in on this connection.
    pub account_id: Option<String>,
    /// The player this connection controls in the world.
    pub object_id: Option<u32>,
    /// Class, gender and name of the character in play.
    pub char_info: Option<(MirClass, MirGender, String)>,
}

/// A request of the client, with what the store answered to it.
#[derive(Debug)]
pub enum SessionEvent {
    ClientVersion,
    KeepAlive { time: i64 },
    /// Login with an account id; `exists`: the store knows the account.
    Login { account_id: String, exists: bool },
    /// Wallet login: the checked address, or why the check failed.
    Web3Login { outcome: Result<String, Web3Error> },
    /// Login with a session token: the address it stood for, if it was valid.
    SessionLogin { address: Option<String> },
    /// Create a character; `name_valid`: the name passed `char_name_valid`.
    NewCharacter { name_valid: bool },
    DeleteCharacter,
    /// Enter the game; `found`: the store has that character for the account.
    StartGame { found: bool },
    /// The world took the character in as `object_id`.
    EnteredWorld { object_id: u32, class: MirClass, gender: MirGender, name: String },
    LogOut,
    Disconnect,
}

/// What the connection answers or does after a step.
#[derive(Debug, Clone, Copy, PartialEq, Eq, Structural)]
pub enum Reply {
    /// Client version accepted (result 1).
    ClientVersion,
    KeepAlive { time: i64 },
    /// Login refused: unknown account (result 3).
    LoginFailed,
    /// Send the account's character list.
    CharacterList,
    /// Wallet login refused with this result code.
    Web3Failed { result: i32 },
    /// Wallet login accepted: character list and a fresh session token.
    Web3Success,
    /// Ask the store to create the character.
    CreateCharacter,
    /// Character creation refused: 1 bad name, 3 not logged in.
    NewCharacterFailed { result: u8 },
    /// Ask the store to delete the character.
    DeleteCharacter,
    /// Deletion refused: not logged in (result 1).
    DeleteCharacterFailed,
    /// Start refused: 1 not logged in, 2 no such character.
    StartGameFailed { result: u8 },
    /// Start accepted (result 0): put the character into the world.
    EnterWorld,
    /// Save and remove `left` from the world if it is there; then send the
    /// character list if `list`.
    LeaveWorld { left: Option<u32>, list: bool },
    /// The connection closed: save and remove `left` if it is there.
    Cleanup { left: Option<u32> },
    Nothing,
}

impl Session {
    /// A session not logged in and not in the world.
    pub open spec fn fresh() -> Session {
        Session { stage: Stage::Initial, account_id: None, object_id: None, char_info: None }
    }

    /// A session in the game controls a player.
    pub open spec fn wf(&self) -> bool {
        self.stage == Stage::Game ==> self.object_id is Some
    }
}

/// A session logged in to `account` (moving to character selection).
pub open spec fn logged_in(s: Session, account: String) -> Session {
    Session { stage: Stage::Select, account_id: Some(account), ..s }
}

/// One step of a session (see `Session::step`).
pub open spec fn session_next(s: Session, ev: SessionEvent) -> (Session, Reply) {
    match ev {
        SessionEvent::ClientVersion => (Session { stage: Stage::Login, ..s }, Reply::ClientVersion),
        SessionEvent::KeepAlive { time } => (s, Reply::KeepAlive { time }),
        SessionEvent::Login { account_id, exists } => if exists {
            (logged_in(s, account_id), Reply::CharacterList)
        } else {
            (s, Reply::LoginFailed)
        },
        SessionEvent::Web3Login { outcome } => match outcome {
            Ok(addr) => (logged_in(s, addr), Reply::Web3Success),
            Err(Web3Error::ChallengeExpired) => (s, Reply::Web3Failed { result: 2 }),
            Err(_) => (s, Reply::Web3Failed { result: 3 }),
        },
        SessionEvent::SessionLogin { address } => match address {
            Some(addr) => (logged_in(s, addr), Reply::Web3Success),
            None => (s, Reply::Web3Failed { result: 2 }),
        },
        SessionEvent::NewCharacter { name_valid } => (
            s,
            if s.account_id is None {
                Reply::NewCharacterFailed { result: 3 }
            } else if name_valid {
                Reply::CreateCharacter
            } else {
                Reply::NewCharacterFailed { result: 1 }
            },
        ),
        SessionEvent::DeleteCharacter => (
            s,
            if s.account_id is Some {
                Reply::DeleteCharacter
            } else {
                Reply::DeleteCharacterFailed
            },
        ),
        SessionEvent::StartGame { found } => (
            s,
            if s.account_id is None {
                Reply::StartGameFailed { result: 1 }
            } else if !found {
                Reply::StartGameFailed { result: 2 }
            } else {
                Reply::EnterWorld
            },
        ),
        SessionEvent::EnteredWorld { object_id, class, gender, name } => (
            Session {
                stage: Stage::Game,
                object_id: Some(object_id),
                char_info: Some((class, gender, name)),
                ..s
            },
            Reply::Nothing,
        ),
        SessionEvent::LogOut => (
            Session { stage: Stage::Select, object_id: None, ..s },
            Reply::LeaveWorld { left: s.object_id, list: s.account_id is Some },
        ),
        SessionEvent::Disconnect => (s, Reply::Cleanup { left: s.object_id }),
    }
}

impl Session {
    /// A new connection.
    pub fn new() -> (r: Session)
        ensures
            r == Session::fresh(),
    {
        Session { stage: Stage::Initial, account_id: None, object_id: None, char_info: None }
    }

    /// Handles one request (see `session_next`): the version handshake moves
    /// to login; a login that succeeds (account known, wallet signature
    /// valid, session token valid) records the account and moves to
    /// character selection; creating, deleting and starting a character need
    /// a logged-in account; entering the world records the player and moves
    /// into the game; logging out leaves the world and goes back to
    /// selection; a closed connection takes its player out of the world.
    pub fn step(&mut self, ev: SessionEvent) -> (r: Reply)
        ensures
            (*final(self), r) == session_next(*old(self), ev),
    {
        match ev {
            SessionEvent::ClientVersion => {
                self.stage = Stage::Login;
                Reply::ClientVersion
            },
            SessionEvent::KeepAlive { time } => Reply::KeepAlive { time },
            SessionEvent::Login { account_id, exists } => {
                if exists {
                    self.account_id = Some(account_id);
                    self.stage = Stage::Select;
                    Reply::CharacterList
                } else {
                    Reply::LoginFailed
                }
            },
            SessionEvent::Web3Login { outcome } => match outcome {
                Ok(addr) => {
                    self.account_id = Some(addr);
                    self.stage = Stage::Select;
                    Reply::Web3Success
                },
                Err(Web3Error::ChallengeExpired) => Reply::Web3Failed { result: 2 },
                Err(_) => Reply::Web3Failed { result: 3 },
            },
            SessionEvent::SessionLogin { address } => match address {
                Some(addr) => {
                    self.account_id = Some(addr);
                    self.stage = Stage::Select;
                    Reply::Web3Success
                },
                None => Reply::Web3Failed { result: 2 },
            },
            SessionEvent::NewCharacter { name_valid } => {
                if self.account_id.is_none() {
                    Reply::NewCharacterFailed { result: 3 }
                } else if name_valid {
                    Reply::CreateCharacter
                } else {
                    Reply::NewCharacterFailed { result: 1 }
                }
            },
            SessionEvent::DeleteCharacter => {
                if self.account_id.is_some() {
                    Reply::DeleteCharacter
                } else {
                    Reply::DeleteCharacterFailed
                }
            },
            SessionEvent::StartGame { found } => {
                if self.account_id.is_none() {
                    Reply::StartGameFailed { result: 1 }
                } else if !found {
                    Reply::StartGameFailed { result: 2 }
                } else {
                    Reply::EnterWorld
                }
            },
            SessionEvent::EnteredWorld { object_id, class, gender, name } => {
                self.object_id = Some(object_id);
                self.char_info = Some((class, gender, name));
                self.stage = Stage::Game;
                Reply::Nothing
            },
            SessionEvent::LogOut => {
                let left = self.object_id;
                self.object_id = None;
                self.stage = Stage::Select;
                Reply::LeaveWorld { left, list: self.account_id.is_some() }
            },
            SessionEvent::Disconnect => Reply::Cleanup { left: self.object_id },
        }
    }
}

/// Every step keeps a session well formed: a session in the game always
/// controls a player.
pub proof fn law_step_keeps_wf(s: Session, ev: SessionEvent)
    requires
        s.wf(),
    ensures
        session_next(s, ev).0.wf(),
{
}

/// Logging in and then out lands on character selection with the account
/// kept, no player in the world, and the character list sent; the player
/// the session had, if any, leaves the world.
pub proof fn law_login_then_logout(s: Session, account: String)
    ensures
        ({
            let (s1, r1) = session_next(s, SessionEvent::Login { account_id: account, exists: true });
            let (s2, r2) = session_next(s1, SessionEvent::LogOut);
            &&& r1 == Reply::CharacterList
            &&& s2.stage == Stage::Select
            &&& s2.account_id == Some(account)
            &&& s2.object_id is None
            &&& r2 == Reply::LeaveWorld { left: s.object_id, list: true }
        }),
{
}

/// Nothing happens to characters for a session that has not logged in: it
/// cannot create, delete or start one.
pub proof fn law_no_account_no_characters(s: Session, found: bool, name_valid: bool)
    requires
        s.account_id is None,
    ensures
        session_next(s, SessionEvent::StartGame { found }).1 == (Reply::StartGameFailed { result: 1 }),
        session_next(s, SessionEvent::NewCharacter { name_valid }).1 == (Reply::NewCharacterFailed {
            result: 3,
        }),
        session_next(s, SessionEvent::DeleteCharacter).1 == Reply::DeleteCharacterFailed,
{
}

} // verus!
