//! Messages between client and server: what a client asks and what the
//! server answers, apart from the universe and ship data that travel with
//! some answers.
use vstd::prelude::*;
use crate::models::account::{UserAccount, UserAccountView};
use crate::text::{opt_string_view, strings_view};

verus! {

/// The port a server listens on unless told otherwise.
pub const DEFAULT_SERVER_PORT: u16 = 7890;

/// Milliseconds between two heartbeats of a client.
pub const HEARTBEAT_INTERVAL_MILLIS: u64 = 5000;

/// Milliseconds without a heartbeat after which a client counts as gone.
pub const CONNECTION_TIMEOUT_MILLIS: u64 = 10000;

/// Whether a market action buys or sells.
#[derive(Debug, Clone, Copy, PartialEq, Eq, Structural)]
pub enum MarketActionType {
    Buy,
    Sell,
}

/// A message from a client. `Other` stands for the messages that only a
/// server sends.
#[derive(Debug)]
pub enum Request {
    Connect { client_id: String, username: String, password: Option<String> },
    Disconnect { client_id: String },
    Heartbeat { client_id: String },
    RegisterAccount { username: String, password: String, email: Option<String> },
    LoginAccount { username: String, password: String },
    ChangePassword { client_id: String, username: String, current_password: String, new_password: String },
    DeleteAccount { client_id: String, username: String, password: String },
    CreateCharacter {
        client_id: String,
        account_username: String,
        character_name: String,
        faction_type: u8,
        storyline_id: String,
    },
    ListCharacters { client_id: String, account_username: String },
    SelectCharacter { client_id: String, account_username: String, character_id: String },
    RequestGameState { client_id: String },
    NavigationAction { client_id: String, destination_system: String },
    MiningAction { client_id: String, resource: String, quantity: u32 },
    MarketAction { client_id: String, action_type: MarketActionType, item_name: String, quantity: u32 },
    Other,
}

/// A message from the server. Where `with_state` is set, or for
/// `GameState`, the universe and the player's ship go with it; an `Action`
/// answer carries the player's ship.
#[derive(Debug)]
pub enum Reply {
    Connect { success: bool, message: String, with_state: bool },
    GameState,
    Action { success: bool, message: String },
    RegisterAccount { success: bool, message: String, account: Option<UserAccount> },
    LoginAccount { success: bool, message: String, account: Option<UserAccount>, characters: Vec<String> },
    ChangePassword { success: bool, message: String },
    DeleteAccount { success: bool, message: String },
    CreateCharacter { success: bool, message: String, character_id: Option<String> },
    ListCharacters { success: bool, message: String, characters: Vec<(String, String)> },
    SelectCharacter { success: bool, message: String, with_state: bool },
    Error { code: u32, message: String },
}

/// The mathematical value of a server message.
pub enum ReplyView {
    Connect { success: bool, message: Seq<char>, with_state: bool },
    GameState,
    Action { success: bool, message: Seq<char> },
    RegisterAccount { success: bool, message: Seq<char>, account: Option<UserAccountView> },
    LoginAccount { success: bool, message: Seq<char>, account: Option<UserAccountView>, characters: Seq<Seq<char>> },
    ChangePassword { success: bool, message: Seq<char> },
    DeleteAccount { success: bool, message: Seq<char> },
    CreateCharacter { success: bool, message: Seq<char>, character_id: Option<Seq<char>> },
    ListCharacters { success: bool, message: Seq<char>, characters: Seq<(Seq<char>, Seq<char>)> },
    SelectCharacter { success: bool, message: Seq<char>, with_state: bool },
    Error { code: u32, message: Seq<char> },
}

/// An optional account by its value.
pub open spec fn opt_account_view(a: Option<UserAccount>) -> Option<UserAccountView> {
    match a {
        Some(a) => Some(a@),
        None => None,
    }
}

/// Pairs of strings by their values.
pub open spec fn pairs_view(v: Seq<(String, String)>) -> Seq<(Seq<char>, Seq<char>)> {
    v.map_values(|p: (String, String)| (p.0@, p.1@))
}

impl View for Reply {
    type V = ReplyView;

    open spec fn view(&self) -> ReplyView {
        match self {
            Reply::Connect { success, message, with_state } => ReplyView::Connect {
                success: *success,
                message: message@,
                with_state: *with_state,
            },
            Reply::GameState => ReplyView::GameState,
            Reply::Action { success, message } => ReplyView::Action { success: *success, message: message@ },
            Reply::RegisterAccount { success, message, account } => ReplyView::RegisterAccount {
                success: *success,
                message: message@,
                account: opt_account_view(*account),
            },
            Reply::LoginAccount { success, message, account, characters } => ReplyView::LoginAccount {
                success: *success,
                message: message@,
                account: opt_account_view(*account),
                characters: strings_view(characters@),
            },
            Reply::ChangePassword { success, message } => ReplyView::ChangePassword {
                success: *success,
                message: message@,
            },
            Reply::DeleteAccount { success, message } => ReplyView::DeleteAccount {
                success: *success,
                message: message@,
            },
            Reply::CreateCharacter { success, message, character_id } => ReplyView::CreateCharacter {
                success: *success,
                message: message@,
                character_id: opt_string_view(*character_id),
            },
            Reply::ListCharacters { success, message, characters } => ReplyView::ListCharacters {
                success: *success,
                message: message@,
                characters: pairs_view(characters@),
            },
            Reply::SelectCharacter { success, message, with_state } => ReplyView::SelectCharacter {
                success: *success,
                message: message@,
                with_state: *with_state,
            },
            Reply::Error { code, message } => ReplyView::Error { code: *code, message: message@ },
        }
    }
}

} // verus!
