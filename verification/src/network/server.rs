//! The server's side of a game session: who is connected, how a connection
//! opens, and the answer to each client message. Reading, writing and
//! encoding messages are left to the caller, which hands over each decoded
//! message and carries out the answer.
use vstd::prelude::*;
use crate::keyed::{as_map, entries_view, find_key, keys_unique, lemma_filter_as_map, lemma_index_of_key, remove_key, upsert};
use crate::models::account::{
    AccountError, AccountManager, UserAccountView, account_error_message, bcrypt_hash, bcrypt_verifies, bcrypt_verify,
    credentials_valid, logged_in, with_character,
};
use crate::models::ship::Ship;
use crate::network::error::{NetworkError, network_error_text};
use crate::network::protocol::{MarketActionType, Reply, ReplyView, Request, CONNECTION_TIMEOUT_MILLIS};
use crate::platform::new_uuid_string;
use crate::text::{decimal, strings_view, u64_to_decimal};

verus! {

/// A connected client: the name it gave and when it was last heard from
/// (milliseconds on the server's clock).
#[derive(Debug)]
pub struct ClientInfo {
    pub username: String,
    pub last_heartbeat: u64,
}

/// The mathematical value of a connected client.
pub struct ClientView {
    pub username: Seq<char>,
    pub last_heartbeat: u64,
}

impl View for ClientInfo {
    type V = ClientView;

    open spec fn view(&self) -> ClientView {
        ClientView { username: self.username@, last_heartbeat: self.last_heartbeat }
    }
}

/// Whether the player's ship can go to the system a navigation request
/// names: the distance check works on floating-point coordinates and is
/// made by the caller.
#[derive(Debug, Clone, Copy, PartialEq, Eq, Structural)]
pub enum TravelCheck {
    UnknownSystem,
    OutOfRange,
    Reachable,
}

/// What the server does about one message: the answer and its recipient,
/// if any; the system the player moves to, if any; and whether the game
/// is to be saved.
#[derive(Debug)]
pub struct Outcome {
    pub reply: Option<(String, Reply)>,
    pub travel_to: Option<String>,
    pub save: bool,
}

/// The mathematical value of an outcome.
pub struct OutcomeView {
    pub reply: Option<(Seq<char>, ReplyView)>,
    pub travel_to: Option<Seq<char>>,
    pub save: bool,
}

impl View for Outcome {
    type V = OutcomeView;

    open spec fn view(&self) -> OutcomeView {
        OutcomeView {
            reply: match self.reply {
                Some((to, r)) => Some((to@, r@)),
                None => None,
            },
            travel_to: match self.travel_to {
                Some(d) => Some(d@),
                None => None,
            },
            save: self.save,
        }
    }
}

/// How a connection opens, after its first message.
#[derive(Debug)]
pub enum Opening {
    /// The client is registered under `client_id` and gets `reply`.
    Connected { client_id: String, reply: Reply },
    /// The client is registered under `client_id`; its first message is
    /// still to be handled as an ordinary message.
    Pending { client_id: String },
    /// The password was wrong: the client gets `reply`, then the connection
    /// closes with `error`.
    Refused { reply: Reply, error: NetworkError },
    /// The first message cannot open a connection.
    Rejected { error: NetworkError },
}

/// The connected clients, the accounts, and the bcrypt hash of the server
/// password, if there is one.
#[derive(Debug)]
pub struct GameServer {
    pub clients: Vec<(String, ClientInfo)>,
    pub accounts: AccountManager,
    pub password: Option<String>,
}

/// Where an answer goes: to `to`, if that client is connected.
pub open spec fn answer(clients: Map<Seq<char>, ClientView>, to: Seq<char>, reply: ReplyView) -> Option<
    (Seq<char>, ReplyView),
> {
    if clients.dom().contains(to) {
        Some((to, reply))
    } else {
        None
    }
}

/// The clients after `id` was heard from at `now`.
pub open spec fn heard(clients: Map<Seq<char>, ClientView>, id: Seq<char>, now: u64) -> Map<Seq<char>, ClientView> {
    clients.insert(id, ClientView { last_heartbeat: now, ..clients[id] })
}

/// Whether a client last heard from as `c` still counts as connected at
/// `now`.
pub open spec fn still_connected(c: ClientView, now: u64) -> bool {
    !(now > c.last_heartbeat + CONNECTION_TIMEOUT_MILLIS)
}

/// The two account stores hold the same accounts.
pub open spec fn same_accounts(a: AccountManager, b: AccountManager) -> bool {
    a.account_map() == b.account_map() && a.id_map() == b.id_map()
}

/// An outcome that only answers.
pub open spec fn only_answer(o: OutcomeView, clients: Map<Seq<char>, ClientView>, to: Seq<char>, reply: ReplyView) -> bool {
    o.reply == answer(clients, to, reply) && o.travel_to is None && !o.save
}

/// An outcome that does nothing.
pub open spec fn quiet(o: OutcomeView) -> bool {
    o.reply is None && o.travel_to is None && !o.save
}

/// Whether `r` is a client error with the given text.
pub open spec fn client_error<T>(r: Result<T, NetworkError>, text: Seq<char>) -> bool {
    r matches Err(NetworkError::ClientError(m)) && m@ == text
}

/// The answer to an action of the player: success or not, and a message.
pub open spec fn action(success: bool, message: Seq<char>) -> ReplyView {
    ReplyView::Action { success, message }
}

/// The character list sent for an account: each character id with the
/// name "Character-" and the id.
pub open spec fn character_pairs(ids: Seq<Seq<char>>) -> Seq<(Seq<char>, Seq<char>)> {
    ids.map_values(|id: Seq<char>| (id, "Character-"@ + id))
}

/// The answer to a registration from `from`.
pub open spec fn register_answered(
    username: Seq<char>,
    password: Seq<char>,
    email: Option<Seq<char>>,
    from: Seq<char>,
    before: AccountManager,
    after: AccountManager,
    o: OutcomeView,
) -> bool {
    let accounts = before.account_map();
    match o.reply {
        Some((to, ReplyView::RegisterAccount { success, message, account })) => {
            &&& to == from
            &&& !success ==> same_accounts(before, after) && account is None && message
                == "Failed to register account: "@ + account_error_message(
                if accounts.dom().contains(username) {
                    AccountError::UsernameExists
                } else {
                    AccountError::HashingFailed
                },
            )
            &&& success ==> match account {
                None => false,
                Some(a) => {
                    &&& !accounts.dom().contains(username)
                    &&& a.username == username
                    &&& bcrypt_verifies(password, a.password_hash)
                    &&& a.email == email
                    &&& a.characters == Seq::<Seq<char>>::empty()
                    &&& a.last_login is None
                    &&& after.account_map() == accounts.insert(username, a)
                    &&& after.id_map() == before.id_map().insert(a.id, username)
                    &&& message == "Account created successfully! Welcome, "@ + username + "!"@
                },
            }
            &&& o.travel_to is None && !o.save
        },
        _ => false,
    }
}

/// The answer to a login from `from`.
pub open spec fn login_answered(
    username: Seq<char>,
    password: Seq<char>,
    from: Seq<char>,
    before: AccountManager,
    after: AccountManager,
    o: OutcomeView,
) -> bool {
    let accounts = before.account_map();
    &&& after.id_map() == before.id_map()
    &&& o.travel_to is None && !o.save
    &&& if credentials_valid(accounts, username, password) {
        let a = after.account_map()[username];
        &&& a.last_login is Some
        &&& a == logged_in(accounts[username], a.last_login)
        &&& after.account_map() == accounts.insert(username, a)
        &&& o.reply == Some(
            (
                from,
                ReplyView::LoginAccount {
                    success: true,
                    message: "Welcome back, "@ + username + "!"@,
                    account: Some(a),
                    characters: a.characters,
                },
            ),
        )
    } else {
        &&& after.account_map() == accounts
        &&& o.reply == Some(
            (
                from,
                ReplyView::LoginAccount {
                    success: false,
                    message: "Login failed: Invalid credentials"@,
                    account: None,
                    characters: Seq::empty(),
                },
            ),
        )
    }
}

/// The answer to a password change, addressed to `to`.
pub open spec fn password_change_answered(
    to: Seq<char>,
    username: Seq<char>,
    current_password: Seq<char>,
    new_password: Seq<char>,
    clients: Map<Seq<char>, ClientView>,
    before: AccountManager,
    after: AccountManager,
    o: OutcomeView,
) -> bool {
    let accounts = before.account_map();
    &&& after.id_map() == before.id_map()
    &&& o.travel_to is None && !o.save
    &&& if credentials_valid(accounts, username, current_password) {
        let a = after.account_map()[username];
        &&& after.account_map() == accounts.insert(username, a)
        &&& a.last_login is Some
        &&& {
            ||| {
                &&& a == UserAccountView { password_hash: a.password_hash, last_login: a.last_login, ..accounts[username] }
                &&& bcrypt_verifies(new_password, a.password_hash)
                &&& o.reply == answer(
                    clients,
                    to,
                    ReplyView::ChangePassword { success: true, message: "Password changed successfully!"@ },
                )
            }
            ||| {
                &&& a == logged_in(accounts[username], a.last_login)
                &&& o.reply == answer(
                    clients,
                    to,
                    ReplyView::ChangePassword {
                        success: false,
                        message: "Failed to change password: Failed to hash password"@,
                    },
                )
            }
        }
    } else {
        &&& after.account_map() == accounts
        &&& o.reply == answer(
            clients,
            to,
            ReplyView::ChangePassword { success: false, message: "Failed to change password: Invalid credentials"@ },
        )
    }
}

/// The answer to an account deletion, addressed to `to`.
pub open spec fn delete_answered(
    to: Seq<char>,
    username: Seq<char>,
    password: Seq<char>,
    clients: Map<Seq<char>, ClientView>,
    before: AccountManager,
    after: AccountManager,
    o: OutcomeView,
) -> bool {
    let accounts = before.account_map();
    &&& o.travel_to is None && !o.save
    &&& if credentials_valid(accounts, username, password) {
        &&& after.account_map() == accounts.remove(username)
        &&& after.id_map() == before.id_map().remove(accounts[username].id)
        &&& o.reply == answer(
            clients,
            to,
            ReplyView::DeleteAccount { success: true, message: "Account deleted successfully."@ },
        )
    } else {
        &&& same_accounts(before, after)
        &&& o.reply == answer(
            clients,
            to,
            ReplyView::DeleteAccount { success: false, message: "Failed to delete account: Invalid credentials"@ },
        )
    }
}

/// The answer to a character creation, addressed to `to`: the character
/// gets a fresh id.
pub open spec fn create_answered(
    to: Seq<char>,
    account_username: Seq<char>,
    character_name: Seq<char>,
    clients: Map<Seq<char>, ClientView>,
    before: AccountManager,
    after: AccountManager,
    o: OutcomeView,
) -> bool {
    let accounts = before.account_map();
    &&& after.id_map() == before.id_map()
    &&& o.travel_to is None && !o.save
    &&& if accounts.dom().contains(account_username) {
        exists|id: Seq<char>|
            {
                &&& after.account_map() == accounts.insert(
                    account_username,
                    #[trigger] with_character(accounts[account_username], id),
                )
                &&& o.reply == answer(
                    clients,
                    to,
                    ReplyView::CreateCharacter {
                        success: true,
                        message: "Character '"@ + character_name + "' created successfully!"@,
                        character_id: Some(id),
                    },
                )
            }
    } else {
        &&& after.account_map() == accounts
        &&& o.reply == answer(
            clients,
            to,
            ReplyView::CreateCharacter {
                success: false,
                message: "Failed to create character: Account not found"@,
                character_id: None,
            },
        )
    }
}

/// The answer to each message from the connected client `from`, with the
/// clients as they are after hearing from it, the accounts before and
/// after, the free cargo space of the player's ship, and the travel check
/// for a navigation request.
pub open spec fn handled(
    request: Request,
    from: Seq<char>,
    clients: Map<Seq<char>, ClientView>,
    after_clients: Map<Seq<char>, ClientView>,
    before: AccountManager,
    after: AccountManager,
    cargo: u32,
    travel: TravelCheck,
    r: Result<Outcome, NetworkError>,
) -> bool {
    let accounts = before.account_map();
    match request {
        Request::Disconnect { client_id } => {
            &&& after_clients == clients.remove(client_id@)
            &&& same_accounts(before, after)
            &&& r matches Ok(o) && quiet(o@)
        },
        Request::Connect { .. } | Request::Other => {
            &&& after_clients == clients
            &&& same_accounts(before, after)
            &&& client_error(r, "Unhandled message type"@)
        },
        _ => after_clients == clients && match r {
            Err(_) => false,
            Ok(o) => match request {
                Request::Heartbeat { .. } => same_accounts(before, after) && quiet(o@),
                Request::RequestGameState { client_id } => same_accounts(before, after) && only_answer(
                    o@,
                    clients,
                    client_id@,
                    ReplyView::GameState,
                ),
                Request::NavigationAction { client_id, destination_system } => same_accounts(before, after) && match travel {
                    TravelCheck::UnknownSystem => only_answer(
                        o@,
                        clients,
                        client_id@,
                        action(false, "Star system '"@ + destination_system@ + "' not found"@),
                    ),
                    TravelCheck::OutOfRange => only_answer(
                        o@,
                        clients,
                        client_id@,
                        action(false, "Cannot travel to that system - too far away"@),
                    ),
                    TravelCheck::Reachable => {
                        &&& o@.reply == answer(clients, client_id@, action(true, "Traveling to "@ + destination_system@))
                        &&& o@.travel_to == Some(destination_system@)
                        &&& o@.save
                    },
                },
                Request::MiningAction { client_id, resource, quantity } => same_accounts(before, after) && if quantity
                    > cargo {
                    only_answer(
                        o@,
                        clients,
                        client_id@,
                        action(false, "Not enough cargo space. Available: "@ + decimal(cargo as nat)),
                    )
                } else {
                    &&& o@.reply == answer(
                        clients,
                        client_id@,
                        action(
                            true,
                            "Successfully mined "@ + decimal(quantity as nat) + " units of "@ + resource@,
                        ),
                    )
                    &&& o@.travel_to is None && o@.save
                },
                Request::MarketAction { client_id, action_type, item_name, quantity } => {
                    &&& same_accounts(before, after)
                    &&& o@.reply == answer(
                        clients,
                        client_id@,
                        action(
                            true,
                            match action_type {
                                MarketActionType::Buy => "Purchased "@,
                                MarketActionType::Sell => "Sold "@,
                            } + decimal(quantity as nat) + " units of "@ + item_name@,
                        ),
                    )
                    &&& o@.travel_to is None && o@.save
                },
                Request::RegisterAccount { username, password, email } => register_answered(
                    username@,
                    password@,
                    match email {
                        Some(e) => Some(e@),
                        None => None,
                    },
                    from,
                    before,
                    after,
                    o@,
                ),
                Request::LoginAccount { username, password } => login_answered(
                    username@,
                    password@,
                    from,
                    before,
                    after,
                    o@,
                ),
                Request::ChangePassword { client_id, username, current_password, new_password } => password_change_answered(
                    client_id@,
                    username@,
                    current_password@,
                    new_password@,
                    clients,
                    before,
                    after,
                    o@,
                ),
                Request::DeleteAccount { client_id, username, password } => delete_answered(
                    client_id@,
                    username@,
                    password@,
                    clients,
                    before,
                    after,
                    o@,
                ),
                Request::CreateCharacter { client_id, account_username, character_name, .. } => create_answered(
                    client_id@,
                    account_username@,
                    character_name@,
                    clients,
                    before,
                    after,
                    o@,
                ),
                Request::ListCharacters { client_id, account_username } => same_accounts(before, after) && only_answer(
                    o@,
                    clients,
                    client_id@,
                    if accounts.dom().contains(account_username@) {
                        let ids = accounts[account_username@].characters;
                        ReplyView::ListCharacters {
                            success: true,
                            message: "Found "@ + decimal(ids.len()) + " characters"@,
                            characters: character_pairs(ids),
                        }
                    } else {
                        ReplyView::ListCharacters {
                            success: false,
                            message: "Account not found"@,
                            characters: Seq::empty(),
                        }
                    },
                ),
                Request::SelectCharacter { client_id, account_username, character_id } => same_accounts(before, after)
                    && only_answer(
                    o@,
                    clients,
                    client_id@,
                    if !accounts.dom().contains(account_username@) {
                        ReplyView::SelectCharacter { success: false, message: "Account not found"@, with_state: false }
                    } else if !accounts[account_username@].characters.contains(character_id@) {
                        ReplyView::SelectCharacter {
                            success: false,
                            message: "Character not found on this account"@,
                            with_state: false,
                        }
                    } else {
                        ReplyView::SelectCharacter {
                            success: true,
                            message: "Character selected successfully!"@,
                            with_state: true,
                        }
                    },
                ),
                _ => false,
            },
        },
    }
}

fn join2(a: &str, b: &str) -> (s: String)
    ensures
        s@ == a@ + b@,
{
    let mut s = String::from_str(a);
    s.append(b);
    s
}

fn join3(a: &str, b: &str, c: &str) -> (s: String)
    ensures
        s@ == a@ + b@ + c@,
{
    let mut s = String::from_str(a);
    s.append(b);
    s.append(c);
    s
}

impl GameServer {
    /// The connected clients by id.
    pub open spec fn client_map(&self) -> Map<Seq<char>, ClientView> {
        as_map(entries_view(self.clients@))
    }

    /// Each client is listed once and the accounts are well formed.
    pub open spec fn wf(&self) -> bool {
        keys_unique(entries_view(self.clients@)) && self.accounts.wf()
    }

    /// A server with no clients, the given accounts, and the password, if
    /// any, kept as its bcrypt hash. Fails with `HashingFailed` when the
    /// hash cannot be made.
    pub fn new(password: Option<&str>, accounts: AccountManager) -> (r: Result<GameServer, AccountError>)
        requires
            accounts.wf(),
        ensures
            match r {
                Ok(s) => {
                    &&& s.wf()
                    &&& s.client_map() == Map::<Seq<char>, ClientView>::empty()
                    &&& same_accounts(s.accounts, accounts)
                    &&& match password {
                        None => s.password is None,
                        Some(p) => s.password matches Some(h) && bcrypt_verifies(p@, h@),
                    }
                },
                Err(e) => password is Some && e == AccountError::HashingFailed,
            },
    {
        let hashed = match password {
            None => None,
            Some(p) => match bcrypt_hash(p) {
                Ok(h) => Some(h),
                Err(_) => {
                    return Err(AccountError::HashingFailed);
                },
            },
        };
        let s = GameServer { clients: Vec::new(), accounts, password: hashed };
        assert(s.client_map() =~= Map::<Seq<char>, ClientView>::empty());
        Ok(s)
    }

    /// The answer `reply` addressed to `to`, if that client is connected.
    fn address(&self, to: &str, reply: Reply) -> (r: Option<(String, Reply)>)
        ensures
            match r {
                Some((t, rep)) => self.client_map().dom().contains(to@) && t@ == to@ && rep@ == reply@,
                None => !self.client_map().dom().contains(to@),
            },
    {
        proof {
            lemma_index_of_key(entries_view(self.clients@), to@);
        }
        match find_key(&self.clients, to) {
            Some(_) => Some((String::from_str(to), reply)),
            None => None,
        }
    }

    /// Registers the client `id` as `username`, heard from at `now`.
    fn register_client(&mut self, id: &str, username: &str, now: u64)
        requires
            old(self).wf(),
        ensures
            final(self).wf(),
            final(self).client_map() == old(self).client_map().insert(
                id@,
                ClientView { username: username@, last_heartbeat: now },
            ),
            final(self).accounts == old(self).accounts,
            final(self).password == old(self).password,
    {
        upsert(&mut self.clients, String::from_str(id), ClientInfo { username: String::from_str(username), last_heartbeat: now });
    }

    /// Opens a connection from its first message. A `Connect` is accepted
    /// when the server has no password or the password given matches it;
    /// the client is registered and welcomed. A `RegisterAccount` or
    /// `LoginAccount` registers the client under a fresh id (and the name
    /// "registration" or "login"); that message is then handled by
    /// `process_message`. Anything else is rejected.
    pub fn open_connection(&mut self, first: &Request, now: u64) -> (r: Opening)
        requires
            old(self).wf(),
        ensures
            final(self).wf(),
            final(self).accounts == old(self).accounts,
            final(self).password == old(self).password,
            match *first {
                Request::Connect { client_id, username, password } => {
                    let allowed = match old(self).password {
                        None => true,
                        Some(h) => password matches Some(p) && bcrypt_verifies(p@, h@),
                    };
                    if allowed {
                        &&& final(self).client_map() == old(self).client_map().insert(
                            client_id@,
                            ClientView { username: username@, last_heartbeat: now },
                        )
                        &&& r matches Opening::Connected { client_id: id, reply } && id@ == client_id@ && reply@
                            == (ReplyView::Connect {
                            success: true,
                            message: "Welcome to ASTR, "@ + username@ + "!"@,
                            with_state: true,
                        })
                    } else {
                        &&& final(self).client_map() == old(self).client_map()
                        &&& r matches Opening::Refused { reply, error } && reply@ == (ReplyView::Connect {
                            success: false,
                            message: "Invalid password"@,
                            with_state: false,
                        }) && (error matches NetworkError::AuthError(m) && m@ == "Invalid password"@)
                    }
                },
                Request::RegisterAccount { .. } | Request::LoginAccount { .. } => {
                    let name = if first is RegisterAccount {
                        "registration"@
                    } else {
                        "login"@
                    };
                    r matches Opening::Pending { client_id: id } && final(self).client_map()
                        == old(self).client_map().insert(id@, ClientView { username: name, last_heartbeat: now })
                },
                _ => {
                    &&& final(self).client_map() == old(self).client_map()
                    &&& r matches Opening::Rejected { error } && (error matches NetworkError::ConnectionError(m) && m@
                        == "Expected Connect, RegisterAccount, or LoginAccount message"@)
                },
            },
    {
        match first {
            Request::Connect { client_id, username, password } => {
                let allowed = match &self.password {
                    None => true,
                    Some(h) => match password {
                        Some(p) => match bcrypt_verify(p.as_str(), h.as_str()) {
                            Ok(b) => b,
                            Err(_) => false,
                        },
                        None => false,
                    },
                };
                if allowed {
                    self.register_client(client_id.as_str(), username.as_str(), now);
                    let message = join3("Welcome to ASTR, ", username.as_str(), "!");
                    Opening::Connected {
                        client_id: client_id.clone(),
                        reply: Reply::Connect { success: true, message, with_state: true },
                    }
                } else {
                    Opening::Refused {
                        reply: Reply::Connect {
                            success: false,
                            message: String::from_str("Invalid password"),
                            with_state: false,
                        },
                        error: NetworkError::AuthError(String::from_str("Invalid password")),
                    }
                }
            },
            Request::RegisterAccount { .. } => {
                let id = new_uuid_string();
                self.register_client(id.as_str(), "registration", now);
                Opening::Pending { client_id: id }
            },
            Request::LoginAccount { .. } => {
                let id = new_uuid_string();
                self.register_client(id.as_str(), "login", now);
                Opening::Pending { client_id: id }
            },
            _ => Opening::Rejected {
                error: NetworkError::ConnectionError(
                    String::from_str("Expected Connect, RegisterAccount, or LoginAccount message"),
                ),
            },
        }
    }

    /// Drops the clients not heard from for longer than the connection
    /// timeout, as of `now`; returns their names.
    pub fn remove_timed_out(&mut self, now: u64) -> (gone: Vec<String>)
        requires
            old(self).wf(),
        ensures
            final(self).wf(),
            final(self).accounts == old(self).accounts,
            final(self).password == old(self).password,
            forall|id: Seq<char>| #[trigger]
                final(self).client_map().dom().contains(id) == (old(self).client_map().dom().contains(id)
                    && still_connected(old(self).client_map()[id], now)),
            forall|id: Seq<char>|
                final(self).client_map().dom().contains(id) ==> #[trigger] final(self).client_map()[id] == old(
                    self,
                ).client_map()[id],
            strings_view(gone@) == entries_view(old(self).clients@).filter(
                |e: (Seq<char>, ClientView)| now > e.1.last_heartbeat + CONNECTION_TIMEOUT_MILLIS,
            ).map_values(|e: (Seq<char>, ClientView)| e.1.username),
    {
        let ghost start = entries_view(self.clients@);
        let mut kept: Vec<(String, ClientInfo)> = Vec::new();
        let mut gone: Vec<String> = Vec::new();
        let mut i: usize = 0;
        while i < self.clients.len()
            invariant
                i <= self.clients@.len(),
                start == entries_view(self.clients@),
                keys_unique(start),
                entries_view(kept@) == start.take(i as int).filter(
                    |e: (Seq<char>, ClientView)| !(now > e.1.last_heartbeat + CONNECTION_TIMEOUT_MILLIS),
                ),
                strings_view(gone@) == start.take(i as int).filter(
                    |e: (Seq<char>, ClientView)| now > e.1.last_heartbeat + CONNECTION_TIMEOUT_MILLIS,
                ).map_values(|e: (Seq<char>, ClientView)| e.1.username),
            decreases self.clients@.len() - i,
        {
            let ghost prev_kept = entries_view(kept@);
            let ghost prev_gone = strings_view(gone@);
            let ghost e = start[i as int];
            assert(start.take(i as int + 1) =~= start.take(i as int).push(e));
            let last = self.clients[i].1.last_heartbeat;
            if now > last && now - last > CONNECTION_TIMEOUT_MILLIS {
                gone.push(self.clients[i].1.username.clone());
                proof {
                    start.take(i as int).lemma_filter_push(
                        e,
                        |e: (Seq<char>, ClientView)| now > e.1.last_heartbeat + CONNECTION_TIMEOUT_MILLIS,
                    );
                    start.take(i as int).lemma_filter_push(
                        e,
                        |e: (Seq<char>, ClientView)| !(now > e.1.last_heartbeat + CONNECTION_TIMEOUT_MILLIS),
                    );
                    assert(strings_view(gone@) =~= prev_gone.push(e.1.username));
                }
            } else {
                kept.push((self.clients[i].0.clone(), ClientInfo {
                    username: self.clients[i].1.username.clone(),
                    last_heartbeat: last,
                }));
                proof {
                    start.take(i as int).lemma_filter_push(
                        e,
                        |e: (Seq<char>, ClientView)| now > e.1.last_heartbeat + CONNECTION_TIMEOUT_MILLIS,
                    );
                    start.take(i as int).lemma_filter_push(
                        e,
                        |e: (Seq<char>, ClientView)| !(now > e.1.last_heartbeat + CONNECTION_TIMEOUT_MILLIS),
                    );
                    assert(entries_view(kept@) =~= prev_kept.push(e));
                }
            }
            i = i + 1;
        }
        proof {
            assert(start.take(i as int) =~= start);
            lemma_filter_as_map(
                start,
                |e: (Seq<char>, ClientView)| !(now > e.1.last_heartbeat + CONNECTION_TIMEOUT_MILLIS),
            );
        }
        self.clients = kept;
        gone
    }
}

impl GameServer {
    fn navigation_outcome(&self, to: &str, destination: &str, travel: TravelCheck) -> (o: Outcome)
        ensures
            match travel {
                TravelCheck::UnknownSystem => only_answer(
                    o@,
                    self.client_map(),
                    to@,
                    action(false, "Star system '"@ + destination@ + "' not found"@),
                ),
                TravelCheck::OutOfRange => only_answer(
                    o@,
                    self.client_map(),
                    to@,
                    action(false, "Cannot travel to that system - too far away"@),
                ),
                TravelCheck::Reachable => {
                    &&& o@.reply == answer(self.client_map(), to@, action(true, "Traveling to "@ + destination@))
                    &&& o@.travel_to == Some(destination@)
                    &&& o@.save
                },
            },
    {
        match travel {
            TravelCheck::UnknownSystem => {
                let message = join3("Star system '", destination, "' not found");
                Outcome { reply: self.address(to, Reply::Action { success: false, message }), travel_to: None, save: false }
            },
            TravelCheck::OutOfRange => {
                let message = String::from_str("Cannot travel to that system - too far away");
                Outcome { reply: self.address(to, Reply::Action { success: false, message }), travel_to: None, save: false }
            },
            TravelCheck::Reachable => {
                let message = join2("Traveling to ", destination);
                Outcome {
                    reply: self.address(to, Reply::Action { success: true, message }),
                    travel_to: Some(String::from_str(destination)),
                    save: true,
                }
            },
        }
    }

    fn mining_outcome(&self, to: &str, resource: &str, quantity: u32, cargo: u32) -> (o: Outcome)
        ensures
            if quantity > cargo {
                only_answer(
                    o@,
                    self.client_map(),
                    to@,
                    action(false, "Not enough cargo space. Available: "@ + decimal(cargo as nat)),
                )
            } else {
                &&& o@.reply == answer(
                    self.client_map(),
                    to@,
                    action(true, "Successfully mined "@ + decimal(quantity as nat) + " units of "@ + resource@),
                )
                &&& o@.travel_to is None && o@.save
            },
    {
        if quantity > cargo {
            let d = u64_to_decimal(cargo as u64);
            let message = join2("Not enough cargo space. Available: ", d.as_str());
            Outcome { reply: self.address(to, Reply::Action { success: false, message }), travel_to: None, save: false }
        } else {
            let d = u64_to_decimal(quantity as u64);
            let mut message = join3("Successfully mined ", d.as_str(), " units of ");
            message.append(resource);
            Outcome { reply: self.address(to, Reply::Action { success: true, message }), travel_to: None, save: true }
        }
    }

    fn market_outcome(&self, to: &str, action_type: MarketActionType, item_name: &str, quantity: u32) -> (o: Outcome)
        ensures
            o@.reply == answer(
                self.client_map(),
                to@,
                action(
                    true,
                    match action_type {
                        MarketActionType::Buy => "Purchased "@,
                        MarketActionType::Sell => "Sold "@,
                    } + decimal(quantity as nat) + " units of "@ + item_name@,
                ),
            ),
            o@.travel_to is None && o@.save,
    {
        let head = match action_type {
            MarketActionType::Buy => "Purchased ",
            MarketActionType::Sell => "Sold ",
        };
        let d = u64_to_decimal(quantity as u64);
        let mut message = join3(head, d.as_str(), " units of ");
        message.append(item_name);
        Outcome { reply: self.address(to, Reply::Action { success: true, message }), travel_to: None, save: true }
    }

    fn list_outcome(&self, to: &str, account_username: &str) -> (o: Outcome)
        requires
            self.accounts.wf(),
        ensures
            only_answer(
                o@,
                self.client_map(),
                to@,
                if self.accounts.account_map().dom().contains(account_username@) {
                    let ids = self.accounts.account_map()[account_username@].characters;
                    ReplyView::ListCharacters {
                        success: true,
                        message: "Found "@ + decimal(ids.len()) + " characters"@,
                        characters: character_pairs(ids),
                    }
                } else {
                    ReplyView::ListCharacters { success: false, message: "Account not found"@, characters: Seq::empty() }
                },
            ),
    {
        match self.accounts.get_account_by_username(account_username) {
            None => {
                let characters: Vec<(String, String)> = Vec::new();
                assert(crate::network::protocol::pairs_view(characters@) =~= Seq::<(Seq<char>, Seq<char>)>::empty());
                let reply = Reply::ListCharacters {
                    success: false,
                    message: String::from_str("Account not found"),
                    characters,
                };
                Outcome { reply: self.address(to, reply), travel_to: None, save: false }
            },
            Some(account) => {
                let ghost ids = strings_view(account.characters@);
                let mut characters: Vec<(String, String)> = Vec::new();
                let mut i: usize = 0;
                while i < account.characters.len()
                    invariant
                        i <= account.characters@.len(),
                        ids == strings_view(account.characters@),
                        crate::network::protocol::pairs_view(characters@) == character_pairs(ids.take(i as int)),
                    decreases account.characters@.len() - i,
                {
                    let ghost before = crate::network::protocol::pairs_view(characters@);
                    let id = account.characters[i].clone();
                    let name = join2("Character-", id.as_str());
                    characters.push((id, name));
                    assert(ids.take(i as int + 1) =~= ids.take(i as int).push(ids[i as int]));
                    assert(crate::network::protocol::pairs_view(characters@) =~= before.push(
                        (ids[i as int], "Character-"@ + ids[i as int]),
                    ));
                    assert(character_pairs(ids.take(i as int + 1)) =~= character_pairs(ids.take(i as int)).push(
                        (ids[i as int], "Character-"@ + ids[i as int]),
                    ));
                    i = i + 1;
                }
                assert(ids.take(i as int) =~= ids);
                let n = u64_to_decimal(account.characters.len() as u64);
                let message = join3("Found ", n.as_str(), " characters");
                let reply = Reply::ListCharacters { success: true, message, characters };
                Outcome { reply: self.address(to, reply), travel_to: None, save: false }
            },
        }
    }

    fn select_outcome(&self, to: &str, account_username: &str, character_id: &str) -> (o: Outcome)
        ensures
            only_answer(
                o@,
                self.client_map(),
                to@,
                if !self.accounts.account_map().dom().contains(account_username@) {
                    ReplyView::SelectCharacter { success: false, message: "Account not found"@, with_state: false }
                } else if !self.accounts.account_map()[account_username@].characters.contains(character_id@) {
                    ReplyView::SelectCharacter {
                        success: false,
                        message: "Character not found on this account"@,
                        with_state: false,
                    }
                } else {
                    ReplyView::SelectCharacter {
                        success: true,
                        message: "Character selected successfully!"@,
                        with_state: true,
                    }
                },
            ),
    {
        let reply = match self.accounts.get_account_by_username(account_username) {
            None => Reply::SelectCharacter {
                success: false,
                message: String::from_str("Account not found"),
                with_state: false,
            },
            Some(account) => {
                if !crate::text::strings_contain(&account.characters, character_id) {
                    Reply::SelectCharacter {
                        success: false,
                        message: String::from_str("Character not found on this account"),
                        with_state: false,
                    }
                } else {
                    Reply::SelectCharacter {
                        success: true,
                        message: String::from_str("Character selected successfully!"),
                        with_state: true,
                    }
                }
            },
        };
        Outcome { reply: self.address(to, reply), travel_to: None, save: false }
    }
}

impl GameServer {
    fn register_outcome(&mut self, from: &str, username: &str, password: &str, email: &Option<String>) -> (o: Outcome)
        requires
            old(self).wf(),
        ensures
            final(self).wf(),
            final(self).clients == old(self).clients,
            final(self).password == old(self).password,
            register_answered(
                username@,
                password@,
                crate::text::opt_string_view(*email),
                from@,
                old(self).accounts,
                final(self).accounts,
                o@,
            ),
    {
        let email_str: Option<&str> = match email {
            Some(e) => Some(e.as_str()),
            None => None,
        };
        let reply = match self.accounts.register_account(username, password, email_str) {
            Ok(account) => {
                let message = join3("Account created successfully! Welcome, ", username, "!");
                Reply::RegisterAccount { success: true, message, account: Some(account) }
            },
            Err(e) => {
                let m = e.message();
                let message = join2("Failed to register account: ", m.as_str());
                Reply::RegisterAccount { success: false, message, account: None }
            },
        };
        Outcome { reply: Some((String::from_str(from), reply)), travel_to: None, save: false }
    }

    fn login_outcome(&mut self, from: &str, username: &str, password: &str) -> (o: Outcome)
        requires
            old(self).wf(),
        ensures
            final(self).wf(),
            final(self).clients == old(self).clients,
            final(self).password == old(self).password,
            login_answered(username@, password@, from@, old(self).accounts, final(self).accounts, o@),
    {
        let reply = match self.accounts.authenticate(username, password) {
            Ok(account) => {
                let characters = crate::text::copy_strings(&account.characters);
                let message = join3("Welcome back, ", username, "!");
                Reply::LoginAccount { success: true, message, account: Some(account), characters }
            },
            Err(e) => {
                let m = e.message();
                proof {
                    reveal_strlit("Login failed: ");
                    reveal_strlit("Invalid credentials");
                    reveal_strlit("Login failed: Invalid credentials");
                    assert("Login failed: "@ + "Invalid credentials"@ =~= "Login failed: Invalid credentials"@);
                }
                let message = join2("Login failed: ", m.as_str());
                let characters: Vec<String> = Vec::new();
                assert(strings_view(characters@) =~= Seq::<Seq<char>>::empty());
                Reply::LoginAccount { success: false, message, account: None, characters }
            },
        };
        Outcome { reply: Some((String::from_str(from), reply)), travel_to: None, save: false }
    }

    fn password_change_outcome(&mut self, to: &str, username: &str, current_password: &str, new_password: &str) -> (o:
        Outcome)
        requires
            old(self).wf(),
        ensures
            final(self).wf(),
            final(self).clients == old(self).clients,
            final(self).password == old(self).password,
            password_change_answered(
                to@,
                username@,
                current_password@,
                new_password@,
                old(self).client_map(),
                old(self).accounts,
                final(self).accounts,
                o@,
            ),
    {
        let reply = match self.accounts.change_password(username, current_password, new_password) {
            Ok(()) => Reply::ChangePassword { success: true, message: String::from_str("Password changed successfully!") },
            Err(e) => {
                let m = e.message();
                proof {
                    reveal_strlit("Failed to change password: ");
                    reveal_strlit("Invalid credentials");
                    reveal_strlit("Failed to hash password");
                    reveal_strlit("Failed to change password: Invalid credentials");
                    reveal_strlit("Failed to change password: Failed to hash password");
                    assert("Failed to change password: "@ + "Invalid credentials"@ =~= "Failed to change password: Invalid credentials"@);
                    assert("Failed to change password: "@ + "Failed to hash password"@ =~= "Failed to change password: Failed to hash password"@);
                }
                let message = join2("Failed to change password: ", m.as_str());
                Reply::ChangePassword { success: false, message }
            },
        };
        Outcome { reply: self.address(to, reply), travel_to: None, save: false }
    }

    fn delete_outcome(&mut self, to: &str, username: &str, password: &str) -> (o: Outcome)
        requires
            old(self).wf(),
        ensures
            final(self).wf(),
            final(self).clients == old(self).clients,
            final(self).password == old(self).password,
            delete_answered(to@, username@, password@, old(self).client_map(), old(self).accounts, final(self).accounts, o@),
    {
        let reply = match self.accounts.delete_account(username, password) {
            Ok(()) => Reply::DeleteAccount { success: true, message: String::from_str("Account deleted successfully.") },
            Err(e) => {
                let m = e.message();
                proof {
                    reveal_strlit("Failed to delete account: ");
                    reveal_strlit("Invalid credentials");
                    reveal_strlit("Failed to delete account: Invalid credentials");
                    assert("Failed to delete account: "@ + "Invalid credentials"@ =~= "Failed to delete account: Invalid credentials"@);
                }
                let message = join2("Failed to delete account: ", m.as_str());
                Reply::DeleteAccount { success: false, message }
            },
        };
        Outcome { reply: self.address(to, reply), travel_to: None, save: false }
    }

    fn create_outcome(&mut self, to: &str, account_username: &str, character_name: &str) -> (o: Outcome)
        requires
            old(self).wf(),
        ensures
            final(self).wf(),
            final(self).clients == old(self).clients,
            final(self).password == old(self).password,
            create_answered(
                to@,
                account_username@,
                character_name@,
                old(self).client_map(),
                old(self).accounts,
                final(self).accounts,
                o@,
            ),
    {
        let character_id = new_uuid_string();
        match self.accounts.add_character(account_username, character_id.as_str()) {
            Err(e) => {
                let m = e.message();
                proof {
                    reveal_strlit("Failed to create character: ");
                    reveal_strlit("Account not found");
                    reveal_strlit("Failed to create character: Account not found");
                    assert("Failed to create character: "@ + "Account not found"@ =~= "Failed to create character: Account not found"@);
                }
                let message = join2("Failed to create character: ", m.as_str());
                let reply = Reply::CreateCharacter { success: false, message, character_id: None };
                Outcome { reply: self.address(to, reply), travel_to: None, save: false }
            },
            Ok(()) => {
                let message = join3("Character '", character_name, "' created successfully!");
                let ghost id = character_id@;
                let reply = Reply::CreateCharacter { success: true, message, character_id: Some(character_id) };
                let o = Outcome { reply: self.address(to, reply), travel_to: None, save: false };
                assert(self.accounts.account_map() == old(self).accounts.account_map().insert(
                    account_username@,
                    with_character(old(self).accounts.account_map()[account_username@], id),
                ));
                o
            },
        }
    }

    /// Handles a message from the connected client `client_id` at time
    /// `now`: the client counts as heard from, then the message is answered.
    /// `ship` is the player's ship and `travel` the distance check for the
    /// system a navigation request names. A client that is not connected
    /// gets a "Client not found" error and nothing changes; a message that
    /// only a server sends gets an "Unhandled message type" error.
    pub fn process_message(&mut self, client_id: &str, request: Request, now: u64, ship: &Ship, travel: TravelCheck) -> (r:
        Result<Outcome, NetworkError>)
        requires
            old(self).wf(),
        ensures
            final(self).wf(),
            final(self).password == old(self).password,
            !old(self).client_map().dom().contains(client_id@) ==> {
                &&& client_error(r, "Client not found"@)
                &&& final(self).client_map() == old(self).client_map()
                &&& same_accounts(old(self).accounts, final(self).accounts)
            },
            old(self).client_map().dom().contains(client_id@) ==> handled(
                request,
                client_id@,
                heard(old(self).client_map(), client_id@, now),
                final(self).client_map(),
                old(self).accounts,
                final(self).accounts,
                ship.cargo_capacity,
                travel,
                r,
            ),
    {
        let i = match find_key(&self.clients, client_id) {
            Some(i) => i,
            None => {
                proof {
                    lemma_index_of_key(entries_view(self.clients@), client_id@);
                }
                return Err(NetworkError::ClientError(String::from_str("Client not found")));
            },
        };
        proof {
            lemma_index_of_key(entries_view(self.clients@), client_id@);
        }
        let username = self.clients[i].1.username.clone();
        upsert(&mut self.clients, String::from_str(client_id), ClientInfo { username, last_heartbeat: now });
        assert(self.client_map() =~= heard(old(self).client_map(), client_id@, now));
        match request {
            Request::Heartbeat { .. } => Ok(Outcome { reply: None, travel_to: None, save: false }),
            Request::RequestGameState { client_id: to } => Ok(
                Outcome { reply: self.address(to.as_str(), Reply::GameState), travel_to: None, save: false },
            ),
            Request::NavigationAction { client_id: to, destination_system } => Ok(
                self.navigation_outcome(to.as_str(), destination_system.as_str(), travel),
            ),
            Request::MiningAction { client_id: to, resource, quantity } => {
                let cargo = ship.get_cargo_space_available();
                Ok(self.mining_outcome(to.as_str(), resource.as_str(), quantity, cargo))
            },
            Request::MarketAction { client_id: to, action_type, item_name, quantity } => Ok(
                self.market_outcome(to.as_str(), action_type, item_name.as_str(), quantity),
            ),
            Request::RegisterAccount { username, password, email } => Ok(
                self.register_outcome(client_id, username.as_str(), password.as_str(), &email),
            ),
            Request::LoginAccount { username, password } => Ok(
                self.login_outcome(client_id, username.as_str(), password.as_str()),
            ),
            Request::ChangePassword { client_id: to, username, current_password, new_password } => Ok(
                self.password_change_outcome(
                    to.as_str(),
                    username.as_str(),
                    current_password.as_str(),
                    new_password.as_str(),
                ),
            ),
            Request::DeleteAccount { client_id: to, username, password } => Ok(
                self.delete_outcome(to.as_str(), username.as_str(), password.as_str()),
            ),
            Request::CreateCharacter { client_id: to, account_username, character_name, .. } => Ok(
                self.create_outcome(to.as_str(), account_username.as_str(), character_name.as_str()),
            ),
            Request::ListCharacters { client_id: to, account_username } => Ok(
                self.list_outcome(to.as_str(), account_username.as_str()),
            ),
            Request::SelectCharacter { client_id: to, account_username, character_id } => Ok(
                self.select_outcome(to.as_str(), account_username.as_str(), character_id.as_str()),
            ),
            Request::Disconnect { client_id: gone } => {
                remove_key(&mut self.clients, gone.as_str());
                Ok(Outcome { reply: None, travel_to: None, save: false })
            },
            Request::Connect { .. } | Request::Other => Err(
                NetworkError::ClientError(String::from_str("Unhandled message type")),
            ),
        }
    }
}

/// The message a client gets when its message could not be handled: code
/// 500 and "Server error: " followed by the error's text.
pub fn error_reply(e: &NetworkError) -> (r: Reply)
    ensures
        r@ == (ReplyView::Error { code: 500, message: "Server error: "@ + network_error_text(*e) }),
{
    let m = e.message();
    Reply::Error { code: 500, message: join2("Server error: ", m.as_str()) }
}

/// A client just heard from stays connected until the connection timeout
/// has passed.
pub proof fn law_heard_client_stays(clients: Map<Seq<char>, ClientView>, id: Seq<char>, heard_at: u64, now: u64)
    requires
        clients.dom().contains(id),
        now <= heard_at + CONNECTION_TIMEOUT_MILLIS,
    ensures
        heard(clients, id, heard_at).dom().contains(id),
        still_connected(heard(clients, id, heard_at)[id], now),
{
}

/// A registration the server answers with success leaves an account that
/// the password given opens.
pub proof fn law_registered_account_opens(
    username: Seq<char>,
    password: Seq<char>,
    email: Option<Seq<char>>,
    from: Seq<char>,
    before: AccountManager,
    after: AccountManager,
    o: OutcomeView,
)
    requires
        register_answered(username, password, email, from, before, after, o),
        o.reply matches Some((_, ReplyView::RegisterAccount { success: true, .. })),
    ensures
        credentials_valid(after.account_map(), username, password),
{
}

} // verus!
