use space_trader::models::account::AccountManager;
use space_trader::models::ship::{Ship, ShipType};
use space_trader::network::client::{navigation_answered, GameClient};
use space_trader::network::error::NetworkError;
use space_trader::network::protocol::{MarketActionType, Reply, Request, DEFAULT_SERVER_PORT};
use space_trader::network::server::{error_reply, GameServer, Opening, TravelCheck};

fn scout() -> Ship {
    Ship::default("Rustbucket", ShipType::Scout)
}

fn connected_server() -> GameServer {
    let mut s = GameServer::new(None, AccountManager::new()).unwrap();
    let first = Request::Connect { client_id: "c1".to_string(), username: "ann".to_string(), password: None };
    match s.open_connection(&first, 1_000) {
        Opening::Connected { client_id, reply } => {
            assert_eq!(client_id, "c1");
            match reply {
                Reply::Connect { success, message, with_state } => {
                    assert!(success);
                    assert!(with_state);
                    assert_eq!(message, "Welcome to ASTR, ann!");
                }
                other => panic!("unexpected {:?}", other),
            }
        }
        other => panic!("unexpected {:?}", other),
    }
    s
}

fn action_of(r: Result<space_trader::network::server::Outcome, NetworkError>) -> (String, bool, String, bool) {
    let o = r.unwrap();
    let (to, reply) = o.reply.unwrap();
    match reply {
        Reply::Action { success, message } => (to, success, message, o.save),
        other => panic!("unexpected {:?}", other),
    }
}

#[test]
fn wrong_password_is_refused() {
    let mut s = GameServer::new(Some("secret"), AccountManager::new()).unwrap();
    let first = Request::Connect { client_id: "c1".to_string(), username: "ann".to_string(), password: Some("nope".to_string()) };
    match s.open_connection(&first, 0) {
        Opening::Refused { reply, error } => {
            assert_eq!(error, NetworkError::AuthError("Invalid password".to_string()));
            match reply {
                Reply::Connect { success, message, .. } => {
                    assert!(!success);
                    assert_eq!(message, "Invalid password");
                }
                other => panic!("unexpected {:?}", other),
            }
        }
        other => panic!("unexpected {:?}", other),
    }
    assert!(s.clients.is_empty());
    let good = Request::Connect { client_id: "c1".to_string(), username: "ann".to_string(), password: Some("secret".to_string()) };
    assert!(matches!(s.open_connection(&good, 0), Opening::Connected { .. }));
    assert_eq!(s.clients.len(), 1);
}

#[test]
fn first_message_must_open_a_session() {
    let mut s = GameServer::new(None, AccountManager::new()).unwrap();
    match s.open_connection(&Request::Heartbeat { client_id: "x".to_string() }, 0) {
        Opening::Rejected { error } => assert_eq!(
            error,
            NetworkError::ConnectionError("Expected Connect, RegisterAccount, or LoginAccount message".to_string())
        ),
        other => panic!("unexpected {:?}", other),
    }
    let reg = Request::RegisterAccount { username: "bob".to_string(), password: "pw".to_string(), email: None };
    match s.open_connection(&reg, 5) {
        Opening::Pending { client_id } => {
            let info = &s.clients.iter().find(|(k, _)| *k == client_id).unwrap().1;
            assert_eq!(info.username, "registration");
            assert_eq!(info.last_heartbeat, 5);
        }
        other => panic!("unexpected {:?}", other),
    }
}

#[test]
fn unknown_clients_and_unhandled_messages() {
    let mut s = connected_server();
    let r = s.process_message("ghost", Request::Heartbeat { client_id: "ghost".to_string() }, 2_000, &scout(), TravelCheck::Reachable);
    assert_eq!(r.unwrap_err(), NetworkError::ClientError("Client not found".to_string()));
    let r = s.process_message("c1", Request::Other, 2_000, &scout(), TravelCheck::Reachable);
    assert_eq!(r.unwrap_err(), NetworkError::ClientError("Unhandled message type".to_string()));
    assert_eq!(s.clients[0].1.last_heartbeat, 2_000);
}

#[test]
fn navigation_answers_follow_the_travel_check() {
    let mut s = connected_server();
    let nav = |d: &str| Request::NavigationAction { client_id: "c1".to_string(), destination_system: d.to_string() };
    let (to, ok, msg, save) = action_of(s.process_message("c1", nav("vega"), 1, &scout(), TravelCheck::UnknownSystem));
    assert_eq!((to.as_str(), ok, msg.as_str(), save), ("c1", false, "Star system 'vega' not found", false));
    let (_, ok, msg, _) = action_of(s.process_message("c1", nav("vega"), 2, &scout(), TravelCheck::OutOfRange));
    assert_eq!((ok, msg.as_str()), (false, "Cannot travel to that system - too far away"));
    let o = s.process_message("c1", nav("vega"), 3, &scout(), TravelCheck::Reachable).unwrap();
    assert_eq!(o.travel_to, Some("vega".to_string()));
    assert!(o.save);
    match o.reply.unwrap().1 {
        Reply::Action { success, message } => {
            assert!(success);
            assert_eq!(message, "Traveling to vega");
        }
        other => panic!("unexpected {:?}", other),
    }
}

#[test]
fn mining_and_market_answers() {
    let mut s = connected_server();
    let mine = |q: u32| Request::MiningAction { client_id: "c1".to_string(), resource: "Iron".to_string(), quantity: q };
    let (_, ok, msg, save) = action_of(s.process_message("c1", mine(25), 1, &scout(), TravelCheck::Reachable));
    assert_eq!((ok, msg.as_str(), save), (false, "Not enough cargo space. Available: 20", false));
    let (_, ok, msg, save) = action_of(s.process_message("c1", mine(20), 1, &scout(), TravelCheck::Reachable));
    assert_eq!((ok, msg.as_str(), save), (true, "Successfully mined 20 units of Iron", true));
    let buy = Request::MarketAction {
        client_id: "c1".to_string(),
        action_type: MarketActionType::Buy,
        item_name: "Water".to_string(),
        quantity: 3,
    };
    let (_, ok, msg, _) = action_of(s.process_message("c1", buy, 1, &scout(), TravelCheck::Reachable));
    assert_eq!((ok, msg.as_str()), (true, "Purchased 3 units of Water"));
    let sell = Request::MarketAction {
        client_id: "c1".to_string(),
        action_type: MarketActionType::Sell,
        item_name: "Water".to_string(),
        quantity: 2,
    };
    let (_, _, msg, _) = action_of(s.process_message("c1", sell, 1, &scout(), TravelCheck::Reachable));
    assert_eq!(msg, "Sold 2 units of Water");
}

#[test]
fn replies_go_only_to_connected_clients() {
    let mut s = connected_server();
    let r = s.process_message("c1", Request::RequestGameState { client_id: "other".to_string() }, 1, &scout(), TravelCheck::Reachable);
    assert!(r.unwrap().reply.is_none());
    let r = s.process_message("c1", Request::RequestGameState { client_id: "c1".to_string() }, 1, &scout(), TravelCheck::Reachable);
    assert!(matches!(r.unwrap().reply, Some((_, Reply::GameState))));
}

#[test]
fn accounts_through_the_server() {
    let mut s = connected_server();
    let reg = Request::RegisterAccount { username: "bob".to_string(), password: "pw".to_string(), email: Some("b@x".to_string()) };
    match s.process_message("c1", reg, 1, &scout(), TravelCheck::Reachable).unwrap().reply.unwrap().1 {
        Reply::RegisterAccount { success, message, account } => {
            assert!(success);
            assert_eq!(message, "Account created successfully! Welcome, bob!");
            assert_eq!(account.unwrap().email, Some("b@x".to_string()));
        }
        other => panic!("unexpected {:?}", other),
    }
    let again = Request::RegisterAccount { username: "bob".to_string(), password: "x".to_string(), email: None };
    match s.process_message("c1", again, 1, &scout(), TravelCheck::Reachable).unwrap().reply.unwrap().1 {
        Reply::RegisterAccount { success, message, .. } => {
            assert!(!success);
            assert_eq!(message, "Failed to register account: Username already exists");
        }
        other => panic!("unexpected {:?}", other),
    }
    let bad = Request::LoginAccount { username: "bob".to_string(), password: "wrong".to_string() };
    match s.process_message("c1", bad, 1, &scout(), TravelCheck::Reachable).unwrap().reply.unwrap().1 {
        Reply::LoginAccount { success, message, account, characters } => {
            assert!(!success);
            assert_eq!(message, "Login failed: Invalid credentials");
            assert!(account.is_none());
            assert!(characters.is_empty());
        }
        other => panic!("unexpected {:?}", other),
    }
    let create = Request::CreateCharacter {
        client_id: "c1".to_string(),
        account_username: "bob".to_string(),
        character_name: "Zed".to_string(),
        faction_type: 0,
        storyline_id: "s".to_string(),
    };
    let id = match s.process_message("c1", create, 1, &scout(), TravelCheck::Reachable).unwrap().reply.unwrap().1 {
        Reply::CreateCharacter { success, message, character_id } => {
            assert!(success);
            assert_eq!(message, "Character 'Zed' created successfully!");
            character_id.unwrap()
        }
        other => panic!("unexpected {:?}", other),
    };
    let list = Request::ListCharacters { client_id: "c1".to_string(), account_username: "bob".to_string() };
    match s.process_message("c1", list, 1, &scout(), TravelCheck::Reachable).unwrap().reply.unwrap().1 {
        Reply::ListCharacters { success, message, characters } => {
            assert!(success);
            assert_eq!(message, "Found 1 characters");
            assert_eq!(characters, vec![(id.clone(), format!("Character-{}", id))]);
        }
        other => panic!("unexpected {:?}", other),
    }
    let login = Request::LoginAccount { username: "bob".to_string(), password: "pw".to_string() };
    match s.process_message("c1", login, 1, &scout(), TravelCheck::Reachable).unwrap().reply.unwrap().1 {
        Reply::LoginAccount { success, message, characters, .. } => {
            assert!(success);
            assert_eq!(message, "Welcome back, bob!");
            assert_eq!(characters, vec![id.clone()]);
        }
        other => panic!("unexpected {:?}", other),
    }
    let select = |c: &str| Request::SelectCharacter {
        client_id: "c1".to_string(),
        account_username: "bob".to_string(),
        character_id: c.to_string(),
    };
    match s.process_message("c1", select("nobody"), 1, &scout(), TravelCheck::Reachable).unwrap().reply.unwrap().1 {
        Reply::SelectCharacter { success, message, with_state } => {
            assert!(!success && !with_state);
            assert_eq!(message, "Character not found on this account");
        }
        other => panic!("unexpected {:?}", other),
    }
    match s.process_message("c1", select(&id), 1, &scout(), TravelCheck::Reachable).unwrap().reply.unwrap().1 {
        Reply::SelectCharacter { success, message, with_state } => {
            assert!(success && with_state);
            assert_eq!(message, "Character selected successfully!");
        }
        other => panic!("unexpected {:?}", other),
    }
    let change = Request::ChangePassword {
        client_id: "c1".to_string(),
        username: "bob".to_string(),
        current_password: "pw".to_string(),
        new_password: "pw2".to_string(),
    };
    match s.process_message("c1", change, 1, &scout(), TravelCheck::Reachable).unwrap().reply.unwrap().1 {
        Reply::ChangePassword { success, message } => {
            assert!(success);
            assert_eq!(message, "Password changed successfully!");
        }
        other => panic!("unexpected {:?}", other),
    }
    let delete = |pw: &str| Request::DeleteAccount { client_id: "c1".to_string(), username: "bob".to_string(), password: pw.to_string() };
    match s.process_message("c1", delete("pw"), 1, &scout(), TravelCheck::Reachable).unwrap().reply.unwrap().1 {
        Reply::DeleteAccount { success, message } => {
            assert!(!success);
            assert_eq!(message, "Failed to delete account: Invalid credentials");
        }
        other => panic!("unexpected {:?}", other),
    }
    match s.process_message("c1", delete("pw2"), 1, &scout(), TravelCheck::Reachable).unwrap().reply.unwrap().1 {
        Reply::DeleteAccount { success, message } => {
            assert!(success);
            assert_eq!(message, "Account deleted successfully.");
        }
        other => panic!("unexpected {:?}", other),
    }
    let list = Request::ListCharacters { client_id: "c1".to_string(), account_username: "bob".to_string() };
    match s.process_message("c1", list, 1, &scout(), TravelCheck::Reachable).unwrap().reply.unwrap().1 {
        Reply::ListCharacters { success, message, .. } => {
            assert!(!success);
            assert_eq!(message, "Account not found");
        }
        other => panic!("unexpected {:?}", other),
    }
}

#[test]
fn disconnect_and_timeouts() {
    let mut s = connected_server();
    let second = Request::Connect { client_id: "c2".to_string(), username: "cy".to_string(), password: None };
    s.open_connection(&second, 20_000);
    let gone = s.remove_timed_out(11_000);
    assert!(gone.is_empty());
    let gone = s.remove_timed_out(11_001);
    assert_eq!(gone, vec!["ann".to_string()]);
    assert_eq!(s.clients.len(), 1);
    let o = s.process_message("c2", Request::Disconnect { client_id: "c2".to_string() }, 20_500, &scout(), TravelCheck::Reachable).unwrap();
    assert!(o.reply.is_none());
    assert!(s.clients.is_empty());
}

#[test]
fn error_messages_for_clients() {
    match error_reply(&NetworkError::ClientError("Unhandled message type".to_string())) {
        Reply::Error { code, message } => {
            assert_eq!(code, 500);
            assert_eq!(message, "Server error: Client error: Unhandled message type");
        }
        other => panic!("unexpected {:?}", other),
    }
}

#[test]
fn client_session_steps() {
    let mut c = GameClient::new("ann".to_string());
    assert!(!c.is_connected());
    assert_eq!(c.request_game_state().unwrap_err(), NetworkError::ClientError("Not connected to server".to_string()));
    assert!(c.check_can_receive().is_err());
    assert_eq!(c.server_address_for("localhost", None).unwrap(), format!("localhost:{}", DEFAULT_SERVER_PORT));
    assert_eq!(c.server_address_for("h", Some(9)).unwrap(), "h:9");
    let m = c.channel_opened("h:9".to_string(), Some("pw".to_string()));
    match m {
        Request::Connect { client_id, username, password } => {
            assert_eq!(client_id, c.client_id);
            assert_eq!(username, "ann");
            assert_eq!(password, Some("pw".to_string()));
        }
        other => panic!("unexpected {:?}", other),
    }
    assert!(c.check_can_receive().is_ok());
    let refused = Reply::Connect { success: false, message: "Invalid password".to_string(), with_state: false };
    assert_eq!(c.connect_answered(&refused).unwrap_err(), NetworkError::AuthError("Invalid password".to_string()));
    assert!(!c.channel_open);
    assert_eq!(
        c.connect_answered(&Reply::GameState).unwrap_err(),
        NetworkError::ConnectionError("Unexpected response from server".to_string())
    );
    c.channel_opened("h:9".to_string(), None);
    let welcome = Reply::Connect { success: true, message: "Welcome".to_string(), with_state: true };
    assert!(c.connect_answered(&welcome).is_ok());
    assert!(c.is_connected());
    assert_eq!(
        c.server_address_for("h", None).unwrap_err(),
        NetworkError::ClientError("Already connected to a server".to_string())
    );
    assert!(matches!(c.navigate_to_system("vega".to_string()), Ok(Request::NavigationAction { .. })));
    assert!(matches!(c.disconnect_message(), Some(Request::Disconnect { .. })));
    c.disconnected();
    assert!(c.disconnect_message().is_none());
    let answer = Reply::Action { success: true, message: "Traveling to vega".to_string() };
    assert_eq!(navigation_answered(&answer).unwrap(), (true, "Traveling to vega".to_string()));
    assert_eq!(
        navigation_answered(&Reply::GameState).unwrap_err(),
        NetworkError::ServerError("Unexpected response from server".to_string())
    );
}
