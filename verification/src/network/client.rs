//! The client's side of a game session: whether it is connected, the
//! messages it sends, and what it makes of the server's answers. The
//! connection itself, and the universe and ship data that come with some
//! answers, are kept by the caller.
use vstd::prelude::*;
use crate::network::error::NetworkError;
use crate::network::protocol::{Reply, ReplyView, Request, DEFAULT_SERVER_PORT};
use crate::platform::new_uuid_string;
use crate::text::{decimal, u64_to_decimal};

verus! {

/// A client: its id and name, the server address, whether the server
/// accepted it, and whether the channel to the server is open.
#[derive(Debug)]
pub struct GameClient {
    pub client_id: String,
    pub username: String,
    pub server_addr: String,
    pub connected: bool,
    pub channel_open: bool,
}

/// Whether `r` is an error of the given kind with the given text.
pub open spec fn client_error_text<T>(r: Result<T, NetworkError>, text: Seq<char>) -> bool {
    r matches Err(NetworkError::ClientError(m)) && m@ == text
}

/// The address "host:port" of a server, with the default port when none
/// is given.
pub open spec fn server_address(host: Seq<char>, port: Option<u16>) -> Seq<char> {
    host + ":"@ + decimal(
        (match port {
            Some(p) => p,
            None => DEFAULT_SERVER_PORT,
        }) as nat,
    )
}

impl GameClient {
    /// A client under a fresh id, not connected.
    pub fn new(username: String) -> (c: GameClient)
        ensures
            c.username@ == username@,
            c.server_addr@ == Seq::<char>::empty(),
            !c.connected,
            !c.channel_open,
    {
        GameClient {
            client_id: new_uuid_string(),
            username,
            server_addr: String::new(),
            connected: false,
            channel_open: false,
        }
    }

    /// The address to connect to, or an error when already connected.
    pub fn server_address_for(&self, server_host: &str, port: Option<u16>) -> (r: Result<String, NetworkError>)
        ensures
            self.connected ==> client_error_text(r, "Already connected to a server"@),
            !self.connected ==> (r matches Ok(a) && a@ == server_address(server_host@, port)),
    {
        if self.connected {
            return Err(NetworkError::ClientError(String::from_str("Already connected to a server")));
        }
        let p: u16 = match port {
            Some(p) => p,
            None => DEFAULT_SERVER_PORT,
        };
        let mut a = String::from_str(server_host);
        a.append(":");
        let d = u64_to_decimal(p as u64);
        a.append(d.as_str());
        Ok(a)
    }

    /// Records that the channel to `server_addr` is open, and gives the
    /// connect message to send first.
    pub fn channel_opened(&mut self, server_addr: String, password: Option<String>) -> (m: Request)
        ensures
            final(self).server_addr@ == server_addr@,
            final(self).channel_open,
            final(self).connected == old(self).connected,
            final(self).client_id == old(self).client_id,
            final(self).username == old(self).username,
            m matches Request::Connect { client_id, username, password: pw } && client_id@ == old(self).client_id@
                && username@ == old(self).username@ && pw == password,
    {
        self.server_addr = server_addr;
        self.channel_open = true;
        Request::Connect { client_id: self.client_id.clone(), username: self.username.clone(), password }
    }

    /// Takes in the server's answer to the connect message: the client is
    /// connected when the server accepted it; otherwise the channel is
    /// dropped and the server's message becomes an authentication error.
    pub fn connect_answered(&mut self, response: &Reply) -> (r: Result<(), NetworkError>)
        ensures
            final(self).client_id == old(self).client_id,
            final(self).username == old(self).username,
            final(self).server_addr == old(self).server_addr,
            match response@ {
                ReplyView::Connect { success: true, .. } => r is Ok && final(self).connected && final(self).channel_open
                    == old(self).channel_open,
                ReplyView::Connect { success: false, message, .. } => {
                    &&& r matches Err(NetworkError::AuthError(m)) && m@ == message
                    &&& final(self).connected == old(self).connected && !final(self).channel_open
                },
                _ => {
                    &&& r matches Err(NetworkError::ConnectionError(m)) && m@ == "Unexpected response from server"@
                    &&& final(self).connected == old(self).connected && !final(self).channel_open
                },
            },
    {
        match response {
            Reply::Connect { success, message, .. } => {
                if *success {
                    self.connected = true;
                    Ok(())
                } else {
                    self.channel_open = false;
                    Err(NetworkError::AuthError(message.clone()))
                }
            },
            _ => {
                self.channel_open = false;
                Err(NetworkError::ConnectionError(String::from_str("Unexpected response from server")))
            },
        }
    }

    /// The disconnect message to send, if the client is connected with an
    /// open channel.
    pub fn disconnect_message(&self) -> (m: Option<Request>)
        ensures
            !(self.connected && self.channel_open) ==> m is None,
            self.connected && self.channel_open ==> (m matches Some(Request::Disconnect { client_id }) && client_id@
                == self.client_id@),
    {
        if !self.connected || !self.channel_open {
            return None;
        }
        Some(Request::Disconnect { client_id: self.client_id.clone() })
    }

    /// Records that the client left the server.
    pub fn disconnected(&mut self)
        ensures
            !final(self).connected,
            !final(self).channel_open,
            final(self).client_id == old(self).client_id,
            final(self).username == old(self).username,
            final(self).server_addr == old(self).server_addr,
    {
        self.channel_open = false;
        self.connected = false;
    }

    /// Whether the client may wait for a message: it must be connected or
    /// have an open channel.
    pub fn check_can_receive(&self) -> (r: Result<(), NetworkError>)
        ensures
            r is Ok == (self.connected || self.channel_open),
            r is Err ==> client_error_text(r, "Not connected to server"@),
    {
        if !self.connected && !self.channel_open {
            return Err(NetworkError::ClientError(String::from_str("Not connected to server")));
        }
        Ok(())
    }

    /// The request for the game state, if connected with an open channel.
    pub fn request_game_state(&self) -> (r: Result<Request, NetworkError>)
        ensures
            !(self.connected && self.channel_open) ==> client_error_text(r, "Not connected to server"@),
            self.connected && self.channel_open ==> (r matches Ok(Request::RequestGameState { client_id })
                && client_id@ == self.client_id@),
    {
        if !self.connected || !self.channel_open {
            return Err(NetworkError::ClientError(String::from_str("Not connected to server")));
        }
        Ok(Request::RequestGameState { client_id: self.client_id.clone() })
    }

    /// The request to travel to `destination`, if connected with an open
    /// channel.
    pub fn navigate_to_system(&self, destination: String) -> (r: Result<Request, NetworkError>)
        ensures
            !(self.connected && self.channel_open) ==> client_error_text(r, "Not connected to server"@),
            self.connected && self.channel_open ==> (r matches Ok(
                Request::NavigationAction { client_id, destination_system },
            ) && client_id@ == self.client_id@ && destination_system@ == destination@),
    {
        if !self.connected || !self.channel_open {
            return Err(NetworkError::ClientError(String::from_str("Not connected to server")));
        }
        Ok(Request::NavigationAction { client_id: self.client_id.clone(), destination_system: destination })
    }

    /// Whether the server accepted the client.
    pub fn is_connected(&self) -> (r: bool)
        ensures
            r == self.connected,
    {
        self.connected
    }
}

/// What a travel request came to: the success flag and message of an
/// action answer, or an error for any other answer.
pub fn navigation_answered(response: &Reply) -> (r: Result<(bool, String), NetworkError>)
    ensures
        match response@ {
            ReplyView::Action { success, message } => r matches Ok((s, m)) && s == success && m@ == message,
            _ => r matches Err(NetworkError::ServerError(m)) && m@ == "Unexpected response from server"@,
        },
{
    match response {
        Reply::Action { success, message } => Ok((*success, message.clone())),
        _ => Err(NetworkError::ServerError(String::from_str("Unexpected response from server"))),
    }
}

} // verus!
