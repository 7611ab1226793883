//! Errors of the client-server connection.
use vstd::prelude::*;

verus! {

/// What went wrong on the network. An I/O error is kept as its message.
#[derive(Debug, Clone, PartialEq, Eq)]
pub enum NetworkError {
    IoError(String),
    ConnectionError(String),
    AuthError(String),
    SerializationError(String),
    ServerError(String),
    ClientError(String),
    Timeout,
}

/// The message of a network error.
pub open spec fn network_error_text(e: NetworkError) -> Seq<char> {
    match e {
        NetworkError::IoError(m) => "IO error: "@ + m@,
        NetworkError::ConnectionError(m) => "Connection error: "@ + m@,
        NetworkError::AuthError(m) => "Authentication error: "@ + m@,
        NetworkError::SerializationError(m) => "Serialization error: "@ + m@,
        NetworkError::ServerError(m) => "Server error: "@ + m@,
        NetworkError::ClientError(m) => "Client error: "@ + m@,
        NetworkError::Timeout => "Timeout error"@,
    }
}

impl NetworkError {
    /// The message of this error.
    pub fn message(&self) -> (s: String)
        ensures
            s@ == network_error_text(*self),
    {
        let (head, tail) = match self {
            NetworkError::IoError(m) => ("IO error: ", m.as_str()),
            NetworkError::ConnectionError(m) => ("Connection error: ", m.as_str()),
            NetworkError::AuthError(m) => ("Authentication error: ", m.as_str()),
            NetworkError::SerializationError(m) => ("Serialization error: ", m.as_str()),
            NetworkError::ServerError(m) => ("Server error: ", m.as_str()),
            NetworkError::ClientError(m) => ("Client error: ", m.as_str()),
            NetworkError::Timeout => ("Timeout error", ""),
        };
        let mut s = String::from_str(head);
        s.append(tail);
        proof {
            reveal_strlit("");
            assert("Timeout error"@ + ""@ =~= "Timeout error"@);
        }
        s
    }
}

} // verus!
