//! Authenticating the unix user of a client to the server. The client claims a uid and sends
//! a random challenge on the server socket, together with the address of an authentication
//! socket that it owns; the server checks that the owner of that socket is the claimed uid,
//! reads the challenge back from it, and accepts the client only when both agree. The
//! decisions of both sides are here; the sockets are driven by the caller.
use vstd::prelude::*;
use vstd::string::*;

use crate::text::push_str;

verus! {

/// What the client sends on the server socket.
#[derive(Debug, PartialEq, Eq)]
pub enum ClientRequest {
    Initialize { uid: u32, challenge: u64, auth_socket: String },
    Cancel,
}

/// What the server answers.
#[derive(Debug, Clone, Copy, PartialEq, Eq, Structural)]
pub enum ServerResponse {
    Authenticated,
    ChallengeDidNotMatch,
    ServerError(ServerError),
}

/// Why the server refuses to authenticate a client.
#[derive(Debug, Clone, Copy, PartialEq, Eq, Structural)]
pub enum ServerError {
    InvalidRequest,
    UnableToReadPermissionsFromAuthSocket,
    CouldNotConnectToAuthSocket,
    AuthSocketClosedEarly,
    UidMismatch,
    ChallengeMismatch,
    InvalidChallenge,
}

/// Why the client could not be authenticated.
#[derive(Debug, Clone, Copy, PartialEq, Eq, Structural)]
pub enum ClientError {
    UnableToConnectToServer,
    UnableToOpenAuthSocket,
    UnableToConfigureAuthSocket,
    AuthSocketClosedEarly,
    UnableToCloseAuthSocket,
    AuthenticationError,
    UnableToParseServerResponse,
    NoServerResponse,
    ServerError(ServerError),
}

/// Where the server is in authenticating a client.
#[derive(Debug, PartialEq, Eq)]
pub enum ServerAuthState {
    /// Waiting for the client's request; the owner of the authentication socket is taken as
    /// the given uid, when there is one, instead of being looked up.
    AwaitingRequest { owner_override: Option<u32> },
    /// Waiting for the owner of the authentication socket to be looked up.
    AwaitingOwner { uid: u32, challenge: u64, auth_socket: String },
    /// Waiting for the connection to the authentication socket, whose owner is `uid`.
    AwaitingConnection { uid: u32, owner: u32, challenge: u64, auth_socket: String },
    /// Waiting for the challenge on the authentication socket, whose owner is `uid`.
    AwaitingChallenge { uid: u32, owner: u32, challenge: u64 },
    /// Done: the authenticated uid, or why the client was refused.
    Done(Result<u32, ServerError>),
}

/// What happened since the last step.
#[derive(Debug, PartialEq, Eq)]
pub enum ServerAuthEvent {
    /// The request was read; `None` when nothing, or something that is not a request, came.
    RequestRead(Option<ClientRequest>),
    /// The owner of the authentication socket; `None` when it could not be read.
    OwnerLookedUp(Option<u32>),
    /// Whether the connection to the authentication socket was made.
    Connected(bool),
    /// The challenge read from the authentication socket: `Ok(Some(c))` for a challenge,
    /// `Ok(None)` when the socket closed first, `Err(())` for something else.
    ChallengeRead(Result<Option<u64>, ()>),
}

/// What the server does next.
#[derive(Debug, PartialEq, Eq)]
pub enum ServerAuthAction {
    /// Read the request from the server socket.
    ReadRequest,
    /// Look up the owner of the authentication socket at the address.
    LookUpOwner(String),
    /// Connect to the authentication socket at the address.
    Connect(String),
    /// Read the challenge from the authentication socket, then close it.
    ReadChallenge,
    /// Send the response on the server socket, ignoring a failure to send, and end with the
    /// result.
    Finish(ServerResponse, Result<u32, ServerError>),
}

/// The states in which the owner of the authentication socket has been found to be the uid
/// the client claims.
pub open spec fn server_state_wf(s: ServerAuthState) -> bool {
    match s {
        ServerAuthState::AwaitingConnection { uid, owner, .. } => uid == owner,
        ServerAuthState::AwaitingChallenge { uid, owner, .. } => uid == owner,
        _ => true,
    }
}

/// The end of a failed authentication: the error is sent to the client and returned.
pub open spec fn refusal(e: ServerError) -> (ServerAuthState, ServerAuthAction) {
    (ServerAuthState::Done(Err(e)), ServerAuthAction::Finish(ServerResponse::ServerError(e), Err(e)))
}

/// The state the server starts in.
pub fn server_auth_start(owner_override: Option<u32>) -> (r: (ServerAuthState, ServerAuthAction))
    ensures
        r == (ServerAuthState::AwaitingRequest { owner_override }, ServerAuthAction::ReadRequest),
{
    (ServerAuthState::AwaitingRequest { owner_override }, ServerAuthAction::ReadRequest)
}

/// One step of the server: from where it is and what happened, where it goes and what it
/// does. A request that is not an initialization is refused; the claimed uid must be the owner
/// of the authentication socket; the challenge read from that socket must be the one sent
/// with the request. Anything out of order is an invalid request.
pub open spec fn server_step(state: ServerAuthState, event: ServerAuthEvent) -> (ServerAuthState, ServerAuthAction) {
    match (state, event) {
        (ServerAuthState::AwaitingRequest { owner_override }, ServerAuthEvent::RequestRead(req)) => match req {
            Some(ClientRequest::Initialize { uid, challenge, auth_socket }) => match owner_override {
                Some(owner) => if uid != owner {
                    refusal(ServerError::UidMismatch)
                } else {
                    (ServerAuthState::AwaitingConnection { uid, owner, challenge, auth_socket }, ServerAuthAction::Connect(auth_socket))
                },
                None => (ServerAuthState::AwaitingOwner { uid, challenge, auth_socket }, ServerAuthAction::LookUpOwner(auth_socket)),
            },
            _ => refusal(ServerError::InvalidRequest),
        },
        (ServerAuthState::AwaitingOwner { uid, challenge, auth_socket }, ServerAuthEvent::OwnerLookedUp(owner)) => match owner {
            None => refusal(ServerError::UnableToReadPermissionsFromAuthSocket),
            Some(o) => if uid != o {
                refusal(ServerError::UidMismatch)
            } else {
                (ServerAuthState::AwaitingConnection { uid, owner: o, challenge, auth_socket }, ServerAuthAction::Connect(auth_socket))
            },
        },
        (ServerAuthState::AwaitingConnection { uid, owner, challenge, .. }, ServerAuthEvent::Connected(ok)) => if ok {
            (ServerAuthState::AwaitingChallenge { uid, owner, challenge }, ServerAuthAction::ReadChallenge)
        } else {
            refusal(ServerError::CouldNotConnectToAuthSocket)
        },
        (ServerAuthState::AwaitingChallenge { uid, challenge, .. }, ServerAuthEvent::ChallengeRead(read)) => match read {
            Err(()) => refusal(ServerError::InvalidChallenge),
            Ok(None) => refusal(ServerError::AuthSocketClosedEarly),
            Ok(Some(c)) => if c != challenge {
                (ServerAuthState::Done(Err(ServerError::ChallengeMismatch)),
                    ServerAuthAction::Finish(ServerResponse::ChallengeDidNotMatch, Err(ServerError::ChallengeMismatch)))
            } else {
                (ServerAuthState::Done(Ok(uid)), ServerAuthAction::Finish(ServerResponse::Authenticated, Ok(uid)))
            },
        },
        _ => refusal(ServerError::InvalidRequest),
    }
}

/// One step of the server, as `server_step` gives it.
pub fn server_auth_step(state: ServerAuthState, event: ServerAuthEvent) -> (r: (ServerAuthState, ServerAuthAction))
    ensures
        r == server_step(state, event),
{
    match (state, event) {
        (ServerAuthState::AwaitingRequest { owner_override }, ServerAuthEvent::RequestRead(req)) => match req {
            Some(ClientRequest::Initialize { uid, challenge, auth_socket }) => match owner_override {
                Some(owner) => if uid != owner {
                    (ServerAuthState::Done(Err(ServerError::UidMismatch)), ServerAuthAction::Finish(
                        ServerResponse::ServerError(ServerError::UidMismatch),
                        Err(ServerError::UidMismatch),
                    ))
                } else {
                    let addr = auth_socket.clone();
                    (ServerAuthState::AwaitingConnection { uid, owner, challenge, auth_socket }, ServerAuthAction::Connect(addr))
                },
                None => {
                    let addr = auth_socket.clone();
                    (ServerAuthState::AwaitingOwner { uid, challenge, auth_socket }, ServerAuthAction::LookUpOwner(addr))
                },
            },
            _ => (ServerAuthState::Done(Err(ServerError::InvalidRequest)), ServerAuthAction::Finish(
                ServerResponse::ServerError(ServerError::InvalidRequest),
                Err(ServerError::InvalidRequest),
            )),
        },
        (ServerAuthState::AwaitingOwner { uid, challenge, auth_socket }, ServerAuthEvent::OwnerLookedUp(owner)) => match owner {
            None => (ServerAuthState::Done(Err(ServerError::UnableToReadPermissionsFromAuthSocket)), ServerAuthAction::Finish(
                ServerResponse::ServerError(ServerError::UnableToReadPermissionsFromAuthSocket),
                Err(ServerError::UnableToReadPermissionsFromAuthSocket),
            )),
            Some(o) => if uid != o {
                (ServerAuthState::Done(Err(ServerError::UidMismatch)), ServerAuthAction::Finish(
                    ServerResponse::ServerError(ServerError::UidMismatch),
                    Err(ServerError::UidMismatch),
                ))
            } else {
                let addr = auth_socket.clone();
                (ServerAuthState::AwaitingConnection { uid, owner: o, challenge, auth_socket }, ServerAuthAction::Connect(addr))
            },
        },
        (ServerAuthState::AwaitingConnection { uid, owner, challenge, .. }, ServerAuthEvent::Connected(ok)) => if ok {
            (ServerAuthState::AwaitingChallenge { uid, owner, challenge }, ServerAuthAction::ReadChallenge)
        } else {
            (ServerAuthState::Done(Err(ServerError::CouldNotConnectToAuthSocket)), ServerAuthAction::Finish(
                ServerResponse::ServerError(ServerError::CouldNotConnectToAuthSocket),
                Err(ServerError::CouldNotConnectToAuthSocket),
            ))
        },
        (ServerAuthState::AwaitingChallenge { uid, challenge, .. }, ServerAuthEvent::ChallengeRead(read)) => match read {
            Err(()) => (ServerAuthState::Done(Err(ServerError::InvalidChallenge)), ServerAuthAction::Finish(
                ServerResponse::ServerError(ServerError::InvalidChallenge),
                Err(ServerError::InvalidChallenge),
            )),
            Ok(None) => (ServerAuthState::Done(Err(ServerError::AuthSocketClosedEarly)), ServerAuthAction::Finish(
                ServerResponse::ServerError(ServerError::AuthSocketClosedEarly),
                Err(ServerError::AuthSocketClosedEarly),
            )),
            Ok(Some(c)) => if c != challenge {
                (ServerAuthState::Done(Err(ServerError::ChallengeMismatch)), ServerAuthAction::Finish(
                    ServerResponse::ChallengeDidNotMatch,
                    Err(ServerError::ChallengeMismatch),
                ))
            } else {
                (ServerAuthState::Done(Ok(uid)), ServerAuthAction::Finish(ServerResponse::Authenticated, Ok(uid)))
            },
        },
        _ => (ServerAuthState::Done(Err(ServerError::InvalidRequest)), ServerAuthAction::Finish(
            ServerResponse::ServerError(ServerError::InvalidRequest),
            Err(ServerError::InvalidRequest),
        )),
    }
}

/// Every step keeps the owner of the authentication socket, once it is checked, equal to the
/// claimed uid.
pub proof fn lemma_server_step_keeps_owner(state: ServerAuthState, event: ServerAuthEvent)
    requires
        server_state_wf(state),
    ensures
        server_state_wf(server_step(state, event).0),
{
}

/// The server answers `Authenticated`, and ends with a uid, only on reading from the
/// authentication socket the very challenge the client sent, when the claimed uid is the
/// owner of that socket; and it ends with a uid only when it answers `Authenticated`.
pub proof fn lemma_server_authenticates_only_owner(state: ServerAuthState, event: ServerAuthEvent)
    requires
        server_state_wf(state),
    ensures
        server_step(state, event).1 matches ServerAuthAction::Finish(resp, Ok(v)) ==> (
            resp == ServerResponse::Authenticated
            && (state matches ServerAuthState::AwaitingChallenge { uid, owner, challenge }
            && uid == v && owner == v && event == ServerAuthEvent::ChallengeRead(Ok(Some(challenge))))),
        server_step(state, event).1 matches ServerAuthAction::Finish(ServerResponse::Authenticated, res) ==> res is Ok,
{
}

/// What the client reads on the server socket after sending its request.
#[derive(Debug, PartialEq, Eq)]
pub enum ResponseRead {
    Response(ServerResponse),
    /// Reading failed.
    IoError,
    /// Something came that is not a response.
    ParseError,
    /// The server closed the socket.
    Closed,
}

/// How the client's authentication ends for what it read from the server.
pub open spec fn client_outcome_spec(read: ResponseRead) -> Result<(), ClientError> {
    match read {
        ResponseRead::Response(ServerResponse::Authenticated) => Ok(()),
        ResponseRead::Response(ServerResponse::ChallengeDidNotMatch) => Err(ClientError::AuthenticationError),
        ResponseRead::Response(ServerResponse::ServerError(e)) => Err(ClientError::ServerError(e)),
        ResponseRead::IoError => Err(ClientError::NoServerResponse),
        ResponseRead::ParseError => Err(ClientError::UnableToParseServerResponse),
        ResponseRead::Closed => Err(ClientError::NoServerResponse),
    }
}

/// How the client's authentication ends for what it read from the server: it succeeds only
/// when the server answers `Authenticated`.
pub fn client_outcome(read: ResponseRead) -> (r: Result<(), ClientError>)
    ensures
        r == client_outcome_spec(read),
{
    match read {
        ResponseRead::Response(ServerResponse::Authenticated) => Ok(()),
        ResponseRead::Response(ServerResponse::ChallengeDidNotMatch) => Err(ClientError::AuthenticationError),
        ResponseRead::Response(ServerResponse::ServerError(e)) => Err(ClientError::ServerError(e)),
        ResponseRead::IoError => Err(ClientError::NoServerResponse),
        ResponseRead::ParseError => Err(ClientError::UnableToParseServerResponse),
        ResponseRead::Closed => Err(ClientError::NoServerResponse),
    }
}

/// The error for a request the client could not send: the server cannot be reached when the
/// socket failed, else no response came.
pub fn send_failure(is_io_error: bool) -> (r: ClientError)
    ensures
        r == (if is_io_error { ClientError::UnableToConnectToServer } else { ClientError::NoServerResponse }),
{
    if is_io_error {
        ClientError::UnableToConnectToServer
    } else {
        ClientError::NoServerResponse
    }
}

/// The last part of the name of the authentication socket.
pub const AUTH_SOCKET_NAME: &'static str = "mysqladm-rs-cli-auth.sock";

/// The file name of the authentication socket: a random prefix, `-`, and the fixed name.
pub fn auth_socket_name(random_prefix: &str) -> (r: String)
    ensures
        r@ == random_prefix@ + "-mysqladm-rs-cli-auth.sock"@,
{
    let mut s = String::from_str(random_prefix);
    push_str(&mut s, "-mysqladm-rs-cli-auth.sock");
    s
}

} // verus!
