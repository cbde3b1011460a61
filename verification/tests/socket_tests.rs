use muscl::muscl_core::authenticated_unix_socket::{
    auth_socket_name, client_outcome, send_failure, server_auth_start, server_auth_step,
    ClientError, ClientRequest, ResponseRead, ServerAuthAction, ServerAuthEvent, ServerAuthState,
    ServerError, ServerResponse,
};

fn run_server(owner_override: Option<u32>, events: Vec<ServerAuthEvent>) -> Vec<ServerAuthAction> {
    let (mut state, first) = server_auth_start(owner_override);
    let mut actions = vec![first];
    for e in events {
        let (s, a) = server_auth_step(state, e);
        state = s;
        actions.push(a);
    }
    actions
}

fn hello(uid: u32, challenge: u64) -> ServerAuthEvent {
    ServerAuthEvent::RequestRead(Some(ClientRequest::Initialize {
        uid,
        challenge,
        auth_socket: "/tmp/x.sock".to_string(),
    }))
}

#[test]
fn valid_authentication_sequence() {
    let actions = run_server(
        None,
        vec![
            hello(1000, 42),
            ServerAuthEvent::OwnerLookedUp(Some(1000)),
            ServerAuthEvent::Connected(true),
            ServerAuthEvent::ChallengeRead(Ok(Some(42))),
        ],
    );
    assert_eq!(
        actions,
        vec![
            ServerAuthAction::ReadRequest,
            ServerAuthAction::LookUpOwner("/tmp/x.sock".to_string()),
            ServerAuthAction::Connect("/tmp/x.sock".to_string()),
            ServerAuthAction::ReadChallenge,
            ServerAuthAction::Finish(ServerResponse::Authenticated, Ok(1000)),
        ]
    );
}

#[test]
fn uid_mismatch_is_refused() {
    let actions = run_server(Some(1001), vec![hello(1000, 42)]);
    assert_eq!(
        actions[1],
        ServerAuthAction::Finish(ServerResponse::ServerError(ServerError::UidMismatch), Err(ServerError::UidMismatch))
    );
    let actions = run_server(None, vec![hello(1000, 42), ServerAuthEvent::OwnerLookedUp(Some(0))]);
    assert_eq!(
        actions[2],
        ServerAuthAction::Finish(ServerResponse::ServerError(ServerError::UidMismatch), Err(ServerError::UidMismatch))
    );
}

#[test]
fn challenge_mismatch_and_other_failures() {
    let actions = run_server(
        Some(5),
        vec![hello(5, 1), ServerAuthEvent::Connected(true), ServerAuthEvent::ChallengeRead(Ok(Some(2)))],
    );
    assert_eq!(
        actions[3],
        ServerAuthAction::Finish(ServerResponse::ChallengeDidNotMatch, Err(ServerError::ChallengeMismatch))
    );
    let actions = run_server(None, vec![ServerAuthEvent::RequestRead(Some(ClientRequest::Cancel))]);
    assert_eq!(
        actions[1],
        ServerAuthAction::Finish(ServerResponse::ServerError(ServerError::InvalidRequest), Err(ServerError::InvalidRequest))
    );
    let actions = run_server(None, vec![hello(1, 1), ServerAuthEvent::OwnerLookedUp(None)]);
    assert_eq!(
        actions[2],
        ServerAuthAction::Finish(
            ServerResponse::ServerError(ServerError::UnableToReadPermissionsFromAuthSocket),
            Err(ServerError::UnableToReadPermissionsFromAuthSocket)
        )
    );
    let actions = run_server(Some(1), vec![hello(1, 1), ServerAuthEvent::Connected(false)]);
    assert_eq!(
        actions[2],
        ServerAuthAction::Finish(
            ServerResponse::ServerError(ServerError::CouldNotConnectToAuthSocket),
            Err(ServerError::CouldNotConnectToAuthSocket)
        )
    );
    let actions = run_server(Some(1), vec![hello(1, 1), ServerAuthEvent::Connected(true), ServerAuthEvent::ChallengeRead(Ok(None))]);
    assert_eq!(
        actions[3],
        ServerAuthAction::Finish(
            ServerResponse::ServerError(ServerError::AuthSocketClosedEarly),
            Err(ServerError::AuthSocketClosedEarly)
        )
    );
    let actions = run_server(Some(1), vec![hello(1, 1), ServerAuthEvent::Connected(true), ServerAuthEvent::ChallengeRead(Err(()))]);
    assert_eq!(
        actions[3],
        ServerAuthAction::Finish(ServerResponse::ServerError(ServerError::InvalidChallenge), Err(ServerError::InvalidChallenge))
    );
}

#[test]
fn out_of_order_event_is_an_invalid_request() {
    let (state, _) = server_auth_start(None);
    let (next, action) = server_auth_step(state, ServerAuthEvent::Connected(true));
    assert_eq!(next, ServerAuthState::Done(Err(ServerError::InvalidRequest)));
    assert_eq!(
        action,
        ServerAuthAction::Finish(ServerResponse::ServerError(ServerError::InvalidRequest), Err(ServerError::InvalidRequest))
    );
}

#[test]
fn client_outcomes() {
    assert_eq!(client_outcome(ResponseRead::Response(ServerResponse::Authenticated)), Ok(()));
    assert_eq!(
        client_outcome(ResponseRead::Response(ServerResponse::ChallengeDidNotMatch)),
        Err(ClientError::AuthenticationError)
    );
    assert_eq!(
        client_outcome(ResponseRead::Response(ServerResponse::ServerError(ServerError::UidMismatch))),
        Err(ClientError::ServerError(ServerError::UidMismatch))
    );
    assert_eq!(client_outcome(ResponseRead::Closed), Err(ClientError::NoServerResponse));
    assert_eq!(client_outcome(ResponseRead::IoError), Err(ClientError::NoServerResponse));
    assert_eq!(client_outcome(ResponseRead::ParseError), Err(ClientError::UnableToParseServerResponse));
    assert_eq!(send_failure(true), ClientError::UnableToConnectToServer);
    assert_eq!(send_failure(false), ClientError::NoServerResponse);
    assert_eq!(auth_socket_name("abc"), "abc-mysqladm-rs-cli-auth.sock");
}
