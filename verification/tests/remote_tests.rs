use memocap::cli::DomainChange;
use memocap::remote::{domain_change_route, endpoint, transfer_route};
use memocap::server::Route;
use memocap::remote::{
    after_send, after_status, is_sha256, operation_status_outcome, reply_domains, start_transfer,
    DomainReply,
    transfer_outcome, OperationReply, OperationStatus, RecoveryHandle, RecoveryStep, RemoteError,
    RequestFailure, SendPhase, StatusPhase, TransferResult,
};
use memocap::scope::{PlacementId, RepositoryId};
use memocap::store::transfers::{CopyMoveAction, CopyMoveInput, CopyMoveRequest, CopyMoveResult};

const REPO: &str = "repository:0123456789abcdef0123456789abcdef0123456789abcdef0123456789abcdef";
const OP: &str = "01234567-89ab-cdef-0123-456789abcdef";

fn request() -> CopyMoveRequest {
    CopyMoveRequest::prepare(
        RepositoryId::parse(REPO).expect("valid"),
        CopyMoveInput {
            action: CopyMoveAction::Move,
            memory_id: 7,
            from: PlacementId::Universal,
            to: PlacementId::parse("domain:team/beta").expect("valid"),
            operation_id: None,
            applicability_note: None,
        },
    )
    .expect("prepares")
}

fn transfer(op: &str) -> TransferResult {
    TransferResult {
        action: CopyMoveAction::Move,
        memory_id: 7,
        from: "universal".to_owned(),
        to: "domain:team/beta".to_owned(),
        operation_id: op.to_owned(),
    }
}

fn committed() -> CopyMoveResult {
    transfer(OP).into_result().expect("valid result")
}

#[test]
fn recovery_handles_round_trip_through_text() {
    let request = request();
    let handle = RecoveryHandle::from_request(&request).expect("handle");
    let text = handle.to_string();
    let expected = format!(
        "operation-recovery:v1:{}:{}:{}",
        &REPO["repository:".len()..],
        request.operation_id().as_str(),
        request.request_fingerprint()
    );
    assert_eq!(text, expected);
    let parsed = RecoveryHandle::parse(&text).expect("parses");
    assert_eq!(parsed.repository().as_str(), REPO);
    assert_eq!(parsed.operation_id().as_str(), request.operation_id().as_str());
    assert_eq!(parsed.request_fingerprint(), request.request_fingerprint());
    assert_eq!(parsed.to_string(), text);
}

#[test]
fn malformed_recovery_handles_are_refused() {
    let good = RecoveryHandle::from_request(&request()).expect("handle").to_string();
    for bad in [
        String::new(),
        good.replace("operation-recovery", "operation-recover"),
        good.replace(":v1:", ":v2:"),
        format!("{good}:extra"),
        good[..good.len() - 1].to_owned(),
        good.to_uppercase(),
    ] {
        assert_eq!(RecoveryHandle::parse(&bad), Err(RemoteError::InvalidRecoveryHandle), "{bad}");
    }
    assert!(is_sha256(&"0".repeat(64)));
    assert!(!is_sha256(&"0".repeat(63)));
    assert!(!is_sha256(&"g".repeat(64)));
}

#[test]
fn only_transport_read_and_server_errors_are_ambiguous() {
    assert!(RequestFailure::Transport("connection refused".to_owned()).is_ambiguous());
    assert!(RequestFailure::Read("unexpected end of file".to_owned()).is_ambiguous());
    assert!(RequestFailure::Http { status: 503, body: String::new() }.is_ambiguous());
    assert!(!RequestFailure::Http { status: 400, body: String::new() }.is_ambiguous());
}

#[test]
fn transfer_replies_must_parse() {
    assert_eq!(transfer_outcome(Ok(transfer(OP))), Ok(committed()));
    assert_eq!(
        transfer_outcome(Ok(transfer("bad"))),
        Err(RequestFailure::Read("transfer reply contains invalid operation ID".to_owned()))
    );
    let mut nowhere = transfer(OP);
    nowhere.from = "nowhere".to_owned();
    assert_eq!(
        transfer_outcome(Ok(nowhere)),
        Err(RequestFailure::Read("transfer reply contains invalid source placement".to_owned()))
    );
    assert_eq!(
        transfer_outcome(Err(RequestFailure::Transport("connection refused".to_owned()))),
        Err(RequestFailure::Transport("connection refused".to_owned()))
    );
    let mut bad_source = transfer(OP);
    bad_source.from = "nowhere".to_owned();
    assert_eq!(bad_source.into_result(), Err(RemoteError::InvalidTransferSource));
    let mut bad_destination = transfer(OP);
    bad_destination.to = "nowhere".to_owned();
    assert_eq!(bad_destination.into_result(), Err(RemoteError::InvalidTransferDestination));
    assert_eq!(transfer("x").into_result(), Err(RemoteError::InvalidTransferOperation));
}

#[test]
fn status_replies_are_committed_not_found_or_unknown() {
    let reply = |outcome: &str, result: Option<TransferResult>| Ok(Ok(OperationReply { outcome: outcome.to_owned(), result }));
    assert!(matches!(operation_status_outcome(reply("committed", Some(transfer(OP)))), Ok(OperationStatus::Committed(_))));
    assert!(matches!(operation_status_outcome(reply("not_found", None)), Ok(OperationStatus::NotFound)));
    assert!(matches!(operation_status_outcome(reply("committed", None)), Err(RemoteError::InvalidStatusReply)));
    assert!(matches!(operation_status_outcome(reply("not_found", Some(transfer(OP)))), Err(RemoteError::InvalidStatusReply)));
    assert!(matches!(operation_status_outcome(Err(RequestFailure::Transport("timed out".to_owned()))), Ok(OperationStatus::Unknown)));
    assert!(matches!(
        operation_status_outcome(Err(RequestFailure::Http { status: 401, body: String::new() })),
        Err(RemoteError::Request(RequestFailure::Http { status: 401, .. }))
    ));
    let undecodable = operation_status_outcome(Ok(Err("expected value at line 1 column 1".to_owned())));
    match undecodable {
        Err(error) => assert_eq!(error.message(), "operation status reply: expected value at line 1 column 1"),
        Ok(status) => panic!("unexpected {status:?}"),
    }
}

#[test]
fn a_lost_transfer_is_recovered_without_blind_replays() {
    let handle = RecoveryHandle::from_request(&request()).expect("handle");
    assert!(matches!(start_transfer(), RecoveryStep::Send(SendPhase::First)));
    // A result ends the transfer.
    assert!(matches!(after_send(SendPhase::First, Ok(committed())), RecoveryStep::Done(Ok(_))));
    // A lost answer asks for the operation's status.
    assert!(matches!(
        after_send(SendPhase::First, Err(RequestFailure::Transport("timed out".to_owned()))),
        RecoveryStep::ReadStatus(StatusPhase::Recovering)
    ));
    // A refused request is not retried.
    assert!(matches!(
        after_send(SendPhase::First, Err(RequestFailure::Http { status: 400, body: String::new() })),
        RecoveryStep::Done(Err(RemoteError::Request(_)))
    ));
    // Committed: done with the recorded result.
    assert!(matches!(
        after_status(StatusPhase::Recovering, &handle, Ok(OperationStatus::Committed(committed()))),
        RecoveryStep::Done(Ok(_))
    ));
    // Not found the first time: send once more under the same operation ID.
    assert!(matches!(
        after_status(StatusPhase::Recovering, &handle, Ok(OperationStatus::NotFound)),
        RecoveryStep::Send(SendPhase::Retry)
    ));
    // The retry is lost too: read the status again.
    assert!(matches!(
        after_send(SendPhase::Retry, Err(RequestFailure::Read("connection reset".to_owned()))),
        RecoveryStep::ReadStatus(StatusPhase::Confirming)
    ));
    // Still not found, or unknown: stop and hand out the recovery handle.
    for outcome in [OperationStatus::NotFound, OperationStatus::Unknown] {
        match after_status(StatusPhase::Confirming, &handle, Ok(outcome)) {
            RecoveryStep::Done(Err(RemoteError::OutcomeUnknown(text))) => assert_eq!(text, handle.to_string()),
            other => panic!("expected an unknown outcome, got {other:?}"),
        }
    }
    match after_status(StatusPhase::Recovering, &handle, Ok(OperationStatus::Unknown)) {
        RecoveryStep::Done(Err(RemoteError::OutcomeUnknown(text))) => assert_eq!(text, handle.to_string()),
        other => panic!("expected an unknown outcome, got {other:?}"),
    }
    assert!(matches!(
        after_status(StatusPhase::Recovering, &handle, Err(RemoteError::InvalidStatusReply)),
        RecoveryStep::Done(Err(RemoteError::InvalidStatusReply))
    ));
}

#[test]
fn reply_domains_must_all_be_valid() {
    let domains = reply_domains(&vec!["team/beta".to_owned(), "eng/rust".to_owned()], DomainReply::Domains).expect("valid");
    let names: Vec<&str> = domains.iter().map(|d| d.as_str()).collect();
    assert_eq!(names, vec!["team/beta", "eng/rust"]);
    let status = reply_domains(&vec!["Bad".to_owned()], DomainReply::Status).err().expect("invalid");
    assert_eq!(status.message(), "status reply contains invalid domain");
    let domains = reply_domains(&vec!["Bad".to_owned()], DomainReply::Domains).err().expect("invalid");
    assert_eq!(domains.message(), "domains reply contains invalid domain");
}

#[test]
fn endpoints_join_the_address_and_the_route() {
    assert_eq!(endpoint(" https://m.example/// ", Route::Status), "https://m.example/v1/status");
    assert_eq!(endpoint("http://127.0.0.1:8787", Route::List), "http://127.0.0.1:8787/v1/memories/list");
    assert_eq!(domain_change_route(DomainChange::Attach), Route::DomainAttach);
    assert_eq!(domain_change_route(DomainChange::Delete), Route::DomainDelete);
    assert_eq!(transfer_route(CopyMoveAction::Copy), Route::Copy);
    assert_eq!(transfer_route(CopyMoveAction::Move), Route::Move);
}

#[test]
fn remote_failures_read_as_text() {
    assert_eq!(RequestFailure::Http { status: 401, body: "x".to_owned() }.message(), "unauthorized: token rejected");
    assert_eq!(
        RequestFailure::Http { status: 400, body: "{\"error\":\"invalid_request\"}".to_owned() }.message(),
        "remote request failed (400): {\"error\":\"invalid_request\"}"
    );
    assert_eq!(
        RemoteError::Request(RequestFailure::Read("stream did not contain valid UTF-8".to_owned())).message(),
        "stream did not contain valid UTF-8"
    );
    assert_eq!(
        RequestFailure::Transport("Connection Failed: Connect error: connection refused".to_owned()).message(),
        "Connection Failed: Connect error: connection refused"
    );
    assert_eq!(RemoteError::OutcomeUnknown("h".to_owned()).message(), "outcome unknown; recovery: h");
    assert_eq!(RemoteError::InvalidTransferSource.message(), "transfer reply contains invalid source placement");
}
