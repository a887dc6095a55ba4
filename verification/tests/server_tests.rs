use memocap::scope::{DomainId, PlacementId, RepositoryId};
use memocap::server::{
    placement_permitted, status_refusal, transfer_refusal, transfer_step, TransferAction, TransferEvent,
};
use memocap::store::transfers::{CopyMoveAction, CopyMoveInput, CopyMoveRequest, CopyMoveResult};
use memocap::store::StoreError;
use memocap::server::request::domains::{attach, create, delete, detach, list as list_domains};
use memocap::server::request::transfers::{copy, move_memory, operation_status};
use memocap::server::request::{
    forget, list, parse, recall, remember, repository, status, DomainIn, DomainsIn, ForgetIn,
    ListIn, OperationStatusIn, ParseError, RecallIn, RememberIn, Request, RequestInput, StatusIn,
    TransferIn,
};
use memocap::server::{error, handle, invalid_request, route, token_ok, Incoming, Route};

const REPO: &str = "repository:0123456789abcdef0123456789abcdef0123456789abcdef0123456789abcdef";
const OTHER: &str = "repository:ffffffffffffffffffffffffffffffffffffffffffffffffffffffffffffffff";
const OP: &str = "01234567-89ab-cdef-0123-456789abcdef";

fn incoming(method: &str, path: &str, token: Option<&str>) -> Incoming {
    Incoming {
        method: method.to_owned(),
        path: path.to_owned(),
        token: token.map(str::to_owned),
        body: "{}".to_owned(),
    }
}

#[test]
fn tokens_must_match_exactly_and_not_be_empty() {
    assert!(token_ok("secret", Some("secret")));
    assert!(!token_ok("secret", Some("secreT")));
    assert!(!token_ok("secret", Some("secret2")));
    assert!(!token_ok("secret", None));
    assert!(!token_ok("", Some("")));
}

#[test]
fn every_endpoint_is_a_post_under_v1() {
    assert_eq!(route("POST", "/v1/status"), Some(Route::Status));
    assert_eq!(route("POST", "/v1/memories/move"), Some(Route::Move));
    assert_eq!(route("GET", "/v1/status"), None);
    assert_eq!(route("POST", "/status"), None);
    assert_eq!(route("POST", "/v1/status/"), None);
    let all = [
        Route::Remember, Route::Recall, Route::List, Route::Forget, Route::DomainCreate,
        Route::DomainList, Route::DomainAttach, Route::DomainDetach, Route::DomainDelete,
        Route::Copy, Route::Move, Route::OperationStatus, Route::Status,
    ];
    for endpoint in all {
        assert!(endpoint.path().starts_with("/v1/"));
        assert_eq!(route("POST", endpoint.path()), Some(endpoint));
    }
}

#[test]
fn the_token_gates_everything_then_unknown_paths_are_not_found() {
    let refused = handle("secret", &incoming("POST", "/v1/status", Some("wrong"))).expect_err("refused");
    assert_eq!(refused.status, 401);
    assert_eq!(refused.body, "{\"error\":\"unauthorized\"}");
    let unauthenticated_unknown = handle("secret", &incoming("GET", "/nowhere", None)).expect_err("refused");
    assert_eq!(unauthenticated_unknown.status, 401);
    let missing = handle("secret", &incoming("POST", "/v1/nowhere", Some("secret"))).expect_err("not found");
    assert_eq!(missing.status, 404);
    assert_eq!(missing.body, "{\"error\":\"not_found\"}");
    assert_eq!(handle("secret", &incoming("POST", "/v1/memories/list", Some("secret"))).ok(), Some(Route::List));
    let invalid = invalid_request();
    assert_eq!(invalid.status, 400);
    assert_eq!(invalid.body, "{\"error\":\"invalid_request\"}");
    assert_eq!(error(500, "internal").body, "{\"error\":\"internal\"}");
}

#[test]
fn placements_must_parse_and_repository_placements_must_be_the_callers() {
    let body = |placement: &str| RememberIn {
        repository: REPO.to_owned(),
        placement: placement.to_owned(),
        content: "c".to_owned(),
        kind: "context".to_owned(),
        tags: String::new(),
        force: false,
        id: Some(3),
        topic_key: Some("t".to_owned()),
    };
    let accepted = remember(body(REPO)).ok().expect("own repository");
    assert_eq!(accepted.repository.as_str(), REPO);
    assert_eq!(accepted.overwrite_id, Some(3));
    assert!(remember(body("universal")).is_ok());
    assert!(remember(body("domain:team/beta")).is_ok());
    assert!(matches!(remember(body(OTHER)), Err(ParseError::Invalid)));
    assert!(matches!(remember(body("nowhere")), Err(ParseError::Invalid)));
    assert!(repository("repository:short").is_err());
    assert_eq!(repository(REPO).ok().map(|r| r.as_str().to_owned()), Some(REPO.to_owned()));
}

#[test]
fn recall_list_forget_and_status_bodies_are_validated() {
    let recall_body = RecallIn {
        repository: REPO.to_owned(),
        placement: None,
        query: "q".to_owned(),
        limit: 5,
        kind: None,
        max_chars: Some(10),
    };
    let parsed = recall(recall_body).ok().expect("valid");
    assert!(parsed.placement.is_none());
    assert_eq!(parsed.limit, 5);
    let listed = list(ListIn { repository: REPO.to_owned(), placement: Some("universal".to_owned()), limit: 2 }).ok().expect("valid");
    assert!(parsed.max_chars == Some(10) && listed.placement.is_some());
    assert!(list(ListIn { repository: REPO.to_owned(), placement: Some(OTHER.to_owned()), limit: 2 }).is_err());
    assert!(forget(ForgetIn { repository: REPO.to_owned(), placement: "universal".to_owned(), id: 4 }).is_ok());
    assert!(forget(ForgetIn { repository: "bad".to_owned(), placement: "universal".to_owned(), id: 4 }).is_err());
    assert!(matches!(status(StatusIn { repository: REPO.to_owned() }), Ok(Request::Status { .. })));
    assert!(status(StatusIn { repository: OTHER.replace('f', "F") }).is_err());
}

#[test]
fn domain_bodies_need_valid_ids() {
    let body = |domain: &str, before: Option<&str>| DomainIn {
        repository: REPO.to_owned(),
        domain: domain.to_owned(),
        before: before.map(str::to_owned),
    };
    assert!(create(body("team/beta", None)).is_ok());
    assert!(create(body("Team", None)).is_err());
    assert!(attach(body("team/beta", Some("team/alpha"))).is_ok());
    assert!(attach(body("team/beta", Some("global"))).is_err());
    assert!(detach(body("team/beta", None)).is_ok());
    assert!(delete(body("universal", None)).is_err());
    assert!(list_domains(DomainsIn { repository: REPO.to_owned(), all: true }).is_ok());
    assert!(list_domains(DomainsIn { repository: "x".to_owned(), all: true }).is_err());
}

#[test]
fn transfer_bodies_need_placements_and_a_canonical_operation_id() {
    let body = |from: &str, to: &str, op: &str| TransferIn {
        repository: REPO.to_owned(),
        id: 7,
        from: from.to_owned(),
        to: to.to_owned(),
        operation_id: op.to_owned(),
        note: None,
    };
    let copied = copy(body(REPO, "universal", OP)).ok().expect("valid");
    assert_eq!(copied.request.memory_id(), 7);
    assert_eq!(copied.request.operation_id().as_str(), OP);
    assert_eq!(copied.request.to().to_string(), "universal");
    assert!(move_memory(body("domain:team/beta", REPO, OP)).is_ok());
    assert!(copy(body(REPO, "universal", "not-a-uuid")).is_err());
    assert!(copy(body(OTHER, "universal", OP)).is_err());
    let fingerprint = "a".repeat(64);
    let asked = operation_status(OperationStatusIn {
        repository: REPO.to_owned(),
        operation_id: OP.to_owned(),
        request_fingerprint: fingerprint.clone(),
    })
    .ok()
    .expect("valid");
    assert_eq!(asked.request_fingerprint, fingerprint);
    assert!(operation_status(OperationStatusIn {
        repository: REPO.to_owned(),
        operation_id: OP.to_owned(),
        request_fingerprint: "A".repeat(64),
    })
    .is_err());
}

#[test]
fn bodies_must_have_their_endpoints_shape() {
    assert!(matches!(parse(Route::Status, None), Err(ParseError::Invalid)));
    let status_body = || Some(RequestInput::Status(StatusIn { repository: REPO.to_owned() }));
    assert!(matches!(parse(Route::Status, status_body()), Ok(Request::Status { .. })));
    assert!(matches!(parse(Route::Remember, status_body()), Err(ParseError::Invalid)));
    let domains = Some(RequestInput::Domains(DomainsIn { repository: REPO.to_owned(), all: false }));
    assert!(matches!(parse(Route::DomainList, domains), Ok(Request::Domain(_))));
}

#[test]
fn requests_may_name_only_their_own_or_attached_placements() {
    let repo = RepositoryId::parse(REPO).expect("valid");
    let beta = DomainId::parse("team/beta").expect("valid");
    let alpha = DomainId::parse("team/alpha").expect("valid");
    let registered = vec![beta.clone(), alpha.clone()];
    let attached = vec![beta.clone()];
    assert!(placement_permitted(&repo, &PlacementId::parse(REPO).expect("valid"), &registered, &attached));
    assert!(!placement_permitted(&repo, &PlacementId::parse(OTHER).expect("valid"), &registered, &attached));
    assert!(placement_permitted(&repo, &PlacementId::Universal, &registered, &attached));
    assert!(placement_permitted(&repo, &PlacementId::Domain(beta), &registered, &attached));
    assert!(!placement_permitted(&repo, &PlacementId::Domain(alpha), &registered, &attached));
    let conflict = transfer_refusal(&StoreError::OperationConflict);
    assert_eq!((conflict.status, conflict.body.as_str()), (409, "{\"error\":\"conflict\"}"));
    let invalid = transfer_refusal(&StoreError::SamePlacement);
    assert_eq!((invalid.status, invalid.body.as_str()), (400, "{\"error\":\"invalid_request\"}"));
    assert_eq!(status_refusal(&StoreError::OperationConflict).status, 409);
    let internal = status_refusal(&StoreError::InvalidLedgerResult);
    assert_eq!((internal.status, internal.body.as_str()), (500, "{\"error\":\"internal\"}"));
}

#[test]
fn a_server_transfer_rebuilds_the_clients_request() {
    let r0 = format!("repository:{}", "0".repeat(64));
    let u = "00000000-0000-0000-0000-000000000001";
    let body = |note: Option<&str>, op: &str| TransferIn {
        repository: r0.clone(),
        id: 7,
        from: r0.clone(),
        to: "universal".to_owned(),
        operation_id: op.to_owned(),
        note: note.map(str::to_owned),
    };
    let prepared = |action: CopyMoveAction, note: Option<&str>| {
        CopyMoveRequest::prepare(
            RepositoryId::parse(&r0).expect("valid"),
            CopyMoveInput {
                action,
                memory_id: 7,
                from: PlacementId::Repository(RepositoryId::parse(&r0).expect("valid")),
                to: PlacementId::Universal,
                operation_id: Some(u.parse().expect("valid")),
                applicability_note: note.map(str::to_owned),
            },
        )
        .expect("prepares")
    };
    let copied = copy(body(None, u)).ok().expect("valid");
    assert_eq!(copied.request, prepared(CopyMoveAction::Copy, None));
    let noted = copy(body(Some("  only for v2  "), u)).ok().expect("valid");
    assert_eq!(noted.request, prepared(CopyMoveAction::Copy, Some("  only for v2  ")));
    assert_eq!(noted.request.applicability_note(), Some("only for v2"));
    assert_ne!(noted.request.request_fingerprint(), copied.request.request_fingerprint());
    let moved = move_memory(body(Some("only for v2"), u)).ok().expect("valid");
    assert_eq!(moved.request, prepared(CopyMoveAction::Move, Some("only for v2")));
    assert!(matches!(copy(body(None, "")), Err(ParseError::Invalid)));
    assert!(matches!(copy(body(None, "not-a-uuid")), Err(ParseError::Invalid)));
}

#[test]
fn the_server_replays_then_checks_placements_then_applies() {
    let result = || -> CopyMoveResult {
        CopyMoveResult {
            action: CopyMoveAction::Copy,
            memory_id: 7,
            from: PlacementId::Universal,
            to: PlacementId::Universal,
            operation_id: OP.parse().expect("valid"),
        }
    };
    assert!(matches!(transfer_step(TransferEvent::Received), TransferAction::LookUp));
    assert!(matches!(transfer_step(TransferEvent::Replayed(result())), TransferAction::Answer(r) if r == result()));
    assert!(matches!(transfer_step(TransferEvent::NotRecorded), TransferAction::CheckPlacements));
    match transfer_step(TransferEvent::ReplayFailed) {
        TransferAction::Respond(o) => assert_eq!((o.status, o.body.as_str()), (409, "{\"error\":\"conflict\"}")),
        other => panic!("unexpected {other:?}"),
    }
    assert!(matches!(transfer_step(TransferEvent::PlacementsChecked { from: true, to: true }), TransferAction::Apply));
    for (from, to) in [(true, false), (false, true), (false, false)] {
        match transfer_step(TransferEvent::PlacementsChecked { from, to }) {
            TransferAction::Respond(o) => assert_eq!((o.status, o.body.as_str()), (400, "{\"error\":\"invalid_request\"}")),
            other => panic!("unexpected {other:?}"),
        }
    }
    assert!(matches!(transfer_step(TransferEvent::Applied(result())), TransferAction::Answer(r) if r == result()));
    match transfer_step(TransferEvent::Refused(Some(StoreError::OperationConflict))) {
        TransferAction::Respond(o) => assert_eq!(o.status, 409),
        other => panic!("unexpected {other:?}"),
    }
    match transfer_step(TransferEvent::Refused(None)) {
        TransferAction::Respond(o) => assert_eq!(o.status, 400),
        other => panic!("unexpected {other:?}"),
    }
}

#[test]
fn error_bodies_escape_their_code_as_json() {
    let o = error(400, "q\"b\\s\u{8}\t\n\u{c}\r\u{1}\u{1f}\u{7f}é/");
    assert_eq!(o.status, 400);
    assert_eq!(
        o.body,
        "{\"error\":\"q\\\"b\\\\s\\b\\t\\n\\f\\r\\u0001\\u001f\u{7f}é/\"}"
    );
    assert_eq!(error(409, "conflict").body, "{\"error\":\"conflict\"}");
}
