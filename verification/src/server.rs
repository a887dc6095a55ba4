//! The HTTP server's logic: the bearer-token gate, routing and error bodies.
use vstd::prelude::*;

use crate::deps::{json_quote, json_string};
use crate::text::{chars_of, str_eq};
use crate::cli::contains_domain;
use crate::scope::{DomainId, PlacementId, PlacementView, RepositoryId};
use crate::store::domains::domain_views;
use crate::store::transfers::CopyMoveResult;
use crate::store::StoreError;

pub mod request;

verus! {

/// A request as the server receives it.
#[derive(Debug)]
pub struct Incoming {
    pub method: String,
    pub path: String,
    pub token: Option<String>,
    pub body: String,
}

/// A response: its status and JSON body.
#[derive(Debug)]
pub struct Outgoing {
    pub status: u16,
    pub body: String,
}

/// A bearer token is accepted only when one was given, the expected token is
/// not empty, and the two are equal.
pub open spec fn token_accepted(expected: Seq<char>, provided: Option<Seq<char>>) -> bool {
    match provided {
        Some(p) => expected.len() > 0 && p == expected,
        None => false,
    }
}

proof fn lemma_or_xor_zero(acc: u32, a: u32, b: u32)
    ensures
        (acc | (a ^ b)) == 0 <==> (acc == 0 && a == b),
{
    assert((acc | (a ^ b)) == 0 <==> (acc == 0 && a == b)) by (bit_vector);
}

/// Compares the tokens without stopping at the first difference.
pub fn token_ok(expected: &str, provided: Option<&str>) -> (r: bool)
    ensures
        r == token_accepted(
            expected@,
            match provided {
                Some(p) => Some(p@),
                None => None,
            },
        ),
{
    let got = match provided {
        Some(got) => got,
        None => return false,
    };
    let e = chars_of(expected);
    let g = chars_of(got);
    if e.len() == 0 || g.len() != e.len() {
        return false;
    }
    let mut acc: u32 = 0;
    let mut i: usize = 0;
    while i < e.len()
        invariant
            e@.len() == g@.len(),
            i <= e@.len(),
            (acc == 0) <==> (forall|j: int| 0 <= j < i ==> #[trigger] e@[j] == g@[j]),
        decreases e@.len() - i,
    {
        let a = g[i] as u32;
        let b = e[i] as u32;
        proof {
            lemma_or_xor_zero(acc, a, b);
            vstd::utf8::char_u32_cast(g@[i as int], a);
            vstd::utf8::char_u32_cast(e@[i as int], b);
        }
        acc = acc | (a ^ b);
        proof {
            if acc == 0 {
                assert forall|j: int| 0 <= j < i + 1 implies #[trigger] e@[j] == g@[j] by {
                    if j == i {
                        assert(a == b);
                    }
                }
            } else {
                if forall|j: int| 0 <= j < i + 1 ==> #[trigger] e@[j] == g@[j] {
                    assert(e@[i as int] == g@[i as int]);
                }
            }
        }
        i = i + 1;
    }
    proof {
        if acc == 0 {
            assert(e@ =~= g@);
        }
    }
    acc == 0
}

/// The JSON body of an error: `{"error":<code>}`.
pub open spec fn error_body(code: Seq<char>) -> Seq<char> {
    "{\"error\":"@ + json_string(code) + "}"@
}

pub fn error(status: u16, code: &str) -> (r: Outgoing)
    ensures
        r.status == status,
        r.body@ == error_body(code@),
{
    let mut body = String::new();
    crate::text::push_str(&mut body, "{\"error\":");
    crate::text::push_str(&mut body, json_quote(code).as_str());
    crate::text::push_str(&mut body, "}");
    assert(body@ =~= error_body(code@));
    Outgoing { status, body }
}

/// The endpoint a request names.
#[derive(Debug, Clone, Copy, PartialEq, Eq, Structural)]
pub enum Route {
    Remember,
    Recall,
    List,
    Forget,
    DomainCreate,
    DomainList,
    DomainAttach,
    DomainDetach,
    DomainDelete,
    Copy,
    Move,
    OperationStatus,
    Status,
}

/// The endpoints: `POST` only, each under `/v1`.
pub open spec fn route_of(method: Seq<char>, path: Seq<char>) -> Option<Route> {
    if method != "POST"@ {
        None
    } else if path == "/v1/memories/remember"@ {
        Some(Route::Remember)
    } else if path == "/v1/memories/recall"@ {
        Some(Route::Recall)
    } else if path == "/v1/memories/list"@ {
        Some(Route::List)
    } else if path == "/v1/memories/forget"@ {
        Some(Route::Forget)
    } else if path == "/v1/domains/create"@ {
        Some(Route::DomainCreate)
    } else if path == "/v1/domains/list"@ {
        Some(Route::DomainList)
    } else if path == "/v1/domains/attach"@ {
        Some(Route::DomainAttach)
    } else if path == "/v1/domains/detach"@ {
        Some(Route::DomainDetach)
    } else if path == "/v1/domains/delete"@ {
        Some(Route::DomainDelete)
    } else if path == "/v1/memories/copy"@ {
        Some(Route::Copy)
    } else if path == "/v1/memories/move"@ {
        Some(Route::Move)
    } else if path == "/v1/operations/status"@ {
        Some(Route::OperationStatus)
    } else if path == "/v1/status"@ {
        Some(Route::Status)
    } else {
        None
    }
}

pub fn route(method: &str, path: &str) -> (r: Option<Route>)
    ensures
        r == route_of(method@, path@),
{
    if !str_eq(method, "POST") {
        return None;
    }
    if str_eq(path, "/v1/memories/remember") {
        Some(Route::Remember)
    } else if str_eq(path, "/v1/memories/recall") {
        Some(Route::Recall)
    } else if str_eq(path, "/v1/memories/list") {
        Some(Route::List)
    } else if str_eq(path, "/v1/memories/forget") {
        Some(Route::Forget)
    } else if str_eq(path, "/v1/domains/create") {
        Some(Route::DomainCreate)
    } else if str_eq(path, "/v1/domains/list") {
        Some(Route::DomainList)
    } else if str_eq(path, "/v1/domains/attach") {
        Some(Route::DomainAttach)
    } else if str_eq(path, "/v1/domains/detach") {
        Some(Route::DomainDetach)
    } else if str_eq(path, "/v1/domains/delete") {
        Some(Route::DomainDelete)
    } else if str_eq(path, "/v1/memories/copy") {
        Some(Route::Copy)
    } else if str_eq(path, "/v1/memories/move") {
        Some(Route::Move)
    } else if str_eq(path, "/v1/operations/status") {
        Some(Route::OperationStatus)
    } else if str_eq(path, "/v1/status") {
        Some(Route::Status)
    } else {
        None
    }
}

/// Each endpoint's path.
pub open spec fn route_path(r: Route) -> Seq<char> {
    match r {
        Route::Remember => "/v1/memories/remember"@,
        Route::Recall => "/v1/memories/recall"@,
        Route::List => "/v1/memories/list"@,
        Route::Forget => "/v1/memories/forget"@,
        Route::DomainCreate => "/v1/domains/create"@,
        Route::DomainList => "/v1/domains/list"@,
        Route::DomainAttach => "/v1/domains/attach"@,
        Route::DomainDetach => "/v1/domains/detach"@,
        Route::DomainDelete => "/v1/domains/delete"@,
        Route::Copy => "/v1/memories/copy"@,
        Route::Move => "/v1/memories/move"@,
        Route::OperationStatus => "/v1/operations/status"@,
        Route::Status => "/v1/status"@,
    }
}

impl Route {
    /// The path that a client sends a request for this endpoint to.
    pub fn path(&self) -> (r: &'static str)
        ensures
            r@ == route_path(*self),
    {
        match self {
            Route::Remember => "/v1/memories/remember",
            Route::Recall => "/v1/memories/recall",
            Route::List => "/v1/memories/list",
            Route::Forget => "/v1/memories/forget",
            Route::DomainCreate => "/v1/domains/create",
            Route::DomainList => "/v1/domains/list",
            Route::DomainAttach => "/v1/domains/attach",
            Route::DomainDetach => "/v1/domains/detach",
            Route::DomainDelete => "/v1/domains/delete",
            Route::Copy => "/v1/memories/copy",
            Route::Move => "/v1/memories/move",
            Route::OperationStatus => "/v1/operations/status",
            Route::Status => "/v1/status",
        }
    }
}

/// A `POST` to an endpoint's path is routed to that endpoint: the paths the
/// client sends to and the paths the server routes agree.
pub proof fn lemma_route_path_round_trip(r: Route)
    ensures
        route_of("POST"@, route_path(r)) == Some(r),
{
    reveal_strlit("/v1/memories/remember");
    reveal_strlit("/v1/memories/recall");
    reveal_strlit("/v1/memories/list");
    reveal_strlit("/v1/memories/forget");
    reveal_strlit("/v1/domains/create");
    reveal_strlit("/v1/domains/list");
    reveal_strlit("/v1/domains/attach");
    reveal_strlit("/v1/domains/detach");
    reveal_strlit("/v1/domains/delete");
    reveal_strlit("/v1/memories/copy");
    reveal_strlit("/v1/memories/move");
    reveal_strlit("/v1/operations/status");
    reveal_strlit("/v1/status");
    match r {
        Route::Remember => {
            assert(route_of("POST"@, "/v1/memories/remember"@) == Some(Route::Remember));
        },
        Route::Recall => {
            assert("/v1/memories/recall"@.len() != "/v1/memories/remember"@.len());
            assert(route_of("POST"@, "/v1/memories/recall"@) == Some(Route::Recall));
        },
        Route::List => {
            assert("/v1/memories/list"@.len() != "/v1/memories/remember"@.len());
            assert("/v1/memories/list"@.len() != "/v1/memories/recall"@.len());
            assert(route_of("POST"@, "/v1/memories/list"@) == Some(Route::List));
        },
        Route::Forget => {
            assert("/v1/memories/forget"@.len() != "/v1/memories/remember"@.len());
            assert("/v1/memories/forget"@[13] != "/v1/memories/recall"@[13]);
            assert("/v1/memories/forget"@.len() != "/v1/memories/list"@.len());
            assert(route_of("POST"@, "/v1/memories/forget"@) == Some(Route::Forget));
        },
        Route::DomainCreate => {
            assert("/v1/domains/create"@.len() != "/v1/memories/remember"@.len());
            assert("/v1/domains/create"@.len() != "/v1/memories/recall"@.len());
            assert("/v1/domains/create"@.len() != "/v1/memories/list"@.len());
            assert("/v1/domains/create"@.len() != "/v1/memories/forget"@.len());
            assert(route_of("POST"@, "/v1/domains/create"@) == Some(Route::DomainCreate));
        },
        Route::DomainList => {
            assert("/v1/domains/list"@.len() != "/v1/memories/remember"@.len());
            assert("/v1/domains/list"@.len() != "/v1/memories/recall"@.len());
            assert("/v1/domains/list"@.len() != "/v1/memories/list"@.len());
            assert("/v1/domains/list"@.len() != "/v1/memories/forget"@.len());
            assert("/v1/domains/list"@.len() != "/v1/domains/create"@.len());
            assert(route_of("POST"@, "/v1/domains/list"@) == Some(Route::DomainList));
        },
        Route::DomainAttach => {
            assert("/v1/domains/attach"@.len() != "/v1/memories/remember"@.len());
            assert("/v1/domains/attach"@.len() != "/v1/memories/recall"@.len());
            assert("/v1/domains/attach"@.len() != "/v1/memories/list"@.len());
            assert("/v1/domains/attach"@.len() != "/v1/memories/forget"@.len());
            assert("/v1/domains/attach"@[12] != "/v1/domains/create"@[12]);
            assert("/v1/domains/attach"@.len() != "/v1/domains/list"@.len());
            assert(route_of("POST"@, "/v1/domains/attach"@) == Some(Route::DomainAttach));
        },
        Route::DomainDetach => {
            assert("/v1/domains/detach"@.len() != "/v1/memories/remember"@.len());
            assert("/v1/domains/detach"@.len() != "/v1/memories/recall"@.len());
            assert("/v1/domains/detach"@.len() != "/v1/memories/list"@.len());
            assert("/v1/domains/detach"@.len() != "/v1/memories/forget"@.len());
            assert("/v1/domains/detach"@[12] != "/v1/domains/create"@[12]);
            assert("/v1/domains/detach"@.len() != "/v1/domains/list"@.len());
            assert("/v1/domains/detach"@[12] != "/v1/domains/attach"@[12]);
            assert(route_of("POST"@, "/v1/domains/detach"@) == Some(Route::DomainDetach));
        },
        Route::DomainDelete => {
            assert("/v1/domains/delete"@.len() != "/v1/memories/remember"@.len());
            assert("/v1/domains/delete"@.len() != "/v1/memories/recall"@.len());
            assert("/v1/domains/delete"@.len() != "/v1/memories/list"@.len());
            assert("/v1/domains/delete"@.len() != "/v1/memories/forget"@.len());
            assert("/v1/domains/delete"@[12] != "/v1/domains/create"@[12]);
            assert("/v1/domains/delete"@.len() != "/v1/domains/list"@.len());
            assert("/v1/domains/delete"@[12] != "/v1/domains/attach"@[12]);
            assert("/v1/domains/delete"@[14] != "/v1/domains/detach"@[14]);
            assert(route_of("POST"@, "/v1/domains/delete"@) == Some(Route::DomainDelete));
        },
        Route::Copy => {
            assert("/v1/memories/copy"@.len() != "/v1/memories/remember"@.len());
            assert("/v1/memories/copy"@.len() != "/v1/memories/recall"@.len());
            assert("/v1/memories/copy"@[13] != "/v1/memories/list"@[13]);
            assert("/v1/memories/copy"@.len() != "/v1/memories/forget"@.len());
            assert("/v1/memories/copy"@.len() != "/v1/domains/create"@.len());
            assert("/v1/memories/copy"@.len() != "/v1/domains/list"@.len());
            assert("/v1/memories/copy"@.len() != "/v1/domains/attach"@.len());
            assert("/v1/memories/copy"@.len() != "/v1/domains/detach"@.len());
            assert("/v1/memories/copy"@.len() != "/v1/domains/delete"@.len());
            assert(route_of("POST"@, "/v1/memories/copy"@) == Some(Route::Copy));
        },
        Route::Move => {
            assert("/v1/memories/move"@.len() != "/v1/memories/remember"@.len());
            assert("/v1/memories/move"@.len() != "/v1/memories/recall"@.len());
            assert("/v1/memories/move"@[13] != "/v1/memories/list"@[13]);
            assert("/v1/memories/move"@.len() != "/v1/memories/forget"@.len());
            assert("/v1/memories/move"@.len() != "/v1/domains/create"@.len());
            assert("/v1/memories/move"@.len() != "/v1/domains/list"@.len());
            assert("/v1/memories/move"@.len() != "/v1/domains/attach"@.len());
            assert("/v1/memories/move"@.len() != "/v1/domains/detach"@.len());
            assert("/v1/memories/move"@.len() != "/v1/domains/delete"@.len());
            assert("/v1/memories/move"@[13] != "/v1/memories/copy"@[13]);
            assert(route_of("POST"@, "/v1/memories/move"@) == Some(Route::Move));
        },
        Route::OperationStatus => {
            assert("/v1/operations/status"@[4] != "/v1/memories/remember"@[4]);
            assert("/v1/operations/status"@.len() != "/v1/memories/recall"@.len());
            assert("/v1/operations/status"@.len() != "/v1/memories/list"@.len());
            assert("/v1/operations/status"@.len() != "/v1/memories/forget"@.len());
            assert("/v1/operations/status"@.len() != "/v1/domains/create"@.len());
            assert("/v1/operations/status"@.len() != "/v1/domains/list"@.len());
            assert("/v1/operations/status"@.len() != "/v1/domains/attach"@.len());
            assert("/v1/operations/status"@.len() != "/v1/domains/detach"@.len());
            assert("/v1/operations/status"@.len() != "/v1/domains/delete"@.len());
            assert("/v1/operations/status"@.len() != "/v1/memories/copy"@.len());
            assert("/v1/operations/status"@.len() != "/v1/memories/move"@.len());
            assert(route_of("POST"@, "/v1/operations/status"@) == Some(Route::OperationStatus));
        },
        Route::Status => {
            assert("/v1/status"@.len() != "/v1/memories/remember"@.len());
            assert("/v1/status"@.len() != "/v1/memories/recall"@.len());
            assert("/v1/status"@.len() != "/v1/memories/list"@.len());
            assert("/v1/status"@.len() != "/v1/memories/forget"@.len());
            assert("/v1/status"@.len() != "/v1/domains/create"@.len());
            assert("/v1/status"@.len() != "/v1/domains/list"@.len());
            assert("/v1/status"@.len() != "/v1/domains/attach"@.len());
            assert("/v1/status"@.len() != "/v1/domains/detach"@.len());
            assert("/v1/status"@.len() != "/v1/domains/delete"@.len());
            assert("/v1/status"@.len() != "/v1/memories/copy"@.len());
            assert("/v1/status"@.len() != "/v1/memories/move"@.len());
            assert("/v1/status"@.len() != "/v1/operations/status"@.len());
            assert(route_of("POST"@, "/v1/status"@) == Some(Route::Status));
        },
    }
}

/// Every endpoint is a `POST` under `/v1/`; nothing else is routed.
pub proof fn lemma_routes_are_versioned(method: Seq<char>, path: Seq<char>)
    ensures
        route_of(method, path) is Some ==> method == "POST"@ && crate::text::starts_with(
            path,
            "/v1/"@,
        ),
{
    reveal_strlit("/v1/");
    reveal_strlit("/v1/memories/remember");
    reveal_strlit("/v1/memories/recall");
    reveal_strlit("/v1/memories/list");
    reveal_strlit("/v1/memories/forget");
    reveal_strlit("/v1/domains/create");
    reveal_strlit("/v1/domains/list");
    reveal_strlit("/v1/domains/attach");
    reveal_strlit("/v1/domains/detach");
    reveal_strlit("/v1/domains/delete");
    reveal_strlit("/v1/memories/copy");
    reveal_strlit("/v1/memories/move");
    reveal_strlit("/v1/operations/status");
    reveal_strlit("/v1/status");
    if route_of(method, path) is Some {
        assert(path.take(4) =~= "/v1/"@);
    }
}

/// The first stage of handling a request: the bearer token gates everything
/// (401), then the method and path must name an endpoint (404).
pub fn handle(expected_token: &str, incoming: &Incoming) -> (r: Result<Route, Outgoing>)
    ensures
        !token_accepted(expected_token@, crate::deps::opt_view(incoming.token)) ==> (r matches Err(o)
            && o.status == 401 && o.body@ == error_body("unauthorized"@)),
        token_accepted(expected_token@, crate::deps::opt_view(incoming.token)) && route_of(
            incoming.method@,
            incoming.path@,
        ) is None ==> (r matches Err(o) && o.status == 404 && o.body@ == error_body("not_found"@)),
        token_accepted(expected_token@, crate::deps::opt_view(incoming.token)) && route_of(
            incoming.method@,
            incoming.path@,
        ) is Some ==> r == Ok::<Route, Outgoing>(route_of(incoming.method@, incoming.path@)->0),
{
    let provided = match &incoming.token {
        Some(token) => Some(token.as_str()),
        None => None,
    };
    if !token_ok(expected_token, provided) {
        return Err(error(401, "unauthorized"));
    }
    match route(incoming.method.as_str(), incoming.path.as_str()) {
        Some(r) => Ok(r),
        None => Err(error(404, "not_found")),
    }
}

/// The response to a request whose body or identifiers are invalid.
pub fn invalid_request() -> (r: Outgoing)
    ensures
        r.status == 400,
        r.body@ == error_body("invalid_request"@),
{
    error(400, "invalid_request")
}

/// Whether a request may name a placement: its own repository, universal
/// memory, or a registered domain attached to its repository.
pub open spec fn placement_permitted_spec(
    repository: Seq<char>,
    placement: PlacementView,
    registered: Seq<Seq<char>>,
    attached: Seq<Seq<char>>,
) -> bool {
    match placement {
        PlacementView::Repository(r) => r == repository,
        PlacementView::Universal => true,
        PlacementView::Domain(d) => registered.contains(d) && attached.contains(d),
    }
}

pub fn placement_permitted(
    repository: &RepositoryId,
    placement: &PlacementId,
    registered: &Vec<DomainId>,
    attached: &Vec<DomainId>,
) -> (r: bool)
    ensures
        r == placement_permitted_spec(
            repository@,
            placement@,
            domain_views(registered@),
            domain_views(attached@),
        ),
        placement@ matches PlacementView::Repository(named) ==> (r <==> named == repository@),
        placement@ is Universal ==> r,
        placement@ matches PlacementView::Domain(d) ==> (r <==> domain_views(registered@).contains(d)
            && domain_views(attached@).contains(d)),
{
    match placement {
        PlacementId::Repository(value) => value.same_as(repository),
        PlacementId::Universal => true,
        PlacementId::Domain(domain) => contains_domain(registered, domain) && contains_domain(
            attached,
            domain,
        ),
    }
}

/// The answer to a transfer that the store refused: a reused operation ID
/// with another request conflicts (409); anything else is an invalid
/// request (400).
pub fn transfer_refusal(e: &StoreError) -> (r: Outgoing)
    ensures
        *e == StoreError::OperationConflict ==> r.status == 409 && r.body@ == error_body("conflict"@),
        *e != StoreError::OperationConflict ==> r.status == 400 && r.body@ == error_body(
            "invalid_request"@,
        ),
{
    match e {
        StoreError::OperationConflict => error(409, "conflict"),
        _ => error(400, "invalid_request"),
    }
}

/// The answer to an operation-status request that the store could not
/// answer: a fingerprint that differs conflicts (409); anything else is an
/// internal error (500).
pub fn status_refusal(e: &StoreError) -> (r: Outgoing)
    ensures
        *e == StoreError::OperationConflict ==> r.status == 409 && r.body@ == error_body("conflict"@),
        *e != StoreError::OperationConflict ==> r.status == 500 && r.body@ == error_body(
            "internal"@,
        ),
{
    match e {
        StoreError::OperationConflict => error(409, "conflict"),
        _ => error(500, "internal"),
    }
}

/// What the server has learned so far while handling a copy or move.
#[derive(Debug)]
pub enum TransferEvent {
    /// The request has arrived, validated.
    Received,
    /// The operation ledger holds this very request, with its result.
    Replayed(CopyMoveResult),
    /// The operation ledger holds nothing under the request's operation ID.
    NotRecorded,
    /// The ledger holds the operation ID under another request, or could not
    /// be read.
    ReplayFailed,
    /// Whether the request's repository may name its source and its
    /// destination.
    PlacementsChecked { from: bool, to: bool },
    /// The store carried the transfer out.
    Applied(CopyMoveResult),
    /// The store refused the transfer, with its reason where it gave one.
    Refused(Option<StoreError>),
}

/// What the server does next with a copy or move.
#[derive(Debug)]
pub enum TransferAction {
    /// Look the operation ID up in the ledger.
    LookUp,
    /// Check that both placements are permitted.
    CheckPlacements,
    /// Carry the transfer out.
    Apply,
    /// Answer with this result.
    Answer(CopyMoveResult),
    /// Answer with this error.
    Respond(Outgoing),
}

/// The order in which the server handles a copy or move: a recorded request
/// is answered from the ledger before anything else (and a reused operation
/// ID conflicts); only then are both placements checked; only then is the
/// transfer applied, and a refusal is answered as `transfer_refusal` says.
pub fn transfer_step(event: TransferEvent) -> (r: TransferAction)
    ensures
        event is Received ==> r is LookUp,
        event matches TransferEvent::Replayed(res) ==> (r matches TransferAction::Answer(x) && x
            == res),
        event is NotRecorded ==> r is CheckPlacements,
        event is ReplayFailed ==> (r matches TransferAction::Respond(o) && o.status == 409 && o.body@
            == error_body("conflict"@)),
        event matches TransferEvent::PlacementsChecked { from, to } ==> if from && to {
            r is Apply
        } else {
            r matches TransferAction::Respond(o) && o.status == 400 && o.body@ == error_body(
                "invalid_request"@,
            )
        },
        event matches TransferEvent::Applied(res) ==> (r matches TransferAction::Answer(x) && x
            == res),
        event matches TransferEvent::Refused(e) ==> (r matches TransferAction::Respond(o) && if e
            == Some(StoreError::OperationConflict) {
            o.status == 409 && o.body@ == error_body("conflict"@)
        } else {
            o.status == 400 && o.body@ == error_body("invalid_request"@)
        }),
{
    match event {
        TransferEvent::Received => TransferAction::LookUp,
        TransferEvent::Replayed(result) => TransferAction::Answer(result),
        TransferEvent::NotRecorded => TransferAction::CheckPlacements,
        TransferEvent::ReplayFailed => TransferAction::Respond(error(409, "conflict")),
        TransferEvent::PlacementsChecked { from, to } => if from && to {
            TransferAction::Apply
        } else {
            TransferAction::Respond(invalid_request())
        },
        TransferEvent::Applied(result) => TransferAction::Answer(result),
        TransferEvent::Refused(Some(e)) => TransferAction::Respond(transfer_refusal(&e)),
        TransferEvent::Refused(None) => TransferAction::Respond(invalid_request()),
    }
}

} // verus!
