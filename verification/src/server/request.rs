//! The requests the server accepts, validated from their decoded bodies.
use vstd::prelude::*;

use crate::scope::{placement_of, valid_repository_id, PlacementId, PlacementView, RepositoryId};
use crate::server::Route;

pub mod domains;
pub mod transfers;

pub use domains::{Domain, DomainIn, DomainsIn};
pub use transfers::{OperationStatus, OperationStatusIn, Transfer, TransferIn};

verus! {

/// A validated request.
pub enum Request {
    Remember(Remember),
    Recall(Recall),
    List(List),
    Forget(Forget),
    Domain(Domain),
    Transfer(Transfer),
    OperationStatus(OperationStatus),
    Status { repository: RepositoryId },
}

pub struct Remember {
    pub repository: RepositoryId,
    pub placement: PlacementId,
    pub content: String,
    pub kind: String,
    pub tags: String,
    pub topic_key: Option<String>,
    pub force: bool,
    pub overwrite_id: Option<i64>,
}

pub struct Recall {
    pub repository: RepositoryId,
    pub placement: Option<PlacementId>,
    pub query: String,
    pub limit: usize,
    pub kind: Option<String>,
    pub max_chars: Option<usize>,
}

pub struct List {
    pub repository: RepositoryId,
    pub placement: Option<PlacementId>,
    pub limit: usize,
}

pub struct Forget {
    pub repository: RepositoryId,
    pub placement: PlacementId,
    pub id: i64,
}

#[derive(Debug, Clone, Copy, PartialEq, Eq, Structural)]
pub enum ParseError {
    NotFound,
    Invalid,
}

/// The decoded body of a remember request.
pub struct RememberIn {
    pub repository: String,
    pub placement: String,
    pub content: String,
    pub kind: String,
    pub tags: String,
    pub force: bool,
    pub id: Option<i64>,
    pub topic_key: Option<String>,
}

/// The decoded body of a recall request.
pub struct RecallIn {
    pub repository: String,
    pub placement: Option<String>,
    pub query: String,
    pub limit: usize,
    pub kind: Option<String>,
    pub max_chars: Option<usize>,
}

/// The decoded body of a list request.
pub struct ListIn {
    pub repository: String,
    pub placement: Option<String>,
    pub limit: usize,
}

/// The decoded body of a forget request.
pub struct ForgetIn {
    pub repository: String,
    pub placement: String,
    pub id: i64,
}

/// The decoded body of a status request.
pub struct StatusIn {
    pub repository: String,
}

/// A decoded body, of the shape its endpoint expects.
pub enum RequestInput {
    Remember(RememberIn),
    Recall(RecallIn),
    List(ListIn),
    Forget(ForgetIn),
    Domain(DomainIn),
    Domains(DomainsIn),
    Transfer(TransferIn),
    OperationStatus(OperationStatusIn),
    Status(StatusIn),
}

/// A placement is accepted when it parses and, if it names a repository,
/// names the request's own repository.
pub open spec fn placement_accepted(value: Seq<char>, repository: Seq<char>) -> bool {
    match placement_of(value) {
        Some(PlacementView::Repository(r)) => r == repository,
        Some(_) => true,
        None => false,
    }
}

pub fn repository(value: &str) -> (r: Result<RepositoryId, ParseError>)
    ensures
        valid_repository_id(value@) ==> (r matches Ok(id) && id@ == value@),
        !valid_repository_id(value@) ==> r == Err::<RepositoryId, ParseError>(ParseError::Invalid),
{
    match RepositoryId::parse(value) {
        Ok(id) => Ok(id),
        Err(_) => Err(ParseError::Invalid),
    }
}

pub fn placement(value: Option<&str>, repository: &RepositoryId) -> (r: Result<
    Option<PlacementId>,
    ParseError,
>)
    ensures
        value is None ==> r matches Ok(None),
        value matches Some(v) && placement_accepted(v@, repository@) ==> (r matches Ok(Some(p))
            && Some(p@) == placement_of(value->0@)),
        value matches Some(v) && !placement_accepted(v@, repository@) ==> r == Err::<
            Option<PlacementId>,
            ParseError,
        >(ParseError::Invalid),
{
    let value = match value {
        None => return Ok(None),
        Some(v) => v,
    };
    let placement = match PlacementId::parse(value) {
        Ok(p) => p,
        Err(_) => return Err(ParseError::Invalid),
    };
    if let PlacementId::Repository(named) = &placement {
        if !named.same_as(repository) {
            return Err(ParseError::Invalid);
        }
    }
    Ok(Some(placement))
}

fn opt_str(value: &Option<String>) -> (r: Option<&str>)
    ensures
        crate::deps::opt_view(*value) == match r {
            Some(s) => Some(s@),
            None => None,
        },
{
    match value {
        Some(s) => Some(s.as_str()),
        None => None,
    }
}

/// A request's optional placement is the one its body names, if any.
pub open spec fn optional_placement_of(p: Option<PlacementId>, value: Option<String>) -> bool {
    match value {
        None => p is None,
        Some(v) => p matches Some(q) && Some(q@) == placement_of(v@),
    }
}

/// A remember request carries its body's fields.
pub open spec fn remember_fields(req: Remember, input: RememberIn) -> bool {
    &&& req.repository@ == input.repository@
    &&& Some(req.placement@) == placement_of(input.placement@)
    &&& req.content == input.content
    &&& req.kind == input.kind
    &&& req.tags == input.tags
    &&& req.topic_key == input.topic_key
    &&& req.force == input.force
    &&& req.overwrite_id == input.id
}

/// A recall request carries its body's fields.
pub open spec fn recall_fields(req: Recall, input: RecallIn) -> bool {
    &&& req.repository@ == input.repository@
    &&& optional_placement_of(req.placement, input.placement)
    &&& req.query == input.query
    &&& req.limit == input.limit
    &&& req.kind == input.kind
    &&& req.max_chars == input.max_chars
}

/// A list request carries its body's fields.
pub open spec fn list_fields(req: List, input: ListIn) -> bool {
    &&& req.repository@ == input.repository@
    &&& optional_placement_of(req.placement, input.placement)
    &&& req.limit == input.limit
}

/// A forget request carries its body's fields.
pub open spec fn forget_fields(req: Forget, input: ForgetIn) -> bool {
    &&& req.repository@ == input.repository@
    &&& Some(req.placement@) == placement_of(input.placement@)
    &&& req.id == input.id
}

/// A remember request: a valid repository and an accepted placement.
pub fn remember(input: RememberIn) -> (r: Result<Remember, ParseError>)
    ensures
        (valid_repository_id(input.repository@) && placement_accepted(
            input.placement@,
            input.repository@,
        )) ==> (r matches Ok(req) && remember_fields(req, input)),
        !(valid_repository_id(input.repository@) && placement_accepted(
            input.placement@,
            input.repository@,
        )) ==> r == Err::<Remember, ParseError>(ParseError::Invalid),
{
    let repository = repository(input.repository.as_str())?;
    let placement = match placement(Some(input.placement.as_str()), &repository)? {
        Some(p) => p,
        None => return Err(ParseError::Invalid),
    };
    Ok(
        Remember {
            repository,
            placement,
            content: input.content,
            kind: input.kind,
            tags: input.tags,
            topic_key: input.topic_key,
            force: input.force,
            overwrite_id: input.id,
        },
    )
}

pub open spec fn optional_placement_accepted(value: Option<String>, repository: Seq<char>) -> bool {
    match value {
        Some(v) => placement_accepted(v@, repository),
        None => true,
    }
}

/// A recall request: a valid repository and, if given, an accepted placement.
pub fn recall(input: RecallIn) -> (r: Result<Recall, ParseError>)
    ensures
        (valid_repository_id(input.repository@) && optional_placement_accepted(
            input.placement,
            input.repository@,
        )) ==> (r matches Ok(req) && recall_fields(req, input)),
        !(valid_repository_id(input.repository@) && optional_placement_accepted(
            input.placement,
            input.repository@,
        )) ==> r == Err::<Recall, ParseError>(ParseError::Invalid),
{
    let repository = repository(input.repository.as_str())?;
    let placement = placement(opt_str(&input.placement), &repository)?;
    Ok(
        Recall {
            placement,
            repository,
            query: input.query,
            limit: input.limit,
            kind: input.kind,
            max_chars: input.max_chars,
        },
    )
}

/// A list request: a valid repository and, if given, an accepted placement.
pub fn list(input: ListIn) -> (r: Result<List, ParseError>)
    ensures
        (valid_repository_id(input.repository@) && optional_placement_accepted(
            input.placement,
            input.repository@,
        )) ==> (r matches Ok(req) && list_fields(req, input)),
        !(valid_repository_id(input.repository@) && optional_placement_accepted(
            input.placement,
            input.repository@,
        )) ==> r == Err::<List, ParseError>(ParseError::Invalid),
{
    let repository = repository(input.repository.as_str())?;
    let placement = placement(opt_str(&input.placement), &repository)?;
    Ok(List { placement, repository, limit: input.limit })
}

/// A forget request: a valid repository and an accepted placement.
pub fn forget(input: ForgetIn) -> (r: Result<Forget, ParseError>)
    ensures
        (valid_repository_id(input.repository@) && placement_accepted(
            input.placement@,
            input.repository@,
        )) ==> (r matches Ok(req) && forget_fields(req, input)),
        !(valid_repository_id(input.repository@) && placement_accepted(
            input.placement@,
            input.repository@,
        )) ==> r == Err::<Forget, ParseError>(ParseError::Invalid),
{
    let repository = repository(input.repository.as_str())?;
    let placement = match placement(Some(input.placement.as_str()), &repository)? {
        Some(p) => p,
        None => return Err(ParseError::Invalid),
    };
    Ok(Forget { repository, placement, id: input.id })
}

/// A status request: a valid repository.
pub fn status(input: StatusIn) -> (r: Result<Request, ParseError>)
    ensures
        valid_repository_id(input.repository@) ==> (r matches Ok(Request::Status { repository })
            && repository@ == input.repository@),
        !valid_repository_id(input.repository@) ==> r == Err::<Request, ParseError>(ParseError::Invalid),
{
    Ok(Request::Status { repository: repository(input.repository.as_str())? })
}

/// Whether a body is valid for an endpoint: it has the endpoint's shape and
/// its fields pass that endpoint's checks.
pub open spec fn body_valid(route: Route, input: RequestInput) -> bool {
    match (route, input) {
        (Route::Remember, RequestInput::Remember(b)) => valid_repository_id(b.repository@)
            && placement_accepted(b.placement@, b.repository@),
        (Route::Recall, RequestInput::Recall(b)) => valid_repository_id(b.repository@)
            && optional_placement_accepted(b.placement, b.repository@),
        (Route::List, RequestInput::List(b)) => valid_repository_id(b.repository@)
            && optional_placement_accepted(b.placement, b.repository@),
        (Route::Forget, RequestInput::Forget(b)) => valid_repository_id(b.repository@)
            && placement_accepted(b.placement@, b.repository@),
        (Route::DomainCreate, RequestInput::Domain(b)) => domains::domain_input_valid(b),
        (Route::DomainList, RequestInput::Domains(b)) => valid_repository_id(b.repository@),
        (Route::DomainAttach, RequestInput::Domain(b)) => domains::domain_input_valid(b),
        (Route::DomainDetach, RequestInput::Domain(b)) => domains::domain_input_valid(b),
        (Route::DomainDelete, RequestInput::Domain(b)) => domains::domain_input_valid(b),
        (Route::Copy, RequestInput::Transfer(b)) => transfers::transfer_input_valid(b),
        (Route::Move, RequestInput::Transfer(b)) => transfers::transfer_input_valid(b),
        (Route::OperationStatus, RequestInput::OperationStatus(b)) => transfers::status_input_valid(b),
        (Route::Status, RequestInput::Status(b)) => valid_repository_id(b.repository@),
        _ => false,
    }
}

/// A validated request is the one its endpoint makes of its body.
pub open spec fn request_matches(route: Route, req: Request, input: RequestInput) -> bool {
    match (route, req, input) {
        (Route::Remember, Request::Remember(q), RequestInput::Remember(b)) => remember_fields(q, b),
        (Route::Recall, Request::Recall(q), RequestInput::Recall(b)) => recall_fields(q, b),
        (Route::List, Request::List(q), RequestInput::List(b)) => list_fields(q, b),
        (Route::Forget, Request::Forget(q), RequestInput::Forget(b)) => forget_fields(q, b),
        (Route::DomainCreate, Request::Domain(d), RequestInput::Domain(b)) => domains::create_fields(d, b),
        (Route::DomainList, Request::Domain(d), RequestInput::Domains(b)) => domains::list_fields(d, b),
        (Route::DomainAttach, Request::Domain(d), RequestInput::Domain(b)) => domains::attach_fields(d, b),
        (Route::DomainDetach, Request::Domain(d), RequestInput::Domain(b)) => domains::detach_fields(d, b),
        (Route::DomainDelete, Request::Domain(d), RequestInput::Domain(b)) => domains::delete_fields(d, b),
        (Route::Copy, Request::Transfer(t), RequestInput::Transfer(b)) => transfers::transfer_fields(
            t,
            b,
            crate::store::transfers::CopyMoveAction::Copy,
        ),
        (Route::Move, Request::Transfer(t), RequestInput::Transfer(b)) => transfers::transfer_fields(
            t,
            b,
            crate::store::transfers::CopyMoveAction::Move,
        ),
        (Route::OperationStatus, Request::OperationStatus(o), RequestInput::OperationStatus(b)) =>
            transfers::status_fields(o, b),
        (Route::Status, Request::Status { repository }, RequestInput::Status(b)) => repository@
            == b.repository@,
        _ => false,
    }
}

/// Validates a decoded body for its endpoint; a missing body (one that did not
/// decode) or a body of another shape is invalid.
pub fn parse(route: Route, input: Option<RequestInput>) -> (r: Result<Request, ParseError>)
    ensures
        input is None ==> r == Err::<Request, ParseError>(ParseError::Invalid),
        input matches Some(i) ==> (r is Ok <==> body_valid(route, i)),
        r is Err ==> r == Err::<Request, ParseError>(ParseError::Invalid),
        r matches Ok(req) ==> (input matches Some(i) && request_matches(route, req, i)),
{
    let input = match input {
        None => return Err(ParseError::Invalid),
        Some(input) => input,
    };
    match (route, input) {
        (Route::Remember, RequestInput::Remember(body)) => Ok(Request::Remember(remember(body)?)),
        (Route::Recall, RequestInput::Recall(body)) => Ok(Request::Recall(recall(body)?)),
        (Route::List, RequestInput::List(body)) => Ok(Request::List(list(body)?)),
        (Route::Forget, RequestInput::Forget(body)) => Ok(Request::Forget(forget(body)?)),
        (Route::DomainCreate, RequestInput::Domain(body)) => Ok(
            Request::Domain(domains::create(body)?),
        ),
        (Route::DomainList, RequestInput::Domains(body)) => Ok(
            Request::Domain(domains::list(body)?),
        ),
        (Route::DomainAttach, RequestInput::Domain(body)) => Ok(
            Request::Domain(domains::attach(body)?),
        ),
        (Route::DomainDetach, RequestInput::Domain(body)) => Ok(
            Request::Domain(domains::detach(body)?),
        ),
        (Route::DomainDelete, RequestInput::Domain(body)) => Ok(
            Request::Domain(domains::delete(body)?),
        ),
        (Route::Copy, RequestInput::Transfer(body)) => Ok(Request::Transfer(transfers::copy(body)?)),
        (Route::Move, RequestInput::Transfer(body)) => Ok(
            Request::Transfer(transfers::move_memory(body)?),
        ),
        (Route::OperationStatus, RequestInput::OperationStatus(body)) => Ok(
            Request::OperationStatus(transfers::operation_status(body)?),
        ),
        (Route::Status, RequestInput::Status(body)) => status(body),
        _ => Err(ParseError::Invalid),
    }
}

} // verus!
