//! Copy, move and operation-status requests.
use vstd::prelude::*;

use crate::scope::{
    is_canonical_uuid, is_hex64, placement_of, placement_text, valid_repository_id, OperationId,
    RepositoryId,
};
use crate::server::request::{placement, placement_accepted, repository, ParseError};
use crate::store::transfers::{
    fingerprint_of, mutation_text, note_of, CopyMoveAction, CopyMoveInput, CopyMoveRequest,
};

verus! {

pub struct Transfer {
    pub request: CopyMoveRequest,
}

pub struct OperationStatus {
    pub repository: RepositoryId,
    pub operation_id: OperationId,
    pub request_fingerprint: String,
}

/// The decoded body of a copy or move.
pub struct TransferIn {
    pub repository: String,
    pub id: i64,
    pub from: String,
    pub to: String,
    pub operation_id: String,
    pub note: Option<String>,
}

/// The decoded body of an operation-status request.
pub struct OperationStatusIn {
    pub repository: String,
    pub operation_id: String,
    pub request_fingerprint: String,
}

/// A transfer body is valid when its repository is valid, both placements
/// are accepted for it, and its operation ID is canonical.
pub open spec fn transfer_input_valid(input: TransferIn) -> bool {
    &&& valid_repository_id(input.repository@)
    &&& placement_accepted(input.from@, input.repository@)
    &&& placement_accepted(input.to@, input.repository@)
    &&& is_canonical_uuid(input.operation_id@)
}

/// The mutation record of a transfer body under an endpoint's action: the
/// same record a client prepares from the same fields.
pub open spec fn transfer_mutation(body: TransferIn, action: CopyMoveAction) -> Seq<char> {
    mutation_text(
        action,
        body.id,
        placement_text(placement_of(body.from@)->0),
        placement_text(placement_of(body.to@)->0),
        note_of(body.note),
    )
}

/// A transfer request carries its body's repository, memory, placements,
/// note and operation ID, with the endpoint's action; its mutation and
/// fingerprint are those a client prepares from the same fields.
pub open spec fn transfer_fields(t: Transfer, body: TransferIn, action: CopyMoveAction) -> bool {
    &&& t.request.spec_action() == action
    &&& t.request.spec_repository() == body.repository@
    &&& t.request.spec_memory_id() == body.id
    &&& Some(t.request.spec_from()) == placement_of(body.from@)
    &&& Some(t.request.spec_to()) == placement_of(body.to@)
    &&& t.request.spec_operation_id() == body.operation_id@
    &&& t.request.spec_note() == note_of(body.note)
    &&& t.request.spec_mutation() == transfer_mutation(body, action)
    &&& t.request.spec_fingerprint() == fingerprint_of(
        body.repository@,
        transfer_mutation(body, action),
    )
}

/// An operation-status request carries its body's fields.
pub open spec fn status_fields(s: OperationStatus, body: OperationStatusIn) -> bool {
    &&& s.repository@ == body.repository@
    &&& s.operation_id@ == body.operation_id@
    &&& s.request_fingerprint == body.request_fingerprint
}

pub fn copy(body: TransferIn) -> (r: Result<Transfer, ParseError>)
    ensures
        transfer_input_valid(body) ==> (r matches Ok(t) && transfer_fields(t, body, CopyMoveAction::Copy)),
        !transfer_input_valid(body) ==> r == Err::<Transfer, ParseError>(ParseError::Invalid),
{
    transfer(body, CopyMoveAction::Copy)
}

pub fn move_memory(body: TransferIn) -> (r: Result<Transfer, ParseError>)
    ensures
        transfer_input_valid(body) ==> (r matches Ok(t) && transfer_fields(t, body, CopyMoveAction::Move)),
        !transfer_input_valid(body) ==> r == Err::<Transfer, ParseError>(ParseError::Invalid),
{
    transfer(body, CopyMoveAction::Move)
}

/// An operation-status body is valid when its fingerprint is a SHA-256 hex
/// digest, its repository is valid and its operation ID is canonical.
pub open spec fn status_input_valid(input: OperationStatusIn) -> bool {
    &&& is_hex64(input.request_fingerprint@)
    &&& valid_repository_id(input.repository@)
    &&& is_canonical_uuid(input.operation_id@)
}

pub fn operation_status(body: OperationStatusIn) -> (r: Result<OperationStatus, ParseError>)
    ensures
        status_input_valid(body) ==> (r matches Ok(s) && status_fields(s, body)),
        !status_input_valid(body) ==> r == Err::<OperationStatus, ParseError>(ParseError::Invalid),
{
    if !crate::remote::is_sha256(body.request_fingerprint.as_str()) {
        return Err(ParseError::Invalid);
    }
    let repository = repository(body.repository.as_str())?;
    let operation_id = match OperationId::parse(body.operation_id.as_str()) {
        Ok(id) => id,
        Err(_) => return Err(ParseError::Invalid),
    };
    Ok(OperationStatus { repository, operation_id, request_fingerprint: body.request_fingerprint })
}

fn transfer(body: TransferIn, action: CopyMoveAction) -> (r: Result<Transfer, ParseError>)
    ensures
        transfer_input_valid(body) ==> (r matches Ok(t) && transfer_fields(t, body, action)),
        !transfer_input_valid(body) ==> r == Err::<Transfer, ParseError>(ParseError::Invalid),
{
    let repository = repository(body.repository.as_str())?;
    let from = match placement(Some(body.from.as_str()), &repository)? {
        Some(p) => p,
        None => return Err(ParseError::Invalid),
    };
    let to = match placement(Some(body.to.as_str()), &repository)? {
        Some(p) => p,
        None => return Err(ParseError::Invalid),
    };
    let operation_id = match OperationId::parse(body.operation_id.as_str()) {
        Ok(id) => id,
        Err(_) => return Err(ParseError::Invalid),
    };
    let request = match CopyMoveRequest::prepare(
        repository,
        CopyMoveInput {
            action,
            memory_id: body.id,
            from,
            to,
            operation_id: Some(operation_id),
            applicability_note: body.note,
        },
    ) {
        Ok(request) => request,
        Err(_) => return Err(ParseError::Invalid),
    };
    Ok(Transfer { request })
}

} // verus!
