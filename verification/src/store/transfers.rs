//! Copy and move requests, their fingerprints and the operation ledger.
use vstd::prelude::*;

use crate::deps::{json_quote, json_string, sha256, sha256_digest};
use crate::scope::{
    lemma_placement_round_trip, operation_id_for, placement_of, placement_text, placement_valid, OperationId, PlacementId, PlacementView,
    RepositoryId,
};
use crate::store::{trim_text, StoreError};
use crate::text::{decimal_int, hex_bytes, push_decimal_i64, push_hex_bytes, push_str, trim};

verus! {

#[derive(Debug, Clone, Copy, PartialEq, Eq, Structural)]
pub enum CopyMoveAction {
    Copy,
    Move,
}

pub open spec fn action_text(action: CopyMoveAction) -> Seq<char> {
    match action {
        CopyMoveAction::Copy => "copy"@,
        CopyMoveAction::Move => "move"@,
    }
}

impl CopyMoveAction {
    pub fn as_str(self) -> (r: &'static str)
        ensures
            r@ == action_text(self),
    {
        match self {
            CopyMoveAction::Copy => "copy",
            CopyMoveAction::Move => "move",
        }
    }

    pub fn past_tense(self) -> (r: &'static str)
        ensures
            r@ == match self {
                CopyMoveAction::Copy => "copied"@,
                CopyMoveAction::Move => "moved"@,
            },
    {
        match self {
            CopyMoveAction::Copy => "copied",
            CopyMoveAction::Move => "moved",
        }
    }
}

/// A copy or move as the user asks for it.
#[derive(Debug, Clone, PartialEq, Eq)]
pub struct CopyMoveInput {
    pub action: CopyMoveAction,
    pub memory_id: i64,
    pub from: PlacementId,
    pub to: PlacementId,
    pub operation_id: Option<OperationId>,
    pub applicability_note: Option<String>,
}

/// The applicability note as stored: trimmed, and absent when empty.
pub open spec fn note_of(note: Option<String>) -> Option<Seq<char>> {
    match note {
        Some(n) => if trim(n@).len() == 0 {
            None
        } else {
            Some(trim(n@))
        },
        None => None,
    }
}

pub open spec fn note_json(note: Option<Seq<char>>) -> Seq<char> {
    match note {
        Some(n) => json_string(n),
        None => "null"@,
    }
}

/// The JSON record of a mutation: action, memory ID, source, destination and
/// note, in that order.
pub open spec fn mutation_text(
    action: CopyMoveAction,
    memory_id: i64,
    from: Seq<char>,
    to: Seq<char>,
    note: Option<Seq<char>>,
) -> Seq<char> {
    "{\"action\":"@ + json_string(action_text(action)) + ",\"memory_id\":"@ + decimal_int(
        memory_id as int,
    ) + ",\"from\":"@ + json_string(from) + ",\"to\":"@ + json_string(to)
        + ",\"applicability_note\":"@ + note_json(note) + "}"@
}

/// The JSON record a fingerprint hashes: the repository and the mutation.
pub open spec fn fingerprint_payload(repository: Seq<char>, mutation: Seq<char>) -> Seq<char> {
    "{\"repository_id\":"@ + json_string(repository) + ",\"mutation\":"@ + mutation + "}"@
}

/// A request fingerprint: the SHA-256 digest of the payload, in hexadecimal.
pub open spec fn fingerprint_of(repository: Seq<char>, mutation: Seq<char>) -> Seq<char> {
    hex_bytes(sha256(vstd::utf8::encode_utf8(fingerprint_payload(repository, mutation))))
}

/// A prepared copy or move: its repository, mutation, fingerprint and
/// operation ID.
#[derive(Debug, PartialEq, Eq)]
pub struct CopyMoveRequest {
    repository: RepositoryId,
    action: CopyMoveAction,
    memory_id: i64,
    from: PlacementId,
    to: PlacementId,
    operation_id: OperationId,
    applicability_note: Option<String>,
    request_fingerprint: String,
    mutation_json: String,
}

impl CopyMoveRequest {
    #[verifier::type_invariant]
    spec fn well_formed(self) -> bool {
        crate::scope::is_hex64(self.request_fingerprint@)
    }

    pub closed spec fn spec_repository(&self) -> Seq<char> {
        self.repository@
    }

    pub closed spec fn spec_action(&self) -> CopyMoveAction {
        self.action
    }

    pub closed spec fn spec_memory_id(&self) -> i64 {
        self.memory_id
    }

    pub closed spec fn spec_from(&self) -> PlacementView {
        self.from@
    }

    pub closed spec fn spec_to(&self) -> PlacementView {
        self.to@
    }

    pub closed spec fn spec_operation_id(&self) -> Seq<char> {
        self.operation_id@
    }

    pub closed spec fn spec_note(&self) -> Option<Seq<char>> {
        crate::deps::opt_view(self.applicability_note)
    }

    pub closed spec fn spec_fingerprint(&self) -> Seq<char> {
        self.request_fingerprint@
    }

    pub closed spec fn spec_mutation(&self) -> Seq<char> {
        self.mutation_json@
    }

    /// Prepares a request: the note is trimmed (and dropped when empty), the
    /// mutation is recorded as JSON, the fingerprint hashes the repository and
    /// the mutation, and the operation ID is the one given or else the one the
    /// fingerprint derives.
    pub fn prepare(repository: RepositoryId, input: CopyMoveInput) -> (r: Result<
        CopyMoveRequest,
        StoreError,
    >)
        ensures
            r matches Ok(req) && {
                let note = note_of(input.applicability_note);
                let mutation = mutation_text(
                    input.action,
                    input.memory_id,
                    placement_text(input.from@),
                    placement_text(input.to@),
                    note,
                );
                &&& req.spec_repository() == repository@
                &&& req.spec_action() == input.action
                &&& req.spec_memory_id() == input.memory_id
                &&& req.spec_from() == input.from@
                &&& req.spec_to() == input.to@
                &&& req.spec_note() == note
                &&& req.spec_mutation() == mutation
                &&& req.spec_fingerprint() == fingerprint_of(repository@, mutation)
                &&& req.spec_operation_id() == match input.operation_id {
                    Some(id) => id@,
                    None => operation_id_for(fingerprint_of(repository@, mutation)),
                }
            },
    {
        let applicability_note = match &input.applicability_note {
            Some(note) => {
                let trimmed = trim_text(note.as_str());
                if trimmed.as_str().is_empty() {
                    None
                } else {
                    Some(trimmed)
                }
            },
            None => None,
        };
        let from_text = input.from.to_string();
        let to_text = input.to.to_string();
        let mut mutation = String::new();
        push_str(&mut mutation, "{\"action\":");
        push_str(&mut mutation, json_quote(input.action.as_str()).as_str());
        push_str(&mut mutation, ",\"memory_id\":");
        push_decimal_i64(&mut mutation, input.memory_id);
        push_str(&mut mutation, ",\"from\":");
        push_str(&mut mutation, json_quote(from_text.as_str()).as_str());
        push_str(&mut mutation, ",\"to\":");
        push_str(&mut mutation, json_quote(to_text.as_str()).as_str());
        push_str(&mut mutation, ",\"applicability_note\":");
        match &applicability_note {
            Some(note) => push_str(&mut mutation, json_quote(note.as_str()).as_str()),
            None => push_str(&mut mutation, "null"),
        }
        push_str(&mut mutation, "}");
        let mut payload = String::new();
        push_str(&mut payload, "{\"repository_id\":");
        push_str(&mut payload, json_quote(repository.as_str()).as_str());
        push_str(&mut payload, ",\"mutation\":");
        push_str(&mut payload, mutation.as_str());
        push_str(&mut payload, "}");
        let digest = sha256_digest(payload.as_str().as_bytes());
        let mut request_fingerprint = String::new();
        push_hex_bytes(&mut request_fingerprint, digest.as_slice());
        proof {
            crate::text::lemma_hex_bytes(digest@);
            assert(request_fingerprint@ =~= hex_bytes(digest@));
            assert(crate::deps::opt_view(applicability_note) == note_of(input.applicability_note));
            assert(mutation@ =~= mutation_text(
                input.action,
                input.memory_id,
                placement_text(input.from@),
                placement_text(input.to@),
                note_of(input.applicability_note),
            ));
            assert(payload@ =~= fingerprint_payload(repository@, mutation@));
            assert(request_fingerprint@ =~= fingerprint_of(repository@, mutation@));
        }
        let operation_id = match input.operation_id {
            Some(id) => id,
            None => OperationId::from_request_fingerprint(request_fingerprint.as_str()),
        };
        Ok(
            CopyMoveRequest {
                repository,
                action: input.action,
                memory_id: input.memory_id,
                from: input.from,
                to: input.to,
                operation_id,
                applicability_note,
                request_fingerprint,
                mutation_json: mutation,
            },
        )
    }

    pub fn from(&self) -> (r: &PlacementId)
        ensures
            r@ == self.spec_from(),
    {
        &self.from
    }

    pub fn to(&self) -> (r: &PlacementId)
        ensures
            r@ == self.spec_to(),
    {
        &self.to
    }

    pub fn repository(&self) -> (r: &RepositoryId)
        ensures
            r@ == self.spec_repository(),
    {
        &self.repository
    }

    pub fn action(&self) -> (r: CopyMoveAction)
        ensures
            r == self.spec_action(),
    {
        self.action
    }

    pub fn memory_id(&self) -> (r: i64)
        ensures
            r == self.spec_memory_id(),
    {
        self.memory_id
    }

    pub fn operation_id(&self) -> (r: &OperationId)
        ensures
            r@ == self.spec_operation_id(),
    {
        &self.operation_id
    }

    pub fn applicability_note(&self) -> (r: Option<&str>)
        ensures
            match r {
                Some(n) => self.spec_note() == Some(n@),
                None => self.spec_note() is None,
            },
    {
        match &self.applicability_note {
            Some(note) => Some(note.as_str()),
            None => None,
        }
    }

    pub fn request_fingerprint(&self) -> (r: &str)
        ensures
            r@ == self.spec_fingerprint(),
            crate::scope::is_hex64(r@),
    {
        proof {
            use_type_invariant(self);
        }
        self.request_fingerprint.as_str()
    }

    /// The mutation record, as the ledger stores it.
    pub fn mutation_json(&self) -> (r: &str)
        ensures
            r@ == self.spec_mutation(),
    {
        self.mutation_json.as_str()
    }
}

/// The outcome of a committed copy or move.
#[derive(Debug, PartialEq, Eq)]
pub struct CopyMoveResult {
    pub action: CopyMoveAction,
    pub memory_id: i64,
    pub from: PlacementId,
    pub to: PlacementId,
    pub operation_id: OperationId,
}

impl Clone for CopyMoveResult {
    fn clone(&self) -> (r: Self)
        ensures
            r.action == self.action,
            r.memory_id == self.memory_id,
            r.from@ == self.from@,
            r.to@ == self.to@,
            r.operation_id@ == self.operation_id@,
    {
        CopyMoveResult {
            action: self.action,
            memory_id: self.memory_id,
            from: self.from.clone(),
            to: self.to.clone(),
            operation_id: self.operation_id.clone(),
        }
    }
}

/// A committed result as the ledger records it, with its placements and
/// operation ID as text.
#[derive(Debug, PartialEq, Eq)]
pub struct StoredResult {
    pub action: CopyMoveAction,
    pub memory_id: i64,
    pub from: String,
    pub to: String,
    pub operation_id: String,
}

/// Two results that say the same: action, memory ID, placements and
/// operation ID.
pub open spec fn same_result(a: CopyMoveResult, b: CopyMoveResult) -> bool {
    &&& a.action == b.action
    &&& a.memory_id == b.memory_id
    &&& a.from@ == b.from@
    &&& a.to@ == b.to@
    &&& a.operation_id@ == b.operation_id@
}

/// A record of a committed result: its fields as text, of a result whose
/// placements and operation ID are valid (as every such value's are).
pub open spec fn records(stored: StoredResult, result: CopyMoveResult) -> bool {
    &&& stored.action == result.action
    &&& stored.memory_id == result.memory_id
    &&& stored.from@ == placement_text(result.from@)
    &&& stored.to@ == placement_text(result.to@)
    &&& stored.operation_id@ == result.operation_id@
    &&& placement_valid(result.from@)
    &&& placement_valid(result.to@)
    &&& crate::scope::is_canonical_uuid(result.operation_id@)
}

/// A ledger row under which `result` was committed for the request with
/// this fingerprint.
pub open spec fn committed_in(row: Option<LedgerRow>, fingerprint: Seq<char>, result: CopyMoveResult) -> bool {
    match row {
        Some(entry) => entry.request_fingerprint@ == fingerprint && match entry.result {
            Some(stored) => records(stored, result),
            None => false,
        },
        None => false,
    }
}

impl StoredResult {
    pub fn from_result(result: &CopyMoveResult) -> (r: StoredResult)
        ensures
            r.action == result.action,
            r.memory_id == result.memory_id,
            r.from@ == placement_text(result.from@),
            r.to@ == placement_text(result.to@),
            r.operation_id@ == result.operation_id@,
            records(r, *result),
    {
        StoredResult {
            action: result.action,
            memory_id: result.memory_id,
            from: result.from.to_string(),
            to: result.to.to_string(),
            operation_id: result.operation_id.to_string(),
        }
    }

    /// Reads a recorded result back: each placement and the operation ID must
    /// parse.
    pub fn into_result(self) -> (r: Result<CopyMoveResult, StoreError>)
        ensures
            placement_of(self.from@) is None ==> r matches Err(StoreError::InvalidLedgerSource),
            placement_of(self.from@) is Some && placement_of(self.to@) is None ==> r matches Err(
                StoreError::InvalidLedgerDestination,
            ),
            placement_of(self.from@) is Some && placement_of(self.to@) is Some
                && !crate::scope::is_canonical_uuid(self.operation_id@) ==> r matches Err(
                StoreError::InvalidLedgerOperation,
            ),
            placement_of(self.from@) is Some && placement_of(self.to@) is Some
                && crate::scope::is_canonical_uuid(self.operation_id@) ==> (r matches Ok(res) && {
                &&& res.action == self.action
                &&& res.memory_id == self.memory_id
                &&& Some(res.from@) == placement_of(self.from@)
                &&& Some(res.to@) == placement_of(self.to@)
                &&& res.operation_id@ == self.operation_id@
            }),
    {
        let from = match PlacementId::parse(self.from.as_str()) {
            Ok(p) => p,
            Err(_) => return Err(StoreError::InvalidLedgerSource),
        };
        let to = match PlacementId::parse(self.to.as_str()) {
            Ok(p) => p,
            Err(_) => return Err(StoreError::InvalidLedgerDestination),
        };
        let operation_id = match OperationId::parse(self.operation_id.as_str()) {
            Ok(id) => id,
            Err(_) => return Err(StoreError::InvalidLedgerOperation),
        };
        Ok(CopyMoveResult { action: self.action, memory_id: self.memory_id, from, to, operation_id })
    }
}

/// A recorded result whose placements and operation ID all parse.
pub open spec fn stored_valid(s: StoredResult) -> bool {
    placement_of(s.from@) is Some && placement_of(s.to@) is Some && crate::scope::is_canonical_uuid(
        s.operation_id@,
    )
}

/// The error of a recorded result that does not parse: the first part that
/// fails.
pub open spec fn stored_error(s: StoredResult) -> StoreError {
    if placement_of(s.from@) is None {
        StoreError::InvalidLedgerSource
    } else if placement_of(s.to@) is None {
        StoreError::InvalidLedgerDestination
    } else {
        StoreError::InvalidLedgerOperation
    }
}

/// A result that carries a recorded result's fields.
pub open spec fn replays(res: CopyMoveResult, s: StoredResult) -> bool {
    &&& res.action == s.action
    &&& res.memory_id == s.memory_id
    &&& Some(res.from@) == placement_of(s.from@)
    &&& Some(res.to@) == placement_of(s.to@)
    &&& res.operation_id@ == s.operation_id@
}

/// A ledger entry as read: its fingerprint, and its result when the stored
/// JSON could be read.
pub struct LedgerRow {
    pub request_fingerprint: String,
    pub result: Option<StoredResult>,
}

/// Answers a request from the ledger: no entry means not yet committed
/// (`None`); an entry with another fingerprint is a conflict; otherwise the
/// recorded result is returned.
pub fn ledger_result(request_fingerprint: &str, row: Option<LedgerRow>) -> (r: Result<
    Option<CopyMoveResult>,
    StoreError,
>)
    ensures
        match row {
            None => r matches Ok(None),
            Some(entry) => if entry.request_fingerprint@ != request_fingerprint@ {
                r == Err::<Option<CopyMoveResult>, StoreError>(StoreError::OperationConflict)
            } else {
                match entry.result {
                    None => r == Err::<Option<CopyMoveResult>, StoreError>(
                        StoreError::InvalidLedgerResult,
                    ),
                    Some(stored) => if stored_valid(stored) {
                        r matches Ok(Some(res)) && replays(res, stored)
                    } else {
                        r == Err::<Option<CopyMoveResult>, StoreError>(stored_error(stored))
                    },
                }
            },
        },
{
    let entry = match row {
        None => return Ok(None),
        Some(entry) => entry,
    };
    if !crate::text::str_eq(entry.request_fingerprint.as_str(), request_fingerprint) {
        return Err(StoreError::OperationConflict);
    }
    match entry.result {
        None => Err(StoreError::InvalidLedgerResult),
        Some(stored) => match stored.into_result() {
            Ok(result) => Ok(Some(result)),
            Err(e) => Err(e),
        },
    }
}

/// The next step of a copy or move inside its transaction.
#[derive(Debug)]
pub enum TransferStep {
    /// The operation is already committed: its recorded result is the answer.
    Replayed(CopyMoveResult),
    /// The operation is new: apply it.
    Apply,
}

/// Decides a copy or move from the ledger entry under its operation ID: a
/// committed identical request is answered from the ledger without any
/// change; another request under the same ID conflicts; a new request must
/// move between different placements.
pub fn begin_transfer(request: &CopyMoveRequest, row: Option<LedgerRow>) -> (r: Result<
    TransferStep,
    StoreError,
>)
    ensures
        match row {
            None => if request.spec_from() == request.spec_to() {
                r == Err::<TransferStep, StoreError>(StoreError::SamePlacement)
            } else {
                r matches Ok(TransferStep::Apply)
            },
            Some(entry) => if entry.request_fingerprint@ != request.spec_fingerprint() {
                r == Err::<TransferStep, StoreError>(StoreError::OperationConflict)
            } else {
                match entry.result {
                    None => r == Err::<TransferStep, StoreError>(StoreError::InvalidLedgerResult),
                    Some(stored) => if stored_valid(stored) {
                        r matches Ok(TransferStep::Replayed(res)) && replays(res, stored)
                    } else {
                        r == Err::<TransferStep, StoreError>(stored_error(stored))
                    },
                }
            },
        },
        forall|committed: CopyMoveResult|
            #[trigger] committed_in(row, request.spec_fingerprint(), committed) ==> (r matches Ok(
                TransferStep::Replayed(res),
            ) && same_result(res, committed)),
{
    proof {
        assert forall|committed: CopyMoveResult|
            #[trigger] committed_in(row, request.spec_fingerprint(), committed) implies stored_valid(
            row->0.result->0,
        ) && (forall|x: CopyMoveResult|
            replays(x, row->0.result->0) ==> same_result(x, committed)) by {
            lemma_recorded_result_replays(committed, row->0.result->0);
        }
    }
    match ledger_result(request.request_fingerprint(), row) {
        Err(e) => Err(e),
        Ok(Some(result)) => Ok(TransferStep::Replayed(result)),
        Ok(None) => {
            if request.from().same_as(request.to()) {
                Err(StoreError::SamePlacement)
            } else {
                Ok(TransferStep::Apply)
            }
        },
    }
}

/// The number of rows a copy or move changed must be exactly one; otherwise
/// the memory was not in the source placement.
pub fn check_source_row(request: &CopyMoveRequest, changed: usize) -> (r: Result<(), StoreError>)
    ensures
        changed == 1 ==> r is Ok,
        changed != 1 ==> r == Err::<(), StoreError>(StoreError::NotInSource(request.spec_memory_id())),
{
    if changed == 1 {
        Ok(())
    } else {
        Err(StoreError::NotInSource(request.memory_id()))
    }
}

/// The result of an applied copy or move: a move keeps the memory ID, a copy
/// reports the new memory's ID.
pub fn transfer_result(request: &CopyMoveRequest, new_memory_id: i64) -> (r: CopyMoveResult)
    ensures
        r.action == request.spec_action(),
        r.memory_id == match request.spec_action() {
            CopyMoveAction::Copy => new_memory_id,
            CopyMoveAction::Move => request.spec_memory_id(),
        },
        r.from@ == request.spec_from(),
        r.to@ == request.spec_to(),
        r.operation_id@ == request.spec_operation_id(),
{
    let memory_id = match request.action() {
        CopyMoveAction::Copy => new_memory_id,
        CopyMoveAction::Move => request.memory_id(),
    };
    CopyMoveResult {
        action: request.action(),
        memory_id,
        from: request.from().clone(),
        to: request.to().clone(),
        operation_id: request.operation_id().clone(),
    }
}

/// What the ledger records of a committed copy or move reads back as that
/// same result: a later request with the same operation ID and fingerprint
/// is answered with exactly what was committed.
pub proof fn lemma_recorded_result_replays(result: CopyMoveResult, stored: StoredResult)
    requires
        placement_valid(result.from@),
        placement_valid(result.to@),
        crate::scope::is_canonical_uuid(result.operation_id@),
        stored.action == result.action,
        stored.memory_id == result.memory_id,
        stored.from@ == placement_text(result.from@),
        stored.to@ == placement_text(result.to@),
        stored.operation_id@ == result.operation_id@,
    ensures
        stored_valid(stored),
        forall|x: CopyMoveResult|
            #[trigger] replays(x, stored) ==> x.action == result.action && x.memory_id
                == result.memory_id && x.from@ == result.from@ && x.to@ == result.to@
                && x.operation_id@ == result.operation_id@,
{
    lemma_placement_round_trip(result.from@);
    lemma_placement_round_trip(result.to@);
}

} // verus!
