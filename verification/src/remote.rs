//! The remote client's logic: request failures, recovery handles and the
//! recovery of copy and move requests whose outcome was lost.
use std::str::FromStr;

use vstd::prelude::*;

use crate::cli::DomainChange;
use crate::scope::identity::{first_index, lemma_first_index, trim_end_char};
use crate::server::{route_path, Route};
use crate::store::trim_text;
use crate::scope::{
    is_canonical_uuid, is_hex64, placement_of, repository_prefix, valid_repository_id, DomainId,
    OperationId, PlacementId, RepositoryId,
};
use crate::store::domains::domain_views;
use crate::store::transfers::{CopyMoveAction, CopyMoveRequest, CopyMoveResult};
use crate::store::visible::VisibleStackStatus;
use crate::text::{
    chars_of, chars_eq, decimal, literal, push_char, push_decimal, push_str, string_of, trim,
};

verus! {

/// A memory to store on the remote server.
pub struct RememberRequest<'a> {
    pub repository: &'a RepositoryId,
    pub placement: &'a PlacementId,
    pub content: &'a str,
    pub kind: &'a str,
    pub tags: &'a str,
    pub topic_key: Option<&'a str>,
    pub force: bool,
    pub overwrite_id: Option<i64>,
}

/// A search on the remote server.
pub struct RecallRequest<'a> {
    pub repository: &'a RepositoryId,
    pub placement: Option<&'a PlacementId>,
    pub query: &'a str,
    pub limit: usize,
    pub kind: Option<&'a str>,
    pub max_chars: Option<usize>,
}

/// The remote repository's attached domains and visible-stack status.
pub struct RemoteStatus {
    pub domains: Vec<DomainId>,
    pub status: VisibleStackStatus,
}

/// How a request to the server failed.
#[derive(Debug, PartialEq, Eq)]
pub enum RequestFailure {
    /// The server answered with an error status.
    Http { status: u16, body: String },
    /// The request could not be delivered or its answer not received; the
    /// text is the underlying error's.
    Transport(String),
    /// The answer could not be read; the text is the underlying error's.
    Read(String),
}

/// A failure after which the request may or may not have taken effect.
pub open spec fn ambiguous(f: RequestFailure) -> bool {
    match f {
        RequestFailure::Http { status, .. } => status >= 500,
        _ => true,
    }
}

impl RequestFailure {
    /// A failure after which the request may or may not have taken effect:
    /// transport and read failures, and server errors (status 500 and up).
    pub fn is_ambiguous(&self) -> (r: bool)
        ensures
            r == ambiguous(*self),
    {
        match self {
            RequestFailure::Http { status, .. } => *status >= 500,
            RequestFailure::Transport(_) => true,
            RequestFailure::Read(_) => true,
        }
    }
}

/// The failures of the remote client that its logic decides.
#[derive(Debug, PartialEq, Eq)]
pub enum RemoteError {
    Request(RequestFailure),
    InvalidRecoveryHandle,
    InvalidStatusReply,
    UndecodableStatusReply(String),
    InvalidTransferSource,
    InvalidTransferDestination,
    InvalidTransferOperation,
    InvalidDomain(DomainReply),
    OutcomeUnknown(String),
}

/// The replies that carry a list of domains.
#[derive(Debug, Clone, Copy, PartialEq, Eq, Structural)]
pub enum DomainReply {
    /// The answer to a status request.
    Status,
    /// The answer to a domain-list request.
    Domains,
}

/// The text of a request failure.
pub open spec fn failure_text(f: RequestFailure) -> Seq<char> {
    match f {
        RequestFailure::Http { status, body } => if status == 401 {
            "unauthorized: token rejected"@
        } else {
            "remote request failed ("@ + decimal(status as nat) + "): "@ + body@
        },
        RequestFailure::Transport(detail) => detail@,
        RequestFailure::Read(detail) => detail@,
    }
}

/// The text of a remote error.
pub open spec fn remote_error_text(e: RemoteError) -> Seq<char> {
    match e {
        RemoteError::Request(f) => failure_text(f),
        RemoteError::InvalidRecoveryHandle => "invalid recovery handle"@,
        RemoteError::InvalidStatusReply => "operation status reply is invalid"@,
        RemoteError::UndecodableStatusReply(detail) => "operation status reply: "@ + detail@,
        RemoteError::InvalidTransferSource => "transfer reply contains invalid source placement"@,
        RemoteError::InvalidTransferDestination => "transfer reply contains invalid destination placement"@,
        RemoteError::InvalidTransferOperation => "transfer reply contains invalid operation ID"@,
        RemoteError::InvalidDomain(DomainReply::Status) => "status reply contains invalid domain"@,
        RemoteError::InvalidDomain(DomainReply::Domains) => "domains reply contains invalid domain"@,
        RemoteError::OutcomeUnknown(handle) => "outcome unknown; recovery: "@ + handle@,
    }
}

impl RequestFailure {
    pub fn message(&self) -> (r: String)
        ensures
            r@ == failure_text(*self),
    {
        let mut out = String::new();
        match self {
            RequestFailure::Http { status, body } => {
                if *status == 401 {
                    push_str(&mut out, "unauthorized: token rejected");
                } else {
                    push_str(&mut out, "remote request failed (");
                    push_decimal(&mut out, *status as u64);
                    push_str(&mut out, "): ");
                    push_str(&mut out, body.as_str());
                }
            },
            RequestFailure::Transport(detail) => push_str(&mut out, detail.as_str()),
            RequestFailure::Read(detail) => push_str(&mut out, detail.as_str()),
        }
        assert(out@ =~= failure_text(*self));
        out
    }
}

impl RemoteError {
    pub fn message(&self) -> (r: String)
        ensures
            r@ == remote_error_text(*self),
    {
        let mut out = String::new();
        match self {
            RemoteError::Request(f) => return f.message(),
            RemoteError::InvalidRecoveryHandle => push_str(&mut out, "invalid recovery handle"),
            RemoteError::InvalidStatusReply => push_str(&mut out, "operation status reply is invalid"),
            RemoteError::UndecodableStatusReply(detail) => {
                push_str(&mut out, "operation status reply: ");
                push_str(&mut out, detail.as_str());
            },
            RemoteError::InvalidTransferSource => push_str(
                &mut out,
                "transfer reply contains invalid source placement",
            ),
            RemoteError::InvalidTransferDestination => push_str(
                &mut out,
                "transfer reply contains invalid destination placement",
            ),
            RemoteError::InvalidTransferOperation => push_str(
                &mut out,
                "transfer reply contains invalid operation ID",
            ),
            RemoteError::InvalidDomain(DomainReply::Status) => push_str(
                &mut out,
                "status reply contains invalid domain",
            ),
            RemoteError::InvalidDomain(DomainReply::Domains) => push_str(
                &mut out,
                "domains reply contains invalid domain",
            ),
            RemoteError::OutcomeUnknown(handle) => {
                push_str(&mut out, "outcome unknown; recovery: ");
                push_str(&mut out, handle.as_str());
            },
        }
        assert(out@ =~= remote_error_text(*self));
        out
    }
}

// ---------------------------------------------------------------------------
// Splitting on a separator
// ---------------------------------------------------------------------------

/// The parts of `s` between occurrences of `c` (`str::split`).
pub open spec fn split_on(s: Seq<char>, c: char) -> Seq<Seq<char>>
    decreases s.len(),
{
    let i = first_index(s, c);
    if i >= s.len() || i < 0 {
        seq![s]
    } else {
        seq![s.take(i)] + split_on(s.skip(i + 1), c)
    }
}

pub open spec fn has_no(s: Seq<char>, c: char) -> bool {
    forall|i: int| 0 <= i < s.len() ==> #[trigger] s[i] != c
}

pub proof fn lemma_split_without(s: Seq<char>, c: char)
    requires
        has_no(s, c),
    ensures
        split_on(s, c) == seq![s],
{
    lemma_first_index(s, c);
}

pub proof fn lemma_split_cons(a: Seq<char>, b: Seq<char>, c: char)
    requires
        has_no(a, c),
    ensures
        split_on(a + seq![c] + b, c) == seq![a] + split_on(b, c),
{
    let s = a + seq![c] + b;
    lemma_first_index(s, c);
    let i = first_index(s, c);
    assert(s[a.len() as int] == c);
    assert(i == a.len()) by {
        if i < a.len() {
            assert(s[i] == a[i]);
        }
    }
    assert(s.take(i) =~= a);
    assert(s.skip(i + 1) =~= b);
}

fn split_parts(text: &str, c: char) -> (r: Vec<String>)
    ensures
        r@.len() == split_on(text@, c).len(),
        forall|i: int| 0 <= i < r@.len() ==> #[trigger] r@[i]@ == split_on(text@, c)[i],
{
    let v = chars_of(text);
    let n = v.len();
    let mut out: Vec<String> = Vec::new();
    let ghost mut done: Seq<Seq<char>> = seq![];
    let mut start: usize = 0;
    let mut i: usize = 0;
    assert(v@.skip(0) =~= v@);
    while i < n
        invariant
            n == v@.len(),
            v@ == text@,
            start <= i <= n,
            out@.len() == done.len(),
            forall|k: int| 0 <= k < out@.len() ==> #[trigger] out@[k]@ == done[k],
            forall|k: int| start <= k < i ==> #[trigger] v@[k] != c,
            split_on(text@, c) == done + split_on(v@.skip(start as int), c),
        decreases n - i,
    {
        if v[i] == c {
            proof {
                let rest = v@.skip(start as int);
                let a = v@.subrange(start as int, i as int);
                let b = v@.skip(i as int + 1);
                assert(rest =~= a + seq![c] + b);
                assert(has_no(a, c));
                lemma_split_cons(a, b, c);
            }
            out.push(string_of(&v, start, i));
            proof {
                done = done.push(v@.subrange(start as int, i as int));
                assert(split_on(text@, c) =~= done + split_on(v@.skip(i as int + 1), c));
            }
            start = i + 1;
        }
        i = i + 1;
    }
    proof {
        let rest = v@.skip(start as int);
        assert(rest =~= v@.subrange(start as int, n as int));
        assert(has_no(rest, c));
        lemma_split_without(rest, c);
    }
    out.push(string_of(&v, start, n));
    proof {
        done = done.push(v@.subrange(start as int, n as int));
    }
    out
}

// ---------------------------------------------------------------------------
// Recovery handles
// ---------------------------------------------------------------------------

pub open spec fn recovery_kind() -> Seq<char> {
    seq!['o', 'p', 'e', 'r', 'a', 't', 'i', 'o', 'n', '-', 'r', 'e', 'c', 'o', 'v', 'e', 'r', 'y']
}

pub open spec fn recovery_version() -> Seq<char> {
    seq!['v', '1']
}

/// `operation-recovery:v1:<repository hash>:<operation ID>:<fingerprint>`.
pub open spec fn handle_text(repository: Seq<char>, operation: Seq<char>, fingerprint: Seq<char>) -> Seq<
    char,
> {
    recovery_kind() + seq![':'] + recovery_version() + seq![':'] + repository.skip(11) + seq![':']
        + operation + seq![':'] + fingerprint
}

/// The repository, operation ID and fingerprint a handle text names, if it
/// is a valid handle.
pub open spec fn handle_of(s: Seq<char>) -> Option<(Seq<char>, Seq<char>, Seq<char>)> {
    let parts = split_on(s, ':');
    if parts.len() == 5 && parts[0] == recovery_kind() && parts[1] == recovery_version()
        && valid_repository_id(repository_prefix() + parts[2]) && is_canonical_uuid(parts[3])
        && is_hex64(parts[4]) {
        Some((repository_prefix() + parts[2], parts[3], parts[4]))
    } else {
        None
    }
}

/// What a recovery handle needs to ask the server about a lost copy or move.
#[derive(Debug, PartialEq, Eq)]
pub struct RecoveryHandle {
    repository: RepositoryId,
    operation_id: OperationId,
    request_fingerprint: String,
}

impl RecoveryHandle {
    #[verifier::type_invariant]
    spec fn well_formed(self) -> bool {
        is_hex64(self.request_fingerprint@)
    }

    pub closed spec fn spec_repository(&self) -> Seq<char> {
        self.repository@
    }

    pub closed spec fn spec_operation_id(&self) -> Seq<char> {
        self.operation_id@
    }

    pub closed spec fn spec_fingerprint(&self) -> Seq<char> {
        self.request_fingerprint@
    }

    /// The handle of a prepared request.
    pub fn from_request(request: &CopyMoveRequest) -> (r: Result<RecoveryHandle, RemoteError>)
        ensures
            r matches Ok(h) && h.spec_repository() == request.spec_repository()
                && h.spec_operation_id() == request.spec_operation_id() && h.spec_fingerprint()
                == request.spec_fingerprint(),
    {
        let fingerprint = request.request_fingerprint().to_owned();
        Ok(
            RecoveryHandle {
                repository: request.repository().clone(),
                operation_id: request.operation_id().clone(),
                request_fingerprint: fingerprint,
            },
        )
    }

    pub fn repository(&self) -> (r: &RepositoryId)
        ensures
            r@ == self.spec_repository(),
    {
        &self.repository
    }

    pub fn operation_id(&self) -> (r: &OperationId)
        ensures
            r@ == self.spec_operation_id(),
    {
        &self.operation_id
    }

    pub fn request_fingerprint(&self) -> (r: &str)
        ensures
            r@ == self.spec_fingerprint(),
            is_hex64(r@),
    {
        proof {
            use_type_invariant(self);
        }
        self.request_fingerprint.as_str()
    }

    /// The handle's text.
    pub fn to_string(&self) -> (r: String)
        ensures
            r@ == handle_text(self.spec_repository(), self.spec_operation_id(), self.spec_fingerprint()),
    {
        let repository = chars_of(self.repository.as_str());
        let mut out = String::new();
        push_str(&mut out, "operation-recovery:v1:");
        let hash = string_of(&repository, 11, 75);
        push_str(&mut out, hash.as_str());
        push_char(&mut out, ':');
        push_str(&mut out, self.operation_id.as_str());
        push_char(&mut out, ':');
        push_str(&mut out, self.request_fingerprint.as_str());
        proof {
            reveal_strlit("operation-recovery:v1:");
            assert(repository@.subrange(11, 75) =~= self.repository@.skip(11));
            assert(out@ =~= handle_text(
                self.spec_repository(),
                self.spec_operation_id(),
                self.spec_fingerprint(),
            ));
        }
        out
    }

    /// Reads a handle from its text.
    pub fn parse(value: &str) -> (r: Result<RecoveryHandle, RemoteError>)
        ensures
            match handle_of(value@) {
                Some((rep, op, fp)) => r matches Ok(h) && h.spec_repository() == rep
                    && h.spec_operation_id() == op && h.spec_fingerprint() == fp,
                None => r matches Err(RemoteError::InvalidRecoveryHandle),
            },
    {
        let parts = split_parts(value, ':');
        if parts.len() != 5 {
            return Err(RemoteError::InvalidRecoveryHandle);
        }
        let kind = chars_of(parts[0].as_str());
        let version = chars_of(parts[1].as_str());
        let expected_kind = literal("operation-recovery");
        let expected_version = literal("v1");
        proof {
            reveal_strlit("operation-recovery");
            reveal_strlit("v1");
            assert(expected_kind@ =~= recovery_kind());
            assert(expected_version@ =~= recovery_version());
        }
        if !chars_eq(&kind, &expected_kind) || !chars_eq(&version, &expected_version) {
            return Err(RemoteError::InvalidRecoveryHandle);
        }
        let mut repository_text = String::new();
        push_str(&mut repository_text, "repository:");
        push_str(&mut repository_text, parts[2].as_str());
        proof {
            reveal_strlit("repository:");
            assert(repository_text@ =~= repository_prefix() + parts@[2]@);
        }
        let repository = match RepositoryId::parse(repository_text.as_str()) {
            Ok(r) => r,
            Err(_) => return Err(RemoteError::InvalidRecoveryHandle),
        };
        let operation_id = match OperationId::parse(parts[3].as_str()) {
            Ok(id) => id,
            Err(_) => return Err(RemoteError::InvalidRecoveryHandle),
        };
        if !is_sha256(parts[4].as_str()) {
            return Err(RemoteError::InvalidRecoveryHandle);
        }
        Ok(
            RecoveryHandle {
                repository,
                operation_id,
                request_fingerprint: parts[4].clone(),
            },
        )
    }
}

impl Clone for RecoveryHandle {
    fn clone(&self) -> (r: Self)
        ensures
            r.spec_repository() == self.spec_repository(),
            r.spec_operation_id() == self.spec_operation_id(),
            r.spec_fingerprint() == self.spec_fingerprint(),
    {
        proof {
            use_type_invariant(self);
        }
        RecoveryHandle {
            repository: self.repository.clone(),
            operation_id: self.operation_id.clone(),
            request_fingerprint: self.request_fingerprint.clone(),
        }
    }
}

impl FromStr for RecoveryHandle {
    type Err = RemoteError;

    fn from_str(value: &str) -> (r: Result<Self, Self::Err>)
        ensures
            match handle_of(value@) {
                Some((rep, op, fp)) => r matches Ok(h) && h.spec_repository() == rep
                    && h.spec_operation_id() == op && h.spec_fingerprint() == fp,
                None => r matches Err(RemoteError::InvalidRecoveryHandle),
            },
    {
        RecoveryHandle::parse(value)
    }
}

/// Sixty-four lowercase hexadecimal digits.
pub fn is_sha256(value: &str) -> (r: bool)
    ensures
        r == is_hex64(value@),
{
    let v = chars_of(value);
    if v.len() != 64 {
        return false;
    }
    let mut i: usize = 0;
    while i < 64
        invariant
            v@ == value@,
            v@.len() == 64,
            i <= 64,
            forall|j: int| 0 <= j < i ==> crate::text::is_hex_char(#[trigger] v@[j]),
        decreases 64 - i,
    {
        if !crate::text::is_lowercase_hex(v[i]) {
            return false;
        }
        i = i + 1;
    }
    true
}

/// Reading a handle's text gives the same handle back.
pub proof fn lemma_handle_round_trip(repository: Seq<char>, operation: Seq<char>, fingerprint: Seq<char>)
    requires
        valid_repository_id(repository),
        is_canonical_uuid(operation),
        is_hex64(fingerprint),
    ensures
        handle_of(handle_text(repository, operation, fingerprint)) == Some(
            (repository, operation, fingerprint),
        ),
{
    let h = repository.skip(11);
    assert(has_no(recovery_kind(), ':'));
    assert(has_no(recovery_version(), ':'));
    assert(has_no(h, ':')) by {
        assert forall|i: int| 0 <= i < h.len() implies #[trigger] h[i] != ':' by {
            assert(h[i] == repository[i + 11]);
        }
    }
    assert(has_no(operation, ':')) by {
        assert forall|i: int| 0 <= i < operation.len() implies #[trigger] operation[i] != ':' by {
            if i == 8 || i == 13 || i == 18 || i == 23 {
            } else {
            }
        }
    }
    assert(has_no(fingerprint, ':'));
    let s5 = fingerprint;
    let s4 = operation + seq![':'] + s5;
    let s3 = h + seq![':'] + s4;
    let s2 = recovery_version() + seq![':'] + s3;
    let s1 = recovery_kind() + seq![':'] + s2;
    assert(handle_text(repository, operation, fingerprint) =~= s1);
    lemma_split_cons(recovery_kind(), s2, ':');
    lemma_split_cons(recovery_version(), s3, ':');
    lemma_split_cons(h, s4, ':');
    lemma_split_cons(operation, s5, ':');
    lemma_split_without(s5, ':');
    let parts = split_on(s1, ':');
    assert(parts =~= seq![recovery_kind(), recovery_version(), h, operation, fingerprint]);
    assert(repository_prefix() + h =~= repository) by {
        assert(repository.take(11) =~= repository_prefix());
        assert forall|i: int| 0 <= i < repository.len() implies (repository_prefix() + h)[i]
            == repository[i] by {
            if i < 11 {
                assert(repository.take(11)[i] == repository[i]);
            }
        }
    }
}

// ---------------------------------------------------------------------------
// Transfer replies
// ---------------------------------------------------------------------------

/// A transfer result as the server sends it, with text placements.
#[derive(Debug, PartialEq, Eq)]
pub struct TransferResult {
    pub action: CopyMoveAction,
    pub memory_id: i64,
    pub from: String,
    pub to: String,
    pub operation_id: String,
}

impl TransferResult {
    pub fn into_result(self) -> (r: Result<CopyMoveResult, RemoteError>)
        ensures
            placement_of(self.from@) is None ==> r matches Err(RemoteError::InvalidTransferSource),
            placement_of(self.from@) is Some && placement_of(self.to@) is None ==> r matches Err(
                RemoteError::InvalidTransferDestination,
            ),
            placement_of(self.from@) is Some && placement_of(self.to@) is Some && !is_canonical_uuid(
                self.operation_id@,
            ) ==> r matches Err(RemoteError::InvalidTransferOperation),
            placement_of(self.from@) is Some && placement_of(self.to@) is Some && is_canonical_uuid(
                self.operation_id@,
            ) ==> (r matches Ok(res) && {
                &&& res.action == self.action
                &&& res.memory_id == self.memory_id
                &&& Some(res.from@) == placement_of(self.from@)
                &&& Some(res.to@) == placement_of(self.to@)
                &&& res.operation_id@ == self.operation_id@
            }),
    {
        let from = match PlacementId::parse(self.from.as_str()) {
            Ok(p) => p,
            Err(_) => return Err(RemoteError::InvalidTransferSource),
        };
        let to = match PlacementId::parse(self.to.as_str()) {
            Ok(p) => p,
            Err(_) => return Err(RemoteError::InvalidTransferDestination),
        };
        let operation_id = match OperationId::parse(self.operation_id.as_str()) {
            Ok(id) => id,
            Err(_) => return Err(RemoteError::InvalidTransferOperation),
        };
        Ok(CopyMoveResult { action: self.action, memory_id: self.memory_id, from, to, operation_id })
    }
}

/// A transfer reply whose placements and operation ID all parse.
pub open spec fn transfer_valid(t: TransferResult) -> bool {
    placement_of(t.from@) is Some && placement_of(t.to@) is Some && is_canonical_uuid(
        t.operation_id@,
    )
}

/// The error of a transfer reply that does not parse: the first part that
/// fails.
pub open spec fn transfer_error(t: TransferResult) -> RemoteError {
    if placement_of(t.from@) is None {
        RemoteError::InvalidTransferSource
    } else if placement_of(t.to@) is None {
        RemoteError::InvalidTransferDestination
    } else {
        RemoteError::InvalidTransferOperation
    }
}

/// A result that carries a transfer reply's fields.
pub open spec fn result_of(res: CopyMoveResult, t: TransferResult) -> bool {
    &&& res.action == t.action
    &&& res.memory_id == t.memory_id
    &&& Some(res.from@) == placement_of(t.from@)
    &&& Some(res.to@) == placement_of(t.to@)
    &&& res.operation_id@ == t.operation_id@
}

/// What a transfer request came back with: a reply whose result does not
/// parse counts as a read failure (ambiguous) that carries the reason.
pub fn transfer_outcome(response: Result<TransferResult, RequestFailure>) -> (r: Result<
    CopyMoveResult,
    RequestFailure,
>)
    ensures
        response matches Err(f) ==> r == Err::<CopyMoveResult, RequestFailure>(f),
        response matches Ok(t) ==> if transfer_valid(t) {
            r matches Ok(res) && result_of(res, t)
        } else {
            r matches Err(RequestFailure::Read(detail)) && detail@ == remote_error_text(
                transfer_error(t),
            )
        },
{
    match response {
        Err(failure) => Err(failure),
        Ok(result) => match result.into_result() {
            Ok(r) => Ok(r),
            Err(error) => Err(RequestFailure::Read(error.message())),
        },
    }
}

/// What the server says of an operation.
#[derive(Debug)]
pub enum OperationStatus {
    Committed(CopyMoveResult),
    NotFound,
    Unknown,
}

/// An operation-status reply as the server sends it.
pub struct OperationReply {
    pub outcome: String,
    pub result: Option<TransferResult>,
}

/// Reads an operation-status answer: an ambiguous failure means the outcome
/// is unknown; any other failure is an error; `committed` with a result and
/// `not_found` without one are the two valid replies; a reply that could not
/// be decoded is an error that carries the decoder's text.
pub fn operation_status_outcome(response: Result<Result<OperationReply, String>, RequestFailure>) -> (r:
    Result<OperationStatus, RemoteError>)
    ensures
        response matches Err(f) ==> if ambiguous(f) {
            r matches Ok(OperationStatus::Unknown)
        } else {
            r == Err::<OperationStatus, RemoteError>(RemoteError::Request(f))
        },
        response matches Ok(Err(detail)) ==> r == Err::<OperationStatus, RemoteError>(
            RemoteError::UndecodableStatusReply(detail),
        ),
        response matches Ok(Ok(reply)) ==> {
            if reply.outcome@ == "committed"@ && reply.result is Some {
                let t = reply.result->0;
                if transfer_valid(t) {
                    r matches Ok(OperationStatus::Committed(res)) && result_of(res, t)
                } else {
                    r == Err::<OperationStatus, RemoteError>(transfer_error(t))
                }
            } else if reply.outcome@ == "not_found"@ && reply.result is None {
                r matches Ok(OperationStatus::NotFound)
            } else {
                r == Err::<OperationStatus, RemoteError>(RemoteError::InvalidStatusReply)
            }
        },
{
    let reply = match response {
        Err(failure) => {
            if failure.is_ambiguous() {
                return Ok(OperationStatus::Unknown);
            }
            return Err(RemoteError::Request(failure));
        },
        Ok(Err(detail)) => return Err(RemoteError::UndecodableStatusReply(detail)),
        Ok(Ok(reply)) => reply,
    };
    let committed = crate::text::str_eq(reply.outcome.as_str(), "committed");
    let not_found = crate::text::str_eq(reply.outcome.as_str(), "not_found");
    match reply.result {
        Some(result) if committed => match result.into_result() {
            Ok(r) => Ok(OperationStatus::Committed(r)),
            Err(e) => Err(e),
        },
        None if not_found => Ok(OperationStatus::NotFound),
        _ => Err(RemoteError::InvalidStatusReply),
    }
}

// ---------------------------------------------------------------------------
// Recovering a copy or move whose outcome was lost
// ---------------------------------------------------------------------------

/// Which send of the transfer this is.
#[derive(Debug, Clone, Copy, PartialEq, Eq, Structural)]
pub enum SendPhase {
    First,
    Retry,
}

/// Which status read this is.
#[derive(Debug, Clone, Copy, PartialEq, Eq, Structural)]
pub enum StatusPhase {
    /// After an ambiguous first send.
    Recovering,
    /// After an ambiguous retry.
    Confirming,
}

/// What the client does next.
#[derive(Debug)]
pub enum RecoveryStep {
    Send(SendPhase),
    ReadStatus(StatusPhase),
    Done(Result<CopyMoveResult, RemoteError>),
}

pub open spec fn status_phase_after(phase: SendPhase) -> StatusPhase {
    match phase {
        SendPhase::First => StatusPhase::Recovering,
        SendPhase::Retry => StatusPhase::Confirming,
    }
}

/// A copy or move starts by sending the transfer.
pub fn start_transfer() -> (r: RecoveryStep)
    ensures
        r matches RecoveryStep::Send(SendPhase::First),
{
    RecoveryStep::Send(SendPhase::First)
}

/// After a send: a result ends the transfer; an ambiguous failure asks the
/// server for the operation's status; any other failure ends it with that
/// failure.
pub fn after_send(phase: SendPhase, outcome: Result<CopyMoveResult, RequestFailure>) -> (r:
    RecoveryStep)
    ensures
        outcome is Ok ==> r matches RecoveryStep::Done(Ok(_)),
        outcome matches Ok(res) ==> (r matches RecoveryStep::Done(Ok(x)) && x == res),
        outcome matches Err(f) && ambiguous(f) ==> (r matches RecoveryStep::ReadStatus(p) && p
            == status_phase_after(phase)),
        outcome matches Err(f) && !ambiguous(f) ==> (r matches RecoveryStep::Done(Err(RemoteError::Request(g)))
            && outcome == Err::<CopyMoveResult, RequestFailure>(g)),
        !(r is Send),
{
    match outcome {
        Ok(result) => RecoveryStep::Done(Ok(result)),
        Err(failure) => {
            if failure.is_ambiguous() {
                match phase {
                    SendPhase::First => RecoveryStep::ReadStatus(StatusPhase::Recovering),
                    SendPhase::Retry => RecoveryStep::ReadStatus(StatusPhase::Confirming),
                }
            } else {
                RecoveryStep::Done(Err(RemoteError::Request(failure)))
            }
        },
    }
}

/// After a status read: a committed result ends the transfer with it; an
/// unknown outcome, or a second not-found after an ambiguous retry, ends it
/// with the recovery handle; the first not-found sends the transfer once
/// more; a failed read ends it with the failure.
pub fn after_status(
    phase: StatusPhase,
    handle: &RecoveryHandle,
    outcome: Result<OperationStatus, RemoteError>,
) -> (r: RecoveryStep)
    ensures
        outcome matches Ok(OperationStatus::Committed(res)) ==> (r matches RecoveryStep::Done(Ok(x))
            && x == res),
        outcome matches Ok(OperationStatus::Unknown) ==> (r matches RecoveryStep::Done(Err(RemoteError::OutcomeUnknown(t)))
            && t@ == handle_text(handle.spec_repository(), handle.spec_operation_id(), handle.spec_fingerprint())),
        outcome matches Ok(OperationStatus::NotFound) && phase == StatusPhase::Recovering ==> r matches RecoveryStep::Send(
            SendPhase::Retry,
        ),
        outcome matches Ok(OperationStatus::NotFound) && phase == StatusPhase::Confirming ==> (r matches RecoveryStep::Done(
            Err(RemoteError::OutcomeUnknown(t))) && t@ == handle_text(handle.spec_repository(), handle.spec_operation_id(), handle.spec_fingerprint())),
        outcome matches Err(e) ==> (r matches RecoveryStep::Done(Err(g)) && g == e),
        r matches RecoveryStep::Send(p) ==> p == SendPhase::Retry && phase == StatusPhase::Recovering,
        !(r is ReadStatus),
{
    match outcome {
        Ok(OperationStatus::Committed(result)) => RecoveryStep::Done(Ok(result)),
        Ok(OperationStatus::Unknown) => RecoveryStep::Done(
            Err(RemoteError::OutcomeUnknown(handle.to_string())),
        ),
        Ok(OperationStatus::NotFound) => match phase {
            StatusPhase::Recovering => RecoveryStep::Send(SendPhase::Retry),
            StatusPhase::Confirming => RecoveryStep::Done(
                Err(RemoteError::OutcomeUnknown(handle.to_string())),
            ),
        },
        Err(error) => RecoveryStep::Done(Err(error)),
    }
}

// ---------------------------------------------------------------------------
// Domain lists in replies
// ---------------------------------------------------------------------------

/// The domains of a reply; any entry that is not a valid domain ID makes the
/// reply invalid, and the error names the reply.
pub fn reply_domains(domains: &Vec<String>, reply: DomainReply) -> (r: Result<
    Vec<DomainId>,
    RemoteError,
>)
    ensures
        (forall|i: int| 0 <= i < domains@.len() ==> crate::scope::valid_domain_id(#[trigger] domains@[i]@))
            ==> (r matches Ok(v) && domain_views(v@) == domains@.map_values(|s: String| s@)),
        !(forall|i: int| 0 <= i < domains@.len() ==> crate::scope::valid_domain_id(#[trigger] domains@[i]@))
            ==> r == Err::<Vec<DomainId>, RemoteError>(RemoteError::InvalidDomain(reply)),
{
    match crate::store::domains::domain_rows(domains) {
        Ok(v) => Ok(v),
        Err(_) => Err(RemoteError::InvalidDomain(reply)),
    }
}

// ---------------------------------------------------------------------------
// Endpoints
// ---------------------------------------------------------------------------

/// The URL of an endpoint at a server address: the address without
/// surrounding whitespace or trailing slashes, then the endpoint's path.
pub open spec fn endpoint_text(address: Seq<char>, route: Route) -> Seq<char> {
    trim_end_char(trim(address), '/') + route_path(route)
}

pub fn endpoint(address: &str, route: Route) -> (r: String)
    ensures
        r@ == endpoint_text(address@, route),
{
    let trimmed = trim_text(address);
    let v = chars_of(trimmed.as_str());
    let mut b: usize = v.len();
    assert(v@.subrange(0, b as int) =~= v@);
    while b > 0 && v[b - 1] == '/'
        invariant
            b <= v@.len(),
            trim_end_char(v@, '/') == trim_end_char(v@.subrange(0, b as int), '/'),
        decreases b,
    {
        assert(v@.subrange(0, b as int).drop_last() =~= v@.subrange(0, b as int - 1));
        b = b - 1;
    }
    let mut out = string_of(&v, 0, b);
    push_str(&mut out, route.path());
    out
}

/// The endpoint of each domain change.
pub fn domain_change_route(change: DomainChange) -> (r: Route)
    ensures
        r == match change {
            DomainChange::Create => Route::DomainCreate,
            DomainChange::Attach => Route::DomainAttach,
            DomainChange::Detach => Route::DomainDetach,
            DomainChange::Delete => Route::DomainDelete,
        },
{
    match change {
        DomainChange::Create => Route::DomainCreate,
        DomainChange::Attach => Route::DomainAttach,
        DomainChange::Detach => Route::DomainDetach,
        DomainChange::Delete => Route::DomainDelete,
    }
}

/// The endpoint a copy or move is sent to.
pub fn transfer_route(action: CopyMoveAction) -> (r: Route)
    ensures
        action == CopyMoveAction::Copy ==> r == Route::Copy,
        action == CopyMoveAction::Move ==> r == Route::Move,
{
    match action {
        CopyMoveAction::Copy => Route::Copy,
        CopyMoveAction::Move => Route::Move,
    }
}

} // verus!
