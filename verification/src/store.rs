//! The logic of the memory store: what is written, how results are cut to a
//! budget, how placements are stored, and how the schema is recognised.
use vstd::prelude::*;

use crate::deps::opt_view;
use crate::scope::{
    domain_prefix, global_text, placement_text, universal_text, valid_repository_id, PlacementId,
    PlacementView, RepositoryId, ScopeId,
};
use crate::text::{
    chars_of, decimal_int, is_white_space, is_whitespace, join, push_char, push_decimal_i64,
    push_str, string_of, trim, trim_end, trim_start, words, words_from,
};

pub mod domains;
pub mod transfers;
pub mod visible;

verus! {

pub const DEFAULT_RECALL_LIMIT: usize = 3;

pub const SCHEMA_MAJOR: i64 = 1;

pub const SCHEMA_MINOR: i64 = 0;

/// What opening a database did to its schema.
#[derive(Debug, Clone, Copy, PartialEq, Eq)]
pub enum SchemaLifecycle {
    Created,
    Opened,
    ResetPreVersioned,
}

/// One stored memory as the store reads it back.
#[derive(Debug, PartialEq, Eq)]
pub struct Memory {
    pub id: i64,
    pub content: String,
    pub kind: String,
    pub tags: String,
    pub created_at: String,
    pub updated_at: String,
    pub scope: String,
    pub topic_key: String,
    pub placement: String,
}

impl Clone for Memory {
    fn clone(&self) -> (r: Self)
        ensures
            r == *self,
    {
        Memory {
            id: self.id,
            content: self.content.clone(),
            kind: self.kind.clone(),
            tags: self.tags.clone(),
            created_at: self.created_at.clone(),
            updated_at: self.updated_at.clone(),
            scope: self.scope.clone(),
            topic_key: self.topic_key.clone(),
            placement: self.placement.clone(),
        }
    }
}

/// Memories similar to one about to be stored, which refuse the write unless
/// it is forced.
#[derive(Debug)]
pub struct SimilarMemories {
    pub candidates: Vec<Memory>,
}

/// One line per candidate: `#<id> [<kind>] <content>`.
pub open spec fn candidate_lines(candidates: Seq<Memory>) -> Seq<char>
    decreases candidates.len(),
{
    if candidates.len() == 0 {
        Seq::empty()
    } else {
        let m = candidates.last();
        candidate_lines(candidates.drop_last()) + seq!['#'] + decimal_int(m.id as int) + " ["@
            + m.kind@ + "] "@ + m.content@ + seq!['\n']
    }
}

impl SimilarMemories {
    /// The notice shown for a refused write, one line per candidate.
    pub fn message(&self) -> (r: String)
        ensures
            r@ == "similar memories found; pass --force to insert anyway\n"@ + candidate_lines(
                self.candidates@,
            ),
    {
        let mut out = String::new();
        push_str(&mut out, "similar memories found; pass --force to insert anyway\n");
        let ghost head = out@;
        let mut i: usize = 0;
        while i < self.candidates.len()
            invariant
                i <= self.candidates@.len(),
                head == "similar memories found; pass --force to insert anyway\n"@,
                out@ == head + candidate_lines(self.candidates@.take(i as int)),
            decreases self.candidates.len() - i,
        {
            let memory = &self.candidates[i];
            push_char(&mut out, '#');
            push_decimal_i64(&mut out, memory.id);
            push_str(&mut out, " [");
            push_str(&mut out, memory.kind.as_str());
            push_str(&mut out, "] ");
            push_str(&mut out, memory.content.as_str());
            push_char(&mut out, '\n');
            assert(self.candidates@.take(i as int + 1).drop_last() =~= self.candidates@.take(i as int));
            assert(out@ =~= head + candidate_lines(self.candidates@.take(i as int + 1)));
            i = i + 1;
        }
        assert(self.candidates@.take(i as int) =~= self.candidates@);
        out
    }
}

/// How a memory is written: its topic, whether similar memories may be
/// ignored, and which memory it overwrites.
pub struct RememberOptions<'a> {
    pub topic_key: Option<&'a str>,
    pub force: bool,
    pub overwrite_id: Option<i64>,
}

/// The failures that the store's own rules decide.
#[derive(Debug, PartialEq, Eq)]
pub enum StoreError {
    EmptyContent,
    MemoryNotFound(i64),
    LimitOutOfRange,
    CountOutOfRange,
    InvalidMemoryScope,
    InvalidRepositoryPlacement,
    InvalidPlacementRow,
    UnrecognizedSchema,
    UnsupportedMajor,
    NewerMinor,
    MalformedMetadata,
    InvalidMinor,
    MissingMigration,
    DomainMissing(String),
    ReferenceNotAttached(String),
    DomainHasAttachments(String, i64),
    DomainHasMemories(String, i64),
    InvalidDomainRow,
    PositionOutOfRange,
    SamePlacement,
    NotInSource(i64),
    OperationConflict,
    InvalidLedgerResult,
    InvalidLedgerSource,
    InvalidLedgerDestination,
    InvalidLedgerOperation,
}

/// The text of each store error.
pub open spec fn store_error_text(e: StoreError) -> Seq<char> {
    match e {
        StoreError::EmptyContent => "memory content is empty"@,
        StoreError::MemoryNotFound(id) => "memory #"@ + decimal_int(id as int) + " not found"@,
        StoreError::LimitOutOfRange => "memory limit exceeds SQLite range"@,
        StoreError::CountOutOfRange => "visible stack count exceeds SQLite range"@,
        StoreError::InvalidMemoryScope => "invalid memory scope"@,
        StoreError::InvalidRepositoryPlacement => "invalid repository placement"@,
        StoreError::InvalidPlacementRow => "database contains an invalid placement"@,
        StoreError::UnrecognizedSchema => "database schema is not a recognized memocap schema"@,
        StoreError::UnsupportedMajor => "database schema major version is not supported"@,
        StoreError::NewerMinor => "database schema minor version is newer than this binary"@,
        StoreError::MalformedMetadata => "database schema metadata is malformed"@,
        StoreError::InvalidMinor => "schema minor version is invalid"@,
        StoreError::MissingMigration => "database schema minor version has no registered migration"@,
        StoreError::DomainMissing(domain) => "domain "@ + domain@ + " does not exist"@,
        StoreError::ReferenceNotAttached(domain) => "reference domain "@ + domain@ + " is not attached to this repository"@,
        StoreError::DomainHasAttachments(domain, count) => "domain "@ + domain@ + " still has "@ + decimal_int(count as int) + " attachment(s)"@,
        StoreError::DomainHasMemories(domain, count) => "domain "@ + domain@ + " still has "@ + decimal_int(count as int) + " memory record(s)"@,
        StoreError::InvalidDomainRow => "database contains an invalid domain ID"@,
        StoreError::PositionOutOfRange => "domain attachment position exceeds SQLite range"@,
        StoreError::SamePlacement => "source and destination placements must differ"@,
        StoreError::NotInSource(id) => "memory #"@ + decimal_int(id as int) + " not found in source placement"@,
        StoreError::OperationConflict => "operation ID conflict: request fingerprint differs"@,
        StoreError::InvalidLedgerResult => "operation ledger contains invalid result"@,
        StoreError::InvalidLedgerSource => "operation ledger contains invalid source placement"@,
        StoreError::InvalidLedgerDestination => "operation ledger contains invalid destination placement"@,
        StoreError::InvalidLedgerOperation => "operation ledger contains invalid operation ID"@,
    }
}

impl StoreError {
    /// The error's text.
    pub fn message(&self) -> (r: String)
        ensures
            r@ == store_error_text(*self),
    {
        let mut out = String::new();
        match self {
            StoreError::EmptyContent => push_str(&mut out, "memory content is empty"),
            StoreError::MemoryNotFound(id) => {
                push_str(&mut out, "memory #");
                push_decimal_i64(&mut out, *id);
                push_str(&mut out, " not found");
            },
            StoreError::LimitOutOfRange => push_str(&mut out, "memory limit exceeds SQLite range"),
            StoreError::CountOutOfRange => push_str(
                &mut out,
                "visible stack count exceeds SQLite range",
            ),
            StoreError::InvalidMemoryScope => push_str(&mut out, "invalid memory scope"),
            StoreError::InvalidRepositoryPlacement => push_str(
                &mut out,
                "invalid repository placement",
            ),
            StoreError::InvalidPlacementRow => push_str(
                &mut out,
                "database contains an invalid placement",
            ),
            StoreError::UnrecognizedSchema => push_str(
                &mut out,
                "database schema is not a recognized memocap schema",
            ),
            StoreError::UnsupportedMajor => push_str(
                &mut out,
                "database schema major version is not supported",
            ),
            StoreError::NewerMinor => push_str(
                &mut out,
                "database schema minor version is newer than this binary",
            ),
            StoreError::MalformedMetadata => push_str(
                &mut out,
                "database schema metadata is malformed",
            ),
            StoreError::InvalidMinor => push_str(&mut out, "schema minor version is invalid"),
            StoreError::MissingMigration => push_str(
                &mut out,
                "database schema minor version has no registered migration",
            ),
            StoreError::DomainMissing(domain) => {
                push_str(&mut out, "domain ");
                push_str(&mut out, domain.as_str());
                push_str(&mut out, " does not exist");
            },
            StoreError::ReferenceNotAttached(domain) => {
                push_str(&mut out, "reference domain ");
                push_str(&mut out, domain.as_str());
                push_str(&mut out, " is not attached to this repository");
            },
            StoreError::DomainHasAttachments(domain, count) => {
                push_str(&mut out, "domain ");
                push_str(&mut out, domain.as_str());
                push_str(&mut out, " still has ");
                push_decimal_i64(&mut out, *count);
                push_str(&mut out, " attachment(s)");
            },
            StoreError::DomainHasMemories(domain, count) => {
                push_str(&mut out, "domain ");
                push_str(&mut out, domain.as_str());
                push_str(&mut out, " still has ");
                push_decimal_i64(&mut out, *count);
                push_str(&mut out, " memory record(s)");
            },
            StoreError::InvalidDomainRow => push_str(
                &mut out,
                "database contains an invalid domain ID",
            ),
            StoreError::PositionOutOfRange => push_str(
                &mut out,
                "domain attachment position exceeds SQLite range",
            ),
            StoreError::SamePlacement => push_str(
                &mut out,
                "source and destination placements must differ",
            ),
            StoreError::NotInSource(id) => {
                push_str(&mut out, "memory #");
                push_decimal_i64(&mut out, *id);
                push_str(&mut out, " not found in source placement");
            },
            StoreError::OperationConflict => push_str(
                &mut out,
                "operation ID conflict: request fingerprint differs",
            ),
            StoreError::InvalidLedgerResult => push_str(
                &mut out,
                "operation ledger contains invalid result",
            ),
            StoreError::InvalidLedgerSource => push_str(
                &mut out,
                "operation ledger contains invalid source placement",
            ),
            StoreError::InvalidLedgerDestination => push_str(
                &mut out,
                "operation ledger contains invalid destination placement",
            ),
            StoreError::InvalidLedgerOperation => push_str(
                &mut out,
                "operation ledger contains invalid operation ID",
            ),
        }
        assert(out@ =~= store_error_text(*self));
        out
    }
}

// ---------------------------------------------------------------------------
// Text normalisation
// ---------------------------------------------------------------------------

/// `str::to_lowercase`: Unicode lowercase mapping of a text.
pub uninterp spec fn lowercase(text: Seq<char>) -> Seq<char>;

/// `str::to_lowercase`.  The contract claims the result is the named
/// Unicode lowercase form of the text.
#[verifier::external_body]
pub(crate) fn to_lowercase(text: &str) -> (r: String)
    ensures
        r@ == lowercase(text@),
{
    text.to_lowercase()
}

/// Pushes the words of `v` (as `split_whitespace` yields them) onto `out`,
/// separated by `sep`.
fn words_of(text: &str) -> (r: Vec<String>)
    ensures
        r@.len() == words(text@).len(),
        forall|i: int| 0 <= i < r@.len() ==> #[trigger] r@[i]@ == words(text@)[i],
{
    let v = chars_of(text);
    let n = v.len();
    let mut out: Vec<String> = Vec::new();
    let ghost mut done: Seq<Seq<char>> = seq![];
    let mut start: usize = 0;
    let mut i: usize = 0;
    assert(v@.skip(0) =~= v@);
    assert(v@.subrange(0, 0) =~= seq![]);
    while i < n
        invariant
            n == v@.len(),
            v@ == text@,
            start <= i <= n,
            out@.len() == done.len(),
            forall|k: int| 0 <= k < out@.len() ==> #[trigger] out@[k]@ == done[k],
            words(text@) == words_from(v@.skip(i as int), v@.subrange(start as int, i as int), done),
        decreases n - i,
    {
        assert(v@.skip(i as int).drop_first() =~= v@.skip(i as int + 1));
        assert(v@.skip(i as int)[0] == v@[i as int]);
        if is_whitespace(v[i]) {
            if i > start {
                out.push(string_of(&v, start, i));
                proof {
                    done = done.push(v@.subrange(start as int, i as int));
                }
            }
            start = i + 1;
            assert(v@.subrange(start as int, i as int + 1) =~= seq![]);
        } else {
            assert(v@.subrange(start as int, i as int).push(v@[i as int]) =~= v@.subrange(
                start as int,
                i as int + 1,
            ));
        }
        i = i + 1;
    }
    assert(v@.skip(n as int) =~= seq![]);
    if n > start {
        out.push(string_of(&v, start, n));
        proof {
            done = done.push(v@.subrange(start as int, n as int));
        }
    }
    out
}

/// Joins texts with a separator.
fn join_strings(parts: &Vec<String>, sep: &str) -> (r: String)
    ensures
        r@ == join(parts@.map_values(|p: String| p@), sep@),
{
    let ghost views = parts@.map_values(|p: String| p@);
    let mut out = String::new();
    let mut i: usize = 0;
    while i < parts.len()
        invariant
            i <= parts@.len(),
            views == parts@.map_values(|p: String| p@),
            out@ == join(views.take(i as int), sep@),
        decreases parts@.len() - i,
    {
        if i > 0 {
            push_str(&mut out, sep);
        }
        push_str(&mut out, parts[i].as_str());
        proof {
            let t = views.take(i as int + 1);
            assert(t.drop_last() =~= views.take(i as int));
            assert(t.last() == parts@[i as int]@);
            if i == 0 {
                assert(views.take(0) =~= seq![]);
            }
        }
        i = i + 1;
    }
    assert(views.take(parts@.len() as int) =~= views);
    out
}

/// The key of a topic: its words joined by single spaces, then lowercased.
pub open spec fn topic_key_of(topic: Seq<char>) -> Seq<char> {
    lowercase(join(words(topic), seq![' ']))
}

pub fn normalize_topic_key(topic_key: Option<&str>) -> (r: Option<String>)
    ensures
        match topic_key {
            Some(t) => r matches Some(k) && k@ == topic_key_of(t@),
            None => r is None,
        },
{
    match topic_key {
        Some(value) => {
            let parts = words_of(value);
            proof {
                assert(parts@.map_values(|p: String| p@) =~= words(value@));
            }
            let joined = join_strings(&parts, " ");
            proof {
                reveal_strlit(" ");
                assert(" "@ =~= seq![' ']);
            }
            Some(to_lowercase(joined.as_str()))
        },
        None => None,
    }
}

/// The full-text query for a search text: each word quoted with its double
/// quotes removed, joined by ` AND `.
pub open spec fn quoted_word(word: Seq<char>) -> Seq<char> {
    seq!['"'] + word.filter(|c: char| c != '"') + seq!['"']
}

pub open spec fn fts_text(query: Seq<char>) -> Seq<char> {
    join(words(query).map_values(|w: Seq<char>| quoted_word(w)), seq![' ', 'A', 'N', 'D', ' '])
}

fn quote_word(word: &str) -> (r: String)
    ensures
        r@ == quoted_word(word@),
{
    let v = chars_of(word);
    let mut out = String::new();
    push_char(&mut out, '"');
    let mut i: usize = 0;
    while i < v.len()
        invariant
            i <= v@.len(),
            out@ == seq!['"'] + v@.take(i as int).filter(|c: char| c != '"'),
        decreases v@.len() - i,
    {
        proof {
            let t = v@.take(i as int + 1);
            assert(t.drop_last() =~= v@.take(i as int));
            reveal(Seq::filter);
            assert(t.filter(|c: char| c != '"') == if t.last() != '"' {
                t.drop_last().filter(|c: char| c != '"').push(t.last())
            } else {
                t.drop_last().filter(|c: char| c != '"')
            });
        }
        if v[i] != '"' {
            push_char(&mut out, v[i]);
        }
        i = i + 1;
        proof {
            assert(out@ =~= seq!['"'] + v@.take(i as int).filter(|c: char| c != '"'));
        }
    }
    push_char(&mut out, '"');
    assert(v@.take(v@.len() as int) =~= v@);
    assert(out@ =~= quoted_word(word@));
    out
}

pub fn fts_query(query: &str) -> (r: String)
    ensures
        r@ == fts_text(query@),
{
    let parts = words_of(query);
    let mut quoted: Vec<String> = Vec::new();
    let mut i: usize = 0;
    while i < parts.len()
        invariant
            i <= parts@.len(),
            parts@.len() == words(query@).len(),
            forall|k: int| 0 <= k < parts@.len() ==> #[trigger] parts@[k]@ == words(query@)[k],
            quoted@.len() == i,
            forall|k: int| 0 <= k < i ==> #[trigger] quoted@[k]@ == quoted_word(words(query@)[k]),
        decreases parts@.len() - i,
    {
        quoted.push(quote_word(parts[i].as_str()));
        i = i + 1;
    }
    proof {
        reveal_strlit(" AND ");
        assert(" AND "@ =~= seq![' ', 'A', 'N', 'D', ' ']);
        assert(quoted@.map_values(|p: String| p@) =~= words(query@).map_values(
            |w: Seq<char>| quoted_word(w),
        ));
    }
    join_strings(&quoted, " AND ")
}

/// `str::trim`.
pub fn trim_text(text: &str) -> (r: String)
    ensures
        r@ == trim(text@),
{
    let v = chars_of(text);
    let n = v.len();
    let mut a: usize = 0;
    assert(v@.skip(0) =~= v@);
    while a < n && is_whitespace(v[a])
        invariant
            n == v@.len(),
            a <= n,
            trim_start(v@) == trim_start(v@.skip(a as int)),
        decreases n - a,
    {
        assert(v@.skip(a as int).drop_first() =~= v@.skip(a as int + 1));
        a = a + 1;
    }
    assert(trim_start(v@.skip(a as int)) == v@.skip(a as int));
    assert(v@.skip(a as int) =~= v@.subrange(a as int, n as int));
    let mut b: usize = n;
    while b > a && is_whitespace(v[b - 1])
        invariant
            n == v@.len(),
            a <= b <= n,
            trim_end(v@.subrange(a as int, n as int)) == trim_end(
                v@.subrange(a as int, b as int),
            ),
        decreases b,
    {
        assert(v@.subrange(a as int, b as int).drop_last() =~= v@.subrange(
            a as int,
            b as int - 1,
        ));
        b = b - 1;
    }
    string_of(&v, a, b)
}

/// A schema statement with its whitespace collapsed, so that two schemas
/// compare by their words.
pub fn normalize_sql(value: &str) -> (r: String)
    ensures
        r@ == join(words(value@), seq![' ']),
{
    let parts = words_of(value);
    proof {
        assert(parts@.map_values(|p: String| p@) =~= words(value@));
        reveal_strlit(" ");
        assert(" "@ =~= seq![' ']);
    }
    join_strings(&parts, " ")
}

/// The fields of a memory about to be written: trimmed content (which must not
/// be empty), trimmed kind defaulting to `context`, trimmed tags and the
/// normalised topic key.
pub struct PreparedMemory {
    pub content: String,
    pub kind: String,
    pub tags: String,
    pub topic_key: Option<String>,
}

pub fn prepare_memory(content: &str, kind: &str, tags: &str, topic_key: Option<&str>) -> (r: Result<
    PreparedMemory,
    StoreError,
>)
    ensures
        trim(content@).len() == 0 <==> r matches Err(StoreError::EmptyContent),
        r is Err ==> r matches Err(StoreError::EmptyContent),
        r matches Ok(p) ==> {
            &&& p.content@ == trim(content@)
            &&& p.kind@ == (if trim(kind@).len() == 0 {
                "context"@
            } else {
                trim(kind@)
            })
            &&& p.tags@ == trim(tags@)
            &&& match topic_key {
                Some(t) => p.topic_key matches Some(k) && k@ == topic_key_of(t@),
                None => p.topic_key is None,
            }
        },
{
    let content = trim_text(content);
    if content.as_str().is_empty() {
        return Err(StoreError::EmptyContent);
    }
    let trimmed_kind = trim_text(kind);
    let kind = if trimmed_kind.as_str().is_empty() {
        "context".to_owned()
    } else {
        trimmed_kind
    };
    Ok(
        PreparedMemory {
            content,
            kind,
            tags: trim_text(tags),
            topic_key: normalize_topic_key(topic_key),
        },
    )
}

/// How a write proceeds once its fields are prepared.
#[derive(Debug, Clone, Copy, PartialEq, Eq, Structural)]
pub enum RememberWrite {
    /// Replace this memory's fields in its placement.
    Overwrite(i64),
    /// Insert a new memory, first refusing it if similar memories exist
    /// unless the write is forced.
    Insert { check_similar: bool },
}

/// An overwrite names its memory; otherwise a new memory is inserted, after
/// a similarity check unless forced.
pub fn remember_write(options: &RememberOptions) -> (r: RememberWrite)
    ensures
        options.overwrite_id matches Some(id) ==> r == RememberWrite::Overwrite(id),
        options.overwrite_id is None ==> r == (RememberWrite::Insert { check_similar: !options.force }),
{
    match options.overwrite_id {
        Some(id) => RememberWrite::Overwrite(id),
        None => RememberWrite::Insert { check_similar: !options.force },
    }
}

/// An overwrite that changed no row names a memory that is not in the
/// placement.
pub fn overwrite_result(id: i64, updated: usize) -> (r: Result<i64, StoreError>)
    ensures
        updated == 0 ==> r == Err::<i64, StoreError>(StoreError::MemoryNotFound(id)),
        updated > 0 ==> r == Ok::<i64, StoreError>(id),
{
    if updated == 0 {
        Err(StoreError::MemoryNotFound(id))
    } else {
        Ok(id)
    }
}

/// A new memory is refused when the similarity check found candidates.
pub fn similar_check(hits: Vec<Memory>) -> (r: Result<(), SimilarMemories>)
    ensures
        hits@.len() == 0 ==> r is Ok,
        hits@.len() > 0 ==> (r matches Err(e) && e.candidates@ == hits@),
{
    if hits.len() == 0 {
        Ok(())
    } else {
        Err(SimilarMemories { candidates: hits })
    }
}

/// A recall's kind filter: the trimmed kind, where one is given and it is
/// not blank.
pub fn kind_filter(kind: Option<&str>) -> (r: Option<String>)
    ensures
        match kind {
            Some(k) if trim(k@).len() > 0 => r matches Some(f) && f@ == trim(k@),
            _ => r is None,
        },
{
    match kind {
        Some(k) => {
            let trimmed = trim_text(k);
            if trimmed.as_str().is_empty() {
                None
            } else {
                Some(trimmed)
            }
        },
        None => None,
    }
}

/// A memory limit as SQLite reads it: it must fit in an `i64`.
pub fn sqlite_limit(limit: usize) -> (r: Result<i64, StoreError>)
    ensures
        limit <= i64::MAX ==> r == Ok::<i64, StoreError>(limit as i64),
        limit > i64::MAX ==> r == Err::<i64, StoreError>(StoreError::LimitOutOfRange),
{
    if (limit as u64) <= (i64::MAX as u64) {
        Ok(limit as i64)
    } else {
        Err(StoreError::LimitOutOfRange)
    }
}

// ---------------------------------------------------------------------------
// Character budget
// ---------------------------------------------------------------------------

pub open spec fn saturating(n: int) -> int {
    if n > usize::MAX {
        usize::MAX as int
    } else {
        n
    }
}

/// How many of the leading items fit a character budget: items are taken in
/// order while the running total (saturating at `usize::MAX`) stays within
/// `max`; the first item is always taken.
pub open spec fn budget_count(lengths: Seq<nat>, max: nat, total: nat, first: bool) -> nat
    decreases lengths.len(),
{
    if lengths.len() == 0 {
        0
    } else if !first && saturating((total + lengths[0]) as int) > max {
        0
    } else {
        1 + budget_count(lengths.drop_first(), max, saturating((total + lengths[0]) as int) as nat, false)
    }
}

pub open spec fn content_lengths(memories: Seq<Memory>) -> Seq<nat> {
    memories.map_values(|m: Memory| m.content@.len())
}

pub proof fn lemma_budget_count_bound(lengths: Seq<nat>, max: nat, total: nat, first: bool)
    ensures
        budget_count(lengths, max, total, first) <= lengths.len(),
        first && lengths.len() > 0 ==> budget_count(lengths, max, total, first) >= 1,
    decreases lengths.len(),
{
    if lengths.len() > 0 {
        lemma_budget_count_bound(
            lengths.drop_first(),
            max,
            saturating((total + lengths[0]) as int) as nat,
            false,
        );
    }
}

/// The number of leading items of `lengths` that fit the budget.
pub fn budget_prefix(lengths: &Vec<usize>, max: usize) -> (r: usize)
    ensures
        r == budget_count(lengths@.map_values(|n: usize| n as nat), max as nat, 0, true),
{
    let ghost ls = lengths@.map_values(|n: usize| n as nat);
    let mut total: usize = 0;
    let mut i: usize = 0;
    assert(ls.skip(0) =~= ls);
    while i < lengths.len()
        invariant
            i <= lengths@.len(),
            ls == lengths@.map_values(|n: usize| n as nat),
            budget_count(ls, max as nat, 0, true) == i + budget_count(
                ls.skip(i as int),
                max as nat,
                total as nat,
                i == 0,
            ),
        decreases lengths@.len() - i,
    {
        let n = lengths[i];
        let next = total.saturating_add(n);
        assert(ls.skip(i as int)[0] == n);
        assert(ls.skip(i as int).drop_first() =~= ls.skip(i as int + 1));
        if i > 0 && next > max {
            return i;
        }
        total = next;
        i = i + 1;
    }
    assert(ls.skip(i as int).len() == 0);
    i
}

fn take_budget(memories: Vec<Memory>, max_chars: usize) -> (r: Vec<Memory>)
    ensures
        r@ == memories@.take(budget_count(content_lengths(memories@), max_chars as nat, 0, true) as int),
{
    let mut lengths: Vec<usize> = Vec::new();
    let mut i: usize = 0;
    while i < memories.len()
        invariant
            i <= memories@.len(),
            lengths@.len() == i,
            forall|k: int| 0 <= k < i ==> #[trigger] lengths@[k] as nat == memories@[k].content@.len(),
        decreases memories@.len() - i,
    {
        lengths.push(memories[i].content.as_str().unicode_len());
        i = i + 1;
    }
    assert(lengths@.map_values(|n: usize| n as nat) =~= content_lengths(memories@));
    let k = budget_prefix(&lengths, max_chars);
    proof {
        lemma_budget_count_bound(content_lengths(memories@), max_chars as nat, 0, true);
    }
    let mut out = memories;
    out.truncate(k);
    out
}

/// Memories cut to a character budget; without a budget all are kept.
pub fn take_char_budget(memories: Vec<Memory>, max_chars: Option<usize>) -> (r: Vec<Memory>)
    ensures
        match max_chars {
            None => r@ == memories@,
            Some(max) => r@ == memories@.take(
                budget_count(content_lengths(memories@), max as nat, 0, true) as int,
            ),
        },
{
    match max_chars {
        None => memories,
        Some(max) => take_budget(memories, max),
    }
}

// ---------------------------------------------------------------------------
// Stored placements
// ---------------------------------------------------------------------------

/// The stored kind of a placement.
pub open spec fn placement_kind_text(p: PlacementView) -> Seq<char> {
    match p {
        PlacementView::Repository(_) => "repository"@,
        PlacementView::Domain(_) => "domain"@,
        PlacementView::Universal => "universal"@,
    }
}

/// The stored columns of a placement: its kind, repository ID and domain ID.
pub fn placement_parts(placement: &PlacementId) -> (r: (&'static str, Option<&str>, Option<&str>))
    ensures
        r.0@ == placement_kind_text(placement@),
        match placement@ {
            PlacementView::Repository(rep) => r.1 matches Some(x) && x@ == rep && r.2 is None,
            PlacementView::Domain(d) => r.1 is None && (r.2 matches Some(x) && x@ == d),
            PlacementView::Universal => r.1 is None && r.2 is None,
        },
{
    match placement {
        PlacementId::Repository(repository) => ("repository", Some(repository.as_str()), None),
        PlacementId::Domain(domain) => ("domain", None, Some(domain.as_str())),
        PlacementId::Universal => ("universal", None, None),
    }
}

/// The legacy scope column of a placement.
pub open spec fn legacy_scope_text(p: PlacementView) -> Seq<char> {
    match p {
        PlacementView::Repository(r) => r,
        PlacementView::Domain(_) => placement_text(p),
        PlacementView::Universal => global_text(),
    }
}

pub fn legacy_scope(placement: &PlacementId) -> (r: String)
    ensures
        r@ == legacy_scope_text(placement@),
{
    match placement {
        PlacementId::Repository(repository) => repository.to_string(),
        PlacementId::Domain(_) => placement.to_string(),
        PlacementId::Universal => {
            let text = "global".to_owned();
            proof {
                reveal_strlit("global");
                assert(text@ =~= global_text());
            }
            text
        },
    }
}

/// The placement of a legacy scope: `global` is universal, a repository ID is
/// that repository.
pub fn placement_from_scope(scope: &ScopeId) -> (r: Result<PlacementId, StoreError>)
    ensures
        scope@ == global_text() ==> (r matches Ok(p) && p@ == PlacementView::Universal),
        scope@ != global_text() ==> (r matches Ok(p) && p@ == PlacementView::Repository(scope@)),
{
    if scope.is_global() {
        return Ok(PlacementId::Universal);
    }
    match RepositoryId::parse(scope.as_str()) {
        Ok(repository) => Ok(PlacementId::Repository(repository)),
        Err(_) => Err(StoreError::InvalidRepositoryPlacement),
    }
}

/// The placement text of a stored row, from its kind, repository ID and
/// domain ID columns; `None` where the columns disagree.
pub open spec fn row_placement_text(
    kind: Seq<char>,
    repository_id: Option<Seq<char>>,
    domain_id: Option<Seq<char>>,
) -> Option<Seq<char>> {
    if kind == "repository"@ && repository_id is Some && domain_id is None {
        Some(repository_id->0)
    } else if kind == "domain"@ && repository_id is None && domain_id is Some {
        Some(domain_prefix() + domain_id->0)
    } else if kind == "universal"@ && repository_id is None && domain_id is None {
        Some(universal_text())
    } else {
        None
    }
}

pub fn row_placement(kind: &str, repository_id: Option<String>, domain_id: Option<String>) -> (r:
    Result<String, StoreError>)
    ensures
        match row_placement_text(kind@, opt_view(repository_id), opt_view(domain_id)) {
            Some(t) => r matches Ok(s) && s@ == t,
            None => r matches Err(StoreError::InvalidPlacementRow),
        },
{
    let k = chars_of(kind);
    let repository_word = chars_of("repository");
    let domain_word = chars_of("domain");
    let universal_word = chars_of("universal");
    proof {
        reveal_strlit("domain:");
        reveal_strlit("universal");
        assert("domain:"@ =~= domain_prefix());
        assert("universal"@ =~= universal_text());
    }
    if crate::text::chars_eq(&k, &repository_word) {
        if let (Some(repository), None) = (&repository_id, &domain_id) {
            return Ok(repository.clone());
        }
    }
    if crate::text::chars_eq(&k, &domain_word) {
        if let (None, Some(domain)) = (&repository_id, &domain_id) {
            let mut text = String::new();
            push_str(&mut text, "domain:");
            push_str(&mut text, domain.as_str());
            return Ok(text);
        }
    }
    if crate::text::chars_eq(&k, &universal_word) {
        if let (None, None) = (&repository_id, &domain_id) {
            return Ok("universal".to_owned());
        }
    }
    Err(StoreError::InvalidPlacementRow)
}

// ---------------------------------------------------------------------------
// Schema lifecycle
// ---------------------------------------------------------------------------

/// What opening a database must do, from how its schema compares with the
/// known schemas.
#[derive(Debug, Clone, Copy, PartialEq, Eq)]
pub enum SchemaAction {
    CreateV1,
    OpenV1,
    ResetPreVersioned,
}

/// An empty schema is created, the current schema is opened, the exact
/// pre-versioned schema is reset, and anything else is refused.
pub fn schema_action(empty: bool, matches_v1: bool, matches_pre_versioned: bool) -> (r: Result<
    SchemaAction,
    StoreError,
>)
    ensures
        empty ==> r == Ok::<SchemaAction, StoreError>(SchemaAction::CreateV1),
        !empty && matches_v1 ==> r == Ok::<SchemaAction, StoreError>(SchemaAction::OpenV1),
        !empty && !matches_v1 && matches_pre_versioned ==> r == Ok::<SchemaAction, StoreError>(
            SchemaAction::ResetPreVersioned,
        ),
        !empty && !matches_v1 && !matches_pre_versioned ==> r == Err::<SchemaAction, StoreError>(
            StoreError::UnrecognizedSchema,
        ),
{
    if empty {
        Ok(SchemaAction::CreateV1)
    } else if matches_v1 {
        Ok(SchemaAction::OpenV1)
    } else if matches_pre_versioned {
        Ok(SchemaAction::ResetPreVersioned)
    } else {
        Err(StoreError::UnrecognizedSchema)
    }
}

/// The schema version of the single metadata row.
#[derive(Debug, Clone, Copy, PartialEq, Eq)]
pub struct SchemaVersion {
    pub major: i64,
    pub minor: i64,
}

/// Reads the metadata rows: exactly one, with a major of at least 1 and a
/// non-negative minor.
pub fn schema_version(rows: &Vec<(i64, i64)>) -> (r: Result<SchemaVersion, StoreError>)
    ensures
        (rows@.len() == 1 && rows@[0].0 >= 1 && rows@[0].1 >= 0) ==> r == Ok::<
            SchemaVersion,
            StoreError,
        >(SchemaVersion { major: rows@[0].0, minor: rows@[0].1 }),
        !(rows@.len() == 1 && rows@[0].0 >= 1 && rows@[0].1 >= 0) ==> r == Err::<
            SchemaVersion,
            StoreError,
        >(StoreError::MalformedMetadata),
{
    if rows.len() != 1 {
        return Err(StoreError::MalformedMetadata);
    }
    let (major, minor) = rows[0];
    if major < 1 || minor < 0 {
        return Err(StoreError::MalformedMetadata);
    }
    Ok(SchemaVersion { major, minor })
}

/// Opening the current schema: another major is refused, a newer minor is
/// refused, an older minor is migrated (`Some(from)`), the same minor opens
/// as it is (`None`).
pub fn open_schema_v1(version: SchemaVersion) -> (r: Result<Option<i64>, StoreError>)
    ensures
        version.major != SCHEMA_MAJOR ==> r == Err::<Option<i64>, StoreError>(
            StoreError::UnsupportedMajor,
        ),
        version.major == SCHEMA_MAJOR && version.minor > SCHEMA_MINOR ==> r == Err::<
            Option<i64>,
            StoreError,
        >(StoreError::NewerMinor),
        version.major == SCHEMA_MAJOR && version.minor < SCHEMA_MINOR ==> r == Ok::<
            Option<i64>,
            StoreError,
        >(Some(version.minor)),
        version.major == SCHEMA_MAJOR && version.minor == SCHEMA_MINOR ==> r == Ok::<
            Option<i64>,
            StoreError,
        >(None),
{
    if version.major != SCHEMA_MAJOR {
        return Err(StoreError::UnsupportedMajor);
    }
    if version.minor > SCHEMA_MINOR {
        return Err(StoreError::NewerMinor);
    }
    if version.minor < SCHEMA_MINOR {
        return Ok(Some(version.minor));
    }
    Ok(None)
}

/// The migrations to run, in order, to bring `from_minor` up to
/// `target_minor` with `registered` migrations: migration `i` lifts minor `i`
/// to `i + 1`.
pub fn lower_minor_plan(from_minor: i64, target_minor: i64, registered: usize) -> (r: Result<
    Vec<usize>,
    StoreError,
>)
    ensures
        (from_minor < 0 || target_minor < from_minor) ==> r == Err::<Vec<usize>, StoreError>(
            StoreError::InvalidMinor,
        ),
        (0 <= from_minor <= target_minor && target_minor > registered) ==> r == Err::<
            Vec<usize>,
            StoreError,
        >(StoreError::MissingMigration),
        (0 <= from_minor <= target_minor && target_minor <= registered) ==> (r matches Ok(plan)
            && plan@.len() == target_minor - from_minor && forall|i: int|
            0 <= i < plan@.len() ==> #[trigger] plan@[i] == from_minor + i),
{
    if from_minor < 0 || target_minor < from_minor {
        return Err(StoreError::InvalidMinor);
    }
    if (target_minor as u64) > (registered as u64) {
        return Err(StoreError::MissingMigration);
    }
    let mut plan: Vec<usize> = Vec::new();
    let mut minor = from_minor;
    while minor < target_minor
        invariant
            0 <= from_minor <= minor <= target_minor <= registered,
            plan@.len() == minor - from_minor,
            forall|i: int| 0 <= i < plan@.len() ==> #[trigger] plan@[i] == from_minor + i,
        decreases target_minor - minor,
    {
        plan.push(minor as usize);
        minor = minor + 1;
    }
    Ok(plan)
}

} // verus!
