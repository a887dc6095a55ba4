//! Identifiers for repositories, domains, placements, scopes and operations.
use std::str::FromStr;

use vstd::prelude::*;

use crate::deps::{sha256, sha256_digest};
use crate::text::{
    chars_eq, chars_of, chars_start_with, hex_bytes, is_alnum_lower_char, is_hex_char, is_lowercase_alphanumeric,
    is_lowercase_hex, lemma_hex_bytes, literal, push_char, push_hex_range, push_str, starts_with, str_eq,
    string_of,
};

pub mod identity;

verus! {

// ---------------------------------------------------------------------------
// Fixed texts
// ---------------------------------------------------------------------------

pub open spec fn repository_prefix() -> Seq<char> {
    seq!['r', 'e', 'p', 'o', 's', 'i', 't', 'o', 'r', 'y', ':']
}

pub open spec fn legacy_scope_prefix() -> Seq<char> {
    seq!['s', 'c', 'o', 'p', 'e', ':', 'v', '1', ':']
}

pub open spec fn domain_prefix() -> Seq<char> {
    seq!['d', 'o', 'm', 'a', 'i', 'n', ':']
}

pub open spec fn universal_text() -> Seq<char> {
    seq!['u', 'n', 'i', 'v', 'e', 'r', 's', 'a', 'l']
}

pub open spec fn global_text() -> Seq<char> {
    seq!['g', 'l', 'o', 'b', 'a', 'l']
}

pub open spec fn repository_word() -> Seq<char> {
    seq!['r', 'e', 'p', 'o', 's', 'i', 't', 'o', 'r', 'y']
}

// ---------------------------------------------------------------------------
// What makes each identifier valid
// ---------------------------------------------------------------------------

/// `repository:` followed by 64 lowercase hexadecimal digits.
pub open spec fn valid_repository_id(s: Seq<char>) -> bool {
    &&& s.len() == 75
    &&& starts_with(s, repository_prefix())
    &&& forall|i: int| 11 <= i < 75 ==> is_hex_char(#[trigger] s[i])
}

pub open spec fn is_domain_char(c: char) -> bool {
    is_alnum_lower_char(c) || c == '.' || c == '_' || c == '-'
}

/// Every `/`-separated segment is non-empty, starts with a lowercase letter or
/// digit and goes on with lowercase letters, digits, `.`, `_` or `-`.
pub open spec fn valid_domain_segments(s: Seq<char>) -> bool {
    &&& s.len() > 0
    &&& is_alnum_lower_char(s[0])
    &&& forall|i: int| 0 <= i < s.len() ==> (#[trigger] s[i] == '/' || is_domain_char(s[i]))
    &&& forall|i: int|
        0 <= i < s.len() && #[trigger] s[i] == '/' ==> i + 1 < s.len() && is_alnum_lower_char(
            s[i + 1],
        )
}

pub open spec fn reserved_domain(s: Seq<char>) -> bool {
    ||| s == seq!['.']
    ||| s == seq!['.', '.']
    ||| s == global_text()
    ||| s == universal_text()
    ||| s == repository_word()
}

pub open spec fn valid_domain_id(s: Seq<char>) -> bool {
    &&& s.len() > 0
    &&& !reserved_domain(s)
    &&& !starts_with(s, repository_prefix())
    &&& !starts_with(s, legacy_scope_prefix())
    &&& valid_domain_segments(s)
}

/// Eight, four, four, four and twelve lowercase hexadecimal digits joined by
/// hyphens.
pub open spec fn is_canonical_uuid(s: Seq<char>) -> bool {
    &&& s.len() == 36
    &&& forall|i: int|
        0 <= i < 36 ==> if i == 8 || i == 13 || i == 18 || i == 23 {
            #[trigger] s[i] == '-'
        } else {
            is_hex_char(s[i])
        }
}

/// Sixty-four lowercase hexadecimal digits (a SHA-256 digest in hex).
pub open spec fn is_hex64(s: Seq<char>) -> bool {
    s.len() == 64 && forall|i: int| 0 <= i < 64 ==> is_hex_char(#[trigger] s[i])
}

/// `global`, or a repository ID.
pub open spec fn valid_scope_id(s: Seq<char>) -> bool {
    s == global_text() || valid_repository_id(s)
}

// ---------------------------------------------------------------------------
// RepositoryId
// ---------------------------------------------------------------------------

/// The opaque identity of a repository: `repository:<64 lowercase hex>`.
#[derive(Debug, PartialEq, Eq, Hash)]
pub struct RepositoryId(String);

#[derive(Debug, Clone, Copy, PartialEq, Eq)]
pub struct RepositoryIdParseError;

impl View for RepositoryId {
    type V = Seq<char>;

    closed spec fn view(&self) -> Seq<char> {
        self.0@
    }
}

impl RepositoryId {
    #[verifier::type_invariant]
    spec fn well_formed(self) -> bool {
        valid_repository_id(self.0@)
    }

    pub fn as_str(&self) -> (r: &str)
        ensures
            r@ == self@,
            valid_repository_id(self@),
    {
        proof {
            use_type_invariant(self);
        }
        self.0.as_str()
    }

    /// The identifier's text.
    pub fn to_string(&self) -> (r: String)
        ensures
            r@ == self@,
            valid_repository_id(self@),
    {
        proof {
            use_type_invariant(self);
        }
        self.0.clone()
    }

    pub fn parse(value: &str) -> (r: Result<RepositoryId, RepositoryIdParseError>)
        ensures
            r is Ok <==> valid_repository_id(value@),
            r matches Ok(id) ==> id@ == value@,
    {
        let chars = chars_of(value);
        if is_repository_chars(&chars) {
            Ok(RepositoryId(value.to_owned()))
        } else {
            Err(RepositoryIdParseError)
        }
    }

    /// The repository ID `repository:<hex digest>` of a 32-byte digest.
    pub(crate) fn from_digest(digest: &Vec<u8>) -> (r: RepositoryId)
        requires
            digest@.len() == 32,
        ensures
            r@ == repository_prefix() + hex_bytes(digest@),
    {
        let mut text = String::new();
        push_str(&mut text, "repository:");
        push_hex_range(&mut text, digest, 0, 32);
        proof {
            reveal_strlit("repository:");
            assert(digest@.subrange(0, 32) =~= digest@);
            assert(text@ =~= repository_prefix() + hex_bytes(digest@));
            lemma_hex_bytes(digest@);
            let s = text@;
            let h = hex_bytes(digest@);
            assert(starts_with(s, repository_prefix())) by {
                assert(s.take(11) =~= repository_prefix());
            }
            assert forall|j: int| 11 <= j < 75 implies is_hex_char(#[trigger] s[j]) by {
                assert(s[j] == h[j - 11]);
            }
        }
        RepositoryId(text)
    }

    /// The same identifier, compared by text.
    pub fn same_as(&self, other: &RepositoryId) -> (r: bool)
        ensures
            r == (self@ == other@),
    {
        str_eq(self.0.as_str(), other.0.as_str())
    }
}

impl Clone for RepositoryId {
    fn clone(&self) -> (r: Self)
        ensures
            r@ == self@,
    {
        proof {
            use_type_invariant(self);
        }
        RepositoryId(self.0.clone())
    }
}

impl FromStr for RepositoryId {
    type Err = RepositoryIdParseError;

    fn from_str(value: &str) -> (r: Result<Self, Self::Err>)
        ensures
            r is Ok <==> valid_repository_id(value@),
            r matches Ok(id) ==> id@ == value@,
    {
        RepositoryId::parse(value)
    }
}

fn is_repository_chars(v: &Vec<char>) -> (r: bool)
    ensures
        r == valid_repository_id(v@),
{
    let prefix = literal("repository:");
    proof {
        reveal_strlit("repository:");
        assert(prefix@ =~= repository_prefix());
    }
    if v.len() != 75 {
        return false;
    }
    if !chars_start_with(v, &prefix) {
        return false;
    }
    let mut i: usize = 11;
    while i < 75
        invariant
            v@.len() == 75,
            11 <= i <= 75,
            forall|j: int| 11 <= j < i ==> is_hex_char(#[trigger] v@[j]),
        decreases 75 - i,
    {
        if !is_lowercase_hex(v[i]) {
            return false;
        }
        i = i + 1;
    }
    true
}

// ---------------------------------------------------------------------------
// DomainId
// ---------------------------------------------------------------------------

/// A registered, reusable domain name such as `rust/cli`.
#[derive(Debug, PartialEq, Eq, Hash)]
pub struct DomainId(String);

#[derive(Debug, Clone, Copy, PartialEq, Eq)]
pub struct DomainIdParseError;

impl View for DomainId {
    type V = Seq<char>;

    closed spec fn view(&self) -> Seq<char> {
        self.0@
    }
}

impl DomainId {
    #[verifier::type_invariant]
    spec fn well_formed(self) -> bool {
        valid_domain_id(self.0@)
    }

    pub fn as_str(&self) -> (r: &str)
        ensures
            r@ == self@,
            valid_domain_id(self@),
    {
        proof {
            use_type_invariant(self);
        }
        self.0.as_str()
    }

    /// The domain's text.
    pub fn to_string(&self) -> (r: String)
        ensures
            r@ == self@,
            valid_domain_id(self@),
    {
        proof {
            use_type_invariant(self);
        }
        self.0.clone()
    }

    pub fn parse(value: &str) -> (r: Result<DomainId, DomainIdParseError>)
        ensures
            r is Ok <==> valid_domain_id(value@),
            r matches Ok(id) ==> id@ == value@,
    {
        let chars = chars_of(value);
        if is_domain_chars(&chars) {
            Ok(DomainId(value.to_owned()))
        } else {
            Err(DomainIdParseError)
        }
    }

    /// The same domain, compared by text.
    pub fn same_as(&self, other: &DomainId) -> (r: bool)
        ensures
            r == (self@ == other@),
    {
        str_eq(self.0.as_str(), other.0.as_str())
    }
}

impl Clone for DomainId {
    fn clone(&self) -> (r: Self)
        ensures
            r@ == self@,
    {
        proof {
            use_type_invariant(self);
        }
        DomainId(self.0.clone())
    }
}

impl FromStr for DomainId {
    type Err = DomainIdParseError;

    fn from_str(value: &str) -> (r: Result<Self, Self::Err>)
        ensures
            r is Ok <==> valid_domain_id(value@),
            r matches Ok(id) ==> id@ == value@,
    {
        DomainId::parse(value)
    }
}

fn equals_literal(v: &Vec<char>, word: &str) -> (r: bool)
    ensures
        r == (v@ == word@),
{
    let w = literal(word);
    chars_eq(v, &w)
}

fn is_domain_chars(v: &Vec<char>) -> (r: bool)
    ensures
        r == valid_domain_id(v@),
{
    proof {
        reveal_strlit(".");
        reveal_strlit("..");
        reveal_strlit("global");
        reveal_strlit("universal");
        reveal_strlit("repository");
        reveal_strlit("repository:");
        reveal_strlit("scope:v1:");
        assert("."@ =~= seq!['.']);
        assert(".."@ =~= seq!['.', '.']);
        assert("global"@ =~= global_text());
        assert("universal"@ =~= universal_text());
        assert("repository"@ =~= repository_word());
        assert("repository:"@ =~= repository_prefix());
        assert("scope:v1:"@ =~= legacy_scope_prefix());
    }
    if v.len() == 0 {
        return false;
    }
    if equals_literal(v, ".") || equals_literal(v, "..") || equals_literal(v, "global")
        || equals_literal(v, "universal") || equals_literal(v, "repository") {
        return false;
    }
    let repository = literal("repository:");
    let legacy = literal("scope:v1:");
    if chars_start_with(v, &repository) || chars_start_with(v, &legacy) {
        return false;
    }
    domain_segments_ok(v)
}

fn domain_segments_ok(v: &Vec<char>) -> (r: bool)
    ensures
        r == valid_domain_segments(v@),
{
    let n = v.len();
    if n == 0 {
        return false;
    }
    if !is_lowercase_alphanumeric(v[0]) {
        return false;
    }
    let mut i: usize = 1;
    while i < n
        invariant
            n == v@.len(),
            1 <= i <= n,
            is_alnum_lower_char(v@[0]),
            forall|j: int| 0 <= j < i ==> (#[trigger] v@[j] == '/' || is_domain_char(v@[j])),
            forall|j: int|
                0 <= j < i - 1 && #[trigger] v@[j] == '/' ==> is_alnum_lower_char(v@[j + 1]),
        decreases n - i,
    {
        let c = v[i];
        if v[i - 1] == '/' {
            if !is_lowercase_alphanumeric(c) {
                proof {
                    let k = i as int - 1;
                    assert(v@[k] == '/');
                    assert(v@[k + 1] == c);
                }
                return false;
            }
        } else if !(c == '/' || is_lowercase_alphanumeric(c) || c == '.' || c == '_' || c
            == '-') {
            return false;
        }
        proof {
            assert forall|j: int| 0 <= j < i && #[trigger] v@[j] == '/' implies is_alnum_lower_char(
                v@[j + 1],
            ) by {
                if j == i - 1 {
                    assert(v@[j + 1] == c);
                }
            }
        }
        i = i + 1;
    }
    if v[n - 1] == '/' {
        proof {
            let k = n as int - 1;
            assert(v@[k] == '/');
        }
        return false;
    }
    proof {
        assert forall|j: int| 0 <= j < v@.len() && #[trigger] v@[j] == '/' implies j + 1
            < v@.len() && is_alnum_lower_char(v@[j + 1]) by {
            assert(j != n - 1);
        }
    }
    true
}

// ---------------------------------------------------------------------------
// PlacementId
// ---------------------------------------------------------------------------

/// Where a memory lives: the current repository, one domain, or universal
/// memory.
#[derive(Debug, PartialEq, Eq, Hash)]
pub enum PlacementId {
    Repository(RepositoryId),
    Domain(DomainId),
    Universal,
}

/// The abstract value of a placement.
pub enum PlacementView {
    Repository(Seq<char>),
    Domain(Seq<char>),
    Universal,
}

#[derive(Debug, Clone, Copy, PartialEq, Eq)]
pub struct PlacementIdParseError;

impl View for PlacementId {
    type V = PlacementView;

    open spec fn view(&self) -> PlacementView {
        match self {
            PlacementId::Repository(repository) => PlacementView::Repository(repository@),
            PlacementId::Domain(domain) => PlacementView::Domain(domain@),
            PlacementId::Universal => PlacementView::Universal,
        }
    }
}

pub open spec fn placement_valid(p: PlacementView) -> bool {
    match p {
        PlacementView::Repository(r) => valid_repository_id(r),
        PlacementView::Domain(d) => valid_domain_id(d),
        PlacementView::Universal => true,
    }
}

/// The text of a placement: the repository ID, `domain:<DOMAIN>`, or
/// `universal`.
pub open spec fn placement_text(p: PlacementView) -> Seq<char> {
    match p {
        PlacementView::Repository(r) => r,
        PlacementView::Domain(d) => domain_prefix() + d,
        PlacementView::Universal => universal_text(),
    }
}

/// The placement a text names, if any.
pub open spec fn placement_of(s: Seq<char>) -> Option<PlacementView> {
    if s == universal_text() {
        Some(PlacementView::Universal)
    } else if valid_repository_id(s) {
        Some(PlacementView::Repository(s))
    } else if starts_with(s, domain_prefix()) && valid_domain_id(s.skip(7)) {
        Some(PlacementView::Domain(s.skip(7)))
    } else {
        None
    }
}

impl PlacementId {
    pub fn parse(value: &str) -> (r: Result<PlacementId, PlacementIdParseError>)
        ensures
            match r {
                Ok(p) => placement_of(value@) == Some(p@),
                Err(_) => placement_of(value@) is None,
            },
    {
        let chars = chars_of(value);
        proof {
            reveal_strlit("universal");
            reveal_strlit("domain:");
            assert("universal"@ =~= universal_text());
            assert("domain:"@ =~= domain_prefix());
        }
        if equals_literal(&chars, "universal") {
            return Ok(PlacementId::Universal);
        }
        if let Ok(repository) = RepositoryId::parse(value) {
            return Ok(PlacementId::Repository(repository));
        }
        let prefix = literal("domain:");
        if !chars_start_with(&chars, &prefix) {
            return Err(PlacementIdParseError);
        }
        let rest = string_of(&chars, 7, chars.len());
        assert(rest@ == value@.skip(7));
        match DomainId::parse(rest.as_str()) {
            Ok(domain) => Ok(PlacementId::Domain(domain)),
            Err(_) => Err(PlacementIdParseError),
        }
    }

    /// The placement's text (`repository:…`, `domain:…` or `universal`).
    pub fn to_string(&self) -> (r: String)
        ensures
            r@ == placement_text(self@),
            placement_valid(self@),
    {
        match self {
            PlacementId::Repository(repository) => repository.to_string(),
            PlacementId::Domain(domain) => {
                let mut text = String::new();
                push_str(&mut text, "domain:");
                push_str(&mut text, domain.as_str());
                proof {
                    reveal_strlit("domain:");
                    assert("domain:"@ =~= domain_prefix());
                    assert(text@ =~= domain_prefix() + domain@);
                }
                text
            },
            PlacementId::Universal => {
                let text = "universal".to_owned();
                proof {
                    reveal_strlit("universal");
                    assert(text@ =~= universal_text());
                }
                text
            },
        }
    }

    /// Both placements name the same place.
    pub fn same_as(&self, other: &PlacementId) -> (r: bool)
        ensures
            r == (self@ == other@),
    {
        match (self, other) {
            (PlacementId::Repository(a), PlacementId::Repository(b)) => a.same_as(b),
            (PlacementId::Domain(a), PlacementId::Domain(b)) => a.same_as(b),
            (PlacementId::Universal, PlacementId::Universal) => true,
            _ => false,
        }
    }

}

impl Clone for PlacementId {
    fn clone(&self) -> (r: Self)
        ensures
            r@ == self@,
    {
        match self {
            PlacementId::Repository(repository) => PlacementId::Repository(repository.clone()),
            PlacementId::Domain(domain) => PlacementId::Domain(domain.clone()),
            PlacementId::Universal => PlacementId::Universal,
        }
    }
}

impl FromStr for PlacementId {
    type Err = PlacementIdParseError;

    fn from_str(value: &str) -> (r: Result<Self, Self::Err>)
        ensures
            match r {
                Ok(p) => placement_of(value@) == Some(p@),
                Err(_) => placement_of(value@) is None,
            },
    {
        PlacementId::parse(value)
    }
}

/// Reading the text of a placement gives the same placement back.
pub proof fn lemma_placement_round_trip(p: PlacementView)
    requires
        placement_valid(p),
    ensures
        placement_of(placement_text(p)) == Some(p),
{
    match p {
        PlacementView::Repository(r) => {
            assert(r.len() != universal_text().len());
        },
        PlacementView::Domain(d) => {
            let s = domain_prefix() + d;
            assert(s.skip(7) =~= d);
            assert(s.take(7) =~= domain_prefix());
            assert(s[0] == 'd');
            assert(!starts_with(s, repository_prefix())) by {
                if starts_with(s, repository_prefix()) {
                    assert(s.take(11)[0] == repository_prefix()[0]);
                }
            }
            if s == universal_text() {
                assert(s[0] == universal_text()[0]);
            }
        },
        PlacementView::Universal => {
            assert(universal_text().len() != 75);
        },
    }
}

/// A text names at most one placement, and that placement's text is the text.
pub proof fn lemma_placement_text_unique(s: Seq<char>)
    requires
        placement_of(s) is Some,
    ensures
        placement_valid(placement_of(s)->0),
        placement_text(placement_of(s)->0) == s,
{
    if s != universal_text() && !valid_repository_id(s) {
        assert(s =~= domain_prefix() + s.skip(7)) by {
            assert(s.take(7) =~= domain_prefix());
            assert forall|i: int| 0 <= i < s.len() implies s[i] == (domain_prefix() + s.skip(
                7,
            ))[i] by {
                if i < 7 {
                    assert(s.take(7)[i] == s[i]);
                }
            }
        }
    }
}

// ---------------------------------------------------------------------------
// OperationId
// ---------------------------------------------------------------------------

/// The idempotency key of a copy or move: a canonical lowercase UUID.
#[derive(Debug, PartialEq, Eq, Hash)]
pub struct OperationId(String);

#[derive(Debug, Clone, Copy, PartialEq, Eq)]
pub struct OperationIdParseError;

impl View for OperationId {
    type V = Seq<char>;

    closed spec fn view(&self) -> Seq<char> {
        self.0@
    }
}

/// The operation ID derived from a digest: its first sixteen bytes in
/// hexadecimal, grouped as a UUID.
pub open spec fn uuid_text(d: Seq<u8>) -> Seq<char> {
    hex_bytes(d.subrange(0, 4)) + seq!['-'] + hex_bytes(d.subrange(4, 6)) + seq!['-'] + hex_bytes(
        d.subrange(6, 8),
    ) + seq!['-'] + hex_bytes(d.subrange(8, 10)) + seq!['-'] + hex_bytes(d.subrange(10, 16))
}

/// The operation ID derived from a request fingerprint.
pub open spec fn operation_id_for(fingerprint: Seq<char>) -> Seq<char> {
    uuid_text(sha256(vstd::utf8::encode_utf8(fingerprint)))
}

pub proof fn lemma_uuid_text_canonical(d: Seq<u8>)
    requires
        d.len() >= 16,
    ensures
        is_canonical_uuid(uuid_text(d)),
{
    let a = d.subrange(0, 4);
    let b = d.subrange(4, 6);
    let c = d.subrange(6, 8);
    let e = d.subrange(8, 10);
    let f = d.subrange(10, 16);
    lemma_hex_bytes(a);
    lemma_hex_bytes(b);
    lemma_hex_bytes(c);
    lemma_hex_bytes(e);
    lemma_hex_bytes(f);
    let s = uuid_text(d);
    assert(s.len() == 36);
    assert forall|i: int| 0 <= i < 36 implies if i == 8 || i == 13 || i == 18 || i == 23 {
        #[trigger] s[i] == '-'
    } else {
        is_hex_char(s[i])
    } by {
        if i < 8 {
            assert(s[i] == hex_bytes(a)[i]);
        } else if i == 8 {
        } else if i < 13 {
            assert(s[i] == hex_bytes(b)[i - 9]);
        } else if i == 13 {
        } else if i < 18 {
            assert(s[i] == hex_bytes(c)[i - 14]);
        } else if i == 18 {
        } else if i < 23 {
            assert(s[i] == hex_bytes(e)[i - 19]);
        } else if i == 23 {
        } else {
            assert(s[i] == hex_bytes(f)[i - 24]);
        }
    }
}

impl OperationId {
    #[verifier::type_invariant]
    spec fn well_formed(self) -> bool {
        is_canonical_uuid(self.0@)
    }

    pub fn as_str(&self) -> (r: &str)
        ensures
            r@ == self@,
            is_canonical_uuid(self@),
    {
        proof {
            use_type_invariant(self);
        }
        self.0.as_str()
    }

    /// The identifier's text.
    pub fn to_string(&self) -> (r: String)
        ensures
            r@ == self@,
            is_canonical_uuid(self@),
    {
        proof {
            use_type_invariant(self);
        }
        self.0.clone()
    }

    pub fn parse(value: &str) -> (r: Result<OperationId, OperationIdParseError>)
        ensures
            r is Ok <==> is_canonical_uuid(value@),
            r matches Ok(id) ==> id@ == value@,
    {
        let chars = chars_of(value);
        if is_uuid_chars(&chars) {
            Ok(OperationId(value.to_owned()))
        } else {
            Err(OperationIdParseError)
        }
    }

    /// The operation ID that a request fingerprint derives: the first sixteen
    /// bytes of its SHA-256 digest, grouped as a UUID.
    pub fn from_request_fingerprint(fingerprint: &str) -> (r: OperationId)
        ensures
            r@ == operation_id_for(fingerprint@),
    {
        let digest = sha256_digest(fingerprint.as_bytes());
        let mut text = String::new();
        push_hex_range(&mut text, &digest, 0, 4);
        push_char(&mut text, '-');
        push_hex_range(&mut text, &digest, 4, 6);
        push_char(&mut text, '-');
        push_hex_range(&mut text, &digest, 6, 8);
        push_char(&mut text, '-');
        push_hex_range(&mut text, &digest, 8, 10);
        push_char(&mut text, '-');
        push_hex_range(&mut text, &digest, 10, 16);
        proof {
            assert(text@ =~= uuid_text(digest@));
            lemma_uuid_text_canonical(digest@);
        }
        OperationId(text)
    }

    /// The same identifier, compared by text.
    pub fn same_as(&self, other: &OperationId) -> (r: bool)
        ensures
            r == (self@ == other@),
    {
        str_eq(self.0.as_str(), other.0.as_str())
    }
}

impl Clone for OperationId {
    fn clone(&self) -> (r: Self)
        ensures
            r@ == self@,
    {
        proof {
            use_type_invariant(self);
        }
        OperationId(self.0.clone())
    }
}

impl FromStr for OperationId {
    type Err = OperationIdParseError;

    fn from_str(value: &str) -> (r: Result<Self, Self::Err>)
        ensures
            r is Ok <==> is_canonical_uuid(value@),
            r matches Ok(id) ==> id@ == value@,
    {
        OperationId::parse(value)
    }
}

fn is_uuid_chars(v: &Vec<char>) -> (r: bool)
    ensures
        r == is_canonical_uuid(v@),
{
    if v.len() != 36 {
        return false;
    }
    let mut i: usize = 0;
    while i < 36
        invariant
            v@.len() == 36,
            i <= 36,
            forall|j: int|
                0 <= j < i ==> if j == 8 || j == 13 || j == 18 || j == 23 {
                    #[trigger] v@[j] == '-'
                } else {
                    is_hex_char(v@[j])
                },
        decreases 36 - i,
    {
        let ok = if i == 8 || i == 13 || i == 18 || i == 23 {
            v[i] == '-'
        } else {
            is_lowercase_hex(v[i])
        };
        if !ok {
            return false;
        }
        i = i + 1;
    }
    true
}

// ---------------------------------------------------------------------------
// ScopeId
// ---------------------------------------------------------------------------

/// The legacy scope of a memory: `global`, or the repository ID.
#[derive(Debug, PartialEq, Eq, Hash)]
pub struct ScopeId(String);

#[derive(Debug, Clone, Copy, PartialEq, Eq)]
pub struct ScopeIdParseError;

impl View for ScopeId {
    type V = Seq<char>;

    closed spec fn view(&self) -> Seq<char> {
        self.0@
    }
}

impl ScopeId {
    #[verifier::type_invariant]
    spec fn well_formed(self) -> bool {
        valid_scope_id(self.0@)
    }

    pub fn global() -> (r: ScopeId)
        ensures
            r@ == global_text(),
    {
        let text = "global".to_owned();
        proof {
            reveal_strlit("global");
            assert(text@ =~= global_text());
        }
        ScopeId(text)
    }

    pub fn as_str(&self) -> (r: &str)
        ensures
            r@ == self@,
            valid_scope_id(self@),
    {
        proof {
            use_type_invariant(self);
        }
        self.0.as_str()
    }

    /// The scope's text.
    pub fn to_string(&self) -> (r: String)
        ensures
            r@ == self@,
    {
        self.0.clone()
    }

    pub fn is_global(&self) -> (r: bool)
        ensures
            r == (self@ == global_text()),
    {
        let chars = chars_of(self.0.as_str());
        proof {
            reveal_strlit("global");
            assert("global"@ =~= global_text());
        }
        equals_literal(&chars, "global")
    }

    pub fn from_repository(repository: RepositoryId) -> (r: ScopeId)
        ensures
            r@ == repository@,
    {
        proof {
            use_type_invariant(&repository);
        }
        ScopeId(repository.0)
    }

    pub fn parse(value: &str) -> (r: Result<ScopeId, ScopeIdParseError>)
        ensures
            r is Ok <==> valid_scope_id(value@),
            r matches Ok(id) ==> id@ == value@,
    {
        let chars = chars_of(value);
        proof {
            reveal_strlit("global");
            assert("global"@ =~= global_text());
        }
        if equals_literal(&chars, "global") {
            return Ok(ScopeId::global());
        }
        match RepositoryId::parse(value) {
            Ok(repository) => Ok(ScopeId::from_repository(repository)),
            Err(_) => Err(ScopeIdParseError),
        }
    }
}

impl Clone for ScopeId {
    fn clone(&self) -> (r: Self)
        ensures
            r@ == self@,
    {
        proof {
            use_type_invariant(self);
        }
        ScopeId(self.0.clone())
    }
}

impl FromStr for ScopeId {
    type Err = ScopeIdParseError;

    fn from_str(value: &str) -> (r: Result<Self, Self::Err>)
        ensures
            r is Ok <==> valid_scope_id(value@),
            r matches Ok(id) ==> id@ == value@,
    {
        ScopeId::parse(value)
    }
}

// ---------------------------------------------------------------------------
// Resolution
// ---------------------------------------------------------------------------

/// How the current repository identity was found.
#[derive(Debug, Clone, Copy, PartialEq, Eq)]
pub enum ResolutionSource {
    GitConfig,
    Remote,
    GitCommonDir,
    Directory,
}

impl ResolutionSource {
    pub fn label(self) -> (r: &'static str)
        ensures
            r@ == match self {
                ResolutionSource::GitConfig => "git-config"@,
                ResolutionSource::Remote => "remote"@,
                ResolutionSource::GitCommonDir => "git-common-dir"@,
                ResolutionSource::Directory => "directory"@,
            },
    {
        match self {
            ResolutionSource::GitConfig => "git-config",
            ResolutionSource::Remote => "remote",
            ResolutionSource::GitCommonDir => "git-common-dir",
            ResolutionSource::Directory => "directory",
        }
    }
}

/// The resolved current repository: its scope, its ID and how it was found.
#[derive(Debug, PartialEq, Eq)]
pub struct ResolvedScope {
    scope: ScopeId,
    repository: RepositoryId,
    source: ResolutionSource,
}

impl ResolvedScope {
    pub closed spec fn spec_scope(&self) -> Seq<char> {
        self.scope@
    }

    pub closed spec fn spec_repository(&self) -> Seq<char> {
        self.repository@
    }

    pub closed spec fn spec_source(&self) -> ResolutionSource {
        self.source
    }

    pub fn scope(&self) -> (r: &ScopeId)
        ensures
            r@ == self.spec_scope(),
    {
        &self.scope
    }

    pub fn repository(&self) -> (r: &RepositoryId)
        ensures
            r@ == self.spec_repository(),
    {
        &self.repository
    }

    pub fn source(&self) -> (r: ResolutionSource)
        ensures
            r == self.spec_source(),
    {
        self.source
    }
}

impl Clone for ResolvedScope {
    fn clone(&self) -> (r: Self)
        ensures
            r.spec_scope() == self.spec_scope(),
            r.spec_repository() == self.spec_repository(),
            r.spec_source() == self.spec_source(),
    {
        ResolvedScope {
            scope: self.scope.clone(),
            repository: self.repository.clone(),
            source: self.source,
        }
    }
}

/// The resolved scope of a repository: its scope is the repository ID.
pub fn resolved_repository(repository: RepositoryId, source: ResolutionSource) -> (r:
    ResolvedScope)
    ensures
        r.spec_repository() == repository@,
        r.spec_scope() == repository@,
        r.spec_source() == source,
{
    ResolvedScope { scope: ScopeId::from_repository(repository.clone()), repository, source }
}

} // verus!
