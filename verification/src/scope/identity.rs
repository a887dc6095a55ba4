//! Repository identity: derived hashes, local configuration and remotes.
use vstd::prelude::*;

use crate::deps::{opt_view, parse_url, sha256, sha256_digest, url_parse};
use crate::scope::{
    legacy_scope_prefix, repository_prefix, resolved_repository, valid_repository_id, RepositoryId,
    ResolutionSource, ResolvedScope,
};
use crate::text::{
    ascii_lower, ascii_lower_char, chars_of, chars_start_with, decimal, ends_with, hex_bytes,
    is_hex_char, is_lowercase_hex, is_white_space, is_whitespace, literal, push_char,
    push_decimal, starts_with, string_of,
};

verus! {

// ---------------------------------------------------------------------------
// Derived repository IDs
// ---------------------------------------------------------------------------

/// `memocap\0repository\0v1\0`, the domain separator of derived repository IDs.
pub open spec fn hash_domain() -> Seq<u8> {
    seq![109u8, 101, 109, 111, 99, 97, 112, 0, 114, 101, 112, 111, 115, 105, 116, 111, 114, 121, 0, 118, 49, 0]
}

/// The bytes hashed for a repository identity of the given kind.
pub open spec fn identity_input(kind: Seq<char>, identity: Seq<u8>) -> Seq<u8> {
    hash_domain() + vstd::utf8::encode_utf8(kind) + seq![0u8] + identity
}

/// The repository ID derived from an identity of the given kind.
pub open spec fn derived_repository(kind: Seq<char>, identity: Seq<u8>) -> Seq<char> {
    repository_prefix() + hex_bytes(sha256(identity_input(kind, identity)))
}

fn hash_domain_bytes() -> (r: Vec<u8>)
    ensures
        r@ == hash_domain(),
{
    let r = vec![109u8, 101, 109, 111, 99, 97, 112, 0, 114, 101, 112, 111, 115, 105, 116, 111, 114, 121, 0, 118, 49, 0];
    assert(r@ =~= hash_domain());
    r
}

/// The repository ID of an identity given as raw bytes (a path on disk).
pub fn repository_from_bytes(kind: &str, identity: &[u8]) -> (r: RepositoryId)
    ensures
        r@ == derived_repository(kind@, identity@),
{
    let mut data = hash_domain_bytes();
    let kind_bytes = kind.as_bytes_vec();
    let mut i: usize = 0;
    while i < kind_bytes.len()
        invariant
            i <= kind_bytes@.len(),
            data@ == hash_domain() + kind_bytes@.take(i as int),
        decreases kind_bytes@.len() - i,
    {
        data.push(kind_bytes[i]);
        assert(data@ =~= hash_domain() + kind_bytes@.take(i as int + 1));
        i = i + 1;
    }
    assert(kind_bytes@.take(kind_bytes@.len() as int) =~= kind_bytes@);
    data.push(0u8);
    let mut j: usize = 0;
    while j < identity.len()
        invariant
            j <= identity@.len(),
            data@ == hash_domain() + kind_bytes@ + seq![0u8] + identity@.take(j as int),
        decreases identity@.len() - j,
    {
        data.push(identity[j]);
        assert(data@ =~= hash_domain() + kind_bytes@ + seq![0u8] + identity@.take(j as int + 1));
        j = j + 1;
    }
    assert(identity@.take(identity@.len() as int) =~= identity@);
    assert(data@ =~= identity_input(kind@, identity@));
    let digest = sha256_digest(data.as_slice());
    RepositoryId::from_digest(&digest)
}

/// The repository ID of an identity given as text (a canonical remote).
pub fn repository_from_identity(kind: &str, identity: &str) -> (r: RepositoryId)
    ensures
        r@ == derived_repository(kind@, vstd::utf8::encode_utf8(identity@)),
{
    repository_from_bytes(kind, identity.as_bytes())
}

/// Every derived repository ID is a valid repository ID.
pub proof fn lemma_derived_repository_valid(kind: Seq<char>, identity: Seq<u8>)
    requires
        sha256(identity_input(kind, identity)).len() == 32,
    ensures
        valid_repository_id(derived_repository(kind, identity)),
{
    let h = hex_bytes(sha256(identity_input(kind, identity)));
    crate::text::lemma_hex_bytes(sha256(identity_input(kind, identity)));
    let s = derived_repository(kind, identity);
    assert(s.take(11) =~= repository_prefix());
    assert forall|j: int| 11 <= j < 75 implies is_hex_char(#[trigger] s[j]) by {
        assert(s[j] == h[j - 11]);
    }
}

// ---------------------------------------------------------------------------
// Local configuration
// ---------------------------------------------------------------------------

/// `s` without one terminal `\r\n` or `\n`.
pub open spec fn without_terminal_newline(s: Seq<char>) -> Seq<char> {
    if ends_with(s, seq!['\r', '\n']) {
        s.drop_last().drop_last()
    } else if ends_with(s, seq!['\n']) {
        s.drop_last()
    } else {
        s
    }
}

pub fn remove_terminal_newline(value: &str) -> (r: &str)
    ensures
        r@ == without_terminal_newline(value@),
{
    let v = chars_of(value);
    let n = v.len();
    if n >= 2 && v[n - 2] == '\r' && v[n - 1] == '\n' {
        proof {
            assert(value@.skip(n - 2) =~= seq!['\r', '\n']);
        }
        let r = value.substring_char(0, n - 2);
        assert(r@ =~= without_terminal_newline(value@));
        return r;
    }
    if n >= 1 && v[n - 1] == '\n' {
        proof {
            assert(value@.skip(n - 1) =~= seq!['\n']);
            if ends_with(value@, seq!['\r', '\n']) {
                assert(value@.skip(n - 2)[0] == value@[n - 2]);
            }
        }
        let r = value.substring_char(0, n - 1);
        assert(r@ =~= without_terminal_newline(value@));
        return r;
    }
    proof {
        if ends_with(value@, seq!['\r', '\n']) {
            assert(value@.skip(n - 2)[1] == value@[n - 1]);
        }
        if ends_with(value@, seq!['\n']) {
            assert(value@.skip(n - 1)[0] == value@[n - 1]);
        }
    }
    value
}

/// `scope:v1:` followed by 64 lowercase hexadecimal digits.
pub open spec fn is_legacy_scope(s: Seq<char>) -> bool {
    &&& s.len() == 73
    &&& starts_with(s, legacy_scope_prefix())
    &&& forall|i: int| 9 <= i < 73 ==> is_hex_char(#[trigger] s[i])
}

pub fn is_legacy_scope_id(value: &str) -> (r: bool)
    ensures
        r == is_legacy_scope(value@),
{
    let v = chars_of(value);
    let prefix = literal("scope:v1:");
    proof {
        reveal_strlit("scope:v1:");
        assert(prefix@ =~= legacy_scope_prefix());
    }
    if v.len() != 73 {
        return false;
    }
    if !chars_start_with(&v, &prefix) {
        assert(!starts_with(value@, legacy_scope_prefix()));
        return false;
    }
    let mut i: usize = 9;
    while i < 73
        invariant
            v@ == value@,
            v@.len() == 73,
            9 <= i <= 73,
            forall|j: int| 9 <= j < i ==> is_hex_char(#[trigger] v@[j]),
        decreases 73 - i,
    {
        if !is_lowercase_hex(v[i]) {
            return false;
        }
        i = i + 1;
    }
    true
}

/// The failures of identity resolution that its logic decides.
#[derive(Debug, Clone, Copy, PartialEq, Eq)]
pub enum IdentityError {
    InvalidRepositoryConfiguration,
    ConfigurationUnreadable,
    RemotesUnreadable,
}

/// The text of each identity error.
pub open spec fn identity_error_text(e: IdentityError) -> Seq<char> {
    match e {
        IdentityError::InvalidRepositoryConfiguration => "local repository ID configuration is invalid"@,
        IdentityError::ConfigurationUnreadable => "local repository configuration could not be read"@,
        IdentityError::RemotesUnreadable => "repository remotes could not be read"@,
    }
}

impl IdentityError {
    pub fn message(self) -> (r: &'static str)
        ensures
            r@ == identity_error_text(self),
    {
        match self {
            IdentityError::InvalidRepositoryConfiguration => {
                "local repository ID configuration is invalid"
            },
            IdentityError::ConfigurationUnreadable => {
                "local repository configuration could not be read"
            },
            IdentityError::RemotesUnreadable => "repository remotes could not be read",
        }
    }
}

/// One `git config --local --get` result.
#[derive(Debug, PartialEq, Eq)]
pub enum ConfigValue {
    GitUnavailable,
    Unset,
    Value(String),
}

/// What the local configuration says of the repository ID.
#[derive(Debug)]
pub enum ConfigRepository {
    GitUnavailable,
    Unset,
    LegacyScope,
    Value(RepositoryId),
    ValueWithLegacyScope(RepositoryId),
}

/// The abstract outcome of reading the local configuration.
pub enum ConfigOutcome {
    GitUnavailable,
    Unset,
    LegacyScope,
    Value(Seq<char>),
    ValueWithLegacyScope(Seq<char>),
    Invalid,
}

impl View for ConfigRepository {
    type V = ConfigOutcome;

    open spec fn view(&self) -> ConfigOutcome {
        match self {
            ConfigRepository::GitUnavailable => ConfigOutcome::GitUnavailable,
            ConfigRepository::Unset => ConfigOutcome::Unset,
            ConfigRepository::LegacyScope => ConfigOutcome::LegacyScope,
            ConfigRepository::Value(id) => ConfigOutcome::Value(id@),
            ConfigRepository::ValueWithLegacyScope(id) => ConfigOutcome::ValueWithLegacyScope(id@),
        }
    }
}

/// A `git config --get` exit: 0 gives the value without its terminal newline,
/// 1 means unset, anything else is a failure.
pub open spec fn config_value_of(code: Option<i32>, text: Seq<char>) -> Option<Option<Seq<char>>> {
    match code {
        Some(0) => Some(Some(without_terminal_newline(text))),
        Some(1) => Some(None),
        _ => None,
    }
}

pub fn config_value(code: Option<i32>, text: &str) -> (r: Result<ConfigValue, IdentityError>)
    ensures
        match config_value_of(code, text@) {
            Some(Some(v)) => r matches Ok(ConfigValue::Value(s)) && s@ == v,
            Some(None) => r matches Ok(ConfigValue::Unset),
            None => r matches Err(IdentityError::ConfigurationUnreadable),
        },
{
    match code {
        Some(0) => Ok(ConfigValue::Value(remove_terminal_newline(text).to_owned())),
        Some(1) => Ok(ConfigValue::Unset),
        _ => Err(IdentityError::ConfigurationUnreadable),
    }
}

/// How the stored repository ID and legacy scope ID combine.
pub open spec fn config_outcome(repository: ConfigValue, scope: ConfigValue) -> ConfigOutcome {
    match repository {
        ConfigValue::GitUnavailable => ConfigOutcome::GitUnavailable,
        ConfigValue::Value(v) if !valid_repository_id(v@) => ConfigOutcome::Invalid,
        _ => match scope {
            ConfigValue::GitUnavailable => ConfigOutcome::GitUnavailable,
            ConfigValue::Value(s) if is_legacy_scope(s@) => match repository {
                ConfigValue::Value(v) => ConfigOutcome::ValueWithLegacyScope(v@),
                _ => ConfigOutcome::LegacyScope,
            },
            _ => match repository {
                ConfigValue::Value(v) => ConfigOutcome::Value(v@),
                _ => ConfigOutcome::Unset,
            },
        },
    }
}

/// Combines the `memocap.repository-id` and `memocap.scope-id` values.
pub fn classify_config(repository: ConfigValue, scope: ConfigValue) -> (r: Result<
    ConfigRepository,
    IdentityError,
>)
    ensures
        config_outcome(repository, scope) is Invalid ==> r matches Err(
            IdentityError::InvalidRepositoryConfiguration,
        ),
        !(config_outcome(repository, scope) is Invalid) ==> (r matches Ok(c) && c@ == config_outcome(
            repository,
            scope,
        )),
{
    let ghost outcome = config_outcome(repository, scope);
    let stored = match repository {
        ConfigValue::GitUnavailable => return Ok(ConfigRepository::GitUnavailable),
        ConfigValue::Value(value) => match RepositoryId::parse(value.as_str()) {
            Ok(id) => Some(id),
            Err(_) => return Err(IdentityError::InvalidRepositoryConfiguration),
        },
        ConfigValue::Unset => None,
    };
    match scope {
        ConfigValue::GitUnavailable => Ok(ConfigRepository::GitUnavailable),
        ConfigValue::Value(value) if is_legacy_scope_id(value.as_str()) => match stored {
            Some(id) => Ok(ConfigRepository::ValueWithLegacyScope(id)),
            None => Ok(ConfigRepository::LegacyScope),
        },
        _ => match stored {
            Some(id) => Ok(ConfigRepository::Value(id)),
            None => Ok(ConfigRepository::Unset),
        },
    }
}

// ---------------------------------------------------------------------------
// Remotes
// ---------------------------------------------------------------------------

/// The non-empty lines of a text (`str::lines` keeps a `\r` only where no
/// `\n` follows it), read from left to right.
pub open spec fn nonempty_lines_from(s: Seq<char>, current: Seq<char>, done: Seq<Seq<char>>) -> Seq<
    Seq<char>,
>
    decreases s.len(),
{
    if s.len() == 0 {
        if current.len() > 0 {
            done.push(current)
        } else {
            done
        }
    } else if s[0] == '\n' {
        let line = if current.len() > 0 && current.last() == '\r' {
            current.drop_last()
        } else {
            current
        };
        nonempty_lines_from(
            s.drop_first(),
            seq![],
            if line.len() > 0 {
                done.push(line)
            } else {
                done
            },
        )
    } else {
        nonempty_lines_from(s.drop_first(), current.push(s[0]), done)
    }
}

pub open spec fn nonempty_lines(s: Seq<char>) -> Seq<Seq<char>> {
    nonempty_lines_from(s, seq![], seq![])
}

/// The index of the first white-space character, or the length.
pub open spec fn first_white_space(s: Seq<char>) -> int
    decreases s.len(),
{
    if s.len() == 0 {
        0
    } else if is_white_space(s[0]) {
        0
    } else {
        1 + first_white_space(s.drop_first())
    }
}

pub proof fn lemma_first_white_space(s: Seq<char>)
    ensures
        0 <= first_white_space(s) <= s.len(),
        first_white_space(s) < s.len() ==> is_white_space(s[first_white_space(s)]),
        forall|i: int| 0 <= i < first_white_space(s) ==> !is_white_space(#[trigger] s[i]),
    decreases s.len(),
{
    if s.len() > 0 && !is_white_space(s[0]) {
        lemma_first_white_space(s.drop_first());
        assert forall|i: int| 0 <= i < first_white_space(s) implies !is_white_space(
            #[trigger] s[i],
        ) by {
            if i > 0 {
                assert(s[i] == s.drop_first()[i - 1]);
            }
        }
    }
}

/// The URL of the single configured remote in `git config --get-regexp`
/// output: the text after the first white space of the only non-empty line.
pub open spec fn single_remote_url(output: Seq<char>) -> Option<Seq<char>> {
    let lines = nonempty_lines(output);
    if lines.len() != 1 {
        None
    } else {
        let line = lines[0];
        let k = first_white_space(line);
        if k < line.len() {
            Some(line.skip(k + 1))
        } else {
            None
        }
    }
}

fn nonempty_line_values(text: &str) -> (r: Vec<String>)
    ensures
        r@.len() == nonempty_lines(text@).len(),
        forall|i: int| 0 <= i < r@.len() ==> #[trigger] r@[i]@ == nonempty_lines(text@)[i],
{
    let v = chars_of(text);
    let n = v.len();
    let mut lines: Vec<String> = Vec::new();
    let ghost mut done: Seq<Seq<char>> = seq![];
    let mut start: usize = 0;
    let mut i: usize = 0;
    assert(v@.skip(0) =~= v@);
    assert(v@.subrange(0, 0) =~= seq![]);
    while i < n
        invariant
            n == v@.len(),
            v@ == text@,
            start <= i <= n,
            lines@.len() == done.len(),
            forall|k: int| 0 <= k < lines@.len() ==> #[trigger] lines@[k]@ == done[k],
            nonempty_lines(text@) == nonempty_lines_from(
                v@.skip(i as int),
                v@.subrange(start as int, i as int),
                done,
            ),
        decreases n - i,
    {
        assert(v@.skip(i as int).drop_first() =~= v@.skip(i as int + 1));
        assert(v@.skip(i as int)[0] == v@[i as int]);
        if v[i] == '\n' {
            let mut end = i;
            if end > start && v[end - 1] == '\r' {
                end = end - 1;
            }
            proof {
                let cur = v@.subrange(start as int, i as int);
                if cur.len() > 0 && cur.last() == '\r' {
                    assert(cur.drop_last() =~= v@.subrange(start as int, end as int));
                } else {
                    assert(cur =~= v@.subrange(start as int, end as int));
                }
            }
            if end > start {
                let line = string_of(&v, start, end);
                lines.push(line);
                proof {
                    done = done.push(v@.subrange(start as int, end as int));
                }
            }
            start = i + 1;
            assert(v@.subrange(start as int, i as int + 1) =~= seq![]);
        } else {
            assert(v@.subrange(start as int, i as int).push(v@[i as int]) =~= v@.subrange(
                start as int,
                i as int + 1,
            ));
        }
        i = i + 1;
    }
    assert(v@.skip(n as int) =~= seq![]);
    if n > start {
        let line = string_of(&v, start, n);
        lines.push(line);
        proof {
            done = done.push(v@.subrange(start as int, n as int));
        }
    }
    lines
}

/// The single remote URL in `git config --get-regexp` output, given the exit
/// code and whether git reported success.
pub fn remote_url(code: Option<i32>, success: bool, output: &str) -> (r: Result<
    Option<String>,
    IdentityError,
>)
    ensures
        code == Some(1i32) ==> r matches Ok(None),
        code != Some(1i32) && !success ==> r matches Err(IdentityError::RemotesUnreadable),
        code != Some(1i32) && success ==> (r matches Ok(u) && opt_view(u) == single_remote_url(
            output@,
        )),
{
    if code == Some(1i32) {
        return Ok(None);
    }
    if !success {
        return Err(IdentityError::RemotesUnreadable);
    }
    let lines = nonempty_line_values(output);
    if lines.len() != 1 {
        return Ok(None);
    }
    let line = chars_of(lines[0].as_str());
    let ghost l = line@;
    proof {
        lemma_first_white_space(l);
    }
    let mut k: usize = 0;
    while k < line.len()
        invariant
            line@ == l,
            code != Some(1i32),
            success,
            nonempty_lines(output@).len() == 1,
            l == nonempty_lines(output@)[0],
            k <= l.len(),
            forall|j: int| 0 <= j < k ==> !is_white_space(#[trigger] l[j]),
        decreases l.len() - k,
    {
        if is_whitespace(line[k]) {
            proof {
                lemma_first_white_space(l);
                assert(is_white_space(l[k as int]));
                assert(k as int == first_white_space(l)) by {
                    if (k as int) < first_white_space(l) {
                    } else if (k as int) > first_white_space(l) {
                        let f = first_white_space(l);
                        assert(0 <= f < k);
                        assert(!is_white_space(l[f]));
                    }
                }
            }
            return Ok(Some(string_of(&line, k + 1, line.len())));
        }
        k = k + 1;
    }
    proof {
        assert(first_white_space(l) == l.len()) by {
            if first_white_space(l) < l.len() {
                assert(!is_white_space(l[first_white_space(l)]));
            }
        }
    }
    Ok(None)
}

// ---------------------------------------------------------------------------
// Canonical remote identities
// ---------------------------------------------------------------------------

pub open spec fn trim_start_char(s: Seq<char>, c: char) -> Seq<char>
    decreases s.len(),
{
    if s.len() > 0 && s[0] == c {
        trim_start_char(s.drop_first(), c)
    } else {
        s
    }
}

pub open spec fn trim_end_char(s: Seq<char>, c: char) -> Seq<char>
    decreases s.len(),
{
    if s.len() > 0 && s.last() == c {
        trim_end_char(s.drop_last(), c)
    } else {
        s
    }
}

pub open spec fn dot_git() -> Seq<char> {
    seq!['.', 'g', 'i', 't']
}

/// The repository path of a remote: slashes trimmed from both ends, then one
/// `.git` suffix removed.
pub open spec fn remote_path(path: Seq<char>) -> Seq<char> {
    let t = trim_end_char(trim_start_char(path, '/'), '/');
    if ends_with(t, dot_git()) {
        t.take(t.len() - 4)
    } else {
        t
    }
}

pub open spec fn part_start(p: Seq<char>, i: int) -> bool {
    i == 0 || p[i - 1] == '/'
}

/// Every `/`-separated part of the path is non-empty and neither `.` nor `..`.
pub open spec fn path_parts_ok(p: Seq<char>) -> bool {
    &&& p.len() > 0
    &&& p.last() != '/'
    &&& forall|i: int|
        0 <= i < p.len() && #[trigger] part_start(p, i) ==> {
            &&& p[i] != '/'
            &&& !(p[i] == '.' && (i + 1 == p.len() || p[i + 1] == '/'))
            &&& !(p[i] == '.' && i + 1 < p.len() && p[i + 1] == '.' && (i + 2 == p.len() || p[i
                + 2] == '/'))
        }
}

pub open spec fn port_text(port: Option<u16>) -> Seq<char> {
    match port {
        Some(p) => seq![':'] + decimal(p as nat),
        None => seq![],
    }
}

/// `host[:port]/path`, with the host in ASCII lowercase.
pub open spec fn remote_parts_text(host: Seq<char>, path: Seq<char>, port: Option<u16>) -> Option<
    Seq<char>,
> {
    let p = remote_path(path);
    if path_parts_ok(p) {
        Some(ascii_lower(host) + port_text(port) + seq!['/'] + p)
    } else {
        None
    }
}

fn trimmed_bounds(v: &Vec<char>) -> (r: (usize, usize))
    ensures
        r.0 <= r.1 <= v@.len(),
        v@.subrange(r.0 as int, r.1 as int) == trim_end_char(trim_start_char(v@, '/'), '/'),
{
    let n = v.len();
    let mut a: usize = 0;
    assert(v@.skip(0) =~= v@);
    while a < n && v[a] == '/'
        invariant
            n == v@.len(),
            a <= n,
            trim_start_char(v@, '/') == trim_start_char(v@.skip(a as int), '/'),
        decreases n - a,
    {
        assert(v@.skip(a as int).drop_first() =~= v@.skip(a as int + 1));
        a = a + 1;
    }
    assert(trim_start_char(v@.skip(a as int), '/') == v@.skip(a as int));
    let mut b: usize = n;
    while b > a && v[b - 1] == '/'
        invariant
            n == v@.len(),
            a <= b <= n,
            trim_end_char(v@.skip(a as int), '/') == trim_end_char(
                v@.subrange(a as int, b as int),
                '/',
            ),
        decreases b,
    {
        assert(v@.subrange(a as int, b as int).drop_last() =~= v@.subrange(
            a as int,
            b as int - 1,
        ));
        b = b - 1;
    }
    assert(v@.skip(a as int) =~= v@.subrange(a as int, n as int));
    (a, b)
}

fn path_parts_valid(v: &Vec<char>, a: usize, b: usize) -> (r: bool)
    requires
        a <= b <= v@.len(),
    ensures
        r == path_parts_ok(v@.subrange(a as int, b as int)),
{
    let ghost p = v@.subrange(a as int, b as int);
    if b == a {
        return false;
    }
    if v[b - 1] == '/' {
        assert(p.last() == '/');
        return false;
    }
    let mut i = a;
    while i < b
        invariant
            a <= i <= b <= v@.len(),
            a < b,
            p == v@.subrange(a as int, b as int),
            p.last() != '/',
            forall|j: int|
                0 <= j < i - a && #[trigger] part_start(p, j) ==> {
                    &&& p[j] != '/'
                    &&& !(p[j] == '.' && (j + 1 == p.len() || p[j + 1] == '/'))
                    &&& !(p[j] == '.' && j + 1 < p.len() && p[j + 1] == '.' && (j + 2 == p.len()
                        || p[j + 2] == '/'))
                },
        decreases b - i,
    {
        let start = i == a || v[i - 1] == '/';
        let ghost j = i - a;
        proof {
            assert(p[j] == v@[i as int]);
            if j > 0 {
                assert(p[j - 1] == v@[i - 1]);
            }
            if i + 1 < b {
                assert(p[j + 1] == v@[i + 1]);
            }
            if i + 2 < b {
                assert(p[j + 2] == v@[i + 2]);
            }
        }
        assert(start == part_start(p, j));
        if start {
            if v[i] == '/' {
                return false;
            }
            if v[i] == '.' && (i + 1 == b || v[i + 1] == '/') {
                return false;
            }
            if v[i] == '.' && i + 1 < b && v[i + 1] == '.' && (i + 2 == b || v[i + 2] == '/') {
                return false;
            }
        }
        i = i + 1;
    }
    true
}

/// Joins a remote host, path and port into the canonical identity, or gives
/// `None` where the path is empty or has an empty, `.` or `..` part.
pub fn canonicalize_remote_parts(host: &str, path: &str, port: Option<u16>) -> (r: Option<String>)
    ensures
        opt_view(r) == remote_parts_text(host@, path@, port),
{
    let v = chars_of(path);
    let (a, mut b) = trimmed_bounds(&v);
    let ghost t = v@.subrange(a as int, b as int);
    let suffix = literal(".git");
    proof {
        reveal_strlit(".git");
        assert(suffix@ =~= dot_git());
    }
    if b - a >= 4 && v[b - 4] == '.' && v[b - 3] == 'g' && v[b - 2] == 'i' && v[b - 1] == 't' {
        assert(t.skip(t.len() - 4) =~= dot_git());
        assert(t.take(t.len() - 4) =~= v@.subrange(a as int, b - 4));
        b = b - 4;
    } else {
        proof {
            if ends_with(t, dot_git()) {
                let k = t.len() - 4;
                assert(t.skip(k)[0] == t[k]);
                assert(t.skip(k)[1] == t[k + 1]);
                assert(t.skip(k)[2] == t[k + 2]);
                assert(t.skip(k)[3] == t[k + 3]);
            }
        }
    }
    assert(v@.subrange(a as int, b as int) == remote_path(path@));
    if !path_parts_valid(&v, a, b) {
        return None;
    }
    let h = chars_of(host);
    let mut out = String::new();
    let mut i: usize = 0;
    while i < h.len()
        invariant
            i <= h@.len(),
            h@ == host@,
            out@ == ascii_lower(host@).take(i as int),
        decreases h@.len() - i,
    {
        let c = h[i];
        let lower = if 'A' <= c && c <= 'Z' {
            ((c as u32) + 32) as u8 as char
        } else {
            c
        };
        assert(lower == ascii_lower_char(c));
        push_char(&mut out, lower);
        assert(out@ =~= ascii_lower(host@).take(i as int + 1));
        i = i + 1;
    }
    assert(ascii_lower(host@).take(h@.len() as int) =~= ascii_lower(host@));
    if let Some(p) = port {
        push_char(&mut out, ':');
        push_decimal(&mut out, p as u64);
    }
    push_char(&mut out, '/');
    let mut j = a;
    while j < b
        invariant
            a <= j <= b <= v@.len(),
            out@ == ascii_lower(host@) + port_text(port) + seq!['/'] + v@.subrange(
                a as int,
                j as int,
            ),
        decreases b - j,
    {
        push_char(&mut out, v[j]);
        assert(out@ =~= ascii_lower(host@) + port_text(port) + seq!['/'] + v@.subrange(
            a as int,
            j as int + 1,
        ));
        j = j + 1;
    }
    Some(out)
}

pub open spec fn has_substring(s: Seq<char>, t: Seq<char>) -> bool {
    exists|i: int| 0 <= i && i + t.len() <= s.len() && #[trigger] s.subrange(i, i + t.len()) == t
}

/// The index of the first `c` in `s`, or the length.
pub open spec fn first_index(s: Seq<char>, c: char) -> int
    decreases s.len(),
{
    if s.len() == 0 {
        0
    } else if s[0] == c {
        0
    } else {
        1 + first_index(s.drop_first(), c)
    }
}

/// The index of the last `c` in `s`, or -1.
pub open spec fn last_index(s: Seq<char>, c: char) -> int
    decreases s.len(),
{
    if s.len() == 0 {
        -1
    } else if s.last() == c {
        s.len() - 1
    } else {
        last_index(s.drop_last(), c)
    }
}

/// An scp-style remote `[user@]host:path`.
pub open spec fn scp_remote_text(remote: Seq<char>) -> Option<Seq<char>> {
    let colon = first_index(remote, ':');
    if has_substring(remote, seq![':', '/', '/']) || colon >= remote.len() {
        None
    } else {
        let host_part = remote.take(colon);
        let host = host_part.skip(last_index(host_part, '@') + 1);
        if host.len() == 0 || crate::text::has_char(host, '/') || crate::text::has_char(host, '\\') {
            None
        } else {
            remote_parts_text(host, remote.skip(colon + 1), None)
        }
    }
}

pub proof fn lemma_first_index(s: Seq<char>, c: char)
    ensures
        0 <= first_index(s, c) <= s.len(),
        first_index(s, c) < s.len() ==> s[first_index(s, c)] == c,
        forall|i: int| 0 <= i < first_index(s, c) ==> #[trigger] s[i] != c,
    decreases s.len(),
{
    if s.len() > 0 && s[0] != c {
        lemma_first_index(s.drop_first(), c);
        assert forall|i: int| 0 <= i < first_index(s, c) implies #[trigger] s[i] != c by {
            if i > 0 {
                assert(s[i] == s.drop_first()[i - 1]);
            }
        }
    }
}

pub proof fn lemma_last_index(s: Seq<char>, c: char)
    ensures
        -1 <= last_index(s, c) < s.len(),
        last_index(s, c) >= 0 ==> s[last_index(s, c)] == c,
        forall|i: int| last_index(s, c) < i < s.len() ==> #[trigger] s[i] != c,
    decreases s.len(),
{
    if s.len() > 0 && s.last() != c {
        lemma_last_index(s.drop_last(), c);
        assert forall|i: int| last_index(s, c) < i < s.len() implies #[trigger] s[i] != c by {
            if i < s.len() - 1 {
                assert(s[i] == s.drop_last()[i]);
            }
        }
    }
}

fn chars_contain(v: &Vec<char>, c: char) -> (r: bool)
    ensures
        r == crate::text::has_char(v@, c),
{
    let mut i: usize = 0;
    while i < v.len()
        invariant
            i <= v@.len(),
            forall|j: int| 0 <= j < i ==> v@[j] != c,
        decreases v@.len() - i,
    {
        if v[i] == c {
            return true;
        }
        i = i + 1;
    }
    false
}

fn contains_scheme_separator(v: &Vec<char>) -> (r: bool)
    ensures
        r == has_substring(v@, seq![':', '/', '/']),
{
    let n = v.len();
    let mut i: usize = 0;
    while n >= 3 && i <= n - 3
        invariant
            n == v@.len(),
            forall|j: int|
                0 <= j < i && j + 3 <= n ==> #[trigger] v@.subrange(j, j + 3) != seq![':', '/', '/'],
        decreases n - i,
    {
        if v[i] == ':' && v[i + 1] == '/' && v[i + 2] == '/' {
            assert(v@.subrange(i as int, i + 3) =~= seq![':', '/', '/']);
            return true;
        }
        proof {
            let w = v@.subrange(i as int, i + 3);
            if w == seq![':', '/', '/'] {
                assert(w[0] == v@[i as int]);
                assert(w[1] == v@[i + 1]);
                assert(w[2] == v@[i + 2]);
            }
        }
        i = i + 1;
    }
    proof {
        if has_substring(v@, seq![':', '/', '/']) {
            let j = choose|j: int|
                0 <= j && j + 3 <= v@.len() && #[trigger] v@.subrange(j, j + 3) == seq![
                    ':',
                    '/',
                    '/',
                ];
            assert(j < i);
        }
    }
    false
}

/// The canonical identity of an scp-style remote `[user@]host:path`.
pub fn canonicalize_scp_remote(remote: &str) -> (r: Option<String>)
    ensures
        opt_view(r) == scp_remote_text(remote@),
{
    let v = chars_of(remote);
    if contains_scheme_separator(&v) {
        return None;
    }
    proof {
        lemma_first_index(v@, ':');
    }
    let mut colon: usize = 0;
    while colon < v.len() && v[colon] != ':'
        invariant
            colon <= v@.len(),
            forall|j: int| 0 <= j < colon ==> v@[j] != ':',
        decreases v@.len() - colon,
    {
        colon = colon + 1;
    }
    proof {
        assert(colon as int == first_index(v@, ':')) by {
            if (colon as int) < first_index(v@, ':') {
            } else if (colon as int) > first_index(v@, ':') {
                assert(v@[first_index(v@, ':')] == ':');
            }
        }
    }
    if colon == v.len() {
        return None;
    }
    let ghost host_part = v@.take(colon as int);
    proof {
        lemma_last_index(host_part, '@');
    }
    let mut at: usize = colon;
    while at > 0 && v[at - 1] != '@'
        invariant
            at <= colon < v@.len(),
            host_part == v@.take(colon as int),
            forall|j: int| at <= j < colon ==> v@[j] != '@',
        decreases at,
    {
        at = at - 1;
    }
    proof {
        assert(at as int == last_index(host_part, '@') + 1) by {
            let l = last_index(host_part, '@');
            if at > 0 {
                assert(host_part[at - 1] == '@');
                if l > at - 1 {
                    assert(host_part[l] == '@');
                    assert(v@[l] != '@');
                }
            } else {
                if l >= 0 {
                    assert(host_part[l] == '@');
                    assert(v@[l] != '@');
                }
            }
        }
        assert(host_part.skip(at as int) =~= v@.subrange(at as int, colon as int));
    }
    let host = string_of(&v, at, colon);
    let host_chars = chars_of(host.as_str());
    if host_chars.len() == 0 || chars_contain(&host_chars, '/') || chars_contain(&host_chars, '\\') {
        return None;
    }
    let path = string_of(&v, colon + 1, v.len());
    assert(path@ =~= v@.skip(colon + 1));
    canonicalize_remote_parts(host.as_str(), path.as_str(), None)
}

pub open spec fn is_remote_scheme(s: Seq<char>) -> bool {
    ||| s == seq!['h', 't', 't', 'p']
    ||| s == seq!['h', 't', 't', 'p', 's']
    ||| s == seq!['s', 's', 'h']
    ||| s == seq!['g', 'i', 't']
}

/// The port a URL names, with each scheme's default port dropped.
pub open spec fn explicit_port(scheme: Seq<char>, port: Option<u16>) -> Option<u16> {
    if (scheme == seq!['h', 't', 't', 'p'] && port == Some(80u16)) || (scheme == seq![
        'h',
        't',
        't',
        'p',
        's',
    ] && port == Some(443u16)) || (scheme == seq!['s', 's', 'h'] && port == Some(22u16)) || (
    scheme == seq!['g', 'i', 't'] && port == Some(9418u16)) {
        None
    } else {
        port
    }
}

/// A URL remote with an `http`, `https`, `ssh` or `git` scheme and a host.
pub open spec fn url_remote_text(remote: Seq<char>) -> Option<Seq<char>> {
    match url_parse(remote) {
        Some((scheme, Some(host), path, port)) => if is_remote_scheme(scheme) {
            remote_parts_text(host, path, explicit_port(scheme, port))
        } else {
            None
        },
        _ => None,
    }
}

fn equals_word(s: &str, word: &str) -> (r: bool)
    ensures
        r == (s@ == word@),
{
    let a = chars_of(s);
    let b = literal(word);
    crate::text::chars_eq(&a, &b)
}

/// The canonical identity of a URL remote.
pub fn canonicalize_url_remote(remote: &str) -> (r: Option<String>)
    ensures
        opt_view(r) == url_remote_text(remote@),
{
    let parts = match parse_url(remote) {
        Some(parts) => parts,
        None => return None,
    };
    proof {
        reveal_strlit("http");
        reveal_strlit("https");
        reveal_strlit("ssh");
        reveal_strlit("git");
        assert("http"@ =~= seq!['h', 't', 't', 'p']);
        assert("https"@ =~= seq!['h', 't', 't', 'p', 's']);
        assert("ssh"@ =~= seq!['s', 's', 'h']);
        assert("git"@ =~= seq!['g', 'i', 't']);
    }
    let scheme = parts.scheme.as_str();
    let http = equals_word(scheme, "http");
    let https = equals_word(scheme, "https");
    let ssh = equals_word(scheme, "ssh");
    let git = equals_word(scheme, "git");
    if !(http || https || ssh || git) {
        return None;
    }
    let port = match parts.port {
        Some(80u16) if http => None,
        Some(443u16) if https => None,
        Some(22u16) if ssh => None,
        Some(9418u16) if git => None,
        other => other,
    };
    match &parts.host {
        Some(host) => canonicalize_remote_parts(host.as_str(), parts.path.as_str(), port),
        None => None,
    }
}

/// A remote's canonical identity: as a URL if it parses as one with a
/// supported scheme, else as an scp-style remote.
pub open spec fn remote_identity_text(remote: Seq<char>) -> Option<Seq<char>> {
    match url_remote_text(remote) {
        Some(t) => Some(t),
        None => scp_remote_text(remote),
    }
}

pub fn canonicalize_remote(remote: &str) -> (r: Option<String>)
    ensures
        opt_view(r) == remote_identity_text(remote@),
{
    match canonicalize_url_remote(remote) {
        Some(identity) => Some(identity),
        None => canonicalize_scp_remote(remote),
    }
}


// ---------------------------------------------------------------------------
// Resolution
// ---------------------------------------------------------------------------

/// What resolving the current scope does next, once it is known whether the
/// directory is in a Git work tree and what the local configuration holds.
#[derive(Debug)]
pub enum ResolveStep {
    /// Outside Git, or with Git unavailable: the directory's own scope.
    Directory,
    /// No stored ID: derive one, store it, and drop a legacy scope ID if one
    /// was found.
    Derive { remove_legacy_scope: bool },
    /// The stored ID, after dropping a legacy scope ID if one was found.
    Configured { repository: RepositoryId, remove_legacy_scope: bool },
}

/// Decides how the scope is resolved.  `config` is `None` outside a Git
/// work tree, and otherwise what the local configuration says.
pub fn resolve(config: Option<ConfigRepository>) -> (r: ResolveStep)
    ensures
        match config {
            None => r is Directory,
            Some(ConfigRepository::GitUnavailable) => r is Directory,
            Some(ConfigRepository::Unset) => r matches ResolveStep::Derive { remove_legacy_scope: false },
            Some(ConfigRepository::LegacyScope) => r matches ResolveStep::Derive { remove_legacy_scope: true },
            Some(ConfigRepository::Value(id)) => r matches ResolveStep::Configured { repository, remove_legacy_scope: false }
                && repository@ == id@,
            Some(ConfigRepository::ValueWithLegacyScope(id)) => r matches ResolveStep::Configured { repository, remove_legacy_scope: true }
                && repository@ == id@,
        },
{
    match config {
        None => ResolveStep::Directory,
        Some(ConfigRepository::GitUnavailable) => ResolveStep::Directory,
        Some(ConfigRepository::Unset) => ResolveStep::Derive { remove_legacy_scope: false },
        Some(ConfigRepository::LegacyScope) => ResolveStep::Derive { remove_legacy_scope: true },
        Some(ConfigRepository::Value(repository)) => ResolveStep::Configured { repository, remove_legacy_scope: false },
        Some(ConfigRepository::ValueWithLegacyScope(repository)) => ResolveStep::Configured {
            repository,
            remove_legacy_scope: true,
        },
    }
}

/// A derived scope: from the single remote's canonical identity where there
/// is one, else from the Git common directory's path bytes.
pub fn derived_scope(remote_identity: Option<String>, common_dir: &[u8]) -> (r: ResolvedScope)
    ensures
        match remote_identity {
            Some(identity) => r.spec_repository() == derived_repository(
                "remote"@,
                vstd::utf8::encode_utf8(identity@),
            ),
            None => r.spec_repository() == derived_repository("git-common-dir"@, common_dir@),
        },
        remote_identity is Some ==> r.spec_source() == ResolutionSource::Remote,
        remote_identity is None ==> r.spec_source() == ResolutionSource::GitCommonDir,
        r.spec_scope() == r.spec_repository(),
{
    match remote_identity {
        Some(identity) => resolved_repository(
            repository_from_identity("remote", identity.as_str()),
            ResolutionSource::Remote,
        ),
        None => resolved_repository(repository_from_bytes("git-common-dir", common_dir), ResolutionSource::GitCommonDir),
    }
}

/// The scope of a directory outside Git: derived from its path bytes.
pub fn directory_scope(cwd: &[u8]) -> (r: ResolvedScope)
    ensures
        r.spec_repository() == derived_repository("directory"@, cwd@),
        r.spec_scope() == r.spec_repository(),
        r.spec_source() == ResolutionSource::Directory,
{
    resolved_repository(repository_from_bytes("directory", cwd), ResolutionSource::Directory)
}

} // verus!
