//! The domain registry and each repository's ordered attachments.
use vstd::prelude::*;

use crate::scope::DomainId;
use crate::store::StoreError;

verus! {

pub open spec fn domain_views(domains: Seq<DomainId>) -> Seq<Seq<char>> {
    domains.map_values(|d: DomainId| d@)
}

/// The first index of `x` in `s`, or -1.
pub open spec fn position_of(s: Seq<Seq<char>>, x: Seq<char>) -> int
    decreases s.len(),
{
    if s.len() == 0 {
        -1
    } else if s.last() == x {
        let p = position_of(s.drop_last(), x);
        if p >= 0 {
            p
        } else {
            s.len() - 1
        }
    } else {
        position_of(s.drop_last(), x)
    }
}

pub proof fn lemma_position_of(s: Seq<Seq<char>>, x: Seq<char>)
    ensures
        -1 <= position_of(s, x) < s.len(),
        position_of(s, x) >= 0 ==> s[position_of(s, x)] == x,
        position_of(s, x) == -1 <==> !s.contains(x),
        forall|i: int| 0 <= i < position_of(s, x) ==> #[trigger] s[i] != x,
    decreases s.len(),
{
    if s.len() > 0 {
        let init = s.drop_last();
        lemma_position_of(init, x);
        assert forall|i: int| 0 <= i < init.len() implies #[trigger] init[i] == s[i] by {}
        if position_of(s, x) == -1 {
            assert forall|i: int| 0 <= i < s.len() implies s[i] != x by {
                if i < init.len() {
                    assert(!init.contains(x));
                    if s[i] == x {
                        assert(init[i] == x);
                    }
                }
            }
        } else {
            assert(s.contains(x)) by {
                assert(s[position_of(s, x)] == x);
            }
        }
        if position_of(init, x) == -1 && s.last() == x {
            assert forall|i: int| 0 <= i < s.len() - 1 implies #[trigger] s[i] != x by {
                assert(init[i] == s[i]);
                if s[i] == x {
                    assert(init.contains(x));
                }
            }
        }
        assert forall|i: int| 0 <= i < position_of(s, x) implies #[trigger] s[i] != x by {
            if position_of(init, x) >= 0 {
                assert(init[i] == s[i]);
            } else if s.last() == x {
                assert(i < s.len() - 1);
            } else {
            }
        }
    }
}

/// The attachments after attaching `d`: before `b` when a reference is
/// given, else at the end.
pub open spec fn attached_after(s: Seq<Seq<char>>, d: Seq<char>, before: Option<Seq<char>>) -> Seq<
    Seq<char>,
> {
    match before {
        Some(b) => s.insert(position_of(s, b), d),
        None => s.push(d),
    }
}

fn find_domain(attached: &Vec<DomainId>, domain: &DomainId) -> (r: Option<usize>)
    ensures
        match r {
            Some(i) => i as int == position_of(domain_views(attached@), domain@),
            None => position_of(domain_views(attached@), domain@) == -1,
        },
{
    let ghost views = domain_views(attached@);
    proof {
        lemma_position_of(views, domain@);
    }
    let mut i: usize = 0;
    while i < attached.len()
        invariant
            i <= attached@.len(),
            views == domain_views(attached@),
            forall|j: int| 0 <= j < i ==> views[j] != domain@,
        decreases attached@.len() - i,
    {
        if attached[i].same_as(domain) {
            proof {
                lemma_position_of(views, domain@);
                let p = position_of(views, domain@);
                assert(views[i as int] == domain@);
                assert(views.contains(domain@));
                if p < i {
                    assert(views[p] == domain@);
                }
            }
            return Some(i);
        }
        i = i + 1;
    }
    proof {
        lemma_position_of(views, domain@);
        if views.contains(domain@) {
            let p = position_of(views, domain@);
            assert(views[p] == domain@);
        }
    }
    None
}

fn clone_domains(domains: &Vec<DomainId>) -> (r: Vec<DomainId>)
    ensures
        domain_views(r@) == domain_views(domains@),
{
    let mut out: Vec<DomainId> = Vec::new();
    let mut i: usize = 0;
    while i < domains.len()
        invariant
            i <= domains@.len(),
            out@.len() == i,
            forall|j: int| 0 <= j < i ==> #[trigger] out@[j]@ == domains@[j]@,
        decreases domains@.len() - i,
    {
        out.push(domains[i].clone());
        i = i + 1;
    }
    assert(domain_views(out@) =~= domain_views(domains@));
    out
}

/// Attaching a registered domain to a repository whose attachments are
/// `attached`, in order.  An unregistered domain is refused; an attached one
/// is left where it is (`None`); a reference domain must itself be attached.
/// Otherwise the new attachment order is returned.
pub fn attach_domain(
    registered: bool,
    attached: &Vec<DomainId>,
    domain: &DomainId,
    before: Option<&DomainId>,
) -> (r: Result<Option<Vec<DomainId>>, StoreError>)
    ensures
        !registered ==> (r matches Err(StoreError::DomainMissing(d)) && d@ == domain@),
        registered && domain_views(attached@).contains(domain@) ==> r matches Ok(None),
        registered && !domain_views(attached@).contains(domain@) ==> match before {
            Some(b) => if domain_views(attached@).contains(b@) {
                r matches Ok(Some(v)) && domain_views(v@) == attached_after(
                    domain_views(attached@),
                    domain@,
                    Some(b@),
                )
            } else {
                r matches Err(StoreError::ReferenceNotAttached(x)) && x@ == b@
            },
            None => r matches Ok(Some(v)) && domain_views(v@) == attached_after(
                domain_views(attached@),
                domain@,
                None,
            ),
        },
{
    let ghost views = domain_views(attached@);
    if !registered {
        return Err(StoreError::DomainMissing(domain.to_string()));
    }
    proof {
        lemma_position_of(views, domain@);
    }
    if find_domain(attached, domain).is_some() {
        return Ok(None);
    }
    match before {
        Some(reference) => match find_domain(attached, reference) {
            None => {
                proof {
                    lemma_position_of(views, reference@);
                }
                Err(StoreError::ReferenceNotAttached(reference.to_string()))
            },
            Some(position) => {
                proof {
                    lemma_position_of(views, reference@);
                }
                let mut order = clone_domains(attached);
                order.insert(position, domain.clone());
                proof {
                    assert(domain_views(order@) =~= views.insert(position as int, domain@));
                }
                Ok(Some(order))
            },
        },
        None => {
            let mut order = clone_domains(attached);
            order.push(domain.clone());
            proof {
                assert(domain_views(order@) =~= views.push(domain@));
            }
            Ok(Some(order))
        },
    }
}

/// Detaching a registered domain: an unregistered domain is refused, one
/// that is not attached is left alone (`None`), else the order without it.
pub fn detach_domain(registered: bool, attached: &Vec<DomainId>, domain: &DomainId) -> (r: Result<
    Option<Vec<DomainId>>,
    StoreError,
>)
    ensures
        !registered ==> (r matches Err(StoreError::DomainMissing(d)) && d@ == domain@),
        registered && !domain_views(attached@).contains(domain@) ==> r matches Ok(None),
        registered && domain_views(attached@).contains(domain@) ==> (r matches Ok(Some(v))
            && domain_views(v@) == domain_views(attached@).remove(
            position_of(domain_views(attached@), domain@),
        )),
{
    let ghost views = domain_views(attached@);
    if !registered {
        return Err(StoreError::DomainMissing(domain.to_string()));
    }
    proof {
        lemma_position_of(views, domain@);
    }
    match find_domain(attached, domain) {
        None => Ok(None),
        Some(position) => {
            let mut order = clone_domains(attached);
            let _ = order.remove(position);
            proof {
                assert(domain_views(order@) =~= views.remove(position as int));
            }
            Ok(Some(order))
        },
    }
}

/// Deleting a domain from the registry: a missing domain is left alone
/// (`false`); one still attached somewhere or still holding memories is
/// refused; otherwise it is deleted (`true`).
pub fn delete_domain(exists: bool, domain: &DomainId, attachments: i64, memories: i64) -> (r:
    Result<bool, StoreError>)
    ensures
        !exists ==> r == Ok::<bool, StoreError>(false),
        exists && attachments != 0 ==> (r matches Err(StoreError::DomainHasAttachments(d, n)) && d@
            == domain@ && n == attachments),
        exists && attachments == 0 && memories != 0 ==> (r matches Err(
            StoreError::DomainHasMemories(d, n),
        ) && d@ == domain@ && n == memories),
        exists && attachments == 0 && memories == 0 ==> r == Ok::<bool, StoreError>(true),
{
    if !exists {
        return Ok(false);
    }
    if attachments != 0 {
        return Err(StoreError::DomainHasAttachments(domain.to_string(), attachments));
    }
    if memories != 0 {
        return Err(StoreError::DomainHasMemories(domain.to_string(), memories));
    }
    Ok(true)
}

/// The domain IDs of stored rows; any row that is not a valid domain ID makes
/// the whole read fail.
pub fn domain_rows(rows: &Vec<String>) -> (r: Result<Vec<DomainId>, StoreError>)
    ensures
        (forall|i: int| 0 <= i < rows@.len() ==> crate::scope::valid_domain_id(#[trigger] rows@[i]@))
            ==> (r matches Ok(v) && domain_views(v@) == rows@.map_values(|s: String| s@)),
        !(forall|i: int| 0 <= i < rows@.len() ==> crate::scope::valid_domain_id(#[trigger] rows@[i]@))
            ==> r matches Err(StoreError::InvalidDomainRow),
{
    let mut out: Vec<DomainId> = Vec::new();
    let mut i: usize = 0;
    while i < rows.len()
        invariant
            i <= rows@.len(),
            out@.len() == i,
            forall|j: int| 0 <= j < i ==> crate::scope::valid_domain_id(#[trigger] rows@[j]@),
            forall|j: int| 0 <= j < i ==> #[trigger] out@[j]@ == rows@[j]@,
        decreases rows@.len() - i,
    {
        match DomainId::parse(rows[i].as_str()) {
            Ok(domain) => out.push(domain),
            Err(_) => return Err(StoreError::InvalidDomainRow),
        }
        i = i + 1;
    }
    assert(domain_views(out@) =~= rows@.map_values(|s: String| s@));
    Ok(out)
}

/// The position after the highest one in use.
pub fn next_position(maximum: i64) -> (r: Result<i64, StoreError>)
    ensures
        maximum < i64::MAX ==> r == Ok::<i64, StoreError>((maximum + 1) as i64),
        maximum == i64::MAX ==> r == Err::<i64, StoreError>(StoreError::PositionOutOfRange),
{
    match maximum.checked_add(1) {
        Some(position) => Ok(position),
        None => Err(StoreError::PositionOutOfRange),
    }
}

/// Attaching a domain and then detaching it restores the previous order.
pub proof fn lemma_attach_then_detach(s: Seq<Seq<char>>, d: Seq<char>, before: Option<Seq<char>>)
    requires
        !s.contains(d),
        before matches Some(b) ==> s.contains(b),
    ensures
        attached_after(s, d, before).contains(d),
        attached_after(s, d, before).remove(position_of(attached_after(s, d, before), d)) == s,
{
    let t = attached_after(s, d, before);
    let p = match before {
        Some(b) => position_of(s, b),
        None => s.len() as int,
    };
    match before {
        Some(b) => {
            lemma_position_of(s, b);
        },
        None => {},
    }
    assert(0 <= p <= s.len());
    assert(t[p] == d);
    lemma_position_of(t, d);
    let q = position_of(t, d);
    assert(q == p) by {
        if q < p {
            assert(t[q] == s[q]);
        } else if q > p {
            assert(t[p] == d);
        }
    }
    assert(t.remove(p) =~= s);
}

/// Attaching keeps every earlier attachment, in the same relative order, and
/// adds only the new domain.
pub proof fn lemma_attach_keeps_order(s: Seq<Seq<char>>, d: Seq<char>, before: Option<Seq<char>>)
    requires
        before matches Some(b) ==> s.contains(b),
    ensures
        attached_after(s, d, before).len() == s.len() + 1,
        ({
            let p = match before {
                Some(b) => position_of(s, b),
                None => s.len() as int,
            };
            &&& attached_after(s, d, before)[p] == d
            &&& forall|i: int| 0 <= i < p ==> #[trigger] attached_after(s, d, before)[i] == s[i]
            &&& forall|i: int| p <= i < s.len() ==> attached_after(s, d, before)[i + 1] == #[trigger] s[i]
            &&& (before matches Some(b) ==> attached_after(s, d, before)[p + 1] == b)
        }),
{
    match before {
        Some(b) => {
            lemma_position_of(s, b);
        },
        None => {},
    }
}

/// Detaching removes only the detached domain and keeps the others in order.
pub proof fn lemma_detach_removes_only(s: Seq<Seq<char>>, d: Seq<char>)
    requires
        s.contains(d),
        s.no_duplicates(),
    ensures
        !s.remove(position_of(s, d)).contains(d),
        s.remove(position_of(s, d)).len() == s.len() - 1,
        forall|x: Seq<char>| x != d ==> (s.remove(position_of(s, d)).contains(x) <==> s.contains(x)),
{
    lemma_position_of(s, d);
    let p = position_of(s, d);
    let t = s.remove(p);
    assert forall|x: Seq<char>| x != d implies (t.contains(x) <==> s.contains(x)) by {
        if s.contains(x) {
            let i = choose|i: int| 0 <= i < s.len() && s[i] == x;
            if i < p {
                assert(t[i] == x);
            } else {
                assert(i != p);
                assert(t[i - 1] == x);
            }
        }
        if t.contains(x) {
            let i = choose|i: int| 0 <= i < t.len() && t[i] == x;
            if i < p {
                assert(s[i] == x);
            } else {
                assert(s[i + 1] == x);
            }
        }
    }
    if t.contains(d) {
        let i = choose|i: int| 0 <= i < t.len() && t[i] == d;
        if i < p {
            assert(s[i] == d);
        } else {
            assert(s[i + 1] == d);
            assert(s[p] == d);
        }
    }
}

/// Attaching to an order without repeats gives an order without repeats.
pub proof fn lemma_attach_no_duplicates(s: Seq<Seq<char>>, d: Seq<char>, before: Option<Seq<char>>)
    requires
        s.no_duplicates(),
        !s.contains(d),
        before matches Some(b) ==> s.contains(b),
    ensures
        attached_after(s, d, before).no_duplicates(),
{
    lemma_attach_keeps_order(s, d, before);
    match before {
        Some(b) => {
            lemma_position_of(s, b);
        },
        None => {},
    }
    let t = attached_after(s, d, before);
    let p = match before {
        Some(b) => position_of(s, b),
        None => s.len() as int,
    };
    assert forall|i: int, j: int| 0 <= i < t.len() && 0 <= j < t.len() && i != j implies t[i]
        != t[j] by {
        let si = if i < p { i } else { i - 1 };
        let sj = if j < p { j } else { j - 1 };
        if i == p {
            if j < p {
                assert(t[j] == s[j]);
            } else {
                assert(t[j] == s[j - 1]);
            }
        } else if j == p {
            if i < p {
                assert(t[i] == s[i]);
            } else {
                assert(t[i] == s[i - 1]);
            }
        } else {
            if i < p {
                assert(t[i] == s[i]);
            } else {
                assert(t[i] == s[i - 1]);
            }
            if j < p {
                assert(t[j] == s[j]);
            } else {
                assert(t[j] == s[j - 1]);
            }
            assert(si != sj);
            assert(s[si] != s[sj]);
        }
    }
}

} // verus!
