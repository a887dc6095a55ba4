//! Domain requests.
use vstd::prelude::*;

use crate::scope::{valid_domain_id, valid_repository_id, DomainId, RepositoryId};
use crate::server::request::{repository, ParseError};

verus! {

pub enum Domain {
    Create { domain: DomainId },
    List { repository: RepositoryId, all: bool },
    Attach { repository: RepositoryId, domain: DomainId, before: Option<DomainId> },
    Detach { repository: RepositoryId, domain: DomainId },
    Delete { domain: DomainId },
}

/// The decoded body of a domain change.
pub struct DomainIn {
    pub repository: String,
    pub domain: String,
    pub before: Option<String>,
}

/// The decoded body of a domain listing.
pub struct DomainsIn {
    pub repository: String,
    pub all: bool,
}

/// A domain change body is valid when its repository, domain and (if given)
/// reference domain are all valid.
pub open spec fn domain_input_valid(input: DomainIn) -> bool {
    &&& valid_repository_id(input.repository@)
    &&& valid_domain_id(input.domain@)
    &&& match input.before {
        Some(b) => valid_domain_id(b@),
        None => true,
    }
}

struct ParsedDomain {
    repository: RepositoryId,
    domain: DomainId,
    before: Option<DomainId>,
}

fn input(body: DomainIn) -> (r: Result<ParsedDomain, ParseError>)
    ensures
        domain_input_valid(body) ==> (r matches Ok(p) && {
            &&& p.repository@ == body.repository@
            &&& p.domain@ == body.domain@
            &&& (p.before is None <==> body.before is None)
            &&& (p.before matches Some(b) ==> b@ == body.before->0@)
        }),
        !domain_input_valid(body) ==> r == Err::<ParsedDomain, ParseError>(ParseError::Invalid),
{
    let repository = repository(body.repository.as_str())?;
    let domain = match DomainId::parse(body.domain.as_str()) {
        Ok(d) => d,
        Err(_) => return Err(ParseError::Invalid),
    };
    let before = match &body.before {
        Some(b) => match DomainId::parse(b.as_str()) {
            Ok(d) => Some(d),
            Err(_) => return Err(ParseError::Invalid),
        },
        None => None,
    };
    Ok(ParsedDomain { repository, domain, before })
}

/// A domain creation carries its body's domain.
pub open spec fn create_fields(d: Domain, body: DomainIn) -> bool {
    d matches Domain::Create { domain } && domain@ == body.domain@
}

/// A domain listing carries its body's repository and scope.
pub open spec fn list_fields(d: Domain, body: DomainsIn) -> bool {
    d matches Domain::List { repository, all } && repository@ == body.repository@ && all == body.all
}

/// An attachment carries its body's repository, domain and reference.
pub open spec fn attach_fields(d: Domain, body: DomainIn) -> bool {
    d matches Domain::Attach { repository, domain, before } && repository@ == body.repository@
        && domain@ == body.domain@ && (before is None <==> body.before is None) && (before matches Some(
        b,
    ) ==> b@ == body.before->0@)
}

/// A detachment carries its body's repository and domain.
pub open spec fn detach_fields(d: Domain, body: DomainIn) -> bool {
    d matches Domain::Detach { repository, domain } && repository@ == body.repository@ && domain@
        == body.domain@
}

/// A deletion carries its body's domain.
pub open spec fn delete_fields(d: Domain, body: DomainIn) -> bool {
    d matches Domain::Delete { domain } && domain@ == body.domain@
}

pub fn create(body: DomainIn) -> (r: Result<Domain, ParseError>)
    ensures
        domain_input_valid(body) ==> (r matches Ok(d) && create_fields(d, body)),
        !domain_input_valid(body) ==> r == Err::<Domain, ParseError>(ParseError::Invalid),
{
    let parsed = input(body)?;
    Ok(Domain::Create { domain: parsed.domain })
}

pub fn list(body: DomainsIn) -> (r: Result<Domain, ParseError>)
    ensures
        valid_repository_id(body.repository@) ==> (r matches Ok(d) && list_fields(d, body)),
        !valid_repository_id(body.repository@) ==> r == Err::<Domain, ParseError>(ParseError::Invalid),
{
    Ok(Domain::List { repository: repository(body.repository.as_str())?, all: body.all })
}

pub fn attach(body: DomainIn) -> (r: Result<Domain, ParseError>)
    ensures
        domain_input_valid(body) ==> (r matches Ok(d) && attach_fields(d, body)),
        !domain_input_valid(body) ==> r == Err::<Domain, ParseError>(ParseError::Invalid),
{
    let parsed = input(body)?;
    Ok(
        Domain::Attach {
            repository: parsed.repository,
            domain: parsed.domain,
            before: parsed.before,
        },
    )
}

pub fn detach(body: DomainIn) -> (r: Result<Domain, ParseError>)
    ensures
        domain_input_valid(body) ==> (r matches Ok(d) && detach_fields(d, body)),
        !domain_input_valid(body) ==> r == Err::<Domain, ParseError>(ParseError::Invalid),
{
    let parsed = input(body)?;
    Ok(Domain::Detach { repository: parsed.repository, domain: parsed.domain })
}

pub fn delete(body: DomainIn) -> (r: Result<Domain, ParseError>)
    ensures
        domain_input_valid(body) ==> (r matches Ok(d) && delete_fields(d, body)),
        !domain_input_valid(body) ==> r == Err::<Domain, ParseError>(ParseError::Invalid),
{
    let parsed = input(body)?;
    Ok(Domain::Delete { domain: parsed.domain })
}

} // verus!
