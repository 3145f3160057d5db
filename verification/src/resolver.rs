//! The resolver's share of the work that needs no network: the name to ask
//! DNS for, and what a lookup's outcome means for the policy.

use crate::dmarc::{get_dmarc_policy_for_domain, parse};
use crate::policy::DmarcPolicy;
use vstd::prelude::*;
use vstd::string::StringExecFns;

verus! {

/// Why a DNS lookup gave no TXT records.
#[derive(Debug, Clone, Copy, PartialEq, Eq, Structural)]
pub enum LookupError {
    /// The query was not answered in time.
    Timeout,
    /// The name does not exist.
    NoSuchDomain,
    /// The query could not be sent or its answer not be read.
    Network,
    /// No resolver could be set up.
    ResolverConstruction,
}

/// The name whose TXT records publish the DMARC policy of `domain`.
pub open spec fn dmarc_name(domain: Seq<char>) -> Seq<char> {
    "_dmarc."@ + domain
}

/// The policy that follows from a lookup's outcome: the one that the records
/// publish, and no enforcement where the lookup failed or the records
/// publish none.
pub open spec fn resolved_policy(lookup: Result<Seq<Seq<char>>, LookupError>) -> DmarcPolicy {
    match lookup {
        Ok(records) => match parse(records) {
            Ok(policy) => policy,
            Err(_) => DmarcPolicy::NoEnforcement,
        },
        Err(_) => DmarcPolicy::NoEnforcement,
    }
}

/// A lookup's outcome with its records as sequences of characters.
pub open spec fn lookup_view(lookup: Result<Vec<String>, LookupError>) -> Result<
    Seq<Seq<char>>,
    LookupError,
> {
    match lookup {
        Ok(records) => Ok(records.deep_view()),
        Err(e) => Err(e),
    }
}

/// The name whose TXT records publish the DMARC policy of `domain`:
/// `_dmarc.` followed by the domain as given.
pub fn dmarc_query_name(domain: &str) -> (name: String)
    ensures
        name@ == dmarc_name(domain@),
{
    String::from_str("_dmarc.").concat(domain)
}

/// The policy that follows from a lookup's outcome. Every failure, of the
/// lookup or of the parser, gives `NoEnforcement`.
pub fn resolve(lookup: &Result<Vec<String>, LookupError>) -> (policy: DmarcPolicy)
    ensures
        policy == resolved_policy(lookup_view(*lookup)),
        lookup is Err ==> policy == DmarcPolicy::NoEnforcement,
        lookup matches Ok(records) ==> match parse(records.deep_view()) {
            Ok(published) => policy == published,
            Err(_) => policy == DmarcPolicy::NoEnforcement,
        },
{
    match lookup {
        Ok(records) => match get_dmarc_policy_for_domain(records) {
            Ok(policy) => policy,
            Err(_) => DmarcPolicy::NoEnforcement,
        },
        Err(_) => DmarcPolicy::NoEnforcement,
    }
}

} // verus!
