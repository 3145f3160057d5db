//! The policy cache: a cache-aside coordinator in front of the resolver.
//!
//! The cache does no I/O. A `PolicyRequest` is the state of one request for a
//! domain's policy. It names the one thing that it waits for (`pending`):
//! a read of the store, a TXT query, a write to the store, or nothing more.
//! The caller does that thing and hands back what came of it (`step`).

use crate::policy::{policy_named, DmarcPolicy};
use crate::resolver::{
    dmarc_name, dmarc_query_name, lookup_view, resolve, resolved_policy, LookupError,
};
use vstd::prelude::*;
use vstd::string::StringExecFns;

verus! {

/// How long a cached policy lives, in seconds: 24 hours.
pub const CACHE_TTL_SECONDS: u32 = 86400;

/// Why the store gave no answer to a read.
#[derive(Debug, Clone, Copy, PartialEq, Eq, Structural)]
pub enum CacheReadError {
    /// The store could not be reached.
    Network,
    /// What the store holds under the key is no text.
    Deserialization,
    /// The store did not answer in time.
    Timeout,
}

/// Why the store did not take a write.
#[derive(Debug, Clone, Copy, PartialEq, Eq, Structural)]
pub enum WriteFailure {
    /// The store could not be reached.
    Network,
    /// The store did not answer in time.
    Timeout,
    /// The store refused the entry.
    Rejected,
}

/// A freshly resolved policy could not be kept in the store.
#[derive(Debug, Clone, Copy, PartialEq, Eq, Structural)]
pub struct CacheWriteError {
    /// The policy that was resolved and not kept.
    pub policy: DmarcPolicy,
    /// Why the store did not take it.
    pub failure: WriteFailure,
}

/// What came of the thing that a request waited for.
#[derive(Debug, PartialEq, Eq)]
pub enum CacheEvent {
    /// The store was read: the text under the key, if there is any.
    Read(Result<Option<String>, CacheReadError>),
    /// DNS was asked: the TXT records under the name.
    Lookup(Result<Vec<String>, LookupError>),
    /// The store was written to.
    Write(Result<(), WriteFailure>),
}

/// A `CacheEvent` with its texts as sequences of characters.
pub enum CacheEventView {
    Read(Result<Option<Seq<char>>, CacheReadError>),
    Lookup(Result<Seq<Seq<char>>, LookupError>),
    Write(Result<(), WriteFailure>),
}

/// What a read of the store gave, with its text as a sequence of characters.
pub open spec fn read_view(read: Result<Option<String>, CacheReadError>) -> Result<
    Option<Seq<char>>,
    CacheReadError,
> {
    match read {
        Ok(found) => Ok(found.deep_view()),
        Err(e) => Err(e),
    }
}

impl View for CacheEvent {
    type V = CacheEventView;

    open spec fn view(&self) -> CacheEventView {
        match self {
            CacheEvent::Read(read) => CacheEventView::Read(read_view(*read)),
            CacheEvent::Lookup(lookup) => CacheEventView::Lookup(lookup_view(*lookup)),
            CacheEvent::Write(written) => CacheEventView::Write(*written),
        }
    }
}

/// An entry of the store: the name of a policy, kept under the name of the
/// domain for a fixed time.
#[derive(Debug, PartialEq, Eq)]
pub struct CacheEntry {
    /// The domain, as it was asked for.
    pub key: String,
    /// The name of the policy.
    pub value: String,
    /// How long the store is to keep the entry.
    pub ttl_seconds: u32,
}

/// A `CacheEntry` with its texts as sequences of characters.
pub struct CacheEntryView {
    pub key: Seq<char>,
    pub value: Seq<char>,
    pub ttl_seconds: u32,
}

impl View for CacheEntry {
    type V = CacheEntryView;

    open spec fn view(&self) -> CacheEntryView {
        CacheEntryView { key: self.key@, value: self.value@, ttl_seconds: self.ttl_seconds }
    }
}

/// What a request waits for.
#[derive(Debug, PartialEq, Eq)]
pub enum CacheAction {
    /// Read the text that the store holds under `key`.
    ReadStore { key: String },
    /// Ask DNS for the TXT records of `name`.
    QueryTxt { name: String },
    /// Put the entry into the store.
    WriteStore(CacheEntry),
    /// Nothing more: the request has this result.
    Finish(Result<DmarcPolicy, CacheWriteError>),
}

/// A `CacheAction` with its texts as sequences of characters.
pub enum CacheActionView {
    ReadStore { key: Seq<char> },
    QueryTxt { name: Seq<char> },
    WriteStore(CacheEntryView),
    Finish(Result<DmarcPolicy, CacheWriteError>),
}

impl View for CacheAction {
    type V = CacheActionView;

    open spec fn view(&self) -> CacheActionView {
        match self {
            CacheAction::ReadStore { key } => CacheActionView::ReadStore { key: key@ },
            CacheAction::QueryTxt { name } => CacheActionView::QueryTxt { name: name@ },
            CacheAction::WriteStore(entry) => CacheActionView::WriteStore(entry@),
            CacheAction::Finish(result) => CacheActionView::Finish(*result),
        }
    }
}

/// How far a request has come.
#[derive(Debug, Clone, Copy, PartialEq, Eq)]
pub enum Phase {
    /// The store is being read.
    Reading,
    /// The store had no usable entry, and DNS is being asked.
    Resolving,
    /// This policy was resolved and is being written to the store.
    Writing(DmarcPolicy),
    /// The request has this result.
    Finished(Result<DmarcPolicy, CacheWriteError>),
}

/// One request for the policy of a domain.
#[derive(Debug, PartialEq, Eq)]
pub struct PolicyRequest {
    domain: String,
    phase: Phase,
}

/// A `PolicyRequest` with its domain as a sequence of characters.
pub struct PolicyRequestView {
    pub domain: Seq<char>,
    pub phase: Phase,
}

impl View for PolicyRequest {
    type V = PolicyRequestView;

    closed spec fn view(&self) -> PolicyRequestView {
        PolicyRequestView { domain: self.domain@, phase: self.phase }
    }
}

/// The policy that a read of the store gives: the one that the text under
/// the key names. A failed read, no entry and an entry that names no policy
/// all give none.
pub open spec fn cached_policy(read: Result<Option<Seq<char>>, CacheReadError>) -> Option<
    DmarcPolicy,
> {
    match read {
        Ok(Some(text)) => policy_named(text),
        _ => None,
    }
}

/// The entry that keeps `policy` for `domain`: the policy's name under the
/// domain, for 24 hours.
pub open spec fn entry_for(domain: Seq<char>, policy: DmarcPolicy) -> CacheEntryView {
    CacheEntryView { key: domain, value: policy.spec_name(), ttl_seconds: CACHE_TTL_SECONDS }
}

/// A request for the policy of `domain` that has not begun.
pub open spec fn initial(domain: Seq<char>) -> PolicyRequestView {
    PolicyRequestView { domain, phase: Phase::Reading }
}

/// What a request waits for.
pub open spec fn pending(request: PolicyRequestView) -> CacheActionView {
    match request.phase {
        Phase::Reading => CacheActionView::ReadStore { key: request.domain },
        Phase::Resolving => CacheActionView::QueryTxt { name: dmarc_name(request.domain) },
        Phase::Writing(policy) => CacheActionView::WriteStore(entry_for(request.domain, policy)),
        Phase::Finished(result) => CacheActionView::Finish(result),
    }
}

/// The request after `event`. An event that is not the outcome of what the
/// request waits for changes nothing.
pub open spec fn step(request: PolicyRequestView, event: CacheEventView) -> PolicyRequestView {
    let phase = match (request.phase, event) {
        (Phase::Reading, CacheEventView::Read(read)) => match cached_policy(read) {
            Some(policy) => Phase::Finished(Ok(policy)),
            None => Phase::Resolving,
        },
        (Phase::Resolving, CacheEventView::Lookup(lookup)) => Phase::Writing(
            resolved_policy(lookup),
        ),
        (Phase::Writing(policy), CacheEventView::Write(Ok(_))) => Phase::Finished(Ok(policy)),
        (Phase::Writing(policy), CacheEventView::Write(Err(failure))) => Phase::Finished(
            Err(CacheWriteError { policy, failure }),
        ),
        _ => request.phase,
    };
    PolicyRequestView { domain: request.domain, phase }
}

/// The policy that a read of the store gives, if it gives one.
pub fn cache_hit(read: &Result<Option<String>, CacheReadError>) -> (hit: Option<DmarcPolicy>)
    ensures
        hit == cached_policy(read_view(*read)),
{
    match read {
        Ok(Some(text)) => DmarcPolicy::from_name(text.as_str()),
        _ => None,
    }
}

/// The entry that keeps `policy` for `domain`.
pub fn cache_entry(domain: &str, policy: DmarcPolicy) -> (entry: CacheEntry)
    ensures
        entry@ == entry_for(domain@, policy),
{
    CacheEntry {
        key: String::from_str(domain),
        value: String::from_str(policy.name()),
        ttl_seconds: CACHE_TTL_SECONDS,
    }
}

impl PolicyRequest {
    /// A request for the policy of `domain`. The domain is taken as given.
    pub fn new(domain: &str) -> (request: PolicyRequest)
        ensures
            request@ == initial(domain@),
    {
        PolicyRequest { domain: String::from_str(domain), phase: Phase::Reading }
    }

    /// What the request waits for.
    pub fn pending(&self) -> (action: CacheAction)
        ensures
            action@ == pending(self@),
    {
        match self.phase {
            Phase::Reading => CacheAction::ReadStore { key: self.domain.clone() },
            Phase::Resolving => CacheAction::QueryTxt {
                name: dmarc_query_name(self.domain.as_str()),
            },
            Phase::Writing(policy) => CacheAction::WriteStore(
                cache_entry(self.domain.as_str(), policy),
            ),
            Phase::Finished(result) => CacheAction::Finish(result),
        }
    }

    /// The request after `event`, and what it then waits for.
    pub fn step(self, event: CacheEvent) -> (next: (PolicyRequest, CacheAction))
        ensures
            next.0@ == step(self@, event@),
            next.1@ == pending(next.0@),
    {
        let phase = match (self.phase, event) {
            (Phase::Reading, CacheEvent::Read(read)) => match cache_hit(&read) {
                Some(policy) => Phase::Finished(Ok(policy)),
                None => Phase::Resolving,
            },
            (Phase::Resolving, CacheEvent::Lookup(lookup)) => Phase::Writing(resolve(&lookup)),
            (Phase::Writing(policy), CacheEvent::Write(Ok(_))) => Phase::Finished(Ok(policy)),
            (Phase::Writing(policy), CacheEvent::Write(Err(failure))) => Phase::Finished(
                Err(CacheWriteError { policy, failure }),
            ),
            (phase, _) => phase,
        };
        let request = PolicyRequest { domain: self.domain, phase };
        let action = request.pending();
        (request, action)
    }
}

} // verus!
