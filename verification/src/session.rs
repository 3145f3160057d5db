//! Whole requests, from the first read of the store to the result.
//!
//! A session is what one request does when each thing that it waits for is
//! done at once. It is written down here as the sequence of the request's
//! actions, so that it can be said how often DNS is asked and the store is
//! written to: once each where the store holds no policy, and not at all
//! where it holds one.

use crate::cache::{
    cached_policy, initial, pending, step, CacheActionView, CacheEntryView, CacheEventView,
    CacheReadError, CacheWriteError, Phase, PolicyRequestView, WriteFailure,
};
use crate::policy::{law_name_round_trip, DmarcPolicy};
use crate::resolver::{dmarc_name, resolved_policy, LookupError};
use vstd::prelude::*;

verus! {

/// What the outside answers in the course of one request: to the read of
/// the store, to the TXT query and to the write to the store.
pub struct Answers {
    pub read: Result<Option<Seq<char>>, CacheReadError>,
    pub lookup: Result<Seq<Seq<char>>, LookupError>,
    pub write: Result<(), WriteFailure>,
}

/// What comes of `action` under `answers`.
pub open spec fn outcome(action: CacheActionView, answers: Answers) -> CacheEventView {
    match action {
        CacheActionView::ReadStore { .. } => CacheEventView::Read(answers.read),
        CacheActionView::QueryTxt { .. } => CacheEventView::Lookup(answers.lookup),
        _ => CacheEventView::Write(answers.write),
    }
}

/// The greatest number of steps that a request in `phase` is from its end.
pub open spec fn steps_left(phase: Phase) -> nat {
    match phase {
        Phase::Reading => 3,
        Phase::Resolving => 2,
        Phase::Writing(_) => 1,
        Phase::Finished(_) => 0,
    }
}

/// What `request` waits for, in order, from now to its end, when each thing
/// is done as soon as it is waited for and `answers` says what comes of it.
pub open spec fn actions_from(request: PolicyRequestView, answers: Answers) -> Seq<
    CacheActionView,
>
    decreases steps_left(request.phase),
{
    if request.phase is Finished {
        seq![pending(request)]
    } else {
        seq![pending(request)] + actions_from(
            step(request, outcome(pending(request), answers)),
            answers,
        )
    }
}

/// All that is done for one request for the policy of `domain`.
pub open spec fn session(domain: Seq<char>, answers: Answers) -> Seq<CacheActionView> {
    actions_from(initial(domain), answers)
}

/// The result that a session ends with.
pub open spec fn result_of(trace: Seq<CacheActionView>) -> Option<
    Result<DmarcPolicy, CacheWriteError>,
> {
    if trace.len() > 0 && trace.last() is Finish {
        Some(trace.last()->Finish_0)
    } else {
        None
    }
}

/// How many TXT queries `trace` holds.
pub open spec fn dns_queries(trace: Seq<CacheActionView>) -> nat
    decreases trace.len(),
{
    if trace.len() == 0 {
        0
    } else if trace[0] is QueryTxt {
        1 + dns_queries(trace.skip(1))
    } else {
        dns_queries(trace.skip(1))
    }
}

/// How many writes to the store `trace` holds.
pub open spec fn store_writes(trace: Seq<CacheActionView>) -> nat
    decreases trace.len(),
{
    if trace.len() == 0 {
        0
    } else if trace[0] is WriteStore {
        1 + store_writes(trace.skip(1))
    } else {
        store_writes(trace.skip(1))
    }
}

/// What a request does that finds `policy` in the store: it reads, and ends.
pub open spec fn hit_trace(domain: Seq<char>, policy: DmarcPolicy) -> Seq<CacheActionView> {
    seq![CacheActionView::ReadStore { key: domain }, CacheActionView::Finish(Ok(policy))]
}

/// What a request does that finds no policy in the store, when `policy` is
/// then resolved: it reads, asks DNS, writes the policy's name under the
/// domain for 24 hours, and ends; with the policy if the write was taken.
pub open spec fn miss_trace(
    domain: Seq<char>,
    policy: DmarcPolicy,
    write: Result<(), WriteFailure>,
) -> Seq<CacheActionView> {
    seq![
        CacheActionView::ReadStore { key: domain },
        CacheActionView::QueryTxt { name: dmarc_name(domain) },
        CacheActionView::WriteStore(
            CacheEntryView { key: domain, value: policy.spec_name(), ttl_seconds: 86400 },
        ),
        CacheActionView::Finish(
            match write {
                Ok(_) => Ok(policy),
                Err(failure) => Err(CacheWriteError { policy, failure }),
            },
        ),
    ]
}

/// A store that keeps what it is given: the text under each key.
pub type Store = Map<Seq<char>, Seq<char>>;

/// What a read of `key` gives on a store that answers.
pub open spec fn store_read(store: Store, key: Seq<char>) -> Result<
    Option<Seq<char>>,
    CacheReadError,
> {
    if store.contains_key(key) {
        Ok(Some(store[key]))
    } else {
        Ok(None)
    }
}

/// The store after it has taken the writes of `trace`, none of them expired.
pub open spec fn store_after(store: Store, trace: Seq<CacheActionView>) -> Store
    decreases trace.len(),
{
    if trace.len() == 0 {
        store
    } else {
        let first = match trace[0] {
            CacheActionView::WriteStore(entry) => store.insert(entry.key, entry.value),
            _ => store,
        };
        store_after(first, trace.skip(1))
    }
}

/// A session is a hit or a miss, as the read of the store decides.
pub proof fn lemma_session(domain: Seq<char>, answers: Answers)
    ensures
        session(domain, answers) == match cached_policy(answers.read) {
            Some(policy) => hit_trace(domain, policy),
            None => miss_trace(domain, resolved_policy(answers.lookup), answers.write),
        },
{
    reveal_with_fuel(actions_from, 4);
}

/// A hit asks DNS nothing and writes nothing.
pub proof fn lemma_hit_trace(domain: Seq<char>, policy: DmarcPolicy)
    ensures
        dns_queries(hit_trace(domain, policy)) == 0,
        store_writes(hit_trace(domain, policy)) == 0,
        result_of(hit_trace(domain, policy)) == Some(Ok::<DmarcPolicy, CacheWriteError>(policy)),
        forall|store: Store| store_after(store, hit_trace(domain, policy)) == store,
{
    reveal_with_fuel(dns_queries, 3);
    reveal_with_fuel(store_writes, 3);
    reveal_with_fuel(store_after, 3);
}

/// A miss asks DNS once and writes once.
pub proof fn lemma_miss_trace(
    domain: Seq<char>,
    policy: DmarcPolicy,
    write: Result<(), WriteFailure>,
)
    ensures
        dns_queries(miss_trace(domain, policy, write)) == 1,
        store_writes(miss_trace(domain, policy, write)) == 1,
        write is Ok ==> result_of(miss_trace(domain, policy, write)) == Some(
            Ok::<DmarcPolicy, CacheWriteError>(policy),
        ),
        write matches Err(failure) ==> result_of(miss_trace(domain, policy, write)) == Some(
            Err::<DmarcPolicy, CacheWriteError>(CacheWriteError { policy, failure }),
        ),
        forall|store: Store|
            store_after(store, miss_trace(domain, policy, write)) == store.insert(
                domain,
                policy.spec_name(),
            ),
{
    reveal_with_fuel(dns_queries, 5);
    reveal_with_fuel(store_writes, 5);
    reveal_with_fuel(store_after, 5);
}

/// Where the store holds no policy for the domain (it has no entry, cannot be
/// read, or holds text that names no policy), a request reads the store,
/// asks DNS exactly once, and writes exactly once: the name of the resolved
/// policy, under the domain, to live for 86400 seconds.
pub proof fn law_miss_resolves_and_writes_once(domain: Seq<char>, answers: Answers)
    requires
        cached_policy(answers.read) is None,
    ensures
        session(domain, answers) == miss_trace(
            domain,
            resolved_policy(answers.lookup),
            answers.write,
        ),
        dns_queries(session(domain, answers)) == 1,
        store_writes(session(domain, answers)) == 1,
{
    lemma_session(domain, answers);
    lemma_miss_trace(domain, resolved_policy(answers.lookup), answers.write);
}

/// Where the store holds a policy for the domain, a request reads the store
/// and ends with that policy: it asks DNS nothing and writes nothing.
pub proof fn law_hit_is_pure(domain: Seq<char>, answers: Answers, policy: DmarcPolicy)
    requires
        cached_policy(answers.read) == Some(policy),
    ensures
        session(domain, answers) == hit_trace(domain, policy),
        result_of(session(domain, answers)) == Some(Ok::<DmarcPolicy, CacheWriteError>(policy)),
        dns_queries(session(domain, answers)) == 0,
        store_writes(session(domain, answers)) == 0,
{
    lemma_session(domain, answers);
    lemma_hit_trace(domain, policy);
}

/// A request fails only where a freshly resolved policy could not be written:
/// then it says so, with the policy. Every other request ends with a policy.
pub proof fn law_only_a_failed_write_fails(domain: Seq<char>, answers: Answers)
    ensures
        result_of(session(domain, answers)) is Some,
        result_of(session(domain, answers))->0 is Err <==> cached_policy(answers.read) is None
            && answers.write is Err,
        result_of(session(domain, answers))->0 matches Err(e) ==> e.policy == resolved_policy(
            answers.lookup,
        ) && answers.write == Err::<(), WriteFailure>(e.failure),
{
    lemma_session(domain, answers);
    match cached_policy(answers.read) {
        Some(policy) => {
            lemma_hit_trace(domain, policy);
        },
        None => {
            lemma_miss_trace(domain, resolved_policy(answers.lookup), answers.write);
        },
    }
}

/// A second request for the same domain, made after a first one that ended
/// with a policy and while the store still holds what the first one found or
/// wrote, ends with the same policy. It asks DNS nothing, writes nothing and
/// so leaves the store as it was: the same holds of every request after it.
pub proof fn law_repeated_request_is_a_hit(
    domain: Seq<char>,
    store: Store,
    first: Answers,
    second: Answers,
)
    requires
        first.read == store_read(store, domain),
        result_of(session(domain, first)) matches Some(Ok(_)),
        second.read == store_read(store_after(store, session(domain, first)), domain),
    ensures
        result_of(session(domain, second)) == result_of(session(domain, first)),
        dns_queries(session(domain, second)) == 0,
        store_writes(session(domain, second)) == 0,
        store_after(store_after(store, session(domain, first)), session(domain, second))
            == store_after(store, session(domain, first)),
{
    lemma_session(domain, first);
    match cached_policy(first.read) {
        Some(policy) => {
            lemma_hit_trace(domain, policy);
            law_hit_is_pure(domain, second, policy);
        },
        None => {
            let policy = resolved_policy(first.lookup);
            lemma_miss_trace(domain, policy, first.write);
            lemma_hit_trace(domain, policy);
            law_name_round_trip(policy);
            let kept = store_after(store, miss_trace(domain, policy, first.write));
            assert(kept == store.insert(domain, policy.spec_name()));
            law_hit_is_pure(domain, second, policy);
        },
    }
}

/// What is done for each of several requests for `domain` that are made one
/// after the other on a store that answers every read and takes every write,
/// and from which nothing expires meanwhile. `answers[i]` is what DNS would
/// say to request `i` if it were asked.
pub open spec fn sessions_in_turn(
    domain: Seq<char>,
    store: Store,
    answers: Seq<Result<Seq<Seq<char>>, LookupError>>,
) -> Seq<Seq<CacheActionView>>
    decreases answers.len(),
{
    if answers.len() == 0 {
        seq![]
    } else {
        let first = session(
            domain,
            Answers { read: store_read(store, domain), lookup: answers[0], write: Ok(()) },
        );
        seq![first] + sessions_in_turn(domain, store_after(store, first), answers.skip(1))
    }
}

/// On a store that holds a policy for the domain, every request is a hit.
proof fn lemma_hits_in_turn(
    domain: Seq<char>,
    store: Store,
    policy: DmarcPolicy,
    answers: Seq<Result<Seq<Seq<char>>, LookupError>>,
)
    requires
        cached_policy(store_read(store, domain)) == Some(policy),
    ensures
        sessions_in_turn(domain, store, answers).len() == answers.len(),
        forall|i: int|
            0 <= i < answers.len() ==> #[trigger] sessions_in_turn(domain, store, answers)[i]
                == hit_trace(domain, policy),
    decreases answers.len(),
{
    if answers.len() > 0 {
        let first = Answers { read: store_read(store, domain), lookup: answers[0], write: Ok(()) };
        law_hit_is_pure(domain, first, policy);
        lemma_hit_trace(domain, policy);
        lemma_hits_in_turn(
            domain,
            store_after(store, session(domain, first)),
            policy,
            answers.skip(1),
        );
    }
}

/// Requests for the same domain that are made one after the other, while the
/// store keeps what it holds, all end with the policy that the first of them
/// ended with; and none but the first asks DNS or writes to the store,
/// whatever DNS would have answered.
pub proof fn law_repeated_requests_are_hits(
    domain: Seq<char>,
    store: Store,
    answers: Seq<Result<Seq<Seq<char>>, LookupError>>,
)
    ensures
        sessions_in_turn(domain, store, answers).len() == answers.len(),
        forall|i: int|
            0 < i < answers.len() ==> {
                let later = #[trigger] sessions_in_turn(domain, store, answers)[i];
                &&& result_of(later) == result_of(sessions_in_turn(domain, store, answers)[0])
                &&& dns_queries(later) == 0
                &&& store_writes(later) == 0
            },
{
    if answers.len() > 0 {
        let first = Answers { read: store_read(store, domain), lookup: answers[0], write: Ok(()) };
        let kept = store_after(store, session(domain, first));
        let policy = match cached_policy(first.read) {
            Some(policy) => policy,
            None => resolved_policy(first.lookup),
        };
        lemma_session(domain, first);
        lemma_hit_trace(domain, policy);
        lemma_miss_trace(domain, policy, first.write);
        law_name_round_trip(policy);
        if cached_policy(first.read) is None {
            assert(kept == store.insert(domain, policy.spec_name()));
        }
        lemma_hits_in_turn(domain, kept, policy, answers.skip(1));
    }
}

} // verus!
