use std::collections::HashMap;

use dmarc_policy::cache::{
    cache_entry, cache_hit, CacheAction, CacheEntry, CacheEvent, CacheReadError, CacheWriteError,
    PolicyRequest, WriteFailure, CACHE_TTL_SECONDS,
};
use dmarc_policy::policy::DmarcPolicy;
use dmarc_policy::resolver::LookupError;

/// A store in memory that counts what is asked of it.
struct Store {
    entries: HashMap<String, String>,
    reads: Vec<String>,
    writes: Vec<CacheEntry>,
    read_error: Option<CacheReadError>,
    write_failure: Option<WriteFailure>,
}

impl Store {
    fn new() -> Store {
        Store {
            entries: HashMap::new(),
            reads: Vec::new(),
            writes: Vec::new(),
            read_error: None,
            write_failure: None,
        }
    }

    fn holding(key: &str, value: &str) -> Store {
        let mut store = Store::new();
        store.entries.insert(key.to_string(), value.to_string());
        store
    }

    fn get(&mut self, key: &str) -> Result<Option<String>, CacheReadError> {
        self.reads.push(key.to_string());
        match self.read_error {
            Some(error) => Err(error),
            None => Ok(self.entries.get(key).cloned()),
        }
    }

    fn set(&mut self, entry: CacheEntry) -> Result<(), WriteFailure> {
        let outcome = match self.write_failure {
            Some(failure) => Err(failure),
            None => {
                self.entries.insert(entry.key.clone(), entry.value.clone());
                Ok(())
            }
        };
        self.writes.push(entry);
        outcome
    }
}

/// A resolver that gives one answer and counts the queries.
struct Dns {
    answer: Result<Vec<String>, LookupError>,
    queries: Vec<String>,
}

impl Dns {
    fn answering(texts: &[&str]) -> Dns {
        Dns { answer: Ok(texts.iter().map(|t| t.to_string()).collect()), queries: Vec::new() }
    }

    fn failing(error: LookupError) -> Dns {
        Dns { answer: Err(error), queries: Vec::new() }
    }

    fn query_txt(&mut self, name: &str) -> Result<Vec<String>, LookupError> {
        self.queries.push(name.to_string());
        self.answer.clone()
    }
}

fn get_policy(
    store: &mut Store,
    dns: &mut Dns,
    domain: &str,
) -> Result<DmarcPolicy, CacheWriteError> {
    let mut request = PolicyRequest::new(domain);
    let mut action = request.pending();
    loop {
        let event = match action {
            CacheAction::ReadStore { key } => CacheEvent::Read(store.get(&key)),
            CacheAction::QueryTxt { name } => CacheEvent::Lookup(dns.query_txt(&name)),
            CacheAction::WriteStore(entry) => CacheEvent::Write(store.set(entry)),
            CacheAction::Finish(result) => return result,
        };
        (request, action) = request.step(event);
    }
}

fn entry(key: &str, value: &str) -> CacheEntry {
    CacheEntry { key: key.to_string(), value: value.to_string(), ttl_seconds: 86400 }
}

#[test]
fn ttl_is_24_hours() {
    assert_eq!(CACHE_TTL_SECONDS, 86400);
    assert_eq!(CACHE_TTL_SECONDS, 60 * 60 * 24);
}

#[test]
fn cache_entry_holds_the_name_under_the_domain() {
    assert_eq!(cache_entry("example.com", DmarcPolicy::Reject), entry("example.com", "Reject"));
    assert_eq!(
        cache_entry("example.com", DmarcPolicy::Quarantine),
        entry("example.com", "Quarantine")
    );
    assert_eq!(cache_entry("nsm.no", DmarcPolicy::NoEnforcement), entry("nsm.no", "None"));
}

#[test]
fn miss_resolves_once_and_writes_once() {
    let mut store = Store::new();
    let mut dns = Dns::answering(&["v=DMARC1; p=reject; rua=mailto:x@y.com"]);
    assert_eq!(get_policy(&mut store, &mut dns, "example.com"), Ok(DmarcPolicy::Reject));
    assert_eq!(store.reads, vec!["example.com".to_string()]);
    assert_eq!(dns.queries, vec!["_dmarc.example.com".to_string()]);
    assert_eq!(store.writes, vec![entry("example.com", "Reject")]);
    assert_eq!(store.writes[0].ttl_seconds, 86400);
}

#[test]
fn hit_asks_dns_nothing_and_writes_nothing() {
    let mut store = Store::new();
    let mut dns = Dns::answering(&["v=DMARC1; p=quarantine"]);
    assert_eq!(get_policy(&mut store, &mut dns, "example.com"), Ok(DmarcPolicy::Quarantine));
    // the store now returns what was written before
    let mut other = Dns::answering(&["v=DMARC1; p=reject"]);
    store.reads.clear();
    store.writes.clear();
    assert_eq!(get_policy(&mut store, &mut other, "example.com"), Ok(DmarcPolicy::Quarantine));
    assert_eq!(store.reads, vec!["example.com".to_string()]);
    assert!(other.queries.is_empty());
    assert!(store.writes.is_empty());
}

#[test]
fn repeated_requests_give_the_same_policy_without_dns() {
    for text in ["v=DMARC1; p=none", "v=DMARC1; p=quarantine", "v=DMARC1; p=reject", "v=spf1"] {
        let mut store = Store::new();
        let mut dns = Dns::answering(&[text]);
        let first = get_policy(&mut store, &mut dns, "example.com");
        assert!(first.is_ok());
        for _ in 0..5 {
            assert_eq!(get_policy(&mut store, &mut dns, "example.com"), first);
        }
        assert_eq!(dns.queries.len(), 1);
        assert_eq!(store.writes.len(), 1);
        assert_eq!(store.reads.len(), 6);
    }
}

#[test]
fn cached_value_is_read_in_any_case() {
    for (value, policy) in [
        ("None", DmarcPolicy::NoEnforcement),
        ("none", DmarcPolicy::NoEnforcement),
        ("QUARANTINE", DmarcPolicy::Quarantine),
        ("Quarantine", DmarcPolicy::Quarantine),
        ("reject", DmarcPolicy::Reject),
        ("rEjEcT", DmarcPolicy::Reject),
    ] {
        let mut store = Store::holding("example.com", value);
        let mut dns = Dns::failing(LookupError::Network);
        assert_eq!(get_policy(&mut store, &mut dns, "example.com"), Ok(policy));
        assert!(dns.queries.is_empty());
        assert!(store.writes.is_empty());
    }
}

#[test]
fn unreadable_store_is_a_miss() {
    for error in [CacheReadError::Network, CacheReadError::Deserialization, CacheReadError::Timeout]
    {
        let mut store = Store::holding("example.com", "Reject");
        store.read_error = Some(error);
        let mut dns = Dns::answering(&["v=DMARC1; p=quarantine"]);
        assert_eq!(get_policy(&mut store, &mut dns, "example.com"), Ok(DmarcPolicy::Quarantine));
        assert_eq!(dns.queries.len(), 1);
        assert_eq!(store.writes, vec![entry("example.com", "Quarantine")]);
    }
}

#[test]
fn corrupt_entry_is_a_miss_and_is_overwritten() {
    for value in ["", "drop", "Reject ", "p=reject", "NoEnforcement"] {
        let mut store = Store::holding("example.com", value);
        let mut dns = Dns::answering(&["v=DMARC1; p=reject"]);
        assert_eq!(get_policy(&mut store, &mut dns, "example.com"), Ok(DmarcPolicy::Reject));
        assert_eq!(dns.queries.len(), 1);
        assert_eq!(store.writes, vec![entry("example.com", "Reject")]);
        assert_eq!(store.entries["example.com"], "Reject");
    }
}

#[test]
fn failed_lookup_is_cached_as_none() {
    let mut store = Store::new();
    let mut dns = Dns::failing(LookupError::NoSuchDomain);
    assert_eq!(get_policy(&mut store, &mut dns, "example.com"), Ok(DmarcPolicy::NoEnforcement));
    assert_eq!(store.writes, vec![entry("example.com", "None")]);
    // the same entry as for a record that says `p=none`
    let mut other_store = Store::new();
    let mut published = Dns::answering(&["v=DMARC1; p=none"]);
    assert_eq!(
        get_policy(&mut other_store, &mut published, "example.com"),
        Ok(DmarcPolicy::NoEnforcement)
    );
    assert_eq!(other_store.writes, store.writes);
}

#[test]
fn failed_write_is_reported_with_the_policy() {
    for failure in [WriteFailure::Network, WriteFailure::Timeout, WriteFailure::Rejected] {
        let mut store = Store::new();
        store.write_failure = Some(failure);
        let mut dns = Dns::answering(&["v=DMARC1; p=reject"]);
        assert_eq!(
            get_policy(&mut store, &mut dns, "example.com"),
            Err(CacheWriteError { policy: DmarcPolicy::Reject, failure })
        );
        assert_eq!(dns.queries.len(), 1);
        assert_eq!(store.writes.len(), 1);
    }
}

#[test]
fn failed_write_does_not_matter_on_a_hit() {
    let mut store = Store::holding("example.com", "Reject");
    store.write_failure = Some(WriteFailure::Network);
    let mut dns = Dns::failing(LookupError::Timeout);
    assert_eq!(get_policy(&mut store, &mut dns, "example.com"), Ok(DmarcPolicy::Reject));
}

#[test]
fn domains_are_keys_as_given() {
    let mut store = Store::holding("example.com", "Reject");
    let mut dns = Dns::answering(&["v=DMARC1; p=quarantine"]);
    assert_eq!(get_policy(&mut store, &mut dns, "Example.com"), Ok(DmarcPolicy::Quarantine));
    assert_eq!(dns.queries, vec!["_dmarc.Example.com".to_string()]);
    assert_eq!(store.entries["Example.com"], "Quarantine");
    assert_eq!(store.entries["example.com"], "Reject");
    assert_eq!(get_policy(&mut store, &mut dns, "example.com."), Ok(DmarcPolicy::Quarantine));
    assert_eq!(store.entries.len(), 3);
}

#[test]
fn cache_hit_reads_a_policy_name() {
    assert_eq!(cache_hit(&Ok(Some("Reject".to_string()))), Some(DmarcPolicy::Reject));
    assert_eq!(cache_hit(&Ok(Some("none".to_string()))), Some(DmarcPolicy::NoEnforcement));
    assert_eq!(cache_hit(&Ok(Some("garbage".to_string()))), None);
    assert_eq!(cache_hit(&Ok(None)), None);
    assert_eq!(cache_hit(&Err(CacheReadError::Timeout)), None);
}

#[test]
fn request_begins_by_reading_the_store() {
    let request = PolicyRequest::new("example.com");
    assert_eq!(request.pending(), CacheAction::ReadStore { key: "example.com".to_string() });
}

#[test]
fn steps_of_a_miss_in_order() {
    let request = PolicyRequest::new("example.com");
    let (request, action) = request.step(CacheEvent::Read(Ok(None)));
    assert_eq!(action, CacheAction::QueryTxt { name: "_dmarc.example.com".to_string() });
    assert_eq!(request.pending(), action);
    let (request, action) =
        request.step(CacheEvent::Lookup(Ok(vec!["v=DMARC1; p=quarantine".to_string()])));
    assert_eq!(action, CacheAction::WriteStore(entry("example.com", "Quarantine")));
    assert_eq!(request.pending(), action);
    let (request, action) = request.step(CacheEvent::Write(Ok(())));
    assert_eq!(action, CacheAction::Finish(Ok(DmarcPolicy::Quarantine)));
    assert_eq!(request.pending(), action);
}

#[test]
fn event_that_was_not_waited_for_changes_nothing() {
    let request = PolicyRequest::new("example.com");
    let reading = request.pending();
    let (request, action) = request.step(CacheEvent::Write(Ok(())));
    assert_eq!(action, reading);
    let (request, action) = request.step(CacheEvent::Lookup(Err(LookupError::Timeout)));
    assert_eq!(action, reading);

    let (request, resolving) = request.step(CacheEvent::Read(Err(CacheReadError::Network)));
    let (request, action) = request.step(CacheEvent::Read(Ok(Some("Reject".to_string()))));
    assert_eq!(action, resolving);
    let (request, action) = request.step(CacheEvent::Write(Err(WriteFailure::Timeout)));
    assert_eq!(action, resolving);

    let (request, writing) = request.step(CacheEvent::Lookup(Err(LookupError::Timeout)));
    assert_eq!(writing, CacheAction::WriteStore(entry("example.com", "None")));
    let (request, action) = request.step(CacheEvent::Read(Ok(None)));
    assert_eq!(action, writing);
    let (request, action) = request.step(CacheEvent::Lookup(Ok(Vec::new())));
    assert_eq!(action, writing);

    let (request, finished) = request.step(CacheEvent::Write(Ok(())));
    assert_eq!(finished, CacheAction::Finish(Ok(DmarcPolicy::NoEnforcement)));
    let (request, action) = request.step(CacheEvent::Write(Err(WriteFailure::Network)));
    assert_eq!(action, finished);
    let (_, action) = request.step(CacheEvent::Read(Ok(Some("Reject".to_string()))));
    assert_eq!(action, finished);
}
