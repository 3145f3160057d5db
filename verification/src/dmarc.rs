//! The DMARC record parser: from the TXT records found for a domain to the
//! policy that they publish.

use crate::policy::{policy_named, DmarcPolicy};
use crate::text::{
    chars_of, find, find_in_span, is_blank, lemma_find, lemma_find_bounds, lemma_find_concat,
    lemma_trim_padding, span_starts_with, starts_with, trim, trim_span,
};
use vstd::prelude::*;
use vstd::string::StringExecFns;

verus! {

/// Why a set of TXT records yields no policy.
#[derive(Debug, PartialEq, Eq)]
pub enum ParseError {
    /// No record begins with `v=DMARC1`.
    NoDmarcRecord,
    /// The DMARC record has no field that begins with `p=`.
    MissingPolicyTag,
    /// The policy field holds no `=`.
    MalformedPolicyTag,
    /// The policy field's value names no policy; the value is kept as found.
    UnknownPolicyValue(String),
}

/// A `ParseError` with its text as a sequence of characters.
pub enum ParseErrorView {
    NoDmarcRecord,
    MissingPolicyTag,
    MalformedPolicyTag,
    UnknownPolicyValue(Seq<char>),
}

impl View for ParseError {
    type V = ParseErrorView;

    open spec fn view(&self) -> ParseErrorView {
        match self {
            ParseError::NoDmarcRecord => ParseErrorView::NoDmarcRecord,
            ParseError::MissingPolicyTag => ParseErrorView::MissingPolicyTag,
            ParseError::MalformedPolicyTag => ParseErrorView::MalformedPolicyTag,
            ParseError::UnknownPolicyValue(value) => ParseErrorView::UnknownPolicyValue(value@),
        }
    }
}

impl ParseErrorView {
    /// The error in words.
    pub open spec fn message(self) -> Seq<char> {
        match self {
            ParseErrorView::NoDmarcRecord => "No DMARC record found in TXT"@,
            ParseErrorView::MissingPolicyTag => "No p= key-value pair found"@,
            ParseErrorView::MalformedPolicyTag =>
                "Found p property in TXT key-value pairs, but it has no value"@,
            ParseErrorView::UnknownPolicyValue(value) => "Unknown p= value: "@ + value,
        }
    }
}

impl ParseError {
    /// The error in words.
    pub fn message(&self) -> (text: String)
        ensures
            text@ == self@.message(),
    {
        match self {
            ParseError::NoDmarcRecord => String::from_str("No DMARC record found in TXT"),
            ParseError::MissingPolicyTag => String::from_str("No p= key-value pair found"),
            ParseError::MalformedPolicyTag => String::from_str(
                "Found p property in TXT key-value pairs, but it has no value",
            ),
            ParseError::UnknownPolicyValue(value) => String::from_str("Unknown p= value: ").concat(
                value.as_str(),
            ),
        }
    }
}

/// The first of `items` that is `wanted`.
pub open spec fn first_match<T>(items: Seq<T>, wanted: spec_fn(T) -> bool) -> Option<T>
    decreases items.len(),
{
    if items.len() == 0 {
        None
    } else if wanted(items[0]) {
        Some(items[0])
    } else {
        first_match(items.skip(1), wanted)
    }
}

/// Whether a TXT record is a DMARC record: it begins with `v=DMARC1`.
pub open spec fn is_dmarc_record(text: Seq<char>) -> bool {
    "v=DMARC1"@.is_prefix_of(text)
}

/// Whether a field of a DMARC record is the policy tag: it begins with `p=`.
pub open spec fn is_policy_tag(field: Seq<char>) -> bool {
    "p="@.is_prefix_of(field)
}

/// The first DMARC record among `records`.
pub open spec fn dmarc_record(records: Seq<Seq<char>>) -> Option<Seq<char>> {
    first_match(records, |text: Seq<char>| is_dmarc_record(text))
}

/// The fields of a record: the pieces between its `;`, each without the
/// whitespace at its ends.
pub open spec fn fields(record: Seq<char>) -> Seq<Seq<char>>
    decreases record.len(),
{
    let end = find(record, ';');
    if end < record.len() {
        seq![trim(record.take(end as int))] + fields(record.skip(end as int + 1))
    } else {
        seq![trim(record)]
    }
}

/// The first of `fields` that is a policy tag.
pub open spec fn first_policy_tag(fields: Seq<Seq<char>>) -> Option<Seq<char>> {
    first_match(fields, |field: Seq<char>| is_policy_tag(field))
}

/// The first field of `record` that is a policy tag.
pub open spec fn policy_tag(record: Seq<char>) -> Option<Seq<char>> {
    first_policy_tag(fields(record))
}

/// What follows the first `=` of `tag`.
pub open spec fn tag_value(tag: Seq<char>) -> Option<Seq<char>> {
    let eq = find(tag, '=');
    if eq < tag.len() {
        Some(tag.skip(eq as int + 1))
    } else {
        None
    }
}

/// The raw policy value of a DMARC record: what follows the first `=` of its
/// policy tag.
pub open spec fn p_value(record: Seq<char>) -> Result<Seq<char>, ParseErrorView> {
    match policy_tag(record) {
        None => Err(ParseErrorView::MissingPolicyTag),
        Some(tag) => match tag_value(tag) {
            Some(value) => Ok(value),
            None => Err(ParseErrorView::MalformedPolicyTag),
        },
    }
}

/// The policy that a set of TXT records publishes.
pub open spec fn parse(records: Seq<Seq<char>>) -> Result<DmarcPolicy, ParseErrorView> {
    match dmarc_record(records) {
        None => Err(ParseErrorView::NoDmarcRecord),
        Some(record) => match p_value(record) {
            Err(e) => Err(e),
            Ok(value) => match policy_named(value) {
                Some(policy) => Ok(policy),
                None => Err(ParseErrorView::UnknownPolicyValue(value)),
            },
        },
    }
}

/// `first_match` finds nothing exactly when no item is wanted, and else the
/// wanted item before which none is wanted.
pub proof fn lemma_first_match<T>(items: Seq<T>, wanted: spec_fn(T) -> bool)
    ensures
        first_match(items, wanted) is None <==> forall|i: int|
            0 <= i < items.len() ==> !wanted(#[trigger] items[i]),
        first_match(items, wanted) matches Some(found) ==> exists|i: int|
            0 <= i < items.len() && #[trigger] items[i] == found && wanted(found) && forall|j: int|
                0 <= j < i ==> !wanted(#[trigger] items[j]),
    decreases items.len(),
{
    if items.len() > 0 && !wanted(items[0]) {
        let rest = items.skip(1);
        lemma_first_match(rest, wanted);
        if first_match(rest, wanted) is None {
            assert forall|i: int| 0 <= i < items.len() implies !wanted(#[trigger] items[i]) by {
                if i > 0 {
                    assert(rest[i - 1] == items[i]);
                }
            }
        } else {
            let found = first_match(rest, wanted)->0;
            let k = choose|i: int|
                0 <= i < rest.len() && #[trigger] rest[i] == found && wanted(found) && forall|
                    j: int,
                | 0 <= j < i ==> !wanted(#[trigger] rest[j]);
            assert forall|j: int| 0 <= j < k + 1 implies !wanted(#[trigger] items[j]) by {
                if j > 0 {
                    assert(rest[j - 1] == items[j]);
                }
            }
        }
    }
}

/// A policy tag begins with `p=`, so its first `=` is its second character:
/// it always has a value, which is what follows those two characters.
pub proof fn lemma_policy_tag_has_value(tag: Seq<char>)
    requires
        is_policy_tag(tag),
    ensures
        tag_value(tag) == Some(tag.skip(2)),
{
    reveal_strlit("p=");
    assert(tag.subrange(0, 2)[0] == 'p');
    assert(tag.subrange(0, 2)[1] == '=');
    lemma_find(tag, '=', 1);
}

/// No DMARC record gives `MalformedPolicyTag`: a field that was found by its
/// `p=` cannot lack the `=`.
pub proof fn law_policy_tag_is_never_malformed(record: Seq<char>)
    ensures
        p_value(record) != Err::<Seq<char>, ParseErrorView>(ParseErrorView::MalformedPolicyTag),
{
    lemma_first_match(fields(record), |field: Seq<char>| is_policy_tag(field));
    if policy_tag(record) is Some {
        lemma_policy_tag_has_value(policy_tag(record)->0);
    }
}

/// The fields of two texts joined by a `;` are the fields of the one, then
/// those of the other.
pub proof fn lemma_fields_concat(a: Seq<char>, b: Seq<char>)
    ensures
        fields(a + seq![';'] + b) == fields(a) + fields(b),
    decreases a.len(),
{
    let joined = a + seq![';'] + b;
    let end = find(a, ';') as int;
    lemma_find_bounds(a, ';');
    lemma_find_concat(a + seq![';'], b, ';');
    lemma_find_concat(a, seq![';'], ';');
    assert(joined.take(end) =~= a.take(end));
    if end < a.len() {
        assert(joined.skip(end + 1) =~= a.skip(end + 1) + seq![';'] + b);
        lemma_fields_concat(a.skip(end + 1), b);
    } else {
        assert(a.take(end) =~= a);
        assert(joined.skip(end + 1) =~= b);
    }
}

/// Whitespace at the ends of a text does not change its fields.
pub proof fn lemma_fields_padding(left: Seq<char>, s: Seq<char>, right: Seq<char>)
    requires
        is_blank(left),
        is_blank(right),
    ensures
        fields(left + s + right) == fields(s),
    decreases s.len(),
{
    let padded = left + s + right;
    let end = find(s, ';') as int;
    lemma_find_bounds(s, ';');
    lemma_find_bounds(left, ';');
    lemma_find_bounds(right, ';');
    assert(find(left, ';') == left.len());
    assert(find(right, ';') == right.len());
    lemma_find_concat(left, s, ';');
    lemma_find_concat(left + s, right, ';');
    let none = Seq::<char>::empty();
    if end < s.len() {
        assert(padded.take(left.len() as int + end) =~= left + s.take(end) + none);
        lemma_trim_padding(left, s.take(end), none);
        assert(padded.skip(left.len() as int + end + 1) =~= none + s.skip(end + 1) + right);
        lemma_fields_padding(none, s.skip(end + 1), right);
    } else {
        lemma_trim_padding(left, s, right);
    }
}

/// Whitespace on either side of a `;`, and at the ends of a record, changes
/// neither the fields of the record nor, with them, its policy value: a
/// record may say `; p=reject` or `;p=reject`.
pub proof fn law_whitespace_around_fields(
    a: Seq<char>,
    b: Seq<char>,
    left: Seq<char>,
    right: Seq<char>,
)
    requires
        is_blank(left),
        is_blank(right),
    ensures
        fields(a + left + seq![';'] + right + b) == fields(a + seq![';'] + b),
        p_value(a + left + seq![';'] + right + b) == p_value(a + seq![';'] + b),
        fields(left + a + right) == fields(a),
        p_value(left + a + right) == p_value(a),
{
    let none = Seq::<char>::empty();
    assert(a + left + seq![';'] + right + b =~= (a + left) + seq![';'] + (right + b));
    lemma_fields_concat(a + left, right + b);
    lemma_fields_concat(a, b);
    lemma_fields_padding(none, a, left);
    lemma_fields_padding(right, b, none);
    lemma_fields_padding(left, a, right);
}

/// The first of the TXT records that is a DMARC record.
pub fn extract_dmarc_record(txt_lookup: &Vec<String>) -> (res: Result<String, ParseError>)
    ensures
        match dmarc_record(txt_lookup.deep_view()) {
            Some(record) => res matches Ok(found) && found@ == record,
            None => res matches Err(ParseError::NoDmarcRecord),
        },
        res is Err <==> forall|i: int|
            0 <= i < txt_lookup.len() ==> !is_dmarc_record(#[trigger] txt_lookup[i]@),
{
    let prefix = chars_of("v=DMARC1");
    let ghost records = txt_lookup.deep_view();
    let mut i: usize = 0;
    assert(records.skip(0) =~= records);
    while i < txt_lookup.len()
        invariant
            i <= txt_lookup.len(),
            prefix@ == "v=DMARC1"@,
            records == txt_lookup.deep_view(),
            dmarc_record(records) == dmarc_record(records.skip(i as int)),
            forall|j: int| 0 <= j < i ==> !is_dmarc_record(#[trigger] txt_lookup[j]@),
        decreases txt_lookup.len() - i,
    {
        let ghost rest = records.skip(i as int);
        assert(rest.skip(1) =~= records.skip(i + 1));
        if starts_with(txt_lookup[i].as_str(), &prefix) {
            return Ok(txt_lookup[i].clone());
        }
        i += 1;
    }
    Err(ParseError::NoDmarcRecord)
}

/// The raw policy value of a DMARC record: what follows the first `=` of the
/// first field that begins with `p=`.
pub fn retrieve_p_value(dmarc_record: &str) -> (res: Result<String, ParseError>)
    ensures
        match p_value(dmarc_record@) {
            Ok(value) => res matches Ok(found) && found@ == value,
            Err(e) => res matches Err(err) && err@ == e,
        },
        match policy_tag(dmarc_record@) {
            Some(tag) => res matches Ok(found) && found@ == tag.skip(2),
            None => res matches Err(ParseError::MissingPolicyTag),
        },
{
    let text = chars_of(dmarc_record);
    let marker = chars_of("p=");
    let n = text.len();
    let mut start: usize = 0;
    assert(text@.skip(0) =~= text@);
    loop
        invariant
            start <= n == text.len(),
            text@ == dmarc_record@,
            marker@ == "p="@,
            policy_tag(text@) == first_policy_tag(fields(text@.skip(start as int))),
        decreases n - start,
    {
        let end = find_in_span(&text, start, n, ';');
        let (first, last) = trim_span(&text, start, end);
        proof {
            let rest = text@.skip(start as int);
            assert(rest.take(end - start) =~= text@.subrange(start as int, end as int));
            if end < n {
                assert(rest.skip(end - start + 1) =~= text@.skip(end + 1));
                assert(fields(rest).skip(1) =~= fields(text@.skip(end + 1)));
            } else {
                assert(first_policy_tag(fields(rest).skip(1)) is None);
            }
        }
        if span_starts_with(&text, first, last, &marker) {
            let ghost tag = text@.subrange(first as int, last as int);
            proof {
                lemma_policy_tag_has_value(tag);
            }
            let eq = find_in_span(&text, first, last, '=');
            if eq == last {
                return Err(ParseError::MalformedPolicyTag);
            }
            let value = dmarc_record.substring_char(eq + 1, last);
            return Ok(value.to_owned());
        }
        if end == n {
            return Err(ParseError::MissingPolicyTag);
        }
        start = end + 1;
    }
}

/// The policy that the TXT records found for a domain publish: the value of
/// the policy tag of the first DMARC record among them.
pub fn get_dmarc_policy_for_domain(txt_lookup: &Vec<String>) -> (res: Result<
    DmarcPolicy,
    ParseError,
>)
    ensures
        match parse(txt_lookup.deep_view()) {
            Ok(policy) => res == Ok::<DmarcPolicy, ParseError>(policy),
            Err(e) => res matches Err(err) && err@ == e,
        },
        res matches Err(ParseError::NoDmarcRecord) <==> forall|i: int|
            0 <= i < txt_lookup.len() ==> !is_dmarc_record(#[trigger] txt_lookup[i]@),
        !(res matches Err(ParseError::MalformedPolicyTag)),
{
    let dmarc_record = match extract_dmarc_record(txt_lookup) {
        Ok(record) => record,
        Err(e) => {
            return Err(e);
        },
    };
    let p_value = match retrieve_p_value(dmarc_record.as_str()) {
        Ok(value) => value,
        Err(e) => {
            return Err(e);
        },
    };
    match DmarcPolicy::from_name(p_value.as_str()) {
        Some(policy) => Ok(policy),
        None => Err(ParseError::UnknownPolicyValue(p_value)),
    }
}

} // verus!
