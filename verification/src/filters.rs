//! The filter engine. A filter set combines with AND semantics (every
//! predicate must match) or OR semantics (any predicate may match, duplicate
//! identifiers coalesced). Deleted records are excluded before any predicate
//! runs, in both modes; with zero filters AND returns the full non-deleted
//! set unchanged while OR returns the empty set.

use vstd::prelude::*;

use crate::events::{EventResponse, EventResponseV};
use crate::identifier::{Identifier, IdentifierV};
use crate::types::{DateRange, PrincipalId};

verus! {

/// How the predicates of a filter set combine.
#[derive(Clone, Copy, PartialEq, Eq, Structural, Debug)]
pub enum FilterType {
    And,
    Or,
}

/// One predicate over a record.
#[derive(Debug)]
pub enum EventFilter {
    /// Substring match on the record name.
    Name(String),
    /// The record's start date lies in the window.
    StartDate(DateRange),
    /// The record's end date lies in the window.
    EndDate(DateRange),
    /// Equality on the owner identity.
    Owner(PrincipalId),
    /// Membership in an identifier set.
    Identifiers(Vec<Identifier>),
    /// Membership of one tag in the record's tag set.
    Tag(u32),
    /// Equality on the cancellation flag.
    IsCanceled(bool),
    /// The record's last-update time lies in the window.
    UpdatedOn(DateRange),
    /// The record's creation time lies in the window.
    CreatedOn(DateRange),
}

/// Spec-level image of an [`EventFilter`].
#[verifier::ext_equal]
pub enum EventFilterV {
    Name(Seq<char>),
    StartDate(DateRange),
    EndDate(DateRange),
    Owner(PrincipalId),
    Identifiers(Seq<IdentifierV>),
    Tag(u32),
    IsCanceled(bool),
    UpdatedOn(DateRange),
    CreatedOn(DateRange),
}

impl View for EventFilter {
    type V = EventFilterV;

    open spec fn view(&self) -> EventFilterV {
        match self {
            EventFilter::Name(s) => EventFilterV::Name(s@),
            EventFilter::StartDate(d) => EventFilterV::StartDate(*d),
            EventFilter::EndDate(d) => EventFilterV::EndDate(*d),
            EventFilter::Owner(p) => EventFilterV::Owner(*p),
            EventFilter::Identifiers(ids) => EventFilterV::Identifiers(
                ids@.map_values(|id: Identifier| id@),
            ),
            EventFilter::Tag(t) => EventFilterV::Tag(*t),
            EventFilter::IsCanceled(b) => EventFilterV::IsCanceled(*b),
            EventFilter::UpdatedOn(d) => EventFilterV::UpdatedOn(*d),
            EventFilter::CreatedOn(d) => EventFilterV::CreatedOn(*d),
        }
    }
}

/// Copies a list of identifiers.
#[verifier::loop_isolation(false)]
fn clone_identifiers(v: &Vec<Identifier>) -> (r: Vec<Identifier>)
    ensures
        r@.len() == v@.len(),
        forall|k: int| 0 <= k < v@.len() ==> (#[trigger] r@[k])@ == v@[k]@,
{
    let mut out: Vec<Identifier> = Vec::new();
    let mut i: usize = 0;
    while i < v.len()
        invariant
            i <= v.len(),
            out@.len() == i,
            forall|k: int| 0 <= k < i ==> (#[trigger] out@[k])@ == v@[k]@,
        decreases v.len() - i,
    {
        out.push(v[i].clone());
        i = i + 1;
    }
    out
}

impl Clone for EventFilter {
    fn clone(&self) -> (r: Self)
        ensures
            r@ == self@,
    {
        match self {
            EventFilter::Name(s) => EventFilter::Name(s.clone()),
            EventFilter::StartDate(d) => EventFilter::StartDate(*d),
            EventFilter::EndDate(d) => EventFilter::EndDate(*d),
            EventFilter::Owner(p) => EventFilter::Owner(*p),
            EventFilter::Identifiers(ids) => {
                let copied = clone_identifiers(ids);
                let r = EventFilter::Identifiers(copied);
                proof {
                    assert(r@->Identifiers_0 =~= self@->Identifiers_0);
                    assert(r@ =~= self@);
                }
                r
            },
            EventFilter::Tag(t) => EventFilter::Tag(*t),
            EventFilter::IsCanceled(b) => EventFilter::IsCanceled(*b),
            EventFilter::UpdatedOn(d) => EventFilter::UpdatedOn(*d),
            EventFilter::CreatedOn(d) => EventFilter::CreatedOn(*d),
        }
    }
}

/// Whether `value` lies in the window: with an upper bound of `0` the window
/// is lower-bound-only, otherwise both bounds must hold.
pub open spec fn in_date_range(value: u64, dr: DateRange) -> bool {
    if dr.end_date > 0 {
        dr.start_date <= value && value <= dr.end_date
    } else {
        dr.start_date <= value
    }
}

/// Whether `needle` occurs as a contiguous run of characters in `haystack`.
pub open spec fn contains_sub(haystack: Seq<char>, needle: Seq<char>) -> bool {
    exists|i: int|
        0 <= i && i + needle.len() <= haystack.len() && #[trigger] haystack.subrange(
            i,
            i + needle.len(),
        ) == needle
}

/// Whether the record matches one predicate.
pub open spec fn matches_filter(e: EventResponseV, f: EventFilterV) -> bool {
    match f {
        EventFilterV::Name(s) => contains_sub(e.name, s),
        EventFilterV::StartDate(dr) => in_date_range(e.date.start_date, dr),
        EventFilterV::EndDate(dr) => in_date_range(e.date.end_date, dr),
        EventFilterV::Owner(p) => e.owner == p,
        EventFilterV::Identifiers(ids) => exists|i: int| 0 <= i < ids.len() && ids[i] == e.identifier,
        EventFilterV::Tag(t) => e.tags.contains(t),
        EventFilterV::IsCanceled(b) => e.is_canceled.0 == b,
        EventFilterV::UpdatedOn(dr) => in_date_range(e.updated_on, dr),
        EventFilterV::CreatedOn(dr) => in_date_range(e.created_on, dr),
    }
}

/// Whether the record matches every predicate of the set.
pub open spec fn matches_all(e: EventResponse, fs: Seq<EventFilter>) -> bool {
    forall|i: int| 0 <= i < fs.len() ==> matches_filter(e@, #[trigger] fs[i]@)
}

/// Whether the record matches at least one predicate of the set.
pub open spec fn matches_any(e: EventResponse, fs: Seq<EventFilter>) -> bool {
    exists|i: int| 0 <= i < fs.len() && matches_filter(e@, #[trigger] fs[i]@)
}

/// Whether `needle` matches the characters of `haystack` starting at `at`.
#[verifier::loop_isolation(false)]
fn match_at(haystack: &String, needle: &String, at: usize) -> (r: bool)
    requires
        at + needle@.len() <= haystack@.len(),
        haystack@.len() <= usize::MAX,
    ensures
        r == (haystack@.subrange(at as int, at + needle@.len()) == needle@),
{
    let nl = needle.as_str().unicode_len();
    let mut j: usize = 0;
    while j < nl
        invariant
            j <= nl,
            nl == needle@.len(),
            at + nl <= haystack@.len(),
            forall|k: int| 0 <= k < j ==> haystack@[at + k] == needle@[k],
        decreases nl - j,
    {
        if haystack.as_str().get_char(at + j) != needle.as_str().get_char(j) {
            proof {
                let sub = haystack@.subrange(at as int, at + needle@.len());
                assert(sub[j as int] != needle@[j as int]);
            }
            return false;
        }
        j = j + 1;
    }
    proof {
        assert(haystack@.subrange(at as int, at + needle@.len()) =~= needle@);
    }
    true
}

/// Whether `needle` occurs as a substring of `haystack`, by characters.
#[verifier::loop_isolation(false)]
pub fn substring_match(haystack: &String, needle: &String) -> (r: bool)
    ensures
        r == contains_sub(haystack@, needle@),
{
    let hl = haystack.as_str().unicode_len();
    let nl = needle.as_str().unicode_len();
    if nl > hl {
        return false;
    }
    if nl == 0 {
        proof {
            assert(haystack@.subrange(0, 0 + needle@.len() as int) =~= needle@);
            assert(contains_sub(haystack@, needle@));
        }
        return true;
    }
    let mut i: usize = 0;
    while i <= hl - nl
        invariant
            1 <= nl <= hl,
            hl == haystack@.len(),
            nl == needle@.len(),
            i <= hl - nl + 1,
            forall|k: int|
                0 <= k < i ==> #[trigger] haystack@.subrange(k, k + needle@.len()) != needle@,
        decreases hl - nl + 1 - i,
    {
        if match_at(haystack, needle, i) {
            proof {
                assert(haystack@.subrange(i as int, i + needle@.len()) == needle@);
            }
            return true;
        }
        i = i + 1;
    }
    false
}

/// Whether `id` equals the identifier of any element of `out`.
pub open spec fn has_id(s: Seq<EventResponse>, id: IdentifierV) -> bool {
    exists|i: int| 0 <= i < s.len() && #[trigger] s[i]@.identifier == id
}

/// Whether any already-kept response carries this identifier.
#[verifier::loop_isolation(false)]
fn contains_id(out: &Vec<EventResponse>, id: &Identifier) -> (r: bool)
    ensures
        r == has_id(out@, id@),
{
    let mut i: usize = 0;
    while i < out.len()
        invariant
            i <= out.len(),
            forall|k: int| 0 <= k < i ==> #[trigger] out@[k]@.identifier != id@,
        decreases out.len() - i,
    {
        if out[i].identifier == *id {
            proof {
                assert(out@[i as int]@.identifier =~= id@);
            }
            return true;
        }
        proof {
            assert(!(out@[i as int]@.identifier =~= id@));
        }
        i = i + 1;
    }
    false
}

/// Appending one element to a sequence keeps it if and only if the
/// predicate accepts it.
pub proof fn lemma_filter_push<A>(s: Seq<A>, pred: spec_fn(A) -> bool, e: A)
    ensures
        s.push(e).filter(pred) == if pred(e) {
            s.filter(pred).push(e)
        } else {
            s.filter(pred)
        },
{
    reveal(Seq::filter);
    let t = s.push(e);
    assert(t.drop_last() =~= s);
    assert(t.last() == e);
}

/// Whether the record matches one predicate, decided executably.
#[verifier::loop_isolation(false)]
pub fn event_matches_filter(e: &EventResponse, f: &EventFilter) -> (r: bool)
    ensures
        r == matches_filter(e@, f@),
{
    match f {
        EventFilter::Name(s) => substring_match(&e.name, s),
        EventFilter::StartDate(dr) => date_in_range(e.date.start_date, dr),
        EventFilter::EndDate(dr) => date_in_range(e.date.end_date, dr),
        EventFilter::Owner(p) => e.owner == *p,
        EventFilter::Identifiers(ids) => {
            let mut i: usize = 0;
            let ghost idsv = f@->Identifiers_0;
            proof {
                assert(idsv.len() == ids@.len());
            }
            let mut found = false;
            while i < ids.len()
                invariant
                    i <= ids.len(),
                    idsv == f@->Identifiers_0,
                    idsv.len() == ids@.len(),
                    forall|k: int| 0 <= k < ids@.len() ==> #[trigger] idsv[k] == ids@[k]@,
                    found == exists|k: int| 0 <= k < i && #[trigger] idsv[k] == e@.identifier,
                decreases ids.len() - i,
            {
                if ids[i] == e.identifier {
                    proof {
                        assert(ids@[i as int]@ =~= e@.identifier);
                        assert(idsv[i as int] == e@.identifier);
                    }
                    found = true;
                } else {
                    proof {
                        assert(!(ids@[i as int]@ =~= e@.identifier));
                        assert(idsv[i as int] != e@.identifier);
                    }
                }
                i = i + 1;
            }
            proof {
                if found {
                    assert(matches_filter(e@, f@));
                } else {
                    assert(forall|k: int| 0 <= k < idsv.len() ==> #[trigger] idsv[k] != e@.identifier);
                    assert(!matches_filter(e@, f@));
                }
            }
            found
        },
        EventFilter::Tag(t) => {
            let mut i: usize = 0;
            while i < e.tags.len()
                invariant
                    i <= e.tags.len(),
                    forall|k: int| 0 <= k < i ==> e.tags@[k] != t,
                decreases e.tags.len() - i,
            {
                if e.tags[i] == *t {
                    proof {
                        assert(e@.tags[i as int] == t);
                        assert(e@.tags.contains(*t));
                    }
                    return true;
                }
                i = i + 1;
            }
            proof {
                assert(forall|k: int| 0 <= k < e@.tags.len() ==> e@.tags[k] != t);
                assert(!e@.tags.contains(*t));
            }
            false
        },
        EventFilter::IsCanceled(b) => e.is_canceled.0 == *b,
        EventFilter::UpdatedOn(dr) => date_in_range(e.updated_on, dr),
        EventFilter::CreatedOn(dr) => date_in_range(e.created_on, dr),
    }
}

/// Whether `value` lies in the window, decided executably.
pub fn date_in_range(value: u64, dr: &DateRange) -> (r: bool)
    ensures
        r == in_date_range(value, *dr),
{
    if dr.end_date > 0 {
        dr.start_date <= value && value <= dr.end_date
    } else {
        dr.start_date <= value
    }
}

/// Whether the record matches every predicate, decided executably.
#[verifier::loop_isolation(false)]
pub fn event_matches_all(e: &EventResponse, fs: &Vec<EventFilter>) -> (r: bool)
    ensures
        r == matches_all(*e, fs@),
{
    let mut i: usize = 0;
    while i < fs.len()
        invariant
            i <= fs.len(),
            forall|k: int| 0 <= k < i ==> matches_filter(e@, #[trigger] fs@[k]@),
        decreases fs.len() - i,
    {
        if !event_matches_filter(e, &fs[i]) {
            return false;
        }
        i = i + 1;
    }
    true
}

/// Whether the record matches at least one predicate, decided executably.
#[verifier::loop_isolation(false)]
pub fn event_matches_any(e: &EventResponse, fs: &Vec<EventFilter>) -> (r: bool)
    ensures
        r == matches_any(*e, fs@),
{
    let mut i: usize = 0;
    while i < fs.len()
        invariant
            i <= fs.len(),
            forall|k: int| 0 <= k < i ==> !matches_filter(e@, #[trigger] fs@[k]@),
        decreases fs.len() - i,
    {
        if event_matches_filter(e, &fs[i]) {
            return true;
        }
        i = i + 1;
    }
    false
}

/// The predicate kept by AND filtering: not deleted and matching every
/// filter of the set.
pub open spec fn and_pred(fs: Seq<EventFilter>) -> spec_fn(EventResponse) -> bool {
    |e: EventResponse| !e@.is_deleted && matches_all(e, fs)
}

/// The predicate kept by a read with no filters: not soft-deleted.
pub open spec fn live_pred() -> spec_fn(EventResponse) -> bool {
    |e: EventResponse| !e@.is_deleted
}

/// AND filtering: the non-deleted records matching every predicate, in input
/// order. With zero predicates this is the full non-deleted set unchanged.
pub open spec fn spec_and_filter(s: Seq<EventResponse>, fs: Seq<EventFilter>) -> Seq<
    EventResponse,
> {
    s.filter(and_pred(fs))
}

/// OR filtering: the non-deleted records matching at least one predicate, in
/// input order, keeping only the first record of each identifier. With zero
/// predicates this is the empty set.
pub open spec fn spec_or_filter(s: Seq<EventResponse>, fs: Seq<EventFilter>) -> Seq<EventResponse>
    decreases s.len(),
{
    if s.len() == 0 {
        Seq::<EventResponse>::empty()
    } else {
        let pre = spec_or_filter(s.drop_last(), fs);
        let e = s.last();
        if !e@.is_deleted && matches_any(e, fs) && !has_id(pre, e@.identifier) {
            pre.push(e)
        } else {
            pre
        }
    }
}

/// Applies a filter set to a list of responses. Deleted records are dropped
/// in both modes before the predicates run.
#[verifier::loop_isolation(false)]
pub fn get_filtered_events(
    events: Vec<EventResponse>,
    filters: Vec<EventFilter>,
    filter_type: FilterType,
) -> (r: Vec<EventResponse>)
    ensures
        (filter_type == FilterType::And ==> r@ == spec_and_filter(events@, filters@)),
        (filter_type == FilterType::Or ==> r@ == spec_or_filter(events@, filters@)),
{
    let ghost orig = events@;
    let mut events = events;
    let mut out: Vec<EventResponse> = Vec::new();
    match filter_type {
        FilterType::And => {
            while events.len() > 0
                invariant
                    events@.len() <= orig.len(),
                    orig.subrange(orig.len() - events@.len(), orig.len() as int) == events@,
                    out@ == spec_and_filter(
                        orig.subrange(0, orig.len() - events@.len()),
                        filters@,
                    ),
                decreases events@.len(),
            {
                let ghost k = orig.len() - events@.len();
                let e = events.remove(0);
                proof {
                    assert(e == orig[k]);
                    assert(orig.subrange(k + 1, orig.len() as int) =~= events@);
                }
                let keep = !e.is_deleted && event_matches_all(&e, &filters);
                proof {
                    let pre = orig.subrange(0, k);
                    let cur = orig.subrange(0, k + 1);
                    assert(cur =~= pre.push(e));
                    lemma_filter_push(pre, and_pred(filters@), e);
                    assert(keep == and_pred(filters@)(e));
                }
                if keep {
                    out.push(e);
                }
            }
            proof {
                assert(orig.subrange(0, orig.len() as int) =~= orig);
            }
            out
        },
        FilterType::Or => {
            while events.len() > 0
                invariant
                    events@.len() <= orig.len(),
                    orig.subrange(orig.len() - events@.len(), orig.len() as int) == events@,
                    out@ == spec_or_filter(orig.subrange(0, orig.len() - events@.len()), filters@),
                decreases events@.len(),
            {
                let ghost k = orig.len() - events@.len();
                let e = events.remove(0);
                proof {
                    assert(e == orig[k]);
                    assert(orig.subrange(k + 1, orig.len() as int) =~= events@);
                    let pre = orig.subrange(0, k);
                    let cur = orig.subrange(0, k + 1);
                    assert(cur.drop_last() =~= pre);
                    assert(cur.last() == e);
                }
                if !e.is_deleted && event_matches_any(&e, &filters) && !contains_id(
                    &out,
                    &e.identifier,
                ) {
                    out.push(e);
                }
            }
            proof {
                assert(orig.subrange(0, orig.len() as int) =~= orig);
            }
            out
        },
    }
}

/// The explicit zero-filter asymmetry: with no predicates, AND filtering
/// returns the full non-deleted set unchanged and OR filtering returns the
/// empty set.
pub proof fn lemma_zero_filters(s: Seq<EventResponse>)
    ensures
        spec_and_filter(s, Seq::<EventFilter>::empty()) == s.filter(live_pred()),
        spec_or_filter(s, Seq::<EventFilter>::empty()) == Seq::<EventResponse>::empty(),
    decreases s.len(),
{
    reveal(Seq::filter);
    let none = Seq::<EventFilter>::empty();
    if s.len() == 0 {
        assert(spec_and_filter(s, none) =~= s.filter(live_pred()));
    } else {
        lemma_zero_filters(s.drop_last());
        assert(matches_all(s.last(), none));
        assert(!matches_any(s.last(), none));
        assert(and_pred(none)(s.last()) == live_pred()(s.last()));
        assert(s.filter(and_pred(none)) =~= s.filter(live_pred()));
    }
}

} // verus!
