//! Sorting of read-side records: by created time, updated time, range start,
//! range end, or summed participation count, ascending or descending. The
//! sort is stable — records with equal keys keep their input order — which
//! the contract pins down exactly as an insertion of each record, in input
//! order, after every record that does not compare strictly greater.

use vstd::prelude::*;

use crate::events::EventResponse;

verus! {

/// Which way a sort runs.
#[derive(Clone, Copy, PartialEq, Eq, Structural, Debug)]
pub enum SortDirection {
    Asc,
    Desc,
}

/// The field a list of records is ordered by, with its direction.
#[derive(Clone, Copy, PartialEq, Eq, Structural, Debug)]
pub enum EventSort {
    CreatedOn(SortDirection),
    UpdatedOn(SortDirection),
    StartDate(SortDirection),
    EndDate(SortDirection),
    AttendeeCount(SortDirection),
}

/// The numeric key a record is ordered by under `sort`.
pub open spec fn spec_sort_key(sort: EventSort, e: EventResponse) -> u64 {
    match sort {
        EventSort::CreatedOn(_) => e@.created_on,
        EventSort::UpdatedOn(_) => e@.updated_on,
        EventSort::StartDate(_) => e@.date.start_date,
        EventSort::EndDate(_) => e@.date.end_date,
        EventSort::AttendeeCount(_) => e@.attendee_count as u64,
    }
}

/// The direction of a sort.
pub open spec fn spec_direction(sort: EventSort) -> SortDirection {
    match sort {
        EventSort::CreatedOn(d) => d,
        EventSort::UpdatedOn(d) => d,
        EventSort::StartDate(d) => d,
        EventSort::EndDate(d) => d,
        EventSort::AttendeeCount(d) => d,
    }
}

/// Whether `a` may stand before `b` under `sort`.
pub open spec fn sort_le(sort: EventSort, a: EventResponse, b: EventResponse) -> bool {
    match spec_direction(sort) {
        SortDirection::Asc => spec_sort_key(sort, a) <= spec_sort_key(sort, b),
        SortDirection::Desc => spec_sort_key(sort, a) >= spec_sort_key(sort, b),
    }
}

/// Whether the sequence is ordered under `sort`.
pub open spec fn sorted_by_key(s: Seq<EventResponse>, sort: EventSort) -> bool {
    forall|i: int, j: int| 0 <= i < j < s.len() ==> #[trigger] sort_le(sort, s[i], s[j])
}

/// Inserting `e` into `s` after every element that does not compare strictly
/// greater; on a sorted sequence this places `e` after all its ties.
pub open spec fn spec_insert_sorted(
    s: Seq<EventResponse>,
    e: EventResponse,
    sort: EventSort,
) -> Seq<EventResponse>
    decreases s.len(),
{
    if s.len() == 0 {
        seq![e]
    } else if sort_le(sort, s.last(), e) {
        s.push(e)
    } else {
        spec_insert_sorted(s.drop_last(), e, sort).push(s.last())
    }
}

/// The stable sort of `s` under `sort`: each record inserted in input order.
pub open spec fn spec_sort_events(s: Seq<EventResponse>, sort: EventSort) -> Seq<EventResponse>
    decreases s.len(),
{
    if s.len() == 0 {
        Seq::<EventResponse>::empty()
    } else {
        spec_insert_sorted(spec_sort_events(s.drop_last(), sort), s.last(), sort)
    }
}

/// The numeric key a record is ordered by, computed executably.
fn event_sort_key(sort: &EventSort, e: &EventResponse) -> (k: u64)
    ensures
        k == spec_sort_key(*sort, *e),
{
    match sort {
        EventSort::CreatedOn(_) => e.created_on,
        EventSort::UpdatedOn(_) => e.updated_on,
        EventSort::StartDate(_) => e.date.start_date,
        EventSort::EndDate(_) => e.date.end_date,
        EventSort::AttendeeCount(_) => e.attendee_count as u64,
    }
}

/// Whether `a` may stand before `b`, decided executably.
fn compare_le(sort: &EventSort, a: &EventResponse, b: &EventResponse) -> (r: bool)
    ensures
        r == sort_le(*sort, *a, *b),
{
    let ka = event_sort_key(sort, a);
    let kb = event_sort_key(sort, b);
    let asc = match sort {
        EventSort::CreatedOn(d) => matches!(d, SortDirection::Asc),
        EventSort::UpdatedOn(d) => matches!(d, SortDirection::Asc),
        EventSort::StartDate(d) => matches!(d, SortDirection::Asc),
        EventSort::EndDate(d) => matches!(d, SortDirection::Asc),
        EventSort::AttendeeCount(d) => matches!(d, SortDirection::Asc),
    };
    if asc {
        ka <= kb
    } else {
        ka >= kb
    }
}

/// Inserts `e` into the sorted vector `out`, after all ties.
#[verifier::loop_isolation(false)]
fn insert_in_order(out: &mut Vec<EventResponse>, e: EventResponse, sort: &EventSort)
    ensures
        final(out)@ == spec_insert_sorted(old(out)@, e, *sort),
{
    let ghost s = out@;
    let mut j: usize = out.len();
    proof {
        assert(s.subrange(0, s.len() as int) =~= s);
        assert(spec_insert_sorted(s.subrange(0, s.len() as int), e, *sort) + s.subrange(
            s.len() as int,
            s.len() as int,
        ) =~= spec_insert_sorted(s, e, *sort));
    }
    while j > 0 && !compare_le(sort, &out[j - 1], &e)
        invariant
            j <= s.len(),
            out@ == s,
            spec_insert_sorted(s, e, *sort) == spec_insert_sorted(
                s.subrange(0, j as int),
                e,
                *sort,
            ) + s.subrange(j as int, s.len() as int),
        decreases j,
    {
        proof {
            let pre = s.subrange(0, j as int);
            let shorter = s.subrange(0, j - 1);
            assert(pre.last() == s[j - 1]);
            assert(pre.drop_last() =~= shorter);
            assert(spec_insert_sorted(pre, e, *sort) == spec_insert_sorted(shorter, e, *sort).push(
                s[j - 1],
            ));
            assert(spec_insert_sorted(shorter, e, *sort).push(s[j - 1]) + s.subrange(
                j as int,
                s.len() as int,
            ) =~= spec_insert_sorted(shorter, e, *sort) + s.subrange(j - 1, s.len() as int));
        }
        j = j - 1;
    }
    proof {
        let pre = s.subrange(0, j as int);
        if j == 0 {
            assert(pre =~= Seq::<EventResponse>::empty());
            assert(spec_insert_sorted(pre, e, *sort) == pre.push(e));
        } else {
            assert(pre.last() == s[j - 1]);
            assert(sort_le(*sort, s[j - 1], e));
            assert(spec_insert_sorted(pre, e, *sort) == pre.push(e));
        }
    }
    out.insert(j, e);
    proof {
        assert(out@ =~= s.subrange(0, j as int).push(e) + s.subrange(j as int, s.len() as int));
    }
}

/// Sorts the records under `sort`: the result is exactly the stable
/// insertion, in input order, of every record.
#[verifier::loop_isolation(false)]
pub fn get_ordered_events(events: Vec<EventResponse>, sort: EventSort) -> (r: Vec<EventResponse>)
    ensures
        r@ == spec_sort_events(events@, sort),
{
    let ghost orig = events@;
    let mut events = events;
    let mut out: Vec<EventResponse> = Vec::new();
    while events.len() > 0
        invariant
            events@.len() <= orig.len(),
            orig.subrange(orig.len() - events@.len(), orig.len() as int) == events@,
            out@ == spec_sort_events(orig.subrange(0, orig.len() - events@.len()), sort),
        decreases events@.len(),
    {
        let ghost k = orig.len() - events@.len();
        let e = events.remove(0);
        proof {
            assert(e == orig[k]);
            assert(orig.subrange(k + 1, orig.len() as int) =~= events@);
            let pre = orig.subrange(0, k);
            let cur = orig.subrange(0, k + 1);
            assert(cur.drop_last() =~= pre);
            assert(cur.last() == e);
        }
        insert_in_order(&mut out, e, &sort);
    }
    proof {
        assert(orig.subrange(0, orig.len() as int) =~= orig);
    }
    out
}

/// Inserting into a sorted sequence keeps it sorted, adds exactly the new
/// record to the contents, and introduces no other record.
pub proof fn lemma_insert_sorted_properties(s: Seq<EventResponse>, e: EventResponse, sort: EventSort)
    requires
        sorted_by_key(s, sort),
    ensures
        sorted_by_key(spec_insert_sorted(s, e, sort), sort),
        spec_insert_sorted(s, e, sort).to_multiset() == s.to_multiset().insert(e),
        forall|i: int|
            0 <= i < spec_insert_sorted(s, e, sort).len() ==> (#[trigger] spec_insert_sorted(
                s,
                e,
                sort,
            )[i] == e || s.contains(spec_insert_sorted(s, e, sort)[i])),
    decreases s.len(),
{
    broadcast use vstd::seq_lib::group_to_multiset_ensures;

    let r = spec_insert_sorted(s, e, sort);
    if s.len() == 0 {
        assert(r =~= Seq::<EventResponse>::empty().push(e));
        assert(r.to_multiset() =~= s.to_multiset().insert(e));
    } else if sort_le(sort, s.last(), e) {
        assert(r == s.push(e));
        assert forall|i: int, j: int| 0 <= i < j < r.len() implies #[trigger] sort_le(
            sort,
            r[i],
            r[j],
        ) by {
            if j < r.len() - 1 {
                assert(sort_le(sort, s[i], s[j]));
            } else {
                if i < s.len() - 1 {
                    assert(sort_le(sort, s[i], s.last()));
                }
            }
        }
        assert forall|i: int| 0 <= i < r.len() implies (#[trigger] r[i] == e || s.contains(
            r[i],
        )) by {
            if i < s.len() {
                assert(s[i] == r[i]);
            }
        }
    } else {
        let head = s.drop_last();
        let rec = spec_insert_sorted(head, e, sort);
        assert(sorted_by_key(head, sort)) by {
            assert(forall|i: int, j: int|
                0 <= i < j < head.len() ==> #[trigger] sort_le(sort, head[i], head[j])
                    == sort_le(sort, s[i], s[j]));
        }
        lemma_insert_sorted_properties(head, e, sort);
        assert(r == rec.push(s.last()));
        assert(s =~= head.push(s.last()));
        assert(s.to_multiset() == head.to_multiset().insert(s.last()));
        assert(r.to_multiset() == rec.to_multiset().insert(s.last()));
        assert(r.to_multiset() =~= s.to_multiset().insert(e));
        assert forall|i: int| 0 <= i < r.len() implies (#[trigger] r[i] == e || s.contains(
            r[i],
        )) by {
            if i < rec.len() {
                assert(r[i] == rec[i]);
                if rec[i] != e {
                    assert(head.contains(rec[i]));
                    let w = choose|w: int| 0 <= w < head.len() && head[w] == rec[i];
                    assert(s[w] == rec[i]);
                }
            } else {
                assert(r[i] == s.last());
                assert(s[s.len() - 1] == s.last());
            }
        }
        assert forall|i: int, j: int| 0 <= i < j < r.len() implies #[trigger] sort_le(
            sort,
            r[i],
            r[j],
        ) by {
            if j < r.len() - 1 {
                assert(sort_le(sort, rec[i], rec[j]));
            } else {
                assert(r[j] == s.last());
                if r[i] == e {
                    assert(!sort_le(sort, s.last(), e));
                } else {
                    assert(head.contains(r[i]));
                    let w = choose|w: int| 0 <= w < head.len() && head[w] == r[i];
                    assert(sort_le(sort, s[w], s.last()));
                }
            }
        }
    }
}

/// Sorting yields an ordered permutation: the result is sorted under `sort`
/// and holds exactly the input records.
pub proof fn lemma_sort_events_properties(s: Seq<EventResponse>, sort: EventSort)
    ensures
        sorted_by_key(spec_sort_events(s, sort), sort),
        spec_sort_events(s, sort).to_multiset() == s.to_multiset(),
        spec_sort_events(s, sort).len() == s.len(),
    decreases s.len(),
{
    broadcast use vstd::seq_lib::group_to_multiset_ensures;

    if s.len() == 0 {
        assert(spec_sort_events(s, sort).to_multiset() =~= s.to_multiset());
    } else {
        let head = s.drop_last();
        lemma_sort_events_properties(head, sort);
        lemma_insert_sorted_properties(spec_sort_events(head, sort), s.last(), sort);
        assert(s =~= head.push(s.last()));
        assert(s.to_multiset() == head.to_multiset().insert(s.last()));
        assert(spec_sort_events(s, sort).to_multiset() =~= s.to_multiset());
        assert(spec_sort_events(s, sort).to_multiset().len() == spec_sort_events(s, sort).len());
        assert(s.to_multiset().len() == s.len());
    }
}

} // verus!
