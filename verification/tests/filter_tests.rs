use event_shards::events::EventResponse;
use event_shards::filters::{get_filtered_events, substring_match, EventFilter, FilterType};
use event_shards::identifier::Identifier;
use event_shards::paging::get_paged_data;
use event_shards::sort::{get_ordered_events, EventSort, SortDirection};
use event_shards::types::{Asset, DateRange, Location, PrincipalId, Privacy};

fn response(index: u64, name: &str, owner: u64, start: u64, end: u64) -> EventResponse {
    EventResponse {
        identifier: Identifier { kind: b"evt".to_vec(), shard: 1, index },
        name: name.to_string(),
        description: String::new(),
        date: DateRange { start_date: start, end_date: end },
        privacy: Privacy::Public,
        created_by: PrincipalId(owner),
        owner: PrincipalId(owner),
        website: String::new(),
        location: Location::Unset,
        image: Asset::Unset,
        banner_image: Asset::Unset,
        attendee_count: 0,
        is_canceled: (false, String::new()),
        is_deleted: false,
        tags: vec![index as u32],
        metadata: None,
        updated_on: 10 * index,
        created_on: index,
        group_identifier: PrincipalId(50),
    }
}

fn names(rs: &[EventResponse]) -> Vec<String> {
    rs.iter().map(|r| r.name.clone()).collect()
}

#[test]
fn zero_filters_are_asymmetric() {
    let mut deleted = response(9, "ghost", 1, 1, 2);
    deleted.is_deleted = true;
    let sample = vec![response(0, "a", 1, 1, 2), deleted, response(1, "b", 2, 3, 4)];
    // AND with zero filters: the full non-deleted set, unchanged and in order.
    let kept = get_filtered_events(sample, vec![], FilterType::And);
    assert_eq!(names(&kept), vec!["a", "b"]);
    // OR with zero filters: the empty set.
    let mut deleted = response(9, "ghost", 1, 1, 2);
    deleted.is_deleted = true;
    let sample = vec![response(0, "a", 1, 1, 2), deleted, response(1, "b", 2, 3, 4)];
    let kept = get_filtered_events(sample, vec![], FilterType::Or);
    assert!(kept.is_empty());
}

#[test]
fn and_narrows_while_or_accumulates() {
    let sample = || {
        vec![
            response(0, "spring picnic", 1, 100, 110),
            response(1, "summer picnic", 2, 200, 210),
            response(2, "winter gala", 1, 300, 310),
        ]
    };
    let both = vec![
        EventFilter::Name("picnic".to_string()),
        EventFilter::Owner(PrincipalId(1)),
    ];
    let kept = get_filtered_events(sample(), both, FilterType::And);
    assert_eq!(names(&kept), vec!["spring picnic"]);
    let either = vec![
        EventFilter::Name("picnic".to_string()),
        EventFilter::Owner(PrincipalId(1)),
    ];
    let kept = get_filtered_events(sample(), either, FilterType::Or);
    assert_eq!(names(&kept), vec!["spring picnic", "summer picnic", "winter gala"]);
}

#[test]
fn or_coalesces_duplicate_identifiers() {
    // One record matches both predicates; it must appear once.
    let sample = vec![response(0, "spring picnic", 1, 100, 110)];
    let either = vec![
        EventFilter::Name("picnic".to_string()),
        EventFilter::Owner(PrincipalId(1)),
    ];
    let kept = get_filtered_events(sample, either, FilterType::Or);
    assert_eq!(kept.len(), 1);
}

#[test]
fn date_range_with_zero_end_is_lower_bound_only() {
    let sample = || {
        vec![
            response(0, "early", 1, 50, 60),
            response(1, "on the line", 1, 100, 110),
            response(2, "late", 1, 250, 260),
        ]
    };
    // end_date == 0: lower-bound-only — everything from 100 on matches.
    let open_ended = vec![EventFilter::StartDate(DateRange { start_date: 100, end_date: 0 })];
    let kept = get_filtered_events(sample(), open_ended, FilterType::And);
    assert_eq!(names(&kept), vec!["on the line", "late"]);
    // Nonzero end_date: the record must lie inside the closed window.
    let closed = vec![EventFilter::StartDate(DateRange { start_date: 100, end_date: 200 })];
    let kept = get_filtered_events(sample(), closed, FilterType::And);
    assert_eq!(names(&kept), vec!["on the line"]);
}

#[test]
fn remaining_filter_kinds_select_exactly() {
    let sample = || {
        let mut canceled = response(3, "called off", 4, 400, 410);
        canceled.is_canceled = (true, "storm".to_string());
        vec![
            response(0, "a", 1, 100, 110),
            response(1, "b", 2, 200, 210),
            canceled,
        ]
    };
    let by_tag = get_filtered_events(sample(), vec![EventFilter::Tag(1)], FilterType::And);
    assert_eq!(names(&by_tag), vec!["b"]);
    let by_cancel =
        get_filtered_events(sample(), vec![EventFilter::IsCanceled(true)], FilterType::And);
    assert_eq!(names(&by_cancel), vec!["called off"]);
    let by_id = get_filtered_events(
        sample(),
        vec![EventFilter::Identifiers(vec![Identifier { kind: b"evt".to_vec(), shard: 1, index: 1 }])],
        FilterType::And,
    );
    assert_eq!(names(&by_id), vec!["b"]);
    let by_end =
        get_filtered_events(sample(), vec![EventFilter::EndDate(DateRange { start_date: 205, end_date: 0 })], FilterType::And);
    assert_eq!(names(&by_end), vec!["b", "called off"]);
    let by_updated =
        get_filtered_events(sample(), vec![EventFilter::UpdatedOn(DateRange { start_date: 10, end_date: 10 })], FilterType::And);
    assert_eq!(names(&by_updated), vec!["b"]);
    let by_created =
        get_filtered_events(sample(), vec![EventFilter::CreatedOn(DateRange { start_date: 0, end_date: 1 })], FilterType::And);
    assert_eq!(names(&by_created), vec!["a", "b"]);
}

#[test]
fn substring_matching_by_characters() {
    assert!(substring_match(&"Hello world".to_string(), &"lo wo".to_string()));
    assert!(substring_match(&"Hello".to_string(), &"".to_string()));
    assert!(!substring_match(&"Hello".to_string(), &"hello".to_string()));
    assert!(!substring_match(&"He".to_string(), &"Hello".to_string()));
}

#[test]
fn sorting_orders_and_keeps_ties_in_input_order() {
    let mut a = response(0, "first of ties", 1, 100, 1);
    let mut b = response(1, "second of ties", 1, 100, 2);
    let c = response(2, "smallest", 1, 50, 3);
    a.attendee_count = 5;
    b.attendee_count = 2;
    let sorted = get_ordered_events(
        vec![a, b, c],
        EventSort::StartDate(SortDirection::Asc),
    );
    // Ties (start 100) keep their input order: stability.
    assert_eq!(names(&sorted), vec!["smallest", "first of ties", "second of ties"]);
    let mut a = response(0, "first of ties", 1, 100, 1);
    let mut b = response(1, "second of ties", 1, 100, 2);
    a.attendee_count = 5;
    b.attendee_count = 2;
    let sorted = get_ordered_events(
        vec![a, b, response(2, "smallest", 1, 50, 3)],
        EventSort::StartDate(SortDirection::Desc),
    );
    assert_eq!(names(&sorted), vec!["first of ties", "second of ties", "smallest"]);
    let mut a = response(0, "busy", 1, 100, 1);
    let b = response(1, "quiet", 1, 100, 2);
    a.attendee_count = 5;
    let sorted = get_ordered_events(vec![a, b], EventSort::AttendeeCount(SortDirection::Desc));
    assert_eq!(names(&sorted), vec!["busy", "quiet"]);
}

#[test]
fn pagination_of_25_records_at_limit_10() {
    let records: Vec<u32> = (0..25).collect();
    let page0 = get_paged_data(records.clone(), 10, 0);
    assert_eq!(page0.data.len(), 10);
    assert_eq!(page0.data, (0..10).collect::<Vec<u32>>());
    let page1 = get_paged_data(records.clone(), 10, 1);
    assert_eq!(page1.data.len(), 10);
    assert_eq!(page1.data, (10..20).collect::<Vec<u32>>());
    let page2 = get_paged_data(records.clone(), 10, 2);
    assert_eq!(page2.data.len(), 5);
    assert_eq!(page2.data, (20..25).collect::<Vec<u32>>());
    let page3 = get_paged_data(records.clone(), 10, 3);
    assert!(page3.data.is_empty());
    for page in [page0, page1, page2, page3] {
        assert_eq!(page.total, 25);
        assert_eq!(page.total_pages, 3);
        assert_eq!(page.limit, 10);
    }
}

#[test]
fn pagination_edges() {
    let empty: Vec<u32> = vec![];
    let page = get_paged_data(empty, 10, 0);
    assert_eq!(page.total, 0);
    assert_eq!(page.total_pages, 0);
    assert!(page.data.is_empty());
    // An exact multiple fills its last page completely.
    let records: Vec<u32> = (0..20).collect();
    let page = get_paged_data(records, 10, 1);
    assert_eq!(page.total_pages, 2);
    assert_eq!(page.data.len(), 10);
}
