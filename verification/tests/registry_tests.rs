use event_shards::events::EventResponse;
use event_shards::identifier::Identifier;
use event_shards::registry::{
    get_child_canister_data, get_child_wasm_data, next_upgrade_version, ScalableData, WasmVersion,
};
use event_shards::sort::{EventSort, SortDirection};
use event_shards::types::{ApiError, Asset, DateRange, Location, PrincipalId, Privacy};
use event_shards::events::{PostEvent, UpdateEvent};
use event_shards::validate::{validate_post_event, validate_update_event};

fn fresh_registry() -> ScalableData {
    ScalableData::new("events".to_string(), PrincipalId(1), 0)
}

fn response(index: u64, name: &str, created_on: u64) -> EventResponse {
    EventResponse {
        identifier: Identifier { kind: b"evt".to_vec(), shard: 1, index },
        name: name.to_string(),
        description: String::new(),
        date: DateRange { start_date: created_on, end_date: created_on + 1 },
        privacy: Privacy::Public,
        created_by: PrincipalId(1),
        owner: PrincipalId(1),
        website: String::new(),
        location: Location::Unset,
        image: Asset::Unset,
        banner_image: Asset::Unset,
        attendee_count: 0,
        is_canceled: (false, String::new()),
        is_deleted: false,
        tags: vec![],
        metadata: None,
        updated_on: created_on,
        created_on,
        group_identifier: PrincipalId(50),
    }
}

#[test]
fn artifact_replacement_is_rejected_on_identical_bytes() {
    let mut registry = fresh_registry();
    let first = get_child_wasm_data(&registry, 1, vec![1, 2, 3], 10).expect("first upload lands");
    assert_eq!(first.wasm_version, WasmVersion::Version(1));
    assert_eq!(first.bytes, vec![1, 2, 3]);
    registry.child_wasm_data = first;
    // The identical bytes a second time: rejected, not duplicated — even
    // with a higher version number.
    let second = get_child_wasm_data(&registry, 2, vec![1, 2, 3], 20);
    assert!(second.is_err());
    assert_eq!(registry.child_wasm_data.bytes, vec![1, 2, 3]);
    assert_eq!(registry.child_wasm_data.wasm_version, WasmVersion::Version(1));
}

#[test]
fn artifact_versions_strictly_increase() {
    let mut registry = fresh_registry();
    registry.child_wasm_data = get_child_wasm_data(&registry, 3, vec![1], 10).unwrap();
    // An equal or lower version is rejected even with new bytes.
    assert!(get_child_wasm_data(&registry, 3, vec![2], 20).is_err());
    assert!(get_child_wasm_data(&registry, 2, vec![2], 20).is_err());
    // A strictly greater version with different bytes is accepted.
    let next = get_child_wasm_data(&registry, 4, vec![2], 20).unwrap();
    assert_eq!(next.wasm_version, WasmVersion::Version(4));
    // Creation time survives replacement; update time moves.
    assert_eq!(next.created_at, registry.child_wasm_data.created_at);
    assert_eq!(next.updated_at, 20);
}

#[test]
fn artifact_replacement_rejects_empty_and_custom() {
    let mut registry = fresh_registry();
    assert!(get_child_wasm_data(&registry, 1, vec![], 10).is_err());
    registry.child_wasm_data = get_child_wasm_data(&registry, 1, vec![1], 10).unwrap();
    registry.child_wasm_data.wasm_version = WasmVersion::Custom;
    assert!(get_child_wasm_data(&registry, 9, vec![2], 20).is_err());
}

#[test]
fn provisioning_registers_empty_then_holding() {
    let mut registry = fresh_registry();
    registry.child_wasm_data = get_child_wasm_data(&registry, 1, vec![1], 0).unwrap();
    assert!(registry.should_initialize());
    let unit = PrincipalId(100);
    // Phase one: the empty unit is registered immediately, so a failed
    // install still leaves a trackable record.
    registry.register_empty_canister(unit);
    assert!(!registry.should_initialize());
    let listed = registry.get_canisters();
    assert_eq!(listed.len(), 1);
    assert_eq!(listed[0].wasm_version, WasmVersion::Absent);
    assert!(listed[0].is_available);
    // Phase two: a successful install flips it to a record-holding child at
    // the artifact's version.
    let bytes = registry.prepare_install().expect("artifact is held");
    assert_eq!(bytes, vec![1]);
    registry.register_installed_canister(unit);
    let listed = registry.get_canisters();
    assert_eq!(listed.len(), 1);
    assert_eq!(listed[0].wasm_version, WasmVersion::Version(1));
}

#[test]
fn prepare_install_without_artifact_is_bad_request() {
    let registry = fresh_registry();
    assert!(matches!(registry.prepare_install(), Err(ApiError::BadRequest(_))));
    assert!(!registry.should_initialize());
}

#[test]
fn reshard_precheck_rejects_unknown_callers() {
    let mut registry = fresh_registry();
    // No artifact yet: the reshard cannot proceed at all.
    assert!(matches!(registry.reshard_precheck(PrincipalId(5)), Err(ApiError::BadRequest(_))));
    registry.child_wasm_data = get_child_wasm_data(&registry, 1, vec![1], 0).unwrap();
    // Artifact held but the caller is unknown.
    assert!(matches!(registry.reshard_precheck(PrincipalId(5)), Err(ApiError::BadRequest(_))));
    registry.register_installed_canister(PrincipalId(5));
    assert!(registry.reshard_precheck(PrincipalId(5)).is_ok());
}

#[test]
fn close_reports_forward_failures() {
    let mut registry = fresh_registry();
    registry.child_wasm_data = get_child_wasm_data(&registry, 1, vec![1], 0).unwrap();
    registry.register_installed_canister(PrincipalId(5));
    registry.register_installed_canister(PrincipalId(6));
    let r = registry.close_child_canister_and_spawn_sibling(
        PrincipalId(5),
        41,
        PrincipalId(6),
        Err("transport failed".to_string()),
    );
    assert!(matches!(r, Err(ApiError::BadRequest(_))));
    // The caller is still retired: its window closed before the forward ran.
    let caller = registry
        .get_canisters()
        .into_iter()
        .find(|c| c.principal == PrincipalId(5))
        .unwrap();
    assert!(!caller.is_available);
    assert_eq!(caller.entry_range, (0, Some(41)));
}

#[test]
fn upgrades_target_only_outdated_shards() {
    let mut registry = fresh_registry();
    registry.child_wasm_data = get_child_wasm_data(&registry, 1, vec![1], 0).unwrap();
    registry.register_installed_canister(PrincipalId(5));
    registry.register_installed_canister(PrincipalId(6));
    // A new artifact makes both shards outdated.
    registry.child_wasm_data = get_child_wasm_data(&registry, 2, vec![2], 1).unwrap();
    assert_eq!(registry.outdated_children(), vec![PrincipalId(5), PrincipalId(6)]);
    // Upgrading one shard does not halt the other's pending upgrade.
    let bytes = registry.upgrade_precheck(PrincipalId(5)).expect("outdated shard may upgrade");
    assert_eq!(bytes, vec![2]);
    let upgraded = registry.record_upgrade(PrincipalId(5)).unwrap();
    assert_eq!(upgraded.wasm_version, WasmVersion::Version(2));
    assert_eq!(registry.outdated_children(), vec![PrincipalId(6)]);
    // A shard already at the artifact's version is refused.
    assert!(matches!(
        registry.upgrade_precheck(PrincipalId(5)),
        Err(ApiError::BadRequest(_))
    ));
    // An unknown shard is not found.
    assert!(matches!(
        registry.upgrade_precheck(PrincipalId(9)),
        Err(ApiError::NotFound(_))
    ));
}

#[test]
fn next_upgrade_version_steps_past_the_held_one() {
    assert_eq!(next_upgrade_version(&WasmVersion::Version(3)), 4);
    assert_eq!(next_upgrade_version(&WasmVersion::Absent), 0);
    assert_eq!(next_upgrade_version(&WasmVersion::Custom), 0);
}

#[test]
fn available_canister_excludes_the_asking_shard() {
    let mut registry = fresh_registry();
    registry.child_wasm_data = get_child_wasm_data(&registry, 1, vec![1], 0).unwrap();
    registry.register_installed_canister(PrincipalId(5));
    // The only available shard is the caller itself: no result.
    assert!(registry.get_available_canister(PrincipalId(5)).is_err());
    registry.register_installed_canister(PrincipalId(6));
    let found = registry.get_available_canister(PrincipalId(5)).unwrap();
    assert_eq!(found.principal, PrincipalId(6));
}

#[test]
fn cross_shard_read_sorts_and_pages_globally() {
    // Two shards' filtered result sets, interleaved in time.
    let shard_a = vec![response(0, "a0", 5), response(1, "a1", 1)];
    let shard_b = vec![response(0, "b0", 3)];
    let page = get_child_canister_data(
        vec![shard_a, shard_b],
        2,
        0,
        EventSort::CreatedOn(SortDirection::Asc),
    );
    assert_eq!(page.total, 3);
    assert_eq!(page.total_pages, 2);
    // The page boundary spans shard-origin data: the global order wins.
    let names: Vec<String> = page.data.iter().map(|r| r.name.clone()).collect();
    assert_eq!(names, vec!["a1", "b0"]);
    let page = get_child_canister_data(
        vec![vec![response(0, "a0", 5), response(1, "a1", 1)], vec![response(0, "b0", 3)]],
        2,
        1,
        EventSort::CreatedOn(SortDirection::Asc),
    );
    let names: Vec<String> = page.data.iter().map(|r| r.name.clone()).collect();
    assert_eq!(names, vec!["a0"]);
}

#[test]
fn metadata_summarizes_the_registry() {
    let mut registry = fresh_registry();
    registry.child_wasm_data = get_child_wasm_data(&registry, 1, vec![1], 0).unwrap();
    registry.register_installed_canister(PrincipalId(5));
    let meta = registry.get_metadata(1000, 20);
    assert_eq!(meta.name, "events");
    assert_eq!(meta.canister_count, 1);
    assert!(meta.has_child_wasm);
    assert_eq!(meta.cycles, 1000);
    assert_eq!(meta.used_data, 20);
    assert_eq!(meta.parent, PrincipalId(1));
}

#[test]
fn validation_bounds_each_field() {
    let valid = PostEvent {
        name: "abc".to_string(),
        description: "d".to_string(),
        date: DateRange { start_date: 1, end_date: 2 },
        privacy: Privacy::Public,
        website: "w".to_string(),
        location: Location::Unset,
        image: Asset::Unset,
        owner: PrincipalId(1),
        banner_image: Asset::Unset,
        metadata: None,
        tags: vec![],
    };
    assert!(validate_post_event(&valid).is_ok());
    let mut short_name = valid;
    short_name.name = "ab".to_string();
    // A rejection names exactly the failing fields.
    match validate_post_event(&short_name) {
        Err(ApiError::ValidationError(v)) => {
            assert_eq!(v.len(), 1);
            assert_eq!(v[0].field, "name");
        }
        other => panic!("expected a validation error, got {:?}", other),
    }
    let mut too_many_tags = short_name;
    too_many_tags.name = "abc".to_string();
    too_many_tags.tags = (0..51).collect();
    match validate_post_event(&too_many_tags) {
        Err(ApiError::ValidationError(v)) => {
            assert_eq!(v.len(), 1);
            assert_eq!(v[0].field, "tags");
        }
        other => panic!("expected a validation error, got {:?}", other),
    }
}

#[test]
fn update_validation_bounds_each_field() {
    let valid = UpdateEvent {
        name: "abcd".to_string(),
        description: "d".to_string(),
        date: DateRange { start_date: 1, end_date: 2 },
        privacy: Privacy::Public,
        website: "w".to_string(),
        location: Location::Unset,
        image: Asset::Unset,
        owner: PrincipalId(1),
        banner_image: Asset::Unset,
        metadata: None,
        tags: vec![],
    };
    assert!(validate_update_event(&valid).is_ok());
    let mut long_description = valid;
    long_description.description = "x".repeat(501);
    assert!(matches!(
        validate_update_event(&long_description),
        Err(ApiError::ValidationError(_))
    ));
}
