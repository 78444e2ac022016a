use event_shards::events::{PostEvent, UpdateEvent};
use event_shards::identifier::Identifier;
use event_shards::registry::{ScalableData, WasmVersion};
use event_shards::roles::{Permission, PermissionActions, Role};
use event_shards::shard::{self, AddEventOutcome, Store};
use event_shards::sort::{EventSort, SortDirection};
use event_shards::types::{ApiError, Asset, DateRange, Location, PrincipalId, Privacy};

fn sample_post(owner: u64, name: &str, start: u64, end: u64) -> PostEvent {
    PostEvent {
        name: name.to_string(),
        description: "a description".to_string(),
        date: DateRange { start_date: start, end_date: end },
        privacy: Privacy::Public,
        website: "https://example.test".to_string(),
        location: Location::Unset,
        image: Asset::Unset,
        owner: PrincipalId(owner),
        banner_image: Asset::Unset,
        metadata: None,
        tags: vec![1, 2],
    }
}

fn sample_update(owner: u64, name: &str) -> UpdateEvent {
    UpdateEvent {
        name: name.to_string(),
        description: "an updated description".to_string(),
        date: DateRange { start_date: 7, end_date: 9 },
        privacy: Privacy::Private,
        website: "https://example.test/updated".to_string(),
        location: Location::Unset,
        image: Asset::Unset,
        owner: PrincipalId(owner),
        banner_image: Asset::Unset,
        metadata: Some("meta".to_string()),
        tags: vec![3],
    }
}

fn fresh_store() -> Store {
    shard::init("events".to_string(), 7, PrincipalId(1), 100, 1000)
}

fn stored_id(store: &mut Store, owner: u64, name: &str, start: u64, end: u64) -> Identifier {
    match store.add_event(
        PrincipalId(owner),
        sample_post(owner, name, start, end),
        PrincipalId(50),
        PrincipalId(60),
        1234,
    ) {
        AddEventOutcome::Stored(id, resp) => {
            let committed = store.finish_add_event(&id, resp, true);
            assert!(committed.is_ok());
            id
        }
        AddEventOutcome::AtCapacity(_, _) => panic!("store unexpectedly full"),
    }
}

#[test]
fn add_and_get_event_round_trip() {
    let mut store = fresh_store();
    let id = stored_id(&mut store, 10, "launch party", 100, 200);
    assert_eq!(id.index, 0);
    assert_eq!(id.shard, 7);
    assert_eq!(id.kind, b"evt".to_vec());
    let resp = store.get_event(&id, None).expect("stored event must be found");
    assert_eq!(resp.name, "launch party");
    assert_eq!(resp.owner, PrincipalId(10));
    assert_eq!(resp.created_by, PrincipalId(10));
    assert_eq!(resp.group_identifier, PrincipalId(50));
    // The creating write registers one participant for the counting source.
    assert_eq!(resp.attendee_count, 1);
    assert_eq!(resp.created_on, 1234);
    assert!(!resp.is_deleted);
    assert!(!resp.is_canceled.0);
}

#[test]
fn get_event_scope_mismatch_is_not_found() {
    let mut store = fresh_store();
    let id = stored_id(&mut store, 10, "scoped", 1, 2);
    let wrong_group = store.get_event(&id, Some(PrincipalId(99)));
    assert!(matches!(wrong_group, Err(ApiError::NotFound(_))));
    let right_group = store.get_event(&id, Some(PrincipalId(50)));
    assert!(right_group.is_ok());
}

#[test]
fn get_event_unknown_identifier_is_not_found() {
    let store = fresh_store();
    let ghost_id = Identifier { kind: b"evt".to_vec(), shard: 7, index: 42 };
    assert!(matches!(store.get_event(&ghost_id, None), Err(ApiError::NotFound(_))));
}

#[test]
fn entry_identifiers_strictly_increase() {
    let mut store = fresh_store();
    let a = stored_id(&mut store, 1, "first", 1, 2);
    let b = stored_id(&mut store, 1, "second", 1, 2);
    let c = stored_id(&mut store, 1, "third", 1, 2);
    assert!(a.index < b.index);
    assert!(b.index < c.index);
    assert_eq!((a.index, b.index, c.index), (0, 1, 2));
}

#[test]
fn edit_event_replaces_editable_fields_only() {
    let mut store = fresh_store();
    let id = stored_id(&mut store, 10, "before", 100, 200);
    let edited = store.edit_event(&id, sample_update(11, "after"), 2000).expect("edit must land");
    assert_eq!(edited.name, "after");
    assert_eq!(edited.owner, PrincipalId(11));
    assert_eq!(edited.updated_on, 2000);
    // Creation data survives the edit.
    assert_eq!(edited.created_on, 1234);
    assert_eq!(edited.created_by, PrincipalId(10));
    let missing = Identifier { kind: b"evt".to_vec(), shard: 7, index: 9 };
    assert!(matches!(
        store.edit_event(&missing, sample_update(11, "x"), 2000),
        Err(ApiError::NotFound(_))
    ));
}

#[test]
fn delete_is_soft_and_hides_from_paged_reads_only() {
    let mut store = fresh_store();
    let id = stored_id(&mut store, 10, "doomed", 1, 2);
    store.delete_event(&id, PrincipalId(50)).expect("delete must land");
    // Every filtered/paged read excludes the record ...
    let page = store.get_events(
        10,
        0,
        EventSort::CreatedOn(SortDirection::Asc),
        vec![],
        event_shards::filters::FilterType::And,
        None,
    );
    assert_eq!(page.total, 0);
    assert!(page.data.is_empty());
    // ... but the direct-by-identifier fetch used by migration still sees it.
    let direct = store.get_event(&id, None).expect("direct fetch must still find it");
    assert!(direct.is_deleted);
}

#[test]
fn delete_with_wrong_group_is_rejected() {
    let mut store = fresh_store();
    let id = stored_id(&mut store, 10, "kept", 1, 2);
    assert!(matches!(store.delete_event(&id, PrincipalId(99)), Err(ApiError::NotFound(_))));
    assert!(!store.get_event(&id, None).unwrap().is_deleted);
}

#[test]
fn cancel_records_the_reason() {
    let mut store = fresh_store();
    let id = stored_id(&mut store, 10, "rained out", 1, 2);
    store.cancel_event(&id, "venue flooded".to_string(), PrincipalId(50)).expect("cancel");
    let resp = store.get_event(&id, None).unwrap();
    assert_eq!(resp.is_canceled, (true, "venue flooded".to_string()));
    assert!(!resp.is_deleted);
}

#[test]
fn attendee_count_is_summed_and_updatable() {
    let mut store = fresh_store();
    let id = stored_id(&mut store, 10, "popular", 1, 2);
    // A second counting source reports 4 participants.
    let r = shard::update_attendee_count_on_event(
        &mut store,
        PrincipalId(61),
        &id,
        PrincipalId(61),
        4,
    );
    assert_eq!(r, Ok(()));
    assert_eq!(store.get_event(&id, None).unwrap().attendee_count, 5);
    // The creating source overwrites its own count rather than adding a row.
    let r = shard::update_attendee_count_on_event(
        &mut store,
        PrincipalId(60),
        &id,
        PrincipalId(60),
        3,
    );
    assert_eq!(r, Ok(()));
    assert_eq!(store.get_event(&id, None).unwrap().attendee_count, 7);
}

#[test]
fn attendee_count_rejects_spoofed_caller_and_wrong_kind() {
    let mut store = fresh_store();
    let id = stored_id(&mut store, 10, "guarded", 1, 2);
    // Caller identity must equal the counting source it reports for.
    let spoofed = shard::update_attendee_count_on_event(
        &mut store,
        PrincipalId(999),
        &id,
        PrincipalId(60),
        50,
    );
    assert_eq!(spoofed, Err(false));
    // An identifier of another record kind is rejected.
    let alien = Identifier { kind: b"grp".to_vec(), shard: 7, index: 0 };
    let wrong_kind = store.update_attendee_count_on_event(&alien, PrincipalId(60), 50);
    assert_eq!(wrong_kind, Err(false));
    assert_eq!(store.get_event(&id, None).unwrap().attendee_count, 1);
}

#[test]
fn failed_attendee_registration_rolls_the_write_back() {
    let mut store = fresh_store();
    let outcome = store.add_event(
        PrincipalId(10),
        sample_post(10, "orphan", 1, 2),
        PrincipalId(50),
        PrincipalId(60),
        99,
    );
    let (id, resp) = match outcome {
        AddEventOutcome::Stored(id, resp) => (id, resp),
        AddEventOutcome::AtCapacity(_, _) => panic!("store unexpectedly full"),
    };
    let r = store.finish_add_event(&id, resp, false);
    assert!(matches!(r, Err(ApiError::Unauthorized(_))));
    // The compensation removed the record again: no orphaned state.
    assert!(matches!(store.get_event(&id, None), Err(ApiError::NotFound(_))));
    assert_eq!(store.entries.len(), 0);
}

#[test]
fn capacity_write_redirects_to_fresh_sibling() {
    // A shard with room for a single record ...
    let mut full_shard = shard::init("events".to_string(), 1, PrincipalId(1), 1, 0);
    stored_id(&mut full_shard, 10, "only resident", 1, 2);
    let before: Vec<String> = full_shard.entries.iter().map(|(_, e)| e.name.clone()).collect();

    // ... receives one more valid write: nothing lands locally.
    let outcome = full_shard.add_event(
        PrincipalId(11),
        sample_post(11, "overflow", 3, 4),
        PrincipalId(50),
        PrincipalId(60),
        77,
    );
    let (pending, watermark) = match outcome {
        AddEventOutcome::AtCapacity(pending, watermark) => (pending, watermark),
        AddEventOutcome::Stored(_, _) => panic!("write must not land on a full shard"),
    };

    // The orchestrator provisions and installs a sibling.
    let mut registry = ScalableData::new("events".to_string(), PrincipalId(1), 0);
    let shard_principal = PrincipalId(100);
    let sibling_principal = PrincipalId(101);
    registry.child_wasm_data =
        event_shards::registry::get_child_wasm_data(&registry, 1, vec![1, 2, 3], 5).unwrap();
    registry.register_installed_canister(shard_principal);
    assert!(registry.reshard_precheck(shard_principal).is_ok());
    registry.register_empty_canister(sibling_principal);
    registry.register_installed_canister(sibling_principal);

    // The pending record is forwarded to the sibling ...
    let mut sibling = shard::init("events".to_string(), 2, PrincipalId(1), 1, 8);
    let forwarded = sibling.add_entry_by_parent(PrincipalId(1), pending, b"evt".to_vec());
    assert!(forwarded.is_ok());

    // ... and the close step reports the sibling and retires the caller.
    let closed = registry.close_child_canister_and_spawn_sibling(
        shard_principal,
        watermark,
        sibling_principal,
        Ok(()),
    );
    assert_eq!(closed.unwrap(), sibling_principal);

    // The caller reports the capacity signal to its own caller.
    let answer = shard::at_capacity_result(Ok(sibling_principal), "at capacity".to_string());
    assert!(matches!(answer, Err(ApiError::CanisterAtCapacity(_))));

    // The new shard holds the pending record; the full shard is unchanged.
    assert_eq!(sibling.entries.len(), 1);
    assert_eq!(sibling.entries[0].1.name, "overflow");
    let after: Vec<String> = full_shard.entries.iter().map(|(_, e)| e.name.clone()).collect();
    assert_eq!(before, after);

    // The registry now routes writers to the sibling only.
    let canisters = registry.get_canisters();
    let old_entry = canisters.iter().find(|c| c.principal == shard_principal).unwrap();
    assert!(!old_entry.is_available);
    assert_eq!(old_entry.entry_range, (0, Some(watermark)));
    let available = registry.get_available_canister(shard_principal).unwrap();
    assert_eq!(available.principal, sibling_principal);
    assert_eq!(available.wasm_version, WasmVersion::Version(1));
}

#[test]
fn failed_sibling_spawn_rejects_the_write_without_loss() {
    let mut full_shard = shard::init("events".to_string(), 1, PrincipalId(1), 1, 0);
    stored_id(&mut full_shard, 10, "resident", 1, 2);
    let outcome = full_shard.add_event(
        PrincipalId(11),
        sample_post(11, "bounced", 3, 4),
        PrincipalId(50),
        PrincipalId(60),
        77,
    );
    assert!(matches!(outcome, AddEventOutcome::AtCapacity(_, _)));
    let spawn_failed: Result<PrincipalId, ApiError> = Err(ApiError::BadRequest(
        event_shards::types::error_info("NO_WASM_SPECIFIED", "There is no foundation WASM uploaded"),
    ));
    let answer = shard::at_capacity_result(spawn_failed, "at capacity".to_string());
    assert!(matches!(answer, Err(ApiError::BadRequest(_))));
    // The full shard kept exactly its one record.
    assert_eq!(full_shard.entries.len(), 1);
}

#[test]
fn owner_edits_without_roles_but_strangers_need_them() {
    let mut store = fresh_store();
    let id = stored_id(&mut store, 10, "mine", 1, 2);
    let owner = PrincipalId(10);
    let stranger = PrincipalId(20);

    // The owner passes even with an empty external role list ...
    let r = store.can_edit(
        owner,
        &id,
        PrincipalId(50),
        Ok(vec![]),
        Ok((owner, vec![])),
    );
    assert_eq!(r.unwrap(), owner);
    // ... and even when the role service failed outright.
    let r = store.can_edit(
        owner,
        &id,
        PrincipalId(50),
        Err("role service unreachable".to_string()),
        Err("role service unreachable".to_string()),
    );
    assert_eq!(r.unwrap(), owner);

    // A non-owner with no matching role is rejected as unauthorized.
    let r = store.can_edit(
        stranger,
        &id,
        PrincipalId(50),
        Ok(vec![]),
        Ok((stranger, vec![])),
    );
    assert!(matches!(r, Err(ApiError::Unauthorized(_))));
}

#[test]
fn role_checks_reject_identity_spoofing() {
    let store = fresh_store();
    let caller = PrincipalId(20);
    let someone_else = PrincipalId(21);
    // The member lookup answered for a different identity: always rejected,
    // whatever roles came back.
    let r = Store::can_write(
        caller,
        Ok(vec![]),
        Ok((someone_else, vec!["admin".to_string()])),
    );
    assert!(matches!(r, Err(ApiError::Unauthorized(_))));
    drop(store);
}

#[test]
fn group_roles_and_default_roles_grant_actions() {
    let caller = PrincipalId(20);
    // A group role granting writes passes the write gate.
    let scribe = Role {
        name: "scribe".to_string(),
        protected: false,
        permissions: vec![Permission {
            name: "event".to_string(),
            protected: false,
            actions: PermissionActions { write: true, read: false, edit: false, delete: false },
        }],
    };
    let r = Store::can_write(
        caller,
        Ok(vec![scribe]),
        Ok((caller, vec!["scribe".to_string()])),
    );
    assert_eq!(r.unwrap(), caller);
    // The same role does not grant reading.
    let scribe = Role {
        name: "scribe".to_string(),
        protected: false,
        permissions: vec![Permission {
            name: "event".to_string(),
            protected: false,
            actions: PermissionActions { write: true, read: false, edit: false, delete: false },
        }],
    };
    let r = Store::can_read(
        caller,
        Ok(vec![scribe]),
        Ok((caller, vec!["scribe".to_string()])),
    );
    assert!(matches!(r, Err(ApiError::Unauthorized(_))));
    // The default `admin` role grants everything even with no group roles.
    let r = Store::can_read(caller, Ok(vec![]), Ok((caller, vec!["admin".to_string()])));
    assert_eq!(r.unwrap(), caller);
}

#[test]
fn guards_check_identity_lists() {
    assert!(shard::auth(PrincipalId(5)).is_ok());
    assert!(shard::auth(PrincipalId::anonymous()).is_err());
    let monitors = vec![PrincipalId(8), PrincipalId(9)];
    assert!(shard::is_monitor(PrincipalId(9), &monitors).is_ok());
    assert!(shard::is_monitor(PrincipalId(10), &monitors).is_err());
    let owners = vec![PrincipalId(3)];
    assert!(shard::is_owner(PrincipalId(3), &owners).is_ok());
    assert!(shard::is_owner(PrincipalId(4), &owners).is_err());
}

#[test]
fn restore_replaces_the_whole_store() {
    let mut store = fresh_store();
    stored_id(&mut store, 10, "pre-restore", 1, 2);
    let donor_data = event_shards::shard::ShardData {
        name: "restored".to_string(),
        identifier: 9,
        current_entry_id: 5,
        parent: PrincipalId(2),
        is_available: false,
        updated_at: 10,
        created_at: 3,
    };
    store.restore_data(donor_data, vec![]);
    assert_eq!(store.entries.len(), 0);
    assert_eq!(store.data.name, "restored");
    assert_eq!(store.data.current_entry_id, 5);
    assert!(!store.data.is_available);
}

#[test]
fn add_entry_by_parent_requires_the_orchestrator() {
    let mut store = fresh_store();
    let donor = sample_post(10, "forwarded", 1, 2);
    let mut sibling = fresh_store();
    let event = match sibling.add_event(PrincipalId(10), donor, PrincipalId(50), PrincipalId(60), 4)
    {
        AddEventOutcome::Stored(_, _) => {
            // Pull the stored record back out to use as a forwardable value.
            sibling.entries.pop().unwrap().1
        }
        AddEventOutcome::AtCapacity(event, _) => event,
    };
    let r = store.add_entry_by_parent(PrincipalId(999), event, b"evt".to_vec());
    assert!(matches!(r, Err(ApiError::Unauthorized(_))));
    assert_eq!(store.entries.len(), 0);
}

#[test]
fn full_store_signals_capacity_through_the_error_taxonomy() {
    let mut tiny = shard::init("events".to_string(), 1, PrincipalId(1), 0, 0);
    let donor = {
        let mut helper = fresh_store();
        match helper.add_event(PrincipalId(10), sample_post(10, "x", 1, 2), PrincipalId(50), PrincipalId(60), 4) {
            AddEventOutcome::Stored(_, _) => helper.entries.pop().unwrap().1,
            AddEventOutcome::AtCapacity(event, _) => event,
        }
    };
    let r = tiny.add_entry_by_parent(PrincipalId(1), donor, b"evt".to_vec());
    assert!(matches!(r, Err(ApiError::CanisterAtCapacity(_))));
}

#[test]
fn paginating_25_records_at_limit_10() {
    let mut store = shard::init("events".to_string(), 7, PrincipalId(1), 100, 0);
    for i in 0..25u64 {
        stored_id(&mut store, 10, &format!("event {}", i), i, i + 1);
    }
    let sort = EventSort::CreatedOn(SortDirection::Asc);
    let ft = event_shards::filters::FilterType::And;
    let page0 = store.get_events(10, 0, sort, vec![], ft, None);
    let page1 = store.get_events(10, 1, sort, vec![], ft, None);
    let page2 = store.get_events(10, 2, sort, vec![], ft, None);
    let page3 = store.get_events(10, 3, sort, vec![], ft, None);
    assert_eq!(page0.data.len(), 10);
    assert_eq!(page1.data.len(), 10);
    assert_eq!(page2.data.len(), 5);
    assert!(page3.data.is_empty());
    for page in [page0, page1, page2, page3] {
        assert_eq!(page.total, 25);
        assert_eq!(page.total_pages, 3);
    }
}

#[test]
fn per_group_counts_exclude_soft_deleted_records() {
    let mut store = fresh_store();
    let id_a = stored_id(&mut store, 10, "in group", 1, 2);
    stored_id(&mut store, 10, "also in group", 1, 2);
    store.delete_event(&id_a, PrincipalId(50)).expect("delete");
    // Counts are per group in the order asked; like every read short of the
    // direct-by-identifier fetch, they never see a soft-deleted record.
    let counts = store.get_events_count(vec![PrincipalId(50), PrincipalId(99)]);
    assert_eq!(counts.len(), 2);
    assert_eq!(counts[0], (PrincipalId(50), 1));
    assert_eq!(counts[1], (PrincipalId(99), 0));
}

#[test]
fn chunked_reads_exclude_deleted_and_apply_filters() {
    let mut store = fresh_store();
    let id_a = stored_id(&mut store, 10, "kept", 1, 2);
    stored_id(&mut store, 11, "other owner", 1, 2);
    let id_c = stored_id(&mut store, 10, "gone", 1, 2);
    store.delete_event(&id_c, PrincipalId(50)).expect("delete");
    // Only the shard's own orchestrator may pull the chunked set.
    let filtered = store.get_chunked_events(
        PrincipalId(1),
        vec![event_shards::filters::EventFilter::Owner(PrincipalId(10))],
        event_shards::filters::FilterType::And,
    );
    assert_eq!(filtered.len(), 1);
    assert_eq!(filtered[0].name, "kept");
    assert_eq!(filtered[0].identifier.index, id_a.index);
    let refused = store.get_chunked_events(
        PrincipalId(999),
        vec![],
        event_shards::filters::FilterType::And,
    );
    assert!(refused.is_empty());
}

#[test]
fn foreign_identifiers_are_refused_on_every_by_id_path() {
    let mut store = fresh_store();
    let id = stored_id(&mut store, 10, "local", 1, 2);
    // Same counter, wrong shard: minted elsewhere, never answered here.
    let foreign_shard = Identifier { kind: b"evt".to_vec(), shard: 8, index: id.index };
    assert!(matches!(store.get_event(&foreign_shard, None), Err(ApiError::NotFound(_))));
    assert!(matches!(
        store.edit_event(&foreign_shard, sample_update(10, "abc"), 5),
        Err(ApiError::NotFound(_))
    ));
    assert!(matches!(
        store.delete_event(&foreign_shard, PrincipalId(50)),
        Err(ApiError::NotFound(_))
    ));
    assert!(matches!(
        store.cancel_event(&foreign_shard, "r".to_string(), PrincipalId(50)),
        Err(ApiError::NotFound(_))
    ));
    assert_eq!(
        store.update_attendee_count_on_event(&foreign_shard, PrincipalId(60), 9),
        Err(false)
    );
    // Same counter, wrong kind tag: refused as well.
    let foreign_kind = Identifier { kind: b"grp".to_vec(), shard: 7, index: id.index };
    assert!(matches!(store.get_event(&foreign_kind, None), Err(ApiError::NotFound(_))));
    // The record itself is untouched.
    let resp = store.get_event(&id, None).unwrap();
    assert_eq!(resp.name, "local");
    assert!(!resp.is_deleted);
    assert!(!resp.is_canceled.0);
}

#[test]
fn failed_role_lookups_carry_their_error_text() {
    let caller = PrincipalId(20);
    // The member lookup's own failure text crosses the boundary wrapped in
    // the local taxonomy, not dropped.
    let r = Store::can_write(caller, Ok(vec![]), Err("member service timed out".to_string()));
    match r {
        Err(ApiError::Unauthorized(info)) => {
            assert_eq!(info.tag, "NO_PERMISSION");
            assert_eq!(info.message, "member service timed out");
        }
        other => panic!("expected an unauthorized answer, got {:?}", other),
    }
    // The same for a failed group lookup.
    let r = Store::can_write(
        caller,
        Err("group service unreachable".to_string()),
        Ok((caller, vec![])),
    );
    match r {
        Err(ApiError::Unauthorized(info)) => {
            assert_eq!(info.tag, "NO_PERMISSION");
            assert_eq!(info.message, "group service unreachable");
        }
        other => panic!("expected an unauthorized answer, got {:?}", other),
    }
}
