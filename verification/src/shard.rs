//! The per-shard record store: typed records keyed by a monotonically
//! increasing per-shard counter, a capacity ceiling on writes, soft delete
//! and cancel, filtered/sorted/paginated reads, and the shard-side steps of
//! the capacity-triggered reshard protocol. Cross-process steps (forwarding
//! a pending record, registering a participant) are performed by the host,
//! which hands their outcomes back to the step functions here.

use vstd::prelude::*;

use crate::events::{
    clone_metadata, clone_tags, map_to_event_response, spec_response, Event, EventResponse,
    EventV, PostEvent, UpdateEvent,
};
use crate::filters::{
    get_filtered_events, lemma_filter_push, spec_and_filter, spec_or_filter, EventFilter,
    FilterType,
};
use crate::identifier::{Identifier, IdentifierV};
use crate::paging::{get_paged_data, spec_page_slice, spec_total_pages, PagedResponse};
use crate::sort::{get_ordered_events, spec_sort_events, EventSort};
use crate::types::{error_info, ApiError, PrincipalId, Privacy};

verus! {

/// The record-kind tag carried by event identifiers (the bytes of `"evt"`).
pub open spec fn spec_event_kind() -> Seq<u8> {
    seq![101u8, 118u8, 116u8]
}

/// The record-kind tag carried by event identifiers.
pub fn event_identifier_kind() -> (r: Vec<u8>)
    ensures
        r@ == spec_event_kind(),
{
    let mut v: Vec<u8> = Vec::new();
    v.push(101u8);
    v.push(118u8);
    v.push(116u8);
    proof {
        assert(v@ =~= spec_event_kind());
    }
    v
}

/// The shard-local persistent root: the shard's own identity and entry
/// counter, its orchestrator, and its availability.
#[derive(Debug)]
pub struct ShardData {
    pub name: String,
    /// This shard's identity, embedded in every identifier it creates.
    pub identifier: u64,
    /// The next entry counter value to assign; strictly above every stored key.
    pub current_entry_id: u64,
    /// The orchestrator that provisioned this shard.
    pub parent: PrincipalId,
    /// False once this shard has triggered a reshard.
    pub is_available: bool,
    pub updated_at: u64,
    pub created_at: u64,
}

/// The shard's record store: the persistent root, the record table keyed by
/// the entry counter, and the capacity ceiling that triggers resharding.
#[derive(Debug)]
pub struct Store {
    pub data: ShardData,
    /// The record table; keys are strictly increasing and below the counter.
    pub entries: Vec<(u64, Event)>,
    /// The write ceiling: a write that would grow the table past this many
    /// records is redirected to a sibling shard instead.
    pub max_entries: u64,
}

/// The outcome of a local write: stored pending participant registration, or
/// redirected because the shard is full.
#[derive(Debug)]
pub enum AddEventOutcome {
    /// Stored locally under the identifier; the read-side response is ready,
    /// but the owner still has to be registered with the counting authority
    /// ([`Store::finish_add_event`] commits or rolls back).
    Stored(Identifier, EventResponse),
    /// The shard is at capacity: nothing was stored locally. The built
    /// record must be forwarded to a freshly provisioned sibling, together
    /// with this shard's counter watermark.
    AtCapacity(Event, u64),
}

/// Keeps the records that a group-scoped read may see: not soft-deleted and,
/// when a group is given, owned by that group.
pub open spec fn group_entry_pred(group: Option<PrincipalId>) -> spec_fn((u64, Event)) -> bool {
    |p: (u64, Event)|
        !p.1@.is_deleted && (match group {
            Some(g) => p.1@.group_identifier == g,
            None => true,
        })
}

/// Keeps the live records of one group: like every read short of the
/// direct-by-identifier fetch, the per-group count never sees a soft-deleted
/// record.
pub open spec fn count_entry_pred(g: PrincipalId) -> spec_fn((u64, Event)) -> bool {
    |p: (u64, Event)| !p.1@.is_deleted && p.1@.group_identifier == g
}

impl Store {
    /// Well-formedness: record keys strictly increase and every key lies
    /// below the counter, so the next assigned identifier is fresh and
    /// identifiers strictly increase within the shard.
    pub open spec fn wf(&self) -> bool {
        &&& forall|i: int, j: int|
            0 <= i < j < self.entries@.len() ==> (#[trigger] self.entries@[i].0) < (
            #[trigger] self.entries@[j].0)
        &&& forall|i: int|
            0 <= i < self.entries@.len() ==> (#[trigger] self.entries@[i].0)
                < self.data.current_entry_id
    }

    /// The identifier view of a record key in this shard.
    pub open spec fn id_of_key(&self, key: u64) -> IdentifierV {
        IdentifierV { kind: spec_event_kind(), shard: self.data.identifier, index: key }
    }

    /// Whether this shard minted the identifier: the kind tag is the event
    /// tag and the embedded shard identity is this shard's own. Identifiers
    /// are self-describing precisely so that a foreign one is refused rather
    /// than answered from a colliding counter.
    pub open spec fn owns_identifier(&self, id: IdentifierV) -> bool {
        id.kind == spec_event_kind() && id.shard == self.data.identifier
    }

    /// Whether a record is stored under `key`.
    pub open spec fn has_entry(&self, key: u64) -> bool {
        exists|i: int| 0 <= i < self.entries@.len() && (#[trigger] self.entries@[i].0) == key
    }

    /// The index of the record stored under `key`.
    pub open spec fn spec_index_of(&self, key: u64) -> int {
        choose|i: int| 0 <= i < self.entries@.len() && (#[trigger] self.entries@[i].0) == key
    }

    /// The records a group-scoped read may see, in storage order.
    pub open spec fn spec_live_entries(&self, group: Option<PrincipalId>) -> Seq<(u64, Event)> {
        self.entries@.filter(group_entry_pred(group))
    }

    /// Whether `rs` is, record for record, the read-side image of the
    /// records a group-scoped read may see.
    pub open spec fn responses_match(
        &self,
        group: Option<PrincipalId>,
        rs: Seq<EventResponse>,
    ) -> bool {
        entries_responses_match(self.data.identifier, self.entries@, group, rs)
    }

    /// Whether this shard minted the identifier, decided executably.
    fn identifier_is_mine(&self, id: &Identifier) -> (r: bool)
        ensures
            r == self.owns_identifier(id@),
    {
        let kind = event_identifier_kind();
        let kind_matches = id.kind == kind;
        proof {
            if kind_matches {
                assert(id@.kind =~= spec_event_kind());
            } else {
                assert(!(id@.kind =~= spec_event_kind()));
            }
        }
        kind_matches && id.shard == self.data.identifier
    }

    /// The index of the record under `key`, or `None` if no record holds it.
    #[verifier::loop_isolation(false)]
    fn find_entry(&self, key: u64) -> (r: Option<usize>)
        ensures
            match r {
                Some(i) => i < self.entries@.len() && self.entries@[i as int].0 == key,
                None => !self.has_entry(key),
            },
    {
        let mut i: usize = 0;
        while i < self.entries.len()
            invariant
                i <= self.entries@.len(),
                forall|k: int| 0 <= k < i ==> (#[trigger] self.entries@[k].0) != key,
            decreases self.entries@.len() - i,
        {
            if self.entries[i].0 == key {
                return Some(i);
            }
            i = i + 1;
        }
        None
    }

    /// Stores a record under the next counter value, unless the shard is at
    /// its ceiling. On success the identifier is fresh, strictly above every
    /// stored key, and the counter moves past it; at capacity nothing
    /// changes and the capacity signal is returned.
    pub fn add_entry(&mut self, event: Event, kind: Vec<u8>) -> (r: Result<Identifier, ApiError>)
        requires
            old(self).wf(),
            old(self).data.current_entry_id < u64::MAX,
            kind@.len() <= 255,
        ensures
            final(self).wf(),
            final(self).data.identifier == old(self).data.identifier,
            final(self).data.parent == old(self).data.parent,
            final(self).max_entries == old(self).max_entries,
            match r {
                Ok(id) => {
                    &&& old(self).entries@.len() < old(self).max_entries
                    &&& id@ == IdentifierV {
                        kind: kind@,
                        shard: old(self).data.identifier,
                        index: old(self).data.current_entry_id,
                    }
                    &&& final(self).entries@ == old(self).entries@.push(
                        (old(self).data.current_entry_id, event),
                    )
                    &&& final(self).data.current_entry_id == old(self).data.current_entry_id + 1
                },
                Err(e) => {
                    &&& old(self).entries@.len() >= old(self).max_entries
                    &&& e is CanisterAtCapacity
                    &&& *final(self) == *old(self)
                },
            },
    {
        if self.entries.len() as u64 >= self.max_entries {
            return Err(
                ApiError::CanisterAtCapacity("The canister is at capacity, try again".to_owned()),
            );
        }
        let key = self.data.current_entry_id;
        let id = Identifier { kind, shard: self.data.identifier, index: key };
        self.entries.push((key, event));
        self.data.current_entry_id = key + 1;
        proof {
            assert(final(self).wf());
        }
        Ok(id)
    }

    /// Physically removes the record under `key`, if present; the rollback
    /// step of a failed multi-step write. No other record moves relative to
    /// the rest.
    pub fn remove_entry(&mut self, key: u64) -> (removed: bool)
        requires
            old(self).wf(),
        ensures
            final(self).wf(),
            final(self).data == old(self).data,
            final(self).max_entries == old(self).max_entries,
            removed == old(self).has_entry(key),
            removed ==> final(self).entries@ == old(self).entries@.remove(
                old(self).spec_index_of(key),
            ),
            !removed ==> final(self).entries@ == old(self).entries@,
    {
        match self.find_entry(key) {
            Some(i) => {
                proof {
                    assert(self.entries@[i as int].0 == key);
                    let w = self.spec_index_of(key);
                    assert(self.entries@[w].0 == key);
                    if w != i {
                        assert(self.entries@[w].0 != self.entries@[i as int].0);
                    }
                }
                self.entries.remove(i);
                proof {
                    assert(final(self).wf());
                }
                true
            },
            None => false,
        }
    }

    /// The read-side image of the record named by the identifier, or
    /// `NotFound`. An identifier this shard did not mint (wrong kind tag or
    /// wrong shard) and a mismatched group scope also yield `NotFound`;
    /// without a scope the record is returned even when soft-deleted — this
    /// is the direct-by-identifier path migration relies on.
    pub fn get_event(&self, identifier: &Identifier, group_identifier: Option<PrincipalId>) -> (r:
        Result<EventResponse, ApiError>)
        requires
            self.wf(),
        ensures
            match r {
                Ok(resp) => {
                    &&& self.owns_identifier(identifier@)
                    &&& self.has_entry(identifier@.index)
                    &&& {
                        let e = self.entries@[self.spec_index_of(identifier@.index)].1;
                        &&& (match group_identifier {
                            Some(g) => e@.group_identifier == g,
                            None => true,
                        })
                        &&& resp@ == spec_response(self.id_of_key(identifier@.index), e@)
                    }
                },
                Err(e) => {
                    &&& e is NotFound
                    &&& (!self.owns_identifier(identifier@) || !self.has_entry(identifier@.index)
                        || (group_identifier matches Some(g) && self.entries@[self.spec_index_of(
                        identifier@.index,
                    )].1@.group_identifier != g))
                },
            },
    {
        if !self.identifier_is_mine(identifier) {
            return Err(ApiError::NotFound(error_info("EVENT_NOT_FOUND", "Event not found")));
        }
        match self.find_entry(identifier.index) {
            None => Err(
                ApiError::NotFound(error_info("EVENT_NOT_FOUND", "Event not found")),
            ),
            Some(i) => {
                proof {
                    let w = self.spec_index_of(identifier.index);
                    assert(self.entries@[w].0 == identifier@.index);
                    if w != i {
                        assert(self.entries@[w].0 != self.entries@[i as int].0);
                    }
                }
                if let Some(g) = group_identifier {
                    if self.entries[i].1.group_identifier != g {
                        return Err(
                            ApiError::NotFound(
                                error_info("EVENT_NOT_FOUND", "No event found for this group"),
                            ),
                        );
                    }
                }
                let id = Identifier {
                    kind: event_identifier_kind(),
                    shard: self.data.identifier,
                    index: identifier.index,
                };
                let resp = map_to_event_response(id, &self.entries[i].1);
                proof {
                    assert(resp@ == spec_response(
                        self.id_of_key(identifier@.index),
                        self.entries@[i as int].1@,
                    ));
                }
                Ok(resp)
            },
        }
    }

    /// The owner identity and privacy mode of the record, scoped to the
    /// group; `NotFound` on a missing record or a mismatched scope.
    pub fn get_event_privacy_and_owner(
        &self,
        identifier: &Identifier,
        group_identifier: PrincipalId,
    ) -> (r: Result<(PrincipalId, Privacy), ApiError>)
        requires
            self.wf(),
        ensures
            match r {
                Ok(po) => {
                    &&& self.owns_identifier(identifier@)
                    &&& self.has_entry(identifier@.index)
                    &&& {
                        let e = self.entries@[self.spec_index_of(identifier@.index)].1;
                        &&& e@.group_identifier == group_identifier
                        &&& po.0 == e@.owner
                        &&& po.1 == e@.privacy
                    }
                },
                Err(e) => {
                    &&& e is NotFound
                    &&& (!self.owns_identifier(identifier@) || !self.has_entry(identifier@.index)
                        || self.entries@[self.spec_index_of(
                        identifier@.index,
                    )].1@.group_identifier != group_identifier)
                },
            },
    {
        match self.get_event(identifier, Some(group_identifier)) {
            Err(err) => Err(err),
            Ok(response) => Ok((response.owner, response.privacy)),
        }
    }
}

/// Copies a per-source participation count table.
#[verifier::loop_isolation(false)]
fn clone_counts(v: &Vec<(PrincipalId, usize)>) -> (r: Vec<(PrincipalId, usize)>)
    ensures
        r@ == v@,
{
    let mut out: Vec<(PrincipalId, usize)> = Vec::new();
    let mut i: usize = 0;
    while i < v.len()
        invariant
            i <= v.len(),
            out@ == v@.subrange(0, i as int),
        decreases v.len() - i,
    {
        out.push(v[i]);
        i = i + 1;
        assert(out@ =~= v@.subrange(0, i as int));
    }
    assert(out@ =~= v@);
    out
}

/// Copies a stored record, field for field.
fn clone_event(e: &Event) -> (r: Event)
    ensures
        r@ == e@,
{
    let r = Event {
        name: e.name.clone(),
        description: e.description.clone(),
        date: e.date,
        privacy: e.privacy,
        group_identifier: e.group_identifier,
        created_by: e.created_by,
        owner: e.owner,
        website: e.website.clone(),
        location: e.location.clone(),
        image: e.image.clone(),
        banner_image: e.banner_image.clone(),
        tags: clone_tags(&e.tags),
        is_canceled: (e.is_canceled.0, e.is_canceled.1.clone()),
        is_deleted: e.is_deleted,
        attendee_count: clone_counts(&e.attendee_count),
        metadata: clone_metadata(&e.metadata),
        updated_on: e.updated_on,
        created_on: e.created_on,
    };
    assert(r@ =~= e@);
    r
}

/// The record a "create" call stores: the payload's fields, the caller as
/// creator, a single participation count of one for the counting authority,
/// no flags set, and both timestamps at `now`.
pub open spec fn spec_new_event(
    caller: PrincipalId,
    post_event: crate::events::PostEventV,
    group_identifier: PrincipalId,
    event_attendee_canister: PrincipalId,
    now: u64,
) -> EventV {
    EventV {
        name: post_event.name,
        description: post_event.description,
        date: post_event.date,
        privacy: post_event.privacy,
        group_identifier: group_identifier,
        created_by: caller,
        owner: post_event.owner,
        website: post_event.website,
        location: post_event.location,
        image: post_event.image,
        banner_image: post_event.banner_image,
        tags: post_event.tags,
        is_canceled: (false, Seq::<char>::empty()),
        is_deleted: false,
        attendee_count: seq![(event_attendee_canister, 1usize)],
        metadata: post_event.metadata,
        updated_on: now,
        created_on: now,
    }
}

/// A record after an edit: every caller-editable field replaced by the
/// payload's, the update time set to `now`, and identity, creation data,
/// flags and participation counts kept.
pub open spec fn spec_apply_update(
    old_event: EventV,
    update: crate::events::UpdateEventV,
    now: u64,
) -> EventV {
    EventV {
        name: update.name,
        description: update.description,
        date: update.date,
        privacy: update.privacy,
        website: update.website,
        location: update.location,
        image: update.image,
        banner_image: update.banner_image,
        owner: update.owner,
        metadata: update.metadata,
        tags: update.tags,
        updated_on: now,
        ..old_event
    }
}

impl Store {
    /// A write: builds the record and stores it locally, or — when the shard
    /// is at its ceiling — stores nothing and hands the built record back
    /// for forwarding to a sibling, with this shard's counter watermark.
    /// A stored record still awaits [`Store::finish_add_event`].
    pub fn add_event(
        &mut self,
        caller: PrincipalId,
        post_event: PostEvent,
        group_identifier: PrincipalId,
        event_attendee_canister: PrincipalId,
        now: u64,
    ) -> (r: AddEventOutcome)
        requires
            old(self).wf(),
            old(self).data.current_entry_id < u64::MAX,
        ensures
            final(self).wf(),
            final(self).data.identifier == old(self).data.identifier,
            final(self).data.parent == old(self).data.parent,
            final(self).max_entries == old(self).max_entries,
            match r {
                AddEventOutcome::Stored(id, resp) => {
                    let key = old(self).data.current_entry_id;
                    let stored = final(self).entries@.last().1;
                    &&& old(self).entries@.len() < old(self).max_entries
                    &&& stored@ == spec_new_event(
                        caller,
                        post_event@,
                        group_identifier,
                        event_attendee_canister,
                        now,
                    )
                    &&& final(self).entries@ == old(self).entries@.push((key, stored))
                    &&& final(self).data.current_entry_id == key + 1
                    &&& id@ == old(self).id_of_key(key)
                    &&& resp@ == spec_response(id@, stored@)
                },
                AddEventOutcome::AtCapacity(pending, watermark) => {
                    &&& old(self).entries@.len() >= old(self).max_entries
                    &&& *final(self) == *old(self)
                    &&& pending@ == spec_new_event(
                        caller,
                        post_event@,
                        group_identifier,
                        event_attendee_canister,
                        now,
                    )
                    &&& watermark == old(self).data.current_entry_id
                },
            },
    {
        let mut counts: Vec<(PrincipalId, usize)> = Vec::new();
        counts.push((event_attendee_canister, 1));
        let new_event = Event {
            name: post_event.name,
            description: post_event.description,
            date: post_event.date,
            privacy: post_event.privacy,
            group_identifier: group_identifier,
            created_by: caller,
            owner: post_event.owner,
            website: post_event.website,
            location: post_event.location,
            image: post_event.image,
            banner_image: post_event.banner_image,
            tags: post_event.tags,
            is_canceled: (false, String::new()),
            is_deleted: false,
            attendee_count: counts,
            metadata: post_event.metadata,
            updated_on: now,
            created_on: now,
        };
        proof {
            assert(new_event@ =~= spec_new_event(
                caller,
                post_event@,
                group_identifier,
                event_attendee_canister,
                now,
            ));
        }
        if self.entries.len() as u64 >= self.max_entries {
            return AddEventOutcome::AtCapacity(new_event, self.data.current_entry_id);
        }
        let key = self.data.current_entry_id;
        let id = Identifier {
            kind: event_identifier_kind(),
            shard: self.data.identifier,
            index: key,
        };
        let resp = map_to_event_response(id, &new_event);
        let id_again = Identifier {
            kind: event_identifier_kind(),
            shard: self.data.identifier,
            index: key,
        };
        self.entries.push((key, new_event));
        self.data.current_entry_id = key + 1;
        proof {
            assert(final(self).wf());
            assert(id_again@ =~= old(self).id_of_key(key));
            assert(resp@ == spec_response(id_again@, final(self).entries@.last().1@));
        }
        AddEventOutcome::Stored(id_again, resp)
    }

    /// Commits or rolls back a stored write once the host has tried to
    /// register the owner with the counting authority: on success the
    /// response is returned and nothing changes; on failure the record is
    /// removed again (compensation) and the write is rejected.
    pub fn finish_add_event(
        &mut self,
        identifier: &Identifier,
        response: EventResponse,
        attendee_added: bool,
    ) -> (r: Result<EventResponse, ApiError>)
        requires
            old(self).wf(),
        ensures
            final(self).wf(),
            final(self).data == old(self).data,
            final(self).max_entries == old(self).max_entries,
            attendee_added ==> *final(self) == *old(self) && (r matches Ok(resp) && resp
                == response),
            !attendee_added ==> {
                &&& r matches Err(e) && e is Unauthorized && e.spec_tag()
                    == "ATTENDEE_ADD_FAILED"@
                &&& (old(self).has_entry(identifier@.index) ==> final(self).entries@ == old(
                    self,
                ).entries@.remove(old(self).spec_index_of(identifier@.index)))
                &&& (!old(self).has_entry(identifier@.index) ==> final(self).entries@ == old(
                    self,
                ).entries@)
            },
    {
        if attendee_added {
            Ok(response)
        } else {
            self.remove_entry(identifier.index);
            Err(
                ApiError::Unauthorized(
                    error_info("ATTENDEE_ADD_FAILED", "Storing the attendee failed"),
                ),
            )
        }
    }
}

/// The answer a full shard gives its caller once the sibling-spawn request
/// has come back: on a successful spawn the capacity signal (the write
/// landed on the new shard and the caller must re-resolve availability); on
/// a failed spawn that failure, unchanged.
pub fn at_capacity_result(
    spawn_result: Result<PrincipalId, ApiError>,
    message: String,
) -> (r: Result<EventResponse, ApiError>)
    ensures
        r is Err,
        match spawn_result {
            Ok(_) => r->Err_0 matches ApiError::CanisterAtCapacity(m) && m@ == message@,
            Err(e) => r->Err_0 == e,
        },
{
    match spawn_result {
        Ok(_) => Err(ApiError::CanisterAtCapacity(message)),
        Err(e) => Err(e),
    }
}

/// The participation table with the count for one source set: the source's
/// entry replaced if present, appended otherwise.
pub open spec fn spec_set_count(
    s: Seq<(PrincipalId, usize)>,
    key: PrincipalId,
    v: usize,
) -> Seq<(PrincipalId, usize)>
    decreases s.len(),
{
    if s.len() == 0 {
        seq![(key, v)]
    } else if s.first().0 == key {
        seq![(key, v)] + s.drop_first()
    } else {
        seq![s.first()] + spec_set_count(s.drop_first(), key, v)
    }
}

/// Sets the count for one source in a participation table.
#[verifier::loop_isolation(false)]
fn set_count(counts: &Vec<(PrincipalId, usize)>, key: PrincipalId, v: usize) -> (r: Vec<
    (PrincipalId, usize),
>)
    ensures
        r@ == spec_set_count(counts@, key, v),
{
    let s = counts;
    let mut j: usize = 0;
    proof {
        assert(s@.subrange(0, 0) =~= Seq::<(PrincipalId, usize)>::empty());
        assert(s@.subrange(0, s@.len() as int) =~= s@);
        assert(Seq::<(PrincipalId, usize)>::empty() + spec_set_count(
            s@.subrange(0, s@.len() as int),
            key,
            v,
        ) =~= spec_set_count(s@, key, v));
    }
    while j < s.len() && s[j].0 != key
        invariant
            j <= s@.len(),
            forall|k: int| 0 <= k < j ==> (#[trigger] s@[k].0) != key,
            spec_set_count(s@, key, v) == s@.subrange(0, j as int) + spec_set_count(
                s@.subrange(j as int, s@.len() as int),
                key,
                v,
            ),
        decreases s@.len() - j,
    {
        proof {
            let suf = s@.subrange(j as int, s@.len() as int);
            let suf2 = s@.subrange(j + 1, s@.len() as int);
            assert(suf.first() == s@[j as int]);
            assert(suf.drop_first() =~= suf2);
            assert(spec_set_count(suf, key, v) == seq![s@[j as int]] + spec_set_count(
                suf2,
                key,
                v,
            ));
            assert(s@.subrange(0, j as int) + (seq![s@[j as int]] + spec_set_count(suf2, key, v))
                =~= s@.subrange(0, j + 1) + spec_set_count(suf2, key, v));
        }
        j = j + 1;
    }
    let mut out = clone_counts(counts);
    if j < s.len() {
        proof {
            let suf = s@.subrange(j as int, s@.len() as int);
            assert(suf.first() == s@[j as int]);
            assert(suf.drop_first() =~= s@.subrange(j + 1, s@.len() as int));
            assert(spec_set_count(suf, key, v) == seq![(key, v)] + suf.drop_first());
        }
        out[j] = (key, v);
        proof {
            assert(out@ =~= s@.subrange(0, j as int) + (seq![(key, v)] + s@.subrange(
                j + 1,
                s@.len() as int,
            )));
        }
    } else {
        proof {
            let suf = s@.subrange(j as int, s@.len() as int);
            assert(suf =~= Seq::<(PrincipalId, usize)>::empty());
            assert(spec_set_count(suf, key, v) == seq![(key, v)]);
        }
        out.push((key, v));
        proof {
            assert(out@ =~= s@.subrange(0, j as int) + seq![(key, v)]);
        }
    }
    out
}

impl Store {
    /// Replaces every caller-editable field of the record; identity,
    /// creation data, flags and participation counts stay. A foreign
    /// identifier or a missing record yields `NotFound` and leaves the store
    /// unchanged.
    pub fn edit_event(&mut self, identifier: &Identifier, update_event: UpdateEvent, now: u64) -> (r:
        Result<EventResponse, ApiError>)
        requires
            old(self).wf(),
        ensures
            final(self).wf(),
            final(self).data == old(self).data,
            final(self).max_entries == old(self).max_entries,
            (!old(self).owns_identifier(identifier@) || !old(self).has_entry(identifier@.index))
                ==> (*final(self) == *old(self) && (r matches Err(e) && e is NotFound)),
            (old(self).owns_identifier(identifier@) && old(self).has_entry(identifier@.index))
                ==> {
                let at = old(self).spec_index_of(identifier@.index);
                let stored = final(self).entries@[at].1;
                &&& stored@ == spec_apply_update(old(self).entries@[at].1@, update_event@, now)
                &&& final(self).entries@ == old(self).entries@.update(
                    at,
                    (identifier@.index, stored),
                )
                &&& r matches Ok(resp) && resp@ == spec_response(
                    old(self).id_of_key(identifier@.index),
                    stored@,
                )
            },
    {
        if !self.identifier_is_mine(identifier) {
            return Err(ApiError::NotFound(error_info("EVENT_NOT_FOUND", "Event not found")));
        }
        let found = self.find_entry(identifier.index);
        match found {
            None => Err(ApiError::NotFound(error_info("EVENT_NOT_FOUND", "Event not found"))),
            Some(i) => {
                proof {
                    let w = self.spec_index_of(identifier@.index);
                    assert(self.entries@[w].0 == identifier@.index);
                    if w != i {
                        assert(self.entries@[w].0 != self.entries@[i as int].0);
                    }
                }
                let old_event = &self.entries[i].1;
                let new_event = Event {
                    name: update_event.name,
                    description: update_event.description,
                    date: update_event.date,
                    privacy: update_event.privacy,
                    group_identifier: old_event.group_identifier,
                    created_by: old_event.created_by,
                    owner: update_event.owner,
                    website: update_event.website,
                    location: update_event.location,
                    image: update_event.image,
                    banner_image: update_event.banner_image,
                    tags: update_event.tags,
                    is_canceled: (old_event.is_canceled.0, old_event.is_canceled.1.clone()),
                    is_deleted: old_event.is_deleted,
                    attendee_count: clone_counts(&old_event.attendee_count),
                    metadata: update_event.metadata,
                    updated_on: now,
                    created_on: old_event.created_on,
                };
                proof {
                    assert(new_event@ =~= spec_apply_update(
                        self.entries@[i as int].1@,
                        update_event@,
                        now,
                    ));
                }
                let id = Identifier {
                    kind: event_identifier_kind(),
                    shard: self.data.identifier,
                    index: identifier.index,
                };
                let resp = map_to_event_response(id, &new_event);
                let key = self.entries[i].0;
                self.entries[i] = (key, new_event);
                proof {
                    assert(final(self).wf()) by {
                        assert(forall|k: int|
                            0 <= k < final(self).entries@.len() ==> (#[trigger] final(self).entries@[k].0) == old(self).entries@[k].0);
                    }
                    assert(resp@ == spec_response(
                        old(self).id_of_key(identifier@.index),
                        final(self).entries@[i as int].1@,
                    ));
                }
                Ok(resp)
            },
        }
    }

    /// Soft delete: flips `is_deleted` on the record, never removing the
    /// row. A foreign identifier, a missing record, or a mismatched group
    /// scope yields `NotFound` and leaves the store unchanged.
    pub fn delete_event(&mut self, identifier: &Identifier, group_identifier: PrincipalId) -> (r:
        Result<(), ApiError>)
        requires
            old(self).wf(),
        ensures
            final(self).wf(),
            final(self).data == old(self).data,
            final(self).max_entries == old(self).max_entries,
            match r {
                Ok(_) => {
                    let at = old(self).spec_index_of(identifier@.index);
                    let stored = final(self).entries@[at].1;
                    &&& old(self).owns_identifier(identifier@)
                    &&& old(self).has_entry(identifier@.index)
                    &&& old(self).entries@[at].1@.group_identifier == group_identifier
                    &&& stored@ == EventV { is_deleted: true, ..old(self).entries@[at].1@ }
                    &&& final(self).entries@ == old(self).entries@.update(
                        at,
                        (identifier@.index, stored),
                    )
                },
                Err(e) => {
                    &&& e is NotFound
                    &&& *final(self) == *old(self)
                    &&& (!old(self).owns_identifier(identifier@) || !old(self).has_entry(
                        identifier@.index,
                    ) || old(self).entries@[old(self).spec_index_of(
                        identifier@.index,
                    )].1@.group_identifier != group_identifier)
                },
            },
    {
        if !self.identifier_is_mine(identifier) {
            return Err(ApiError::NotFound(error_info("EVENT_NOT_FOUND", "Event not found")));
        }
        let found = self.find_entry(identifier.index);
        match found {
            None => Err(ApiError::NotFound(error_info("EVENT_NOT_FOUND", "Event not found"))),
            Some(i) => {
                proof {
                    let w = self.spec_index_of(identifier@.index);
                    assert(self.entries@[w].0 == identifier@.index);
                    if w != i {
                        assert(self.entries@[w].0 != self.entries@[i as int].0);
                    }
                }
                if self.entries[i].1.group_identifier != group_identifier {
                    return Err(
                        ApiError::NotFound(
                            error_info("EVENT_NOT_FOUND", "No event found for this group"),
                        ),
                    );
                }
                let mut ev = clone_event(&self.entries[i].1);
                ev.is_deleted = true;
                proof {
                    assert(ev@ =~= EventV { is_deleted: true, ..self.entries@[i as int].1@ });
                }
                let key = self.entries[i].0;
                self.entries[i] = (key, ev);
                proof {
                    assert(final(self).wf()) by {
                        assert(forall|k: int|
                            0 <= k < final(self).entries@.len() ==> (#[trigger] final(self).entries@[k].0) == old(self).entries@[k].0);
                    }
                }
                Ok(())
            },
        }
    }

    /// Soft cancel: sets the cancellation flag with the given reason. A
    /// foreign identifier, a missing record, or a mismatched group scope
    /// yields `NotFound` and leaves the store unchanged.
    pub fn cancel_event(
        &mut self,
        identifier: &Identifier,
        reason: String,
        group_identifier: PrincipalId,
    ) -> (r: Result<(), ApiError>)
        requires
            old(self).wf(),
        ensures
            final(self).wf(),
            final(self).data == old(self).data,
            final(self).max_entries == old(self).max_entries,
            match r {
                Ok(_) => {
                    let at = old(self).spec_index_of(identifier@.index);
                    let stored = final(self).entries@[at].1;
                    &&& old(self).owns_identifier(identifier@)
                    &&& old(self).has_entry(identifier@.index)
                    &&& old(self).entries@[at].1@.group_identifier == group_identifier
                    &&& stored@ == EventV {
                        is_canceled: (true, reason@),
                        ..old(self).entries@[at].1@
                    }
                    &&& final(self).entries@ == old(self).entries@.update(
                        at,
                        (identifier@.index, stored),
                    )
                },
                Err(e) => {
                    &&& e is NotFound
                    &&& *final(self) == *old(self)
                    &&& (!old(self).owns_identifier(identifier@) || !old(self).has_entry(
                        identifier@.index,
                    ) || old(self).entries@[old(self).spec_index_of(
                        identifier@.index,
                    )].1@.group_identifier != group_identifier)
                },
            },
    {
        if !self.identifier_is_mine(identifier) {
            return Err(ApiError::NotFound(error_info("EVENT_NOT_FOUND", "Event not found")));
        }
        let found = self.find_entry(identifier.index);
        match found {
            None => Err(ApiError::NotFound(error_info("EVENT_NOT_FOUND", "Event not found"))),
            Some(i) => {
                proof {
                    let w = self.spec_index_of(identifier@.index);
                    assert(self.entries@[w].0 == identifier@.index);
                    if w != i {
                        assert(self.entries@[w].0 != self.entries@[i as int].0);
                    }
                }
                if self.entries[i].1.group_identifier != group_identifier {
                    return Err(
                        ApiError::NotFound(
                            error_info("EVENT_NOT_FOUND", "No event found for this group"),
                        ),
                    );
                }
                let mut ev = clone_event(&self.entries[i].1);
                ev.is_canceled = (true, reason);
                proof {
                    assert(ev@ =~= EventV {
                        is_canceled: (true, reason@),
                        ..self.entries@[i as int].1@
                    });
                }
                let key = self.entries[i].0;
                self.entries[i] = (key, ev);
                proof {
                    assert(final(self).wf()) by {
                        assert(forall|k: int|
                            0 <= k < final(self).entries@.len() ==> (#[trigger] final(self).entries@[k].0) == old(self).entries@[k].0);
                    }
                }
                Ok(())
            },
        }
    }

    /// Sets the participation count reported by one counting source. An
    /// identifier this shard did not mint (wrong kind tag or wrong shard),
    /// or a missing record, is rejected with `Err(false)` and nothing
    /// changes.
    pub fn update_attendee_count_on_event(
        &mut self,
        event_identifier: &Identifier,
        event_attendee_canister: PrincipalId,
        attendee_count: usize,
    ) -> (r: Result<(), bool>)
        requires
            old(self).wf(),
        ensures
            final(self).wf(),
            final(self).data == old(self).data,
            final(self).max_entries == old(self).max_entries,
            !old(self).owns_identifier(event_identifier@) ==> (r == Err::<(), bool>(false)
                && *final(self) == *old(self)),
            (old(self).owns_identifier(event_identifier@) && !old(self).has_entry(
                event_identifier@.index,
            )) ==> (r == Err::<(), bool>(false) && *final(self) == *old(self)),
            (old(self).owns_identifier(event_identifier@) && old(self).has_entry(
                event_identifier@.index,
            )) ==> {
                let at = old(self).spec_index_of(event_identifier@.index);
                let stored = final(self).entries@[at].1;
                &&& r == Ok::<(), bool>(())
                &&& stored@ == EventV {
                    attendee_count: spec_set_count(
                        old(self).entries@[at].1@.attendee_count,
                        event_attendee_canister,
                        attendee_count,
                    ),
                    ..old(self).entries@[at].1@
                }
                &&& final(self).entries@ == old(self).entries@.update(
                    at,
                    (event_identifier@.index, stored),
                )
            },
    {
        if !self.identifier_is_mine(event_identifier) {
            return Err(false);
        }
        let found = self.find_entry(event_identifier.index);
        match found {
            None => Err(false),
            Some(i) => {
                proof {
                    let w = self.spec_index_of(event_identifier@.index);
                    assert(self.entries@[w].0 == event_identifier@.index);
                    if w != i {
                        assert(self.entries@[w].0 != self.entries@[i as int].0);
                    }
                }
                let mut ev = clone_event(&self.entries[i].1);
                ev.attendee_count = set_count(
                    &ev.attendee_count,
                    event_attendee_canister,
                    attendee_count,
                );
                proof {
                    assert(ev@ =~= EventV {
                        attendee_count: spec_set_count(
                            self.entries@[i as int].1@.attendee_count,
                            event_attendee_canister,
                            attendee_count,
                        ),
                        ..self.entries@[i as int].1@
                    });
                }
                let key = self.entries[i].0;
                self.entries[i] = (key, ev);
                proof {
                    assert(final(self).wf()) by {
                        assert(forall|k: int|
                            0 <= k < final(self).entries@.len() ==> (#[trigger] final(self).entries@[k].0) == old(self).entries@[k].0);
                    }
                }
                Ok(())
            },
        }
    }
}

/// The cross-process entry point for participation counts: the caller's
/// identity must equal the counting source it reports for (defends against
/// one source writing another's count); then the count is set as
/// [`Store::update_attendee_count_on_event`] says.
pub fn update_attendee_count_on_event(
    store: &mut Store,
    caller: PrincipalId,
    event_identifier: &Identifier,
    event_attendee_canister: PrincipalId,
    attendee_count: usize,
) -> (r: Result<(), bool>)
    requires
        old(store).wf(),
    ensures
        final(store).wf(),
        final(store).data == old(store).data,
        final(store).max_entries == old(store).max_entries,
        caller != event_attendee_canister ==> (r == Err::<(), bool>(false) && *final(store)
            == *old(store)),
        (caller == event_attendee_canister && old(store).owns_identifier(event_identifier@) && old(
            store,
        ).has_entry(event_identifier@.index)) ==> {
            let at = old(store).spec_index_of(event_identifier@.index);
            let stored = final(store).entries@[at].1;
            &&& r == Ok::<(), bool>(())
            &&& stored@ == EventV {
                attendee_count: spec_set_count(
                    old(store).entries@[at].1@.attendee_count,
                    event_attendee_canister,
                    attendee_count,
                ),
                ..old(store).entries@[at].1@
            }
            &&& final(store).entries@ == old(store).entries@.update(
                at,
                (event_identifier@.index, stored),
            )
        },
        (caller == event_attendee_canister && (!old(store).owns_identifier(event_identifier@)
            || !old(store).has_entry(event_identifier@.index))) ==> (r == Err::<(), bool>(false)
            && *final(store) == *old(store)),
{
    if caller == event_attendee_canister {
        store.update_attendee_count_on_event(
            event_identifier,
            event_attendee_canister,
            attendee_count,
        )
    } else {
        Err(false)
    }
}

/// Whether `rs` is, record for record, the read-side image of the records of
/// `entries` that a read scoped to `group` may see.
pub open spec fn entries_responses_match(
    shard_id: u64,
    entries: Seq<(u64, Event)>,
    group: Option<PrincipalId>,
    rs: Seq<EventResponse>,
) -> bool {
    let ge = entries.filter(group_entry_pred(group));
    &&& rs.len() == ge.len()
    &&& forall|i: int|
        0 <= i < ge.len() ==> (#[trigger] rs[i])@ == spec_response(
            IdentifierV { kind: spec_event_kind(), shard: shard_id, index: ge[i].0 },
            ge[i].1@,
        )
}

impl Store {
    /// Accepts a record the orchestrator forwards during a reshard; only the
    /// shard's own orchestrator may hand records in this way.
    pub fn add_entry_by_parent(&mut self, caller: PrincipalId, event: Event, kind: Vec<u8>) -> (r:
        Result<(), ApiError>)
        requires
            old(self).wf(),
            old(self).data.current_entry_id < u64::MAX,
            kind@.len() <= 255,
        ensures
            final(self).wf(),
            final(self).data.identifier == old(self).data.identifier,
            final(self).data.parent == old(self).data.parent,
            final(self).max_entries == old(self).max_entries,
            caller != old(self).data.parent ==> ((r matches Err(e) && e is Unauthorized) && *final(self) == *old(self)),
            (caller == old(self).data.parent && old(self).entries@.len() < old(self).max_entries)
                ==> {
                let key = old(self).data.current_entry_id;
                let stored = final(self).entries@.last().1;
                &&& r is Ok
                &&& stored@ == event@
                &&& final(self).entries@ == old(self).entries@.push((key, stored))
                &&& final(self).data.current_entry_id == key + 1
            },
            (caller == old(self).data.parent && old(self).entries@.len() >= old(self).max_entries)
                ==> ((r matches Err(e) && e is CanisterAtCapacity) && *final(self) == *old(self)),
    {
        if caller != self.data.parent {
            return Err(
                ApiError::Unauthorized(
                    error_info("UNAUTHORIZED", "Only the orchestrator may forward records"),
                ),
            );
        }
        match self.add_entry(event, kind) {
            Ok(_) => Ok(()),
            Err(e) => Err(e),
        }
    }

    /// The read-side images of the records a group-scoped read may see, in
    /// storage order: not soft-deleted and, when a group is given, owned by
    /// it.
    #[verifier::loop_isolation(false)]
    pub fn get_event_responses(&self, group_identifier: Option<PrincipalId>) -> (r: Vec<
        EventResponse,
    >)
        ensures
            self.responses_match(group_identifier, r@),
    {
        let mut out: Vec<EventResponse> = Vec::new();
        let mut i: usize = 0;
        proof {
            assert(self.entries@.subrange(0, 0) =~= Seq::<(u64, Event)>::empty());
        }
        while i < self.entries.len()
            invariant
                i <= self.entries@.len(),
                entries_responses_match(
                    self.data.identifier,
                    self.entries@.subrange(0, i as int),
                    group_identifier,
                    out@,
                ),
            decreases self.entries@.len() - i,
        {
            let ghost pre = self.entries@.subrange(0, i as int);
            let ghost cur = self.entries@.subrange(0, i + 1);
            let e = &self.entries[i].1;
            let keep = !e.is_deleted && (match group_identifier {
                Some(g) => e.group_identifier == g,
                None => true,
            });
            proof {
                assert(cur =~= pre.push(self.entries@[i as int]));
                lemma_filter_push(pre, group_entry_pred(group_identifier), self.entries@[i as int]);
                assert(keep == group_entry_pred(group_identifier)(self.entries@[i as int]));
            }
            if keep {
                let key = self.entries[i].0;
                let id = Identifier {
                    kind: event_identifier_kind(),
                    shard: self.data.identifier,
                    index: key,
                };
                proof {
                    assert(id@ =~= IdentifierV {
                        kind: spec_event_kind(),
                        shard: self.data.identifier,
                        index: key,
                    });
                }
                let resp = map_to_event_response(id, &self.entries[i].1);
                out.push(resp);
            }
            i = i + 1;
        }
        proof {
            assert(self.entries@.subrange(0, self.entries@.len() as int) =~= self.entries@);
        }
        out
    }

    /// A filtered, sorted, paginated read of the records a group-scoped read
    /// may see: soft-deleted records are excluded before the filters run,
    /// the filter set combines by `filter_type`, the survivors are stably
    /// sorted, and one page is sliced out of the ordered whole.
    pub fn get_events(
        &self,
        limit: usize,
        page: usize,
        sort: EventSort,
        filters: Vec<EventFilter>,
        filter_type: FilterType,
        group_identifier: Option<PrincipalId>,
    ) -> (r: PagedResponse<EventResponse>)
        requires
            limit >= 1,
        ensures
            r.page == page,
            r.limit == limit,
            exists|rs: Seq<EventResponse>|
                {
                    &&& #[trigger] self.responses_match(group_identifier, rs)
                    &&& {
                        let kept = match filter_type {
                            FilterType::And => spec_and_filter(rs, filters@),
                            FilterType::Or => spec_or_filter(rs, filters@),
                        };
                        let ordered = spec_sort_events(kept, sort);
                        &&& r.total == ordered.len()
                        &&& r.total_pages == spec_total_pages(ordered.len() as int, limit as int)
                        &&& r.data@ == spec_page_slice(ordered, limit as int, page as int)
                    }
                },
    {
        let responses = self.get_event_responses(group_identifier);
        let ghost rs = responses@;
        let filtered = get_filtered_events(responses, filters, filter_type);
        let ordered = get_ordered_events(filtered, sort);
        let paged = get_paged_data(ordered, limit, page);
        proof {
            assert(self.responses_match(group_identifier, rs));
        }
        paged
    }

    /// The records each given group holds, counted per group in the order
    /// asked; soft-deleted records are excluded, as from every other read
    /// short of the direct-by-identifier fetch.
    #[verifier::loop_isolation(false)]
    pub fn get_events_count(&self, group_identifiers: Vec<PrincipalId>) -> (r: Vec<
        (PrincipalId, usize),
    >)
        ensures
            r@.len() == group_identifiers@.len(),
            forall|i: int|
                0 <= i < r@.len() ==> (#[trigger] r@[i]).0 == group_identifiers@[i] && r@[i].1
                    == self.entries@.filter(count_entry_pred(group_identifiers@[i])).len(),
    {
        let mut out: Vec<(PrincipalId, usize)> = Vec::new();
        let mut g: usize = 0;
        while g < group_identifiers.len()
            invariant
                g <= group_identifiers@.len(),
                out@.len() == g,
                forall|i: int|
                    0 <= i < g ==> (#[trigger] out@[i]).0 == group_identifiers@[i] && out@[i].1
                        == self.entries@.filter(count_entry_pred(group_identifiers@[i])).len(),
            decreases group_identifiers@.len() - g,
        {
            let group = group_identifiers[g];
            let mut count: usize = 0;
            let mut i: usize = 0;
            proof {
                assert(self.entries@.subrange(0, 0) =~= Seq::<(u64, Event)>::empty());
            }
            while i < self.entries.len()
                invariant
                    i <= self.entries@.len(),
                    count == self.entries@.subrange(0, i as int).filter(
                        count_entry_pred(group),
                    ).len(),
                    count <= i,
                decreases self.entries@.len() - i,
            {
                let ghost pre = self.entries@.subrange(0, i as int);
                let ghost cur = self.entries@.subrange(0, i + 1);
                proof {
                    assert(cur =~= pre.push(self.entries@[i as int]));
                    lemma_filter_push(pre, count_entry_pred(group), self.entries@[i as int]);
                }
                if !self.entries[i].1.is_deleted && self.entries[i].1.group_identifier == group {
                    count = count + 1;
                }
                i = i + 1;
            }
            proof {
                assert(self.entries@.subrange(0, self.entries@.len() as int) =~= self.entries@);
            }
            out.push((group, count));
            g = g + 1;
        }
        out
    }

    /// The filtered read-side records this shard contributes to a chunked
    /// cross-shard read: soft-deleted records excluded, then the filter set
    /// applied. Only this shard's own orchestrator may pull the set; anyone
    /// else receives an empty answer. The host serializes the result and
    /// serves it through [`crate::chunks::get_chunked_data`].
    pub fn get_chunked_events(
        &self,
        caller: PrincipalId,
        filters: Vec<EventFilter>,
        filter_type: FilterType,
    ) -> (r: Vec<EventResponse>)
        ensures
            caller != self.data.parent ==> r@ == Seq::<EventResponse>::empty(),
            caller == self.data.parent ==> exists|rs: Seq<EventResponse>|
                {
                    &&& #[trigger] self.responses_match(None, rs)
                    &&& r@ == (match filter_type {
                        FilterType::And => spec_and_filter(rs, filters@),
                        FilterType::Or => spec_or_filter(rs, filters@),
                    })
                },
    {
        if caller != self.data.parent {
            let empty: Vec<EventResponse> = Vec::new();
            return empty;
        }
        let responses = self.get_event_responses(None);
        let ghost rs = responses@;
        let filtered = get_filtered_events(responses, filters, filter_type);
        proof {
            assert(self.responses_match(None, rs));
        }
        filtered
    }

    /// Replaces the whole store with restored data; the restore path is the
    /// one place records are physically replaced rather than soft-flagged.
    pub fn restore_data(&mut self, data: ShardData, entries: Vec<(u64, Event)>)
        requires
            forall|i: int, j: int|
                0 <= i < j < entries@.len() ==> (#[trigger] entries@[i].0) < (
                #[trigger] entries@[j].0),
            forall|i: int|
                0 <= i < entries@.len() ==> (#[trigger] entries@[i].0) < data.current_entry_id,
        ensures
            final(self).wf(),
            final(self).data == data,
            final(self).entries@ == entries@,
            final(self).max_entries == old(self).max_entries,
    {
        self.data = data;
        self.entries = entries;
    }
}

/// A fresh shard store, as installation leaves it: empty, available, counter
/// at zero, bound to its orchestrator, with the given write ceiling.
pub fn init(
    name: String,
    identifier: u64,
    parent: PrincipalId,
    max_entries: u64,
    now: u64,
) -> (r: Store)
    ensures
        r.wf(),
        r.data.name@ == name@,
        r.data.identifier == identifier,
        r.data.current_entry_id == 0,
        r.data.parent == parent,
        r.data.is_available,
        r.data.created_at == now,
        r.data.updated_at == now,
        r.entries@ == Seq::<(u64, Event)>::empty(),
        r.max_entries == max_entries,
{
    let entries: Vec<(u64, Event)> = Vec::new();
    Store {
        data: ShardData {
            name,
            identifier,
            current_entry_id: 0,
            parent,
            is_available: true,
            updated_at: now,
            created_at: now,
        },
        entries,
        max_entries,
    }
}

/// The guard every mutation entry point runs first: an anonymous caller is
/// rejected.
pub fn auth(caller: PrincipalId) -> (r: Result<(), String>)
    ensures
        r is Ok <==> !caller.is_anonymous(),
{
    if caller == PrincipalId::anonymous() {
        Err("Unauthorized".to_owned())
    } else {
        Ok(())
    }
}

/// The guard of the status endpoint: only a listed monitor identity passes.
#[verifier::loop_isolation(false)]
pub fn is_monitor(caller: PrincipalId, monitors: &Vec<PrincipalId>) -> (r: Result<(), String>)
    ensures
        r is Ok <==> monitors@.contains(caller),
{
    let mut i: usize = 0;
    while i < monitors.len()
        invariant
            i <= monitors@.len(),
            forall|k: int| 0 <= k < i ==> monitors@[k] != caller,
        decreases monitors@.len() - i,
    {
        if monitors[i] == caller {
            return Ok(());
        }
        i = i + 1;
    }
    Err("Unauthorized".to_owned())
}

/// The guard of the backup and restore endpoints: only a listed owner
/// identity passes.
#[verifier::loop_isolation(false)]
pub fn is_owner(caller: PrincipalId, owners: &Vec<PrincipalId>) -> (r: Result<(), String>)
    ensures
        r is Ok <==> owners@.contains(caller),
{
    let mut i: usize = 0;
    while i < owners.len()
        invariant
            i <= owners@.len(),
            forall|k: int| 0 <= k < i ==> owners@[k] != caller,
        decreases owners@.len() - i,
    {
        if owners[i] == caller {
            return Ok(());
        }
        i = i + 1;
    }
    Err("Unauthorized".to_owned())
}

/// Entry identifiers strictly increase within a shard: on a well-formed
/// store the stored keys stand in strictly increasing storage order and
/// every one lies below the counter, so each write's identifier (the counter
/// at the time of the write) is strictly above every identifier the shard
/// has handed out before it.
pub proof fn lemma_identifier_monotonic(s: Store)
    requires
        s.wf(),
    ensures
        forall|i: int, j: int|
            0 <= i < j < s.entries@.len() ==> (#[trigger] s.entries@[i].0) < (
            #[trigger] s.entries@[j].0),
        forall|i: int|
            0 <= i < s.entries@.len() ==> (#[trigger] s.entries@[i].0) < s.data.current_entry_id,
{
}

/// Soft deletion hides a record from every filtered or paged read: any
/// response list that a group-scoped read yields images only records whose
/// deletion flag is clear. (The one read that still sees such a record is
/// the direct-by-identifier fetch, [`Store::get_event`], which the
/// migration paths rely on.)
pub proof fn lemma_deleted_excluded(s: Store, group: Option<PrincipalId>, rs: Seq<EventResponse>)
    requires
        s.responses_match(group, rs),
    ensures
        forall|i: int| 0 <= i < rs.len() ==> !(#[trigger] rs[i])@.is_deleted,
{
    broadcast use vstd::seq_lib::group_filter_ensures;

    let ge = s.entries@.filter(group_entry_pred(group));
    assert forall|i: int| 0 <= i < rs.len() implies !(#[trigger] rs[i])@.is_deleted by {
        assert(group_entry_pred(group)(ge[i]));
    }
}

} // verus!
