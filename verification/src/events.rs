//! The record ("event") data model: the stored record, the write payloads,
//! the read-side response shape, and the spec-level images contracts are
//! stated over.

use vstd::prelude::*;

use crate::identifier::{Identifier, IdentifierV};
use crate::types::{Asset, AssetV, DateRange, Location, LocationV, PrincipalId, Privacy};

verus! {

/// A stored record. Identity is immutable once created; `is_deleted` and
/// `is_canceled` are soft flags — a record is never physically removed
/// outside restore paths.
#[derive(Debug)]
pub struct Event {
    pub name: String,
    pub description: String,
    pub date: DateRange,
    pub privacy: Privacy,
    pub group_identifier: PrincipalId,
    pub created_by: PrincipalId,
    pub owner: PrincipalId,
    pub website: String,
    pub location: Location,
    pub image: Asset,
    pub banner_image: Asset,
    pub tags: Vec<u32>,
    pub is_canceled: (bool, String),
    pub is_deleted: bool,
    /// Per-source participation counts, keyed by the identity of the
    /// counting authority; summed for display.
    pub attendee_count: Vec<(PrincipalId, usize)>,
    pub metadata: Option<String>,
    pub updated_on: u64,
    pub created_on: u64,
}

/// Spec-level image of an [`Event`].
#[verifier::ext_equal]
pub struct EventV {
    pub name: Seq<char>,
    pub description: Seq<char>,
    pub date: DateRange,
    pub privacy: Privacy,
    pub group_identifier: PrincipalId,
    pub created_by: PrincipalId,
    pub owner: PrincipalId,
    pub website: Seq<char>,
    pub location: LocationV,
    pub image: AssetV,
    pub banner_image: AssetV,
    pub tags: Seq<u32>,
    pub is_canceled: (bool, Seq<char>),
    pub is_deleted: bool,
    pub attendee_count: Seq<(PrincipalId, usize)>,
    pub metadata: Option<Seq<char>>,
    pub updated_on: u64,
    pub created_on: u64,
}

impl View for Event {
    type V = EventV;

    open spec fn view(&self) -> EventV {
        EventV {
            name: self.name@,
            description: self.description@,
            date: self.date,
            privacy: self.privacy,
            group_identifier: self.group_identifier,
            created_by: self.created_by,
            owner: self.owner,
            website: self.website@,
            location: self.location@,
            image: self.image@,
            banner_image: self.banner_image@,
            tags: self.tags@,
            is_canceled: (self.is_canceled.0, self.is_canceled.1@),
            is_deleted: self.is_deleted,
            attendee_count: self.attendee_count@,
            metadata: match &self.metadata {
                Some(s) => Some(s@),
                None => None,
            },
            updated_on: self.updated_on,
            created_on: self.created_on,
        }
    }
}

/// The payload of a "create record" call.
#[derive(Debug)]
pub struct PostEvent {
    pub name: String,
    pub description: String,
    pub date: DateRange,
    pub privacy: Privacy,
    pub website: String,
    pub location: Location,
    pub image: Asset,
    pub owner: PrincipalId,
    pub banner_image: Asset,
    pub metadata: Option<String>,
    pub tags: Vec<u32>,
}

/// Spec-level image of a [`PostEvent`].
#[verifier::ext_equal]
pub struct PostEventV {
    pub name: Seq<char>,
    pub description: Seq<char>,
    pub date: DateRange,
    pub privacy: Privacy,
    pub website: Seq<char>,
    pub location: LocationV,
    pub image: AssetV,
    pub owner: PrincipalId,
    pub banner_image: AssetV,
    pub metadata: Option<Seq<char>>,
    pub tags: Seq<u32>,
}

impl View for PostEvent {
    type V = PostEventV;

    open spec fn view(&self) -> PostEventV {
        PostEventV {
            name: self.name@,
            description: self.description@,
            date: self.date,
            privacy: self.privacy,
            website: self.website@,
            location: self.location@,
            image: self.image@,
            owner: self.owner,
            banner_image: self.banner_image@,
            metadata: match &self.metadata {
                Some(s) => Some(s@),
                None => None,
            },
            tags: self.tags@,
        }
    }
}

/// The payload of an "edit record" call; replaces every caller-editable
/// field of the record.
#[derive(Debug)]
pub struct UpdateEvent {
    pub name: String,
    pub description: String,
    pub date: DateRange,
    pub privacy: Privacy,
    pub website: String,
    pub location: Location,
    pub image: Asset,
    pub owner: PrincipalId,
    pub banner_image: Asset,
    pub metadata: Option<String>,
    pub tags: Vec<u32>,
}

/// Spec-level image of an [`UpdateEvent`].
#[verifier::ext_equal]
pub struct UpdateEventV {
    pub name: Seq<char>,
    pub description: Seq<char>,
    pub date: DateRange,
    pub privacy: Privacy,
    pub website: Seq<char>,
    pub location: LocationV,
    pub image: AssetV,
    pub owner: PrincipalId,
    pub banner_image: AssetV,
    pub metadata: Option<Seq<char>>,
    pub tags: Seq<u32>,
}

impl View for UpdateEvent {
    type V = UpdateEventV;

    open spec fn view(&self) -> UpdateEventV {
        UpdateEventV {
            name: self.name@,
            description: self.description@,
            date: self.date,
            privacy: self.privacy,
            website: self.website@,
            location: self.location@,
            image: self.image@,
            owner: self.owner,
            banner_image: self.banner_image@,
            metadata: match &self.metadata {
                Some(s) => Some(s@),
                None => None,
            },
            tags: self.tags@,
        }
    }
}

/// The read-side shape of a record: the stored fields plus the decoded
/// identifier and the participation counts summed for display.
#[derive(Debug)]
pub struct EventResponse {
    pub identifier: Identifier,
    pub name: String,
    pub description: String,
    pub date: DateRange,
    pub privacy: Privacy,
    pub created_by: PrincipalId,
    pub owner: PrincipalId,
    pub website: String,
    pub location: Location,
    pub image: Asset,
    pub banner_image: Asset,
    pub attendee_count: usize,
    pub is_canceled: (bool, String),
    pub is_deleted: bool,
    pub tags: Vec<u32>,
    pub metadata: Option<String>,
    pub updated_on: u64,
    pub created_on: u64,
    pub group_identifier: PrincipalId,
}

/// Spec-level image of an [`EventResponse`].
#[verifier::ext_equal]
pub struct EventResponseV {
    pub identifier: IdentifierV,
    pub name: Seq<char>,
    pub description: Seq<char>,
    pub date: DateRange,
    pub privacy: Privacy,
    pub created_by: PrincipalId,
    pub owner: PrincipalId,
    pub website: Seq<char>,
    pub location: LocationV,
    pub image: AssetV,
    pub banner_image: AssetV,
    pub attendee_count: usize,
    pub is_canceled: (bool, Seq<char>),
    pub is_deleted: bool,
    pub tags: Seq<u32>,
    pub metadata: Option<Seq<char>>,
    pub updated_on: u64,
    pub created_on: u64,
    pub group_identifier: PrincipalId,
}

impl View for EventResponse {
    type V = EventResponseV;

    open spec fn view(&self) -> EventResponseV {
        EventResponseV {
            identifier: self.identifier@,
            name: self.name@,
            description: self.description@,
            date: self.date,
            privacy: self.privacy,
            created_by: self.created_by,
            owner: self.owner,
            website: self.website@,
            location: self.location@,
            image: self.image@,
            banner_image: self.banner_image@,
            attendee_count: self.attendee_count,
            is_canceled: (self.is_canceled.0, self.is_canceled.1@),
            is_deleted: self.is_deleted,
            tags: self.tags@,
            metadata: match &self.metadata {
                Some(s) => Some(s@),
                None => None,
            },
            updated_on: self.updated_on,
            created_on: self.created_on,
            group_identifier: self.group_identifier,
        }
    }
}

/// The sum of all per-source participation counts, as a mathematical total.
pub open spec fn sum_counts(s: Seq<(PrincipalId, usize)>) -> nat
    decreases s.len(),
{
    if s.len() == 0 {
        0
    } else {
        sum_counts(s.drop_last()) + s.last().1 as nat
    }
}

/// The displayed participation total: the sum of all per-source counts,
/// saturating at the machine bound.
pub open spec fn spec_attendee_total(s: Seq<(PrincipalId, usize)>) -> usize {
    if sum_counts(s) <= usize::MAX {
        sum_counts(s) as usize
    } else {
        usize::MAX
    }
}

/// Sums the per-source participation counts, saturating at the machine
/// bound.
pub fn attendee_total(counts: &Vec<(PrincipalId, usize)>) -> (r: usize)
    ensures
        r == spec_attendee_total(counts@),
{
    let mut total: usize = 0;
    let mut i: usize = 0;
    while i < counts.len()
        invariant
            i <= counts.len(),
            total == spec_attendee_total(counts@.subrange(0, i as int)),
        decreases counts.len() - i,
    {
        let v = counts[i].1;
        if usize::MAX - total < v {
            total = usize::MAX;
        } else {
            total = total + v;
        }
        i = i + 1;
        proof {
            let pre = counts@.subrange(0, i - 1);
            let cur = counts@.subrange(0, i as int);
            assert(cur.drop_last() =~= pre);
            assert(cur.last() == counts@[i - 1]);
        }
    }
    proof {
        assert(counts@.subrange(0, counts@.len() as int) =~= counts@);
    }
    total
}

/// Copies a vector of tags.
pub fn clone_tags(v: &Vec<u32>) -> (r: Vec<u32>)
    ensures
        r@ == v@,
{
    let mut out: Vec<u32> = Vec::new();
    let mut i: usize = 0;
    while i < v.len()
        invariant
            i <= v.len(),
            out@ == v@.subrange(0, i as int),
        decreases v.len() - i,
    {
        out.push(v[i]);
        i = i + 1;
        assert(out@ =~= v@.subrange(0, i as int));
    }
    assert(out@ =~= v@);
    out
}

/// Copies an optional text field.
pub fn clone_metadata(m: &Option<String>) -> (r: Option<String>)
    ensures
        (match m {
            Some(s) => r matches Some(t) && t@ == s@,
            None => r is None,
        }),
{
    match m {
        Some(s) => Some(s.clone()),
        None => None,
    }
}

/// The read-side image of a stored record under a given identifier.
pub open spec fn spec_response(id: IdentifierV, e: EventV) -> EventResponseV {
    EventResponseV {
        identifier: id,
        name: e.name,
        description: e.description,
        date: e.date,
        privacy: e.privacy,
        created_by: e.created_by,
        owner: e.owner,
        website: e.website,
        location: e.location,
        image: e.image,
        banner_image: e.banner_image,
        attendee_count: spec_attendee_total(e.attendee_count),
        is_canceled: e.is_canceled,
        is_deleted: e.is_deleted,
        tags: e.tags,
        metadata: e.metadata,
        updated_on: e.updated_on,
        created_on: e.created_on,
        group_identifier: e.group_identifier,
    }
}

/// Maps a stored record to its read-side shape: every field is carried over
/// unchanged and the participation counts are summed for display.
pub fn map_to_event_response(identifier: Identifier, event: &Event) -> (r: EventResponse)
    ensures
        r@ == spec_response(identifier@, event@),
{
    let r = EventResponse {
        identifier,
        name: event.name.clone(),
        description: event.description.clone(),
        date: event.date,
        privacy: event.privacy,
        created_by: event.created_by,
        owner: event.owner,
        website: event.website.clone(),
        location: event.location.clone(),
        image: event.image.clone(),
        banner_image: event.banner_image.clone(),
        attendee_count: attendee_total(&event.attendee_count),
        is_canceled: (event.is_canceled.0, event.is_canceled.1.clone()),
        is_deleted: event.is_deleted,
        tags: clone_tags(&event.tags),
        metadata: clone_metadata(&event.metadata),
        updated_on: event.updated_on,
        created_on: event.created_on,
        group_identifier: event.group_identifier,
    };
    assert(r@ =~= spec_response(r.identifier@, event@));
    r
}

/// The all-empty record: blank text fields, anonymous identities, zero
/// timestamps, no flags set.
pub open spec fn spec_default_event() -> EventV {
    EventV {
        name: Seq::<char>::empty(),
        description: Seq::<char>::empty(),
        date: DateRange { start_date: 0, end_date: 0 },
        privacy: Privacy::Public,
        group_identifier: PrincipalId(0),
        created_by: PrincipalId(0),
        owner: PrincipalId(0),
        website: Seq::<char>::empty(),
        location: LocationV::Unset,
        image: AssetV::Unset,
        banner_image: AssetV::Unset,
        tags: Seq::<u32>::empty(),
        is_canceled: (false, Seq::<char>::empty()),
        is_deleted: false,
        attendee_count: Seq::<(PrincipalId, usize)>::empty(),
        metadata: None,
        updated_on: 0,
        created_on: 0,
    }
}

impl Default for Event {
    fn default() -> (r: Event)
        ensures
            r@ == spec_default_event(),
    {
        let r = Event {
            name: String::new(),
            description: String::new(),
            date: DateRange { start_date: 0, end_date: 0 },
            privacy: Privacy::Public,
            group_identifier: PrincipalId::anonymous(),
            created_by: PrincipalId::anonymous(),
            owner: PrincipalId::anonymous(),
            website: String::new(),
            location: Location::Unset,
            image: Asset::Unset,
            banner_image: Asset::Unset,
            tags: Vec::new(),
            is_canceled: (false, String::new()),
            is_deleted: false,
            attendee_count: Vec::new(),
            metadata: None,
            updated_on: 0,
            created_on: 0,
        };
        assert(r@ =~= spec_default_event());
        r
    }
}

} // verus!
