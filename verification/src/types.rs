//! Base domain types shared by the shard store and the orchestrator:
//! caller identities, date windows, the error taxonomy, and the small
//! pass-through value types carried by records.

use vstd::prelude::*;

verus! {

/// An opaque process or caller identity. Equality is the only operation the
/// domain logic performs on it; the value `0` is reserved for the
/// unauthenticated (anonymous) caller.
#[derive(Clone, Copy, PartialEq, Eq, Structural, Debug, Hash)]
pub struct PrincipalId(pub u64);

impl PrincipalId {
    /// The reserved identity of an unauthenticated caller.
    pub fn anonymous() -> (r: PrincipalId)
        ensures
            r == PrincipalId(0),
    {
        PrincipalId(0)
    }

    pub open spec fn is_anonymous(self) -> bool {
        self.0 == 0
    }
}

/// A date window. An `end_date` of `0` means the window has no upper bound
/// and filters using it act as lower-bound-only.
#[derive(Clone, Copy, PartialEq, Eq, Structural, Debug)]
pub struct DateRange {
    pub start_date: u64,
    pub end_date: u64,
}

/// The privacy mode of a record; carried through unchanged by the store.
#[derive(Clone, Copy, PartialEq, Eq, Structural, Debug)]
pub enum Privacy {
    Public,
    Private,
    InviteOnly,
}

/// An image or media reference carried by a record; never inspected by the
/// store logic.
#[derive(Debug)]
pub enum Asset {
    Unset,
    Url(String),
}

/// Where a record's event takes place; never inspected by the store logic.
#[derive(Debug)]
pub enum Location {
    Unset,
    Address(String),
    Digital(String),
}

impl Clone for Asset {
    fn clone(&self) -> (r: Self)
        ensures
            r@ == self@,
    {
        match self {
            Asset::Unset => Asset::Unset,
            Asset::Url(s) => Asset::Url(s.clone()),
        }
    }
}

impl Clone for Location {
    fn clone(&self) -> (r: Self)
        ensures
            r@ == self@,
    {
        match self {
            Location::Unset => Location::Unset,
            Location::Address(s) => Location::Address(s.clone()),
            Location::Digital(s) => Location::Digital(s.clone()),
        }
    }
}

/// Spec-level image of an [`Asset`].
pub enum AssetV {
    Unset,
    Url(Seq<char>),
}

impl View for Asset {
    type V = AssetV;

    open spec fn view(&self) -> AssetV {
        match self {
            Asset::Unset => AssetV::Unset,
            Asset::Url(s) => AssetV::Url(s@),
        }
    }
}

/// Spec-level image of a [`Location`].
pub enum LocationV {
    Unset,
    Address(Seq<char>),
    Digital(Seq<char>),
}

impl View for Location {
    type V = LocationV;

    open spec fn view(&self) -> LocationV {
        match self {
            Location::Unset => LocationV::Unset,
            Location::Address(s) => LocationV::Address(s@),
            Location::Digital(s) => LocationV::Digital(s@),
        }
    }
}

/// Context attached to an error: a stable machine-readable tag and a
/// human-readable message.
#[derive(Debug)]
pub struct ErrorInfo {
    pub tag: String,
    pub message: String,
}

/// One field that failed validation, with the reason.
#[derive(Debug)]
pub struct ValidationResponse {
    pub field: String,
    pub message: String,
}

/// The error taxonomy every operation of the library reports through.
/// `CanisterAtCapacity` is a signal, not a hard failure: the write that
/// raised it is redirected to a freshly provisioned shard.
#[derive(Debug)]
pub enum ApiError {
    NotFound(ErrorInfo),
    Unauthorized(ErrorInfo),
    BadRequest(ErrorInfo),
    CanisterAtCapacity(String),
    ValidationError(Vec<ValidationResponse>),
}

impl ApiError {
    /// The human-readable message of the error, where one is attached.
    pub open spec fn spec_message(&self) -> Seq<char> {
        match self {
            ApiError::NotFound(i) => i.message@,
            ApiError::Unauthorized(i) => i.message@,
            ApiError::BadRequest(i) => i.message@,
            ApiError::CanisterAtCapacity(m) => m@,
            ApiError::ValidationError(_) => Seq::<char>::empty(),
        }
    }

    /// The machine-readable tag of the error, where one is attached.
    pub open spec fn spec_tag(&self) -> Seq<char> {
        match self {
            ApiError::NotFound(i) => i.tag@,
            ApiError::Unauthorized(i) => i.tag@,
            ApiError::BadRequest(i) => i.tag@,
            ApiError::CanisterAtCapacity(_) => Seq::<char>::empty(),
            ApiError::ValidationError(_) => Seq::<char>::empty(),
        }
    }
}

/// Builds an [`ErrorInfo`] from string slices.
pub fn error_info(tag: &str, message: &str) -> (r: ErrorInfo)
    ensures
        r.tag@ == tag@,
        r.message@ == message@,
{
    ErrorInfo { tag: tag.to_owned(), message: message.to_owned() }
}

} // verus!
