//! The orchestrator's registry: the authoritative map from shard identity to
//! shard metadata (availability, installed code version, entry-identifier
//! range), the code-artifact replacement rules, and the local steps of shard
//! provisioning, capacity-triggered resharding, and code upgrades. The
//! cross-process steps — creating an execution unit, installing code into
//! it, forwarding a pending record — are performed by the host, which hands
//! their outcomes to the step functions here; every local mutation leaves
//! the registry consistent whether or not the following remote step
//! succeeds.

use vstd::prelude::*;

use crate::events::EventResponse;
use crate::identifier::clone_bytes;
use crate::paging::{get_paged_data, spec_page_slice, spec_total_pages, PagedResponse};
use crate::sort::{get_ordered_events, spec_sort_events, EventSort};
use crate::types::{error_info, ApiError, PrincipalId};

verus! {

/// What a registered execution unit currently is: freshly created and empty,
/// or installed and holding records.
#[derive(Clone, Copy, PartialEq, Eq, Structural, Debug)]
pub enum CanisterType {
    Empty,
    ScalableChild,
}

/// The code version a shard runs: none yet, a numbered version, or a build
/// outside the numbering scheme.
#[derive(Clone, Copy, PartialEq, Eq, Structural, Debug)]
pub enum WasmVersion {
    Absent,
    Version(u64),
    Custom,
}

/// One shard's metadata in the registry.
#[derive(Clone, Copy, Debug)]
pub struct ScalableCanisterDetails {
    pub principal: PrincipalId,
    /// The code version recorded at install or upgrade.
    pub wasm_version: WasmVersion,
    pub canister_type: CanisterType,
    /// False once the shard has triggered a reshard; shards are never
    /// removed, only marked unavailable.
    pub is_available: bool,
    /// The window of logical record identifiers this shard answers for;
    /// `(0, None)` while the upper end is still open.
    pub entry_range: (u64, Option<u64>),
}

/// The code artifact installed into new shards.
#[derive(Debug)]
pub struct WasmDetails {
    pub label: String,
    pub bytes: Vec<u8>,
    pub wasm_type: CanisterType,
    pub wasm_version: WasmVersion,
    pub updated_at: u64,
    pub created_at: u64,
}

/// The orchestrator's state: the shard registry, the held code artifact, and
/// its own identity data.
#[derive(Debug)]
pub struct ScalableData {
    pub name: String,
    /// The registry, keyed by shard identity; keys are unique and each entry
    /// records its own key.
    pub canisters: Vec<(PrincipalId, ScalableCanisterDetails)>,
    pub parent: PrincipalId,
    /// The code artifact to install into new shards.
    pub child_wasm_data: WasmDetails,
    pub updated_at: u64,
    pub created_at: u64,
}

/// A summary of the orchestrator's state for operators; the cycle balance
/// and storage use are host readings passed in.
#[derive(Debug)]
pub struct ScalableMetaData {
    pub name: String,
    pub canister_count: usize,
    pub has_child_wasm: bool,
    pub cycles: u64,
    pub used_data: u64,
    pub parent: PrincipalId,
    pub updated_at: u64,
    pub created_at: u64,
}

/// Whether a code-artifact replacement is accepted: the offered bytes are
/// non-empty, differ from the held bytes, and — when a numbered version is
/// held — carry a strictly greater version; a build outside the numbering
/// scheme is never replaced this way.
pub open spec fn wasm_replace_accepts(
    held_bytes: Seq<u8>,
    held_version: WasmVersion,
    version: u64,
    bytes: Seq<u8>,
) -> bool {
    &&& bytes.len() > 0
    &&& held_bytes != bytes
    &&& match held_version {
        WasmVersion::Absent => true,
        WasmVersion::Version(v) => version > v,
        WasmVersion::Custom => false,
    }
}

impl ScalableData {
    /// Well-formedness: registry keys are unique and each entry records its
    /// own key.
    pub open spec fn wf(&self) -> bool {
        &&& forall|i: int, j: int|
            0 <= i < j < self.canisters@.len() ==> (#[trigger] self.canisters@[i].0) != (
            #[trigger] self.canisters@[j].0)
        &&& forall|i: int|
            0 <= i < self.canisters@.len() ==> (#[trigger] self.canisters@[i].1).principal
                == self.canisters@[i].0
    }

    /// Whether a shard with this identity is registered.
    pub open spec fn has_canister(&self, p: PrincipalId) -> bool {
        exists|i: int| 0 <= i < self.canisters@.len() && (#[trigger] self.canisters@[i].0) == p
    }

    /// The registry index of the shard with this identity.
    pub open spec fn spec_canister_index(&self, p: PrincipalId) -> int {
        choose|i: int| 0 <= i < self.canisters@.len() && (#[trigger] self.canisters@[i].0) == p
    }

    /// The registry index of the shard with this identity, or `None`.
    #[verifier::loop_isolation(false)]
    fn find_canister(&self, p: PrincipalId) -> (r: Option<usize>)
        ensures
            match r {
                Some(i) => i < self.canisters@.len() && self.canisters@[i as int].0 == p,
                None => !self.has_canister(p),
            },
    {
        let mut i: usize = 0;
        while i < self.canisters.len()
            invariant
                i <= self.canisters@.len(),
                forall|k: int| 0 <= k < i ==> (#[trigger] self.canisters@[k].0) != p,
            decreases self.canisters@.len() - i,
        {
            if self.canisters[i].0 == p {
                return Some(i);
            }
            i = i + 1;
        }
        None
    }

    /// A shard that can accept a write: available and not the asking caller
    /// (a full shard excludes itself when it asks for a sibling). `Err` if
    /// and only if no registered shard qualifies.
    #[verifier::loop_isolation(false)]
    pub fn get_available_canister(&self, caller: PrincipalId) -> (r: Result<
        ScalableCanisterDetails,
        String,
    >)
        ensures
            match r {
                Ok(d) => exists|i: int|
                    0 <= i < self.canisters@.len() && (#[trigger] self.canisters@[i].1) == d
                        && d.is_available && d.principal != caller,
                Err(_) => forall|i: int|
                    0 <= i < self.canisters@.len() ==> !((#[trigger] self.canisters@[i].1)
                        .is_available && self.canisters@[i].1.principal != caller),
            },
    {
        let mut i: usize = 0;
        while i < self.canisters.len()
            invariant
                i <= self.canisters@.len(),
                forall|k: int|
                    0 <= k < i ==> !((#[trigger] self.canisters@[k].1).is_available
                        && self.canisters@[k].1.principal != caller),
            decreases self.canisters@.len() - i,
        {
            let d = self.canisters[i].1;
            if d.is_available && d.principal != caller {
                return Ok(d);
            }
            i = i + 1;
        }
        Err("No available canister found".to_owned())
    }

    /// Every registered shard's metadata, in registry order.
    #[verifier::loop_isolation(false)]
    pub fn get_canisters(&self) -> (r: Vec<ScalableCanisterDetails>)
        ensures
            r@.len() == self.canisters@.len(),
            forall|i: int| 0 <= i < r@.len() ==> (#[trigger] r@[i]) == self.canisters@[i].1,
    {
        let mut out: Vec<ScalableCanisterDetails> = Vec::new();
        let mut i: usize = 0;
        while i < self.canisters.len()
            invariant
                i <= self.canisters@.len(),
                out@.len() == i,
                forall|k: int| 0 <= k < i ==> (#[trigger] out@[k]) == self.canisters@[k].1,
            decreases self.canisters@.len() - i,
        {
            out.push(self.canisters[i].1);
            i = i + 1;
        }
        out
    }

    /// Whether first-shard provisioning should run: a code artifact is held
    /// and no shard is registered yet.
    pub fn should_initialize(&self) -> (r: bool)
        ensures
            r == (self.child_wasm_data.bytes@.len() > 0 && self.canisters@.len() == 0),
    {
        self.child_wasm_data.bytes.len() > 0 && self.canisters.len() == 0
    }

    /// Registers a freshly created, still-empty execution unit, immediately
    /// and as available, so a failure during the following install still
    /// leaves a trackable, retryable record.
    pub fn register_empty_canister(&mut self, new_principal: PrincipalId)
        requires
            old(self).wf(),
            !old(self).has_canister(new_principal),
        ensures
            final(self).wf(),
            final(self).canisters@ == old(self).canisters@.push(
                (
                    new_principal,
                    ScalableCanisterDetails {
                        principal: new_principal,
                        wasm_version: WasmVersion::Absent,
                        canister_type: CanisterType::Empty,
                        is_available: true,
                        entry_range: (0, None),
                    },
                ),
            ),
            final(self).name == old(self).name,
            final(self).parent == old(self).parent,
            final(self).child_wasm_data == old(self).child_wasm_data,
    {
        let details = ScalableCanisterDetails {
            principal: new_principal,
            wasm_version: WasmVersion::Absent,
            canister_type: CanisterType::Empty,
            is_available: true,
            entry_range: (0, None),
        };
        self.canisters.push((new_principal, details));
    }

    /// The code to install into a shard: the held artifact's bytes, or
    /// `BadRequest` if and only if no artifact is held.
    pub fn prepare_install(&self) -> (r: Result<Vec<u8>, ApiError>)
        ensures
            match r {
                Ok(bytes) => self.child_wasm_data.bytes@.len() > 0 && bytes@
                    == self.child_wasm_data.bytes@,
                Err(e) => self.child_wasm_data.bytes@.len() == 0 && e is BadRequest
                    && e.spec_tag() == "NO_WASM_SPECIFIED"@,
            },
    {
        if self.child_wasm_data.bytes.len() == 0 {
            return Err(
                ApiError::BadRequest(
                    error_info("NO_WASM_SPECIFIED", "There is no foundation WASM uploaded"),
                ),
            );
        }
        Ok(clone_bytes(&self.child_wasm_data.bytes))
    }

    /// Records a successful install: the shard becomes a record-holding
    /// child at the artifact's version, available for writes. A shard not
    /// yet registered (an install the registry never saw start) is
    /// registered on the spot.
    pub fn register_installed_canister(&mut self, canister_principal: PrincipalId)
        requires
            old(self).wf(),
        ensures
            final(self).wf(),
            final(self).name == old(self).name,
            final(self).parent == old(self).parent,
            final(self).child_wasm_data == old(self).child_wasm_data,
            ({
                let d = ScalableCanisterDetails {
                    principal: canister_principal,
                    wasm_version: old(self).child_wasm_data.wasm_version,
                    canister_type: CanisterType::ScalableChild,
                    is_available: true,
                    entry_range: (0, None),
                };
                if old(self).has_canister(canister_principal) {
                    final(self).canisters@ == old(self).canisters@.update(
                        old(self).spec_canister_index(canister_principal),
                        (canister_principal, d),
                    )
                } else {
                    final(self).canisters@ == old(self).canisters@.push((canister_principal, d))
                }
            }),
    {
        let details = ScalableCanisterDetails {
            principal: canister_principal,
            wasm_version: self.child_wasm_data.wasm_version,
            canister_type: CanisterType::ScalableChild,
            is_available: true,
            entry_range: (0, None),
        };
        match self.find_canister(canister_principal) {
            Some(i) => {
                proof {
                    let w = self.spec_canister_index(canister_principal);
                    assert(self.canisters@[w].0 == canister_principal);
                    if w != i {
                        assert(self.canisters@[w].0 != self.canisters@[i as int].0);
                    }
                }
                self.canisters[i] = (canister_principal, details);
                proof {
                    assert(final(self).wf()) by {
                        assert(forall|k: int|
                            0 <= k < final(self).canisters@.len() ==> (#[trigger] final(self).canisters@[k].0) == old(self).canisters@[k].0);
                    }
                }
            },
            None => {
                self.canisters.push((canister_principal, details));
            },
        }
    }

    /// Whether a reshard request may proceed: a code artifact must be held
    /// and the asking shard must be known to this orchestrator.
    pub fn reshard_precheck(&self, caller: PrincipalId) -> (r: Result<(), ApiError>)
        ensures
            match r {
                Ok(_) => self.child_wasm_data.bytes@.len() > 0 && self.has_canister(caller),
                Err(e) => {
                    &&& e is BadRequest
                    &&& (self.child_wasm_data.bytes@.len() == 0 || !self.has_canister(caller))
                    &&& (self.child_wasm_data.bytes@.len() == 0 ==> e.spec_tag()
                        == "NO_WASM_SPECIFIED"@)
                    &&& (self.child_wasm_data.bytes@.len() > 0 ==> e.spec_tag()
                        == "UNKNOWN_CANISTER"@)
                },
            },
    {
        if self.child_wasm_data.bytes.len() == 0 {
            return Err(
                ApiError::BadRequest(
                    error_info("NO_WASM_SPECIFIED", "There is no foundation WASM uploaded"),
                ),
            );
        }
        match self.find_canister(caller) {
            None => Err(
                ApiError::BadRequest(
                    error_info(
                        "UNKNOWN_CANISTER",
                        "The caller principal isnt known to this canister",
                    ),
                ),
            ),
            Some(_) => Ok(()),
        }
    }

    /// The closing step of a reshard, run after the host has provisioned and
    /// installed the sibling and tried to forward the pending record: the
    /// full caller is marked unavailable with its entry window closed at
    /// `last_entry_id` — whether or not the forward succeeded — and the
    /// sibling's identity is returned, or the forward failure is reported.
    pub fn close_child_canister_and_spawn_sibling(
        &mut self,
        caller: PrincipalId,
        last_entry_id: u64,
        new_shard: PrincipalId,
        forward_result: Result<(), String>,
    ) -> (r: Result<PrincipalId, ApiError>)
        requires
            old(self).wf(),
        ensures
            final(self).wf(),
            final(self).name == old(self).name,
            final(self).parent == old(self).parent,
            final(self).child_wasm_data == old(self).child_wasm_data,
            !old(self).has_canister(caller) ==> ((r matches Err(e) && e is BadRequest
                && e.spec_tag() == "UNKNOWN_CANISTER"@) && final(self).canisters@ == old(
                self,
            ).canisters@),
            old(self).has_canister(caller) ==> {
                let at = old(self).spec_canister_index(caller);
                let d = ScalableCanisterDetails {
                    is_available: false,
                    entry_range: (0, Some(last_entry_id)),
                    ..old(self).canisters@[at].1
                };
                &&& final(self).canisters@ == old(self).canisters@.update(at, (caller, d))
                &&& (forward_result is Ok ==> r == Ok::<PrincipalId, ApiError>(new_shard))
                &&& (forward_result is Err ==> (r matches Err(e) && e is BadRequest
                    && e.spec_tag() == "FAILED_TO_STORE_DATA"@))
            },
    {
        match self.find_canister(caller) {
            None => Err(
                ApiError::BadRequest(
                    error_info(
                        "UNKNOWN_CANISTER",
                        "The caller principal isnt known to this canister",
                    ),
                ),
            ),
            Some(i) => {
                proof {
                    let w = self.spec_canister_index(caller);
                    assert(self.canisters@[w].0 == caller);
                    if w != i {
                        assert(self.canisters@[w].0 != self.canisters@[i as int].0);
                    }
                }
                let old_details = self.canisters[i].1;
                let d = ScalableCanisterDetails {
                    is_available: false,
                    entry_range: (0, Some(last_entry_id)),
                    ..old_details
                };
                self.canisters[i] = (caller, d);
                proof {
                    assert(final(self).wf()) by {
                        assert(forall|k: int|
                            0 <= k < final(self).canisters@.len() ==> (#[trigger] final(self).canisters@[k].0) == old(self).canisters@[k].0);
                    }
                }
                match forward_result {
                    Ok(_) => Ok(new_shard),
                    Err(_) => Err(
                        ApiError::BadRequest(
                            error_info("FAILED_TO_STORE_DATA", "Forwarding the record failed"),
                        ),
                    ),
                }
            },
        }
    }

    /// Whether an upgrade of this shard may proceed, and with which bytes:
    /// `NotFound` for an unregistered shard, `BadRequest` when the shard
    /// already runs the artifact's version, else the artifact's bytes.
    pub fn upgrade_precheck(&self, canister_principal: PrincipalId) -> (r: Result<
        Vec<u8>,
        ApiError,
    >)
        requires
            self.wf(),
        ensures
            match r {
                Ok(bytes) => {
                    &&& self.has_canister(canister_principal)
                    &&& self.canisters@[self.spec_canister_index(canister_principal)].1.wasm_version
                        != self.child_wasm_data.wasm_version
                    &&& bytes@ == self.child_wasm_data.bytes@
                },
                Err(e) => {
                    &&& (!self.has_canister(canister_principal) ==> e is NotFound && e.spec_tag()
                        == "NO_CHILDREN"@)
                    &&& (self.has_canister(canister_principal) ==> {
                        &&& self.canisters@[self.spec_canister_index(
                            canister_principal,
                        )].1.wasm_version == self.child_wasm_data.wasm_version
                        &&& e is BadRequest
                        &&& e.spec_tag() == "CANISTER_UP_TO_DATE"@
                    })
                },
            },
    {
        match self.find_canister(canister_principal) {
            None => Err(
                ApiError::NotFound(error_info("NO_CHILDREN", "There are no child canisters found")),
            ),
            Some(i) => {
                proof {
                    let w = self.spec_canister_index(canister_principal);
                    assert(self.canisters@[w].0 == canister_principal);
                    if w != i {
                        assert(self.canisters@[w].0 != self.canisters@[i as int].0);
                    }
                }
                if self.canisters[i].1.wasm_version == self.child_wasm_data.wasm_version {
                    return Err(
                        ApiError::BadRequest(
                            error_info(
                                "CANISTER_UP_TO_DATE",
                                "The latest WASM version is already installed",
                            ),
                        ),
                    );
                }
                Ok(clone_bytes(&self.child_wasm_data.bytes))
            },
        }
    }

    /// Records a successful upgrade: the shard's registered version becomes
    /// the artifact's version; everything else about it is kept.
    pub fn record_upgrade(&mut self, canister_principal: PrincipalId) -> (r: Result<
        ScalableCanisterDetails,
        ApiError,
    >)
        requires
            old(self).wf(),
        ensures
            final(self).wf(),
            final(self).name == old(self).name,
            final(self).parent == old(self).parent,
            final(self).child_wasm_data == old(self).child_wasm_data,
            !old(self).has_canister(canister_principal) ==> ((r matches Err(e) && e is NotFound)
                && final(self).canisters@ == old(self).canisters@),
            old(self).has_canister(canister_principal) ==> {
                let at = old(self).spec_canister_index(canister_principal);
                let d = ScalableCanisterDetails {
                    wasm_version: old(self).child_wasm_data.wasm_version,
                    ..old(self).canisters@[at].1
                };
                &&& final(self).canisters@ == old(self).canisters@.update(
                    at,
                    (canister_principal, d),
                )
                &&& r == Ok::<ScalableCanisterDetails, ApiError>(d)
            },
    {
        match self.find_canister(canister_principal) {
            None => Err(
                ApiError::NotFound(error_info("NO_CHILDREN", "There are no child canisters found")),
            ),
            Some(i) => {
                proof {
                    let w = self.spec_canister_index(canister_principal);
                    assert(self.canisters@[w].0 == canister_principal);
                    if w != i {
                        assert(self.canisters@[w].0 != self.canisters@[i as int].0);
                    }
                }
                let d = ScalableCanisterDetails {
                    wasm_version: self.child_wasm_data.wasm_version,
                    ..self.canisters[i].1
                };
                self.canisters[i] = (canister_principal, d);
                proof {
                    assert(final(self).wf()) by {
                        assert(forall|k: int|
                            0 <= k < final(self).canisters@.len() ==> (#[trigger] final(self).canisters@[k].0) == old(self).canisters@[k].0);
                    }
                }
                Ok(d)
            },
        }
    }

    /// The shards whose registered version differs from the artifact's, in
    /// registry order: the ones a bulk upgrade targets. One shard's upgrade
    /// failing never stops the others — the host simply continues with the
    /// rest of this list.
    #[verifier::loop_isolation(false)]
    pub fn outdated_children(&self) -> (r: Vec<PrincipalId>)
        ensures
            ({
                let outdated = self.canisters@.filter(outdated_pred(self.child_wasm_data.wasm_version));
                &&& r@.len() == outdated.len()
                &&& forall|i: int| 0 <= i < r@.len() ==> (#[trigger] r@[i]) == outdated[i].0
            }),
    {
        let mut out: Vec<PrincipalId> = Vec::new();
        let mut i: usize = 0;
        let ghost pred = outdated_pred(self.child_wasm_data.wasm_version);
        proof {
            assert(self.canisters@.subrange(0, 0) =~= Seq::<
                (PrincipalId, ScalableCanisterDetails),
            >::empty());
        }
        while i < self.canisters.len()
            invariant
                i <= self.canisters@.len(),
                pred == outdated_pred(self.child_wasm_data.wasm_version),
                ({
                    let outdated = self.canisters@.subrange(0, i as int).filter(pred);
                    out@.len() == outdated.len() && forall|k: int|
                        0 <= k < out@.len() ==> (#[trigger] out@[k]) == outdated[k].0
                }),
            decreases self.canisters@.len() - i,
        {
            let ghost pre = self.canisters@.subrange(0, i as int);
            let ghost cur = self.canisters@.subrange(0, i + 1);
            proof {
                assert(cur =~= pre.push(self.canisters@[i as int]));
                crate::filters::lemma_filter_push(pre, pred, self.canisters@[i as int]);
            }
            let p = self.canisters[i];
            if !(p.1.wasm_version == self.child_wasm_data.wasm_version) {
                out.push(p.0);
            }
            i = i + 1;
        }
        proof {
            assert(self.canisters@.subrange(0, self.canisters@.len() as int) =~= self.canisters@);
        }
        out
    }

    /// An operator summary of this orchestrator; the cycle balance and
    /// storage use are host readings.
    pub fn get_metadata(&self, cycles: u64, used_data: u64) -> (r: ScalableMetaData)
        ensures
            r.name@ == self.name@,
            r.canister_count == self.canisters@.len(),
            r.has_child_wasm == (self.child_wasm_data.bytes@.len() > 0),
            r.cycles == cycles,
            r.used_data == used_data,
            r.parent == self.parent,
            r.updated_at == self.updated_at,
            r.created_at == self.created_at,
    {
        ScalableMetaData {
            name: self.name.clone(),
            canister_count: self.canisters.len(),
            has_child_wasm: self.child_wasm_data.bytes.len() > 0,
            cycles,
            used_data,
            parent: self.parent,
            updated_at: self.updated_at,
            created_at: self.created_at,
        }
    }

    /// The orchestrator's name, for error reporting.
    pub fn get_name(&self) -> (r: String)
        ensures
            r@ == self.name@,
    {
        self.name.clone()
    }

    /// A fresh orchestrator: no shards, no artifact, bound to its own parent
    /// identity.
    pub fn new(name: String, parent: PrincipalId, now: u64) -> (r: ScalableData)
        ensures
            r.wf(),
            r.name@ == name@,
            r.canisters@ == Seq::<(PrincipalId, ScalableCanisterDetails)>::empty(),
            r.parent == parent,
            r.child_wasm_data.bytes@ == Seq::<u8>::empty(),
            r.child_wasm_data.wasm_version == WasmVersion::Absent,
            r.updated_at == now,
            r.created_at == now,
    {
        let canisters: Vec<(PrincipalId, ScalableCanisterDetails)> = Vec::new();
        let bytes: Vec<u8> = Vec::new();
        ScalableData {
            name,
            canisters,
            parent,
            child_wasm_data: WasmDetails {
                label: String::new(),
                bytes,
                wasm_type: CanisterType::ScalableChild,
                wasm_version: WasmVersion::Absent,
                updated_at: now,
                created_at: now,
            },
            updated_at: now,
            created_at: now,
        }
    }
}

/// Keeps the registry entries whose recorded version differs from the
/// artifact's.
pub open spec fn outdated_pred(current: WasmVersion) -> spec_fn(
    (PrincipalId, ScalableCanisterDetails),
) -> bool {
    |p: (PrincipalId, ScalableCanisterDetails)| p.1.wasm_version != current
}

/// Validates a code-artifact replacement against the held artifact and
/// builds the new artifact record: rejected when the bytes are empty, when
/// they are byte-identical to the held ones (a repeat of the same upload is
/// a no-op), when a numbered version is held and the offered version is not
/// strictly greater, or when the held build is outside the numbering scheme.
pub fn get_child_wasm_data(old_store: &ScalableData, version: u64, bytes: Vec<u8>, now: u64) -> (r:
    Result<WasmDetails, String>)
    ensures
        r is Ok <==> wasm_replace_accepts(
            old_store.child_wasm_data.bytes@,
            old_store.child_wasm_data.wasm_version,
            version,
            bytes@,
        ),
        r matches Ok(d) ==> {
            &&& d.label@ == "child_event_canister"@
            &&& d.bytes@ == bytes@
            &&& d.wasm_type == CanisterType::ScalableChild
            &&& d.wasm_version == WasmVersion::Version(version)
            &&& d.updated_at == now
            &&& d.created_at == old_store.child_wasm_data.created_at
        },
{
    if bytes.len() == 0 {
        return Err("No WASM found, skipping child WASM update".to_owned());
    }
    if old_store.child_wasm_data.bytes == bytes {
        proof {
            assert(old_store.child_wasm_data.bytes@ =~= bytes@);
        }
        return Err("WASM is the same, skipping child WASM update".to_owned());
    }
    proof {
        assert(!(old_store.child_wasm_data.bytes@ =~= bytes@));
    }
    match old_store.child_wasm_data.wasm_version {
        WasmVersion::Absent => {},
        WasmVersion::Version(held) => {
            if version <= held {
                return Err("Please provide a higher version, skipping child WASM update".to_owned());
            }
        },
        WasmVersion::Custom => {
            return Err("Wrong WASM version type, skipping child WASM update".to_owned());
        },
    }
    Ok(
        WasmDetails {
            label: "child_event_canister".to_owned(),
            bytes,
            wasm_type: CanisterType::ScalableChild,
            wasm_version: WasmVersion::Version(version),
            updated_at: now,
            created_at: old_store.child_wasm_data.created_at,
        },
    )
}

/// The version a post-upgrade artifact refresh offers: one past the held
/// numbered version, or zero when none is held.
pub fn next_upgrade_version(current: &WasmVersion) -> (r: u64)
    requires
        current matches WasmVersion::Version(v) ==> v < u64::MAX,
    ensures
        match current {
            WasmVersion::Version(v) => r == v + 1,
            _ => r == 0,
        },
{
    match current {
        WasmVersion::Version(v) => *v + 1,
        _ => 0,
    }
}

/// Replacing the artifact and then offering the identical bytes again is a
/// no-op the second time: after a successful replacement the held bytes are
/// the offered bytes, and an offer whose bytes equal the held bytes is
/// rejected whatever version it carries.
pub proof fn lemma_wasm_replace_idempotent(
    held_bytes: Seq<u8>,
    held_version: WasmVersion,
    version: u64,
    bytes: Seq<u8>,
    second_version: u64,
)
    ensures
        wasm_replace_accepts(held_bytes, held_version, version, bytes) ==> !wasm_replace_accepts(
            bytes,
            WasmVersion::Version(version),
            second_version,
            bytes,
        ),
{
}

/// Artifact versions strictly increase across successful replacements: a
/// replacement accepted over a held numbered version carries a strictly
/// greater version, which the new artifact then holds.
pub proof fn lemma_wasm_version_monotonic(
    held_bytes: Seq<u8>,
    held: u64,
    version: u64,
    bytes: Seq<u8>,
)
    ensures
        wasm_replace_accepts(held_bytes, WasmVersion::Version(held), version, bytes) ==> version
            > held,
{
}

/// The concatenation of per-shard result sets, in shard order.
pub open spec fn spec_concat_events(shard_results: Seq<Vec<EventResponse>>) -> Seq<EventResponse>
    decreases shard_results.len(),
{
    if shard_results.len() == 0 {
        Seq::<EventResponse>::empty()
    } else {
        spec_concat_events(shard_results.drop_last()) + shard_results.last()@
    }
}

/// The cross-shard read: each shard's filtered result set (pulled whole over
/// the chunk protocol by the host) is concatenated, the union is sorted once
/// globally, and one page is sliced out of it — a page boundary can span
/// shard-origin data arbitrarily.
#[verifier::loop_isolation(false)]
pub fn get_child_canister_data(
    shard_results: Vec<Vec<EventResponse>>,
    limit: usize,
    page: usize,
    sort: EventSort,
) -> (r: PagedResponse<EventResponse>)
    requires
        limit >= 1,
    ensures
        r.page == page,
        r.limit == limit,
        ({
            let ordered = spec_sort_events(spec_concat_events(shard_results@), sort);
            &&& r.total == ordered.len()
            &&& r.total_pages == spec_total_pages(ordered.len() as int, limit as int)
            &&& r.data@ == spec_page_slice(ordered, limit as int, page as int)
        }),
{
    let ghost orig = shard_results@;
    let mut shard_results = shard_results;
    let mut all: Vec<EventResponse> = Vec::new();
    while shard_results.len() > 0
        invariant
            shard_results@.len() <= orig.len(),
            orig.subrange(orig.len() - shard_results@.len(), orig.len() as int) == shard_results@,
            all@ == spec_concat_events(orig.subrange(0, orig.len() - shard_results@.len())),
        decreases shard_results@.len(),
    {
        let ghost k = orig.len() - shard_results@.len();
        let mut chunk = shard_results.remove(0);
        proof {
            assert(chunk == orig[k]);
            assert(orig.subrange(k + 1, orig.len() as int) =~= shard_results@);
            let pre = orig.subrange(0, k);
            let cur = orig.subrange(0, k + 1);
            assert(cur.drop_last() =~= pre);
            assert(cur.last() == chunk);
        }
        all.append(&mut chunk);
    }
    proof {
        assert(orig.subrange(0, orig.len() as int) =~= orig);
    }
    let ordered = get_ordered_events(all, sort);
    get_paged_data(ordered, limit, page)
}

} // verus!
