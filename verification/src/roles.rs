//! Role-gated mutation. Before an edit, delete or cancel, the caller either
//! owns the record (owners bypass role checks) or must hold, within the
//! record's group, a role whose permission table grants the requested
//! action. The group's role table and the member's role list come from an
//! external membership service; the host performs those lookups and hands
//! their results — including failures — to the functions here. An asserted
//! acting identity that differs from the identity the member lookup returns
//! is always rejected, whatever roles it holds.

use vstd::prelude::*;

use crate::identifier::Identifier;
use crate::shard::Store;
use crate::types::{error_info, ApiError, ErrorInfo, PrincipalId};

verus! {

/// The action a mutation entry point asks leave for.
#[derive(Clone, Copy, PartialEq, Eq, Structural, Debug)]
pub enum PermissionActionType {
    Write,
    Read,
    Edit,
    Delete,
}

/// Which actions one permission grants.
#[derive(Clone, Copy, PartialEq, Eq, Structural, Debug)]
pub struct PermissionActions {
    pub write: bool,
    pub read: bool,
    pub edit: bool,
    pub delete: bool,
}

/// One named permission of a role.
#[derive(Debug)]
pub struct Permission {
    pub name: String,
    pub protected: bool,
    pub actions: PermissionActions,
}

/// One role a group defines: a name and the permissions it grants.
#[derive(Debug)]
pub struct Role {
    pub name: String,
    pub protected: bool,
    pub permissions: Vec<Permission>,
}

/// Whether the permission grants the action.
pub open spec fn action_granted(a: PermissionActions, action: PermissionActionType) -> bool {
    match action {
        PermissionActionType::Write => a.write,
        PermissionActionType::Read => a.read,
        PermissionActionType::Edit => a.edit,
        PermissionActionType::Delete => a.delete,
    }
}

/// Whether the role grants the action under the named permission.
pub open spec fn role_granted(
    role: Role,
    permission_name: Seq<char>,
    action: PermissionActionType,
) -> bool {
    exists|i: int|
        0 <= i < role.permissions@.len() && (#[trigger] role.permissions@[i]).name@
            == permission_name && action_granted(role.permissions@[i].actions, action)
}

/// Whether the member holds the role, by name.
pub open spec fn role_matches(member_roles: Seq<String>, role: Role) -> bool {
    exists|j: int| 0 <= j < member_roles.len() && (#[trigger] member_roles[j])@ == role.name@
}

/// Whether some role of the table that the member holds grants the action
/// under the named permission.
pub open spec fn spec_has_permission(
    member_roles: Seq<String>,
    permission_name: Seq<char>,
    group_roles: Seq<Role>,
    action: PermissionActionType,
) -> bool {
    exists|i: int|
        0 <= i < group_roles.len() && role_matches(member_roles, #[trigger] group_roles[i])
            && role_granted(group_roles[i], permission_name, action)
}

/// Whether the member holds one of the default roles, which grant every
/// action on records regardless of the group's own table.
pub open spec fn spec_default_granted(member_roles: Seq<String>) -> bool {
    exists|j: int|
        0 <= j < member_roles.len() && ((#[trigger] member_roles[j])@ == "owner"@
            || member_roles[j]@ == "admin"@)
}

/// The fixed default roles merged in after the group's own are fetched:
/// `owner` and `admin`, each granting every action on records.
pub fn default_roles() -> (r: Vec<Role>)
    ensures
        r@.len() == 2,
        r@[0].name@ == "owner"@,
        r@[1].name@ == "admin"@,
        forall|i: int|
            0 <= i < 2 ==> (#[trigger] r@[i]).permissions@.len() == 1 && r@[i].permissions@[0].name@
                == "event"@ && r@[i].permissions@[0].actions == (PermissionActions {
                write: true,
                read: true,
                edit: true,
                delete: true,
            }),
{
    let all = PermissionActions { write: true, read: true, edit: true, delete: true };
    let mut owner_perms: Vec<Permission> = Vec::new();
    owner_perms.push(Permission { name: "event".to_owned(), protected: true, actions: all });
    let mut admin_perms: Vec<Permission> = Vec::new();
    admin_perms.push(Permission { name: "event".to_owned(), protected: true, actions: all });
    let mut roles: Vec<Role> = Vec::new();
    roles.push(Role { name: "owner".to_owned(), protected: true, permissions: owner_perms });
    roles.push(Role { name: "admin".to_owned(), protected: true, permissions: admin_perms });
    roles
}

/// Whether the member holds the role, decided executably.
#[verifier::loop_isolation(false)]
fn member_has_role(member_roles: &Vec<String>, role_name: &String) -> (r: bool)
    ensures
        r == exists|j: int|
            0 <= j < member_roles@.len() && (#[trigger] member_roles@[j])@ == role_name@,
{
    let mut j: usize = 0;
    while j < member_roles.len()
        invariant
            j <= member_roles@.len(),
            forall|k: int| 0 <= k < j ==> (#[trigger] member_roles@[k])@ != role_name@,
        decreases member_roles@.len() - j,
    {
        if member_roles[j] == *role_name {
            return true;
        }
        j = j + 1;
    }
    false
}

/// Whether the role grants the action under the named permission, decided
/// executably.
#[verifier::loop_isolation(false)]
fn role_grants(role: &Role, permission_name: &String, action: PermissionActionType) -> (r: bool)
    ensures
        r == role_granted(*role, permission_name@, action),
{
    let mut i: usize = 0;
    while i < role.permissions.len()
        invariant
            i <= role.permissions@.len(),
            forall|k: int|
                0 <= k < i ==> !((#[trigger] role.permissions@[k]).name@ == permission_name@
                    && action_granted(role.permissions@[k].actions, action)),
        decreases role.permissions@.len() - i,
    {
        let p = &role.permissions[i];
        if p.name == *permission_name {
            let granted = match action {
                PermissionActionType::Write => p.actions.write,
                PermissionActionType::Read => p.actions.read,
                PermissionActionType::Edit => p.actions.edit,
                PermissionActionType::Delete => p.actions.delete,
            };
            if granted {
                return true;
            }
        }
        i = i + 1;
    }
    false
}

/// Whether some role of the table that the member holds grants the action
/// under the named permission, decided executably.
#[verifier::loop_isolation(false)]
pub fn has_permission(
    member_roles: &Vec<String>,
    permission_name: &String,
    group_roles: &Vec<Role>,
    action: PermissionActionType,
) -> (r: bool)
    ensures
        r == spec_has_permission(member_roles@, permission_name@, group_roles@, action),
{
    let mut i: usize = 0;
    while i < group_roles.len()
        invariant
            i <= group_roles@.len(),
            forall|k: int|
                0 <= k < i ==> !(role_matches(member_roles@, #[trigger] group_roles@[k])
                    && role_granted(group_roles@[k], permission_name@, action)),
        decreases group_roles@.len() - i,
    {
        let role = &group_roles[i];
        if member_has_role(member_roles, &role.name) && role_grants(role, permission_name, action) {
            return true;
        }
        i = i + 1;
    }
    false
}

/// Whether the checks pass and the action is granted: the member lookup
/// succeeded for the asserted caller, the group lookup succeeded, and either
/// the group's table or a default role grants the action.
pub open spec fn permission_granted(
    caller: PrincipalId,
    group_roles: Result<Vec<Role>, String>,
    member_roles: Result<(PrincipalId, Vec<String>), String>,
    action: PermissionActionType,
) -> bool {
    &&& member_roles matches Ok(pr)
    &&& member_roles->Ok_0.0 == caller
    &&& group_roles matches Ok(gr)
    &&& {
        let names = member_roles->Ok_0.1;
        spec_has_permission(names@, "event"@, group_roles->Ok_0@, action)
            || spec_default_granted(names@)
    }
}

/// Whether the member lookup answered for a different identity than the
/// asserted caller — the spoofing case that is always rejected.
pub open spec fn identity_mismatch(
    caller: PrincipalId,
    member_roles: Result<(PrincipalId, Vec<String>), String>,
) -> bool {
    member_roles matches Ok(pr) && pr.0 != caller
}

/// Evaluates a permission check from the caller's asserted identity and the
/// two lookup results. A failed lookup is rejected as unauthorized carrying
/// the lookup's own error text, an ungranted action as unauthorized; a
/// member lookup answering for another identity is rejected as a principal
/// mismatch whatever roles it reports. No lookup failure crosses this
/// boundary unwrapped.
pub fn check_permission(
    caller: PrincipalId,
    group_roles: Result<Vec<Role>, String>,
    member_roles: Result<(PrincipalId, Vec<String>), String>,
    permission: PermissionActionType,
) -> (r: Result<PrincipalId, ApiError>)
    ensures
        permission_granted(caller, group_roles, member_roles, permission) ==> r == Ok::<
            PrincipalId,
            ApiError,
        >(caller),
        identity_mismatch(caller, member_roles) ==> (r matches Err(e) && e is Unauthorized
            && e.spec_tag() == "PRINCIPAL_MISMATCH"@),
        (!permission_granted(caller, group_roles, member_roles, permission) && !identity_mismatch(
            caller,
            member_roles,
        )) ==> (r matches Err(e) && e is Unauthorized && e.spec_tag() == "NO_PERMISSION"@),
        member_roles matches Err(t) ==> (r matches Err(e) && e.spec_message() == t@),
        member_roles matches Ok(pr) ==> (pr.0 == caller ==> (group_roles matches Err(t) ==> (
        r matches Err(e) && e.spec_message() == t@))),
{
    match member_roles {
        Err(text) => Err(
            ApiError::Unauthorized(ErrorInfo { tag: "NO_PERMISSION".to_owned(), message: text }),
        ),
        Ok((member_principal, names)) => {
            if member_principal != caller {
                return Err(
                    ApiError::Unauthorized(error_info("PRINCIPAL_MISMATCH", "Principal mismatch")),
                );
            }
            match group_roles {
                Err(text) => Err(
                    ApiError::Unauthorized(
                        ErrorInfo { tag: "NO_PERMISSION".to_owned(), message: text },
                    ),
                ),
                Ok(gr) => {
                    let mut merged = gr;
                    let mut defaults = default_roles();
                    let ghost gr_snap = merged@;
                    let ghost def_snap = defaults@;
                    merged.append(&mut defaults);
                    let pname = "event".to_owned();
                    let granted = has_permission(&names, &pname, &merged, permission);
                    proof {
                        let m = merged@;
                        let base = gr_snap.len() as int;
                        assert(m == gr_snap + def_snap);
                        assert(m[base] == def_snap[0]);
                        assert(m[base + 1] == def_snap[1]);
                        if granted {
                            let w = choose|i: int|
                                0 <= i < m.len() && role_matches(names@, #[trigger] m[i])
                                    && role_granted(m[i], pname@, permission);
                            if w < base {
                                assert(m[w] == gr_snap[w]);
                                assert(spec_has_permission(names@, "event"@, gr_snap, permission));
                            } else {
                                assert(role_matches(names@, m[w]));
                                let j = choose|j: int|
                                    0 <= j < names@.len() && (#[trigger] names@[j])@ == m[w].name@;
                                assert(m[w].name@ == "owner"@ || m[w].name@ == "admin"@);
                                assert(spec_default_granted(names@));
                            }
                        } else {
                            if spec_has_permission(names@, "event"@, gr_snap, permission) {
                                let w = choose|i: int|
                                    0 <= i < gr_snap.len() && role_matches(
                                        names@,
                                        #[trigger] gr_snap[i],
                                    ) && role_granted(gr_snap[i], "event"@, permission);
                                assert(m[w] == gr_snap[w]);
                                assert(spec_has_permission(names@, pname@, m, permission));
                            }
                            if spec_default_granted(names@) {
                                let j = choose|j: int|
                                    0 <= j < names@.len() && ((#[trigger] names@[j])@ == "owner"@
                                        || names@[j]@ == "admin"@);
                                let d = if names@[j]@ == "owner"@ {
                                    base
                                } else {
                                    base + 1
                                };
                                assert(role_matches(names@, m[d]));
                                assert(m[d].permissions@[0].name@ == pname@);
                                assert(action_granted(m[d].permissions@[0].actions, permission));
                                assert(role_granted(m[d], pname@, permission));
                                assert(spec_has_permission(names@, pname@, m, permission));
                            }
                        }
                    }
                    if granted {
                        Ok(caller)
                    } else {
                        Err(ApiError::Unauthorized(error_info("NO_PERMISSION", "No permission")))
                    }
                },
            }
        },
    }
}

impl Store {
    /// Whether the caller owns the record named by the identifier within the
    /// group — owners bypass the role check entirely. The identifier must be
    /// one this shard minted; a foreign identifier never names a record here.
    pub open spec fn owner_bypass(
        &self,
        identifier: crate::identifier::IdentifierV,
        group_identifier: PrincipalId,
        caller: PrincipalId,
    ) -> bool {
        &&& self.owns_identifier(identifier)
        &&& self.has_entry(identifier.index)
        &&& self.entries@[self.spec_index_of(identifier.index)].1@.group_identifier
            == group_identifier
        &&& self.entries@[self.spec_index_of(identifier.index)].1@.owner == caller
    }

    /// Gate for creating a record: granted if and only if the lookups
    /// succeed for the asserted caller and a role grants writing.
    pub fn can_write(
        caller: PrincipalId,
        group_roles: Result<Vec<Role>, String>,
        member_roles: Result<(PrincipalId, Vec<String>), String>,
    ) -> (r: Result<PrincipalId, ApiError>)
        ensures
            permission_granted(caller, group_roles, member_roles, PermissionActionType::Write)
                ==> r == Ok::<PrincipalId, ApiError>(caller),
            identity_mismatch(caller, member_roles) ==> (r matches Err(e) && e is Unauthorized
                && e.spec_tag() == "PRINCIPAL_MISMATCH"@),
            (!permission_granted(caller, group_roles, member_roles, PermissionActionType::Write)
                && !identity_mismatch(caller, member_roles)) ==> (r matches Err(e) && e
                is Unauthorized && e.spec_tag() == "NO_PERMISSION"@),
            member_roles matches Err(t) ==> (r matches Err(e) && e.spec_message() == t@),
            member_roles matches Ok(pr) ==> (pr.0 == caller ==> (group_roles matches Err(t) ==> (
            r matches Err(e) && e.spec_message() == t@))),
    {
        check_permission(caller, group_roles, member_roles, PermissionActionType::Write)
    }

    /// Gate for reading through a gated entry point.
    pub fn can_read(
        caller: PrincipalId,
        group_roles: Result<Vec<Role>, String>,
        member_roles: Result<(PrincipalId, Vec<String>), String>,
    ) -> (r: Result<PrincipalId, ApiError>)
        ensures
            permission_granted(caller, group_roles, member_roles, PermissionActionType::Read)
                ==> r == Ok::<PrincipalId, ApiError>(caller),
            identity_mismatch(caller, member_roles) ==> (r matches Err(e) && e is Unauthorized
                && e.spec_tag() == "PRINCIPAL_MISMATCH"@),
            (!permission_granted(caller, group_roles, member_roles, PermissionActionType::Read)
                && !identity_mismatch(caller, member_roles)) ==> (r matches Err(e) && e
                is Unauthorized && e.spec_tag() == "NO_PERMISSION"@),
            member_roles matches Err(t) ==> (r matches Err(e) && e.spec_message() == t@),
            member_roles matches Ok(pr) ==> (pr.0 == caller ==> (group_roles matches Err(t) ==> (
            r matches Err(e) && e.spec_message() == t@))),
    {
        check_permission(caller, group_roles, member_roles, PermissionActionType::Read)
    }

    /// Gate for editing a record: the record's owner passes even when the
    /// role service answers with nothing or fails; anyone else needs a role
    /// granting the edit action.
    pub fn can_edit(
        &self,
        caller: PrincipalId,
        event_identifier: &Identifier,
        group_identifier: PrincipalId,
        group_roles: Result<Vec<Role>, String>,
        member_roles: Result<(PrincipalId, Vec<String>), String>,
    ) -> (r: Result<PrincipalId, ApiError>)
        requires
            self.wf(),
        ensures
            self.owner_bypass(event_identifier@, group_identifier, caller) ==> r == Ok::<
                PrincipalId,
                ApiError,
            >(caller),
            (!self.owner_bypass(event_identifier@, group_identifier, caller)
                && permission_granted(
                caller,
                group_roles,
                member_roles,
                PermissionActionType::Edit,
            )) ==> r == Ok::<PrincipalId, ApiError>(caller),
            (!self.owner_bypass(event_identifier@, group_identifier, caller)
                && identity_mismatch(caller, member_roles)) ==> (r matches Err(e) && e
                is Unauthorized && e.spec_tag() == "PRINCIPAL_MISMATCH"@),
            (!self.owner_bypass(event_identifier@, group_identifier, caller)
                && !permission_granted(
                caller,
                group_roles,
                member_roles,
                PermissionActionType::Edit,
            ) && !identity_mismatch(caller, member_roles)) ==> (r matches Err(e) && e
                is Unauthorized && e.spec_tag() == "NO_PERMISSION"@),
            !self.owner_bypass(event_identifier@, group_identifier, caller) ==> (
            member_roles matches Err(t) ==> (r matches Err(e) && e.spec_message() == t@)),
            !self.owner_bypass(event_identifier@, group_identifier, caller) ==> (
            member_roles matches Ok(pr) ==> (pr.0 == caller ==> (group_roles matches Err(t) ==> (
            r matches Err(e) && e.spec_message() == t@)))),
    {
        match self.get_event(event_identifier, Some(group_identifier)) {
            Ok(event) => {
                if event.owner == caller {
                    return Ok(caller);
                }
                check_permission(caller, group_roles, member_roles, PermissionActionType::Edit)
            },
            Err(_) => check_permission(
                caller,
                group_roles,
                member_roles,
                PermissionActionType::Edit,
            ),
        }
    }

    /// Gate for deleting a record: the record's owner passes; anyone else
    /// needs a role granting the delete action.
    pub fn can_delete(
        &self,
        caller: PrincipalId,
        event_identifier: &Identifier,
        group_identifier: PrincipalId,
        group_roles: Result<Vec<Role>, String>,
        member_roles: Result<(PrincipalId, Vec<String>), String>,
    ) -> (r: Result<PrincipalId, ApiError>)
        requires
            self.wf(),
        ensures
            self.owner_bypass(event_identifier@, group_identifier, caller) ==> r == Ok::<
                PrincipalId,
                ApiError,
            >(caller),
            (!self.owner_bypass(event_identifier@, group_identifier, caller)
                && permission_granted(
                caller,
                group_roles,
                member_roles,
                PermissionActionType::Delete,
            )) ==> r == Ok::<PrincipalId, ApiError>(caller),
            (!self.owner_bypass(event_identifier@, group_identifier, caller)
                && identity_mismatch(caller, member_roles)) ==> (r matches Err(e) && e
                is Unauthorized && e.spec_tag() == "PRINCIPAL_MISMATCH"@),
            (!self.owner_bypass(event_identifier@, group_identifier, caller)
                && !permission_granted(
                caller,
                group_roles,
                member_roles,
                PermissionActionType::Delete,
            ) && !identity_mismatch(caller, member_roles)) ==> (r matches Err(e) && e
                is Unauthorized && e.spec_tag() == "NO_PERMISSION"@),
            !self.owner_bypass(event_identifier@, group_identifier, caller) ==> (
            member_roles matches Err(t) ==> (r matches Err(e) && e.spec_message() == t@)),
            !self.owner_bypass(event_identifier@, group_identifier, caller) ==> (
            member_roles matches Ok(pr) ==> (pr.0 == caller ==> (group_roles matches Err(t) ==> (
            r matches Err(e) && e.spec_message() == t@)))),
    {
        match self.get_event(event_identifier, Some(group_identifier)) {
            Ok(event) => {
                if event.owner == caller {
                    return Ok(caller);
                }
                check_permission(caller, group_roles, member_roles, PermissionActionType::Delete)
            },
            Err(_) => check_permission(
                caller,
                group_roles,
                member_roles,
                PermissionActionType::Delete,
            ),
        }
    }
}

} // verus!
