use vstd::prelude::*;

verus! {

/// Why a found command was not allowed to run.
#[derive(Clone, Copy, Debug, PartialEq, Eq, Structural)]
pub enum GatingReason {
    NotInGuild,
    MissingPermission,
    MissingRole,
}

/// The checks a group or a command imposes before it runs.
pub struct Gating {
    /// The command may only run inside a guild.
    pub guild_only: bool,
    /// Permission bits the caller must all hold.
    pub required_permissions: u64,
    /// When not empty, the caller must hold one of these roles.
    pub allowed_roles: Vec<String>,
    /// The rate-limit bucket the command draws from, by name.
    pub bucket: Option<String>,
}

/// Who is calling, and where.
pub struct Caller {
    pub guild_id: Option<u64>,
    pub permissions: u64,
    pub roles: Vec<String>,
}

pub open spec fn has_all_bits(have: u64, need: u64) -> bool {
    have & need == need
}

/// The caller holds one of `allowed`, or `allowed` is empty.
pub open spec fn role_allowed(allowed: Seq<Seq<char>>, roles: Seq<Seq<char>>) -> bool {
    allowed.len() == 0 || exists|i: int, j: int|
        0 <= i < allowed.len() && 0 <= j < roles.len() && #[trigger] allowed[i] == #[trigger] roles[j]
}

/// The outcome of the checks of a group and of a command together, in the
/// order guild, permissions, roles.
pub open spec fn gate_spec(group: Gating, cmd: Gating, caller: Caller) -> Option<GatingReason> {
    if (group.guild_only || cmd.guild_only) && caller.guild_id.is_none() {
        Some(GatingReason::NotInGuild)
    } else if !has_all_bits(caller.permissions, group.required_permissions)
        || !has_all_bits(caller.permissions, cmd.required_permissions) {
        Some(GatingReason::MissingPermission)
    } else if !role_allowed(group.allowed_roles.deep_view(), caller.roles.deep_view())
        || !role_allowed(cmd.allowed_roles.deep_view(), caller.roles.deep_view()) {
        Some(GatingReason::MissingRole)
    } else {
        None
    }
}

impl Gating {
    /// No checks at all.
    pub fn open_to_all() -> (r: Self)
        ensures
            !r.guild_only,
            r.required_permissions == 0,
            r.allowed_roles@.len() == 0,
            r.bucket.is_none(),
    {
        Gating { guild_only: false, required_permissions: 0, allowed_roles: Vec::new(), bucket: None }
    }
}

fn role_allowed_exec(allowed: &Vec<String>, roles: &Vec<String>) -> (r: bool)
    ensures
        r == role_allowed(allowed.deep_view(), roles.deep_view()),
{
    if allowed.len() == 0 {
        return true;
    }
    let mut i: usize = 0;
    while i < allowed.len()
        invariant
            i <= allowed@.len(),
            forall|a: int, b: int|
                0 <= a < i && 0 <= b < roles@.len() ==> allowed@[a]@ != roles@[b]@,
        decreases allowed@.len() - i,
    {
        let mut j: usize = 0;
        while j < roles.len()
            invariant
                i < allowed@.len(),
                j <= roles@.len(),
                forall|a: int, b: int|
                    0 <= a < i && 0 <= b < roles@.len() ==> allowed@[a]@ != roles@[b]@,
                forall|b: int| 0 <= b < j ==> allowed@[i as int]@ != roles@[b]@,
            decreases roles@.len() - j,
        {
            if allowed[i] == roles[j] {
                assert(allowed.deep_view()[i as int] == roles.deep_view()[j as int]);
                return true;
            }
            j = j + 1;
        }
        i = i + 1;
    }
    proof {
        assert forall|a: int, b: int|
            0 <= a < allowed.deep_view().len() && 0 <= b < roles.deep_view().len() implies
            #[trigger] allowed.deep_view()[a] != #[trigger] roles.deep_view()[b] by {
            assert(allowed.deep_view()[a] == allowed@[a]@);
            assert(roles.deep_view()[b] == roles@[b]@);
        }
    }
    false
}

/// Whether one of the roles, given by their permission bits, holds all of
/// `need`.
pub fn any_role_grants(role_permissions: &Vec<u64>, need: u64) -> (r: bool)
    ensures
        r == exists|i: int| 0 <= i < role_permissions@.len() && has_all_bits(#[trigger] role_permissions@[i], need),
{
    let mut i: usize = 0;
    while i < role_permissions.len()
        invariant
            i <= role_permissions@.len(),
            forall|t: int| 0 <= t < i ==> !has_all_bits(#[trigger] role_permissions@[t], need),
        decreases role_permissions@.len() - i,
    {
        if role_permissions[i] & need == need {
            return true;
        }
        i = i + 1;
    }
    false
}

/// Applies the checks of a group and of one of its commands to a caller.
pub fn gate(group: &Gating, cmd: &Gating, caller: &Caller) -> (r: Option<GatingReason>)
    ensures
        r == gate_spec(*group, *cmd, *caller),
{
    if (group.guild_only || cmd.guild_only) && caller.guild_id.is_none() {
        Some(GatingReason::NotInGuild)
    } else if caller.permissions & group.required_permissions != group.required_permissions
        || caller.permissions & cmd.required_permissions != cmd.required_permissions {
        Some(GatingReason::MissingPermission)
    } else if !role_allowed_exec(&group.allowed_roles, &caller.roles)
        || !role_allowed_exec(&cmd.allowed_roles, &caller.roles) {
        Some(GatingReason::MissingRole)
    } else {
        None
    }
}

} // verus!
