//! Channel-scoped roles and the permissions each one carries.

use vstd::prelude::*;

verus! {

/// A user's standing in one channel, lowest first.
#[derive(Clone, Copy, Debug, PartialEq, Eq, PartialOrd, Ord, Hash, Structural)]
pub enum Role {
    User,
    Moderator,
    Admin,
    SuperAdmin,
}

/// One thing a role may allow.
#[derive(Clone, Copy, Debug, PartialEq, Eq, Hash, Structural)]
pub enum Permission {
    SendMessage,
    DeleteMessage,
    ManageChannel,
    BanUser,
    KickUser,
    MuteUser,
    PromoteUser,
    ViewLogs,
    ManageRoles,
}

impl Permission {
    /// The rank of the lowest role that holds this permission.
    pub open spec fn required_rank(self) -> nat {
        match self {
            Permission::SendMessage => 0,
            Permission::DeleteMessage | Permission::KickUser | Permission::MuteUser => 1,
            Permission::ManageChannel
            | Permission::BanUser
            | Permission::PromoteUser
            | Permission::ViewLogs => 2,
            Permission::ManageRoles => 3,
        }
    }

    /// The variant's name, as `Debug` prints it.
    pub open spec fn spec_name(self) -> Seq<char> {
        match self {
            Permission::SendMessage => "SendMessage"@,
            Permission::DeleteMessage => "DeleteMessage"@,
            Permission::ManageChannel => "ManageChannel"@,
            Permission::BanUser => "BanUser"@,
            Permission::KickUser => "KickUser"@,
            Permission::MuteUser => "MuteUser"@,
            Permission::PromoteUser => "PromoteUser"@,
            Permission::ViewLogs => "ViewLogs"@,
            Permission::ManageRoles => "ManageRoles"@,
        }
    }

    pub fn name(&self) -> (s: &'static str)
        ensures
            s@ == self.spec_name(),
    {
        match self {
            Permission::SendMessage => "SendMessage",
            Permission::DeleteMessage => "DeleteMessage",
            Permission::ManageChannel => "ManageChannel",
            Permission::BanUser => "BanUser",
            Permission::KickUser => "KickUser",
            Permission::MuteUser => "MuteUser",
            Permission::PromoteUser => "PromoteUser",
            Permission::ViewLogs => "ViewLogs",
            Permission::ManageRoles => "ManageRoles",
        }
    }
}

impl Role {
    /// The role's place in the order User < Moderator < Admin < SuperAdmin.
    pub open spec fn spec_rank(self) -> nat {
        match self {
            Role::User => 0,
            Role::Moderator => 1,
            Role::Admin => 2,
            Role::SuperAdmin => 3,
        }
    }

    /// The role holds `permission` by default.
    pub open spec fn grants(self, permission: Permission) -> bool {
        self.spec_rank() >= permission.required_rank()
    }

    /// The set of permissions the role holds by default.
    pub open spec fn spec_default_permissions(self) -> Set<Permission> {
        Set::new(|p: Permission| self.grants(p))
    }

    /// The variant's name, as `Debug` prints it.
    pub open spec fn spec_name(self) -> Seq<char> {
        match self {
            Role::User => "User"@,
            Role::Moderator => "Moderator"@,
            Role::Admin => "Admin"@,
            Role::SuperAdmin => "SuperAdmin"@,
        }
    }

    pub fn rank(&self) -> (r: u8)
        ensures
            r == self.spec_rank(),
    {
        match self {
            Role::User => 0,
            Role::Moderator => 1,
            Role::Admin => 2,
            Role::SuperAdmin => 3,
        }
    }

    /// `self` is `floor` or a higher role.
    pub fn at_least(&self, floor: Role) -> (r: bool)
        ensures
            r == (self.spec_rank() >= floor.spec_rank()),
    {
        self.rank() >= floor.rank()
    }

    pub fn name(&self) -> (s: &'static str)
        ensures
            s@ == self.spec_name(),
    {
        match self {
            Role::User => "User",
            Role::Moderator => "Moderator",
            Role::Admin => "Admin",
            Role::SuperAdmin => "SuperAdmin",
        }
    }

    /// The permissions of the role, each listed once.
    pub fn default_permissions(&self) -> (perms: Vec<Permission>)
        ensures
            perms@.no_duplicates(),
            perms@.to_set() == self.spec_default_permissions(),
            forall|p: Permission| perms@.contains(p) <==> self.grants(p),
    {
        let rank: u8 = self.rank();
        let mut perms: Vec<Permission> = Vec::new();
        perms.push(Permission::SendMessage);
        if rank >= 1 {
            perms.push(Permission::DeleteMessage);
            perms.push(Permission::KickUser);
            perms.push(Permission::MuteUser);
        }
        if rank >= 2 {
            perms.push(Permission::ManageChannel);
            perms.push(Permission::BanUser);
            perms.push(Permission::PromoteUser);
            perms.push(Permission::ViewLogs);
        }
        if rank >= 3 {
            perms.push(Permission::ManageRoles);
        }
        proof {
            let all = seq![
                Permission::SendMessage,
                Permission::DeleteMessage,
                Permission::KickUser,
                Permission::MuteUser,
                Permission::ManageChannel,
                Permission::BanUser,
                Permission::PromoteUser,
                Permission::ViewLogs,
                Permission::ManageRoles,
            ];
            assert(perms@ =~= all.subrange(0, perms@.len() as int));
            assert forall|p: Permission| perms@.contains(p) <==> self.grants(p) by {
                let k: int = match p {
                    Permission::SendMessage => 0,
                    Permission::DeleteMessage => 1,
                    Permission::KickUser => 2,
                    Permission::MuteUser => 3,
                    Permission::ManageChannel => 4,
                    Permission::BanUser => 5,
                    Permission::PromoteUser => 6,
                    Permission::ViewLogs => 7,
                    Permission::ManageRoles => 8,
                };
                assert(all[k] == p);
                if self.grants(p) {
                    assert(perms@[k] == p);
                }
            }
            assert(perms@.to_set() =~= self.spec_default_permissions());
        }
        perms
    }
}

/// A role together with the permissions it was given.
#[derive(Debug)]
pub struct RolePermissions {
    pub role: Role,
    pub permissions: Vec<Permission>,
}

/// `permission` occurs in `list`.
pub fn contains_permission(list: &Vec<Permission>, permission: Permission) -> (found: bool)
    ensures
        found == list@.contains(permission),
{
    let mut i: usize = 0;
    while i < list.len()
        invariant
            i <= list.len(),
            forall|k: int| 0 <= k < i ==> list@[k] != permission,
        decreases list.len() - i,
    {
        if list[i] == permission {
            return true;
        }
        i += 1;
    }
    false
}

impl RolePermissions {
    pub fn new(role: Role) -> (rp: Self)
        ensures
            rp.role == role,
            rp.permissions@.no_duplicates(),
            forall|p: Permission| rp.permissions@.contains(p) <==> role.grants(p),
    {
        Self { role, permissions: role.default_permissions() }
    }

    pub fn has_permission(&self, permission: Permission) -> (held: bool)
        ensures
            held == self.permissions@.contains(permission),
    {
        contains_permission(&self.permissions, permission)
    }
}

/// Whether `role` holds `permission` by default.
pub fn has_permission(role: Role, permission: Permission) -> (held: bool)
    ensures
        held == role.grants(permission),
        held == role.spec_default_permissions().contains(permission),
{
    let perms = role.default_permissions();
    contains_permission(&perms, permission)
}

/// A higher role holds every permission of a lower one.
pub proof fn higher_role_keeps_permissions(lower: Role, higher: Role, permission: Permission)
    requires
        lower.spec_rank() <= higher.spec_rank(),
        lower.grants(permission),
    ensures
        higher.grants(permission),
{
}

} // verus!
