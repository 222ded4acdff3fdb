use vstd::prelude::*;

use crate::security::SecurityContext;
use crate::text::str_eq;

verus! {

/// Roles, with permissions that grow from viewer to admin.
#[derive(Debug, Clone, Copy, PartialEq, Eq, Structural, Hash)]
pub enum Role {
    Viewer,
    Developer,
    Admin,
}

/// Permissions for single kinds of operations.
#[derive(Debug, Clone, Copy, PartialEq, Eq, Structural, Hash)]
pub enum Permission {
    ObserveEntities,
    ObserveComponents,
    ObserveSystems,
    ObserveResources,
    ModifyComponents,
    RunExperiments,
    StressTest,
    PauseGame,
    StepFrame,
    ModifyTime,
    CreateHypothesis,
    ModifyWorldState,
    InjectEvents,
    ManageUsers,
    ViewAuditLogs,
    ModifySecuritySettings,
    AccessSystemMetrics,
}

pub open spec fn observe_permissions() -> Seq<Permission> {
    seq![
        Permission::ObserveEntities,
        Permission::ObserveComponents,
        Permission::ObserveSystems,
        Permission::ObserveResources,
    ]
}

pub open spec fn debugging_permissions() -> Seq<Permission> {
    seq![
        Permission::ModifyComponents,
        Permission::RunExperiments,
        Permission::StressTest,
        Permission::PauseGame,
        Permission::StepFrame,
        Permission::ModifyTime,
        Permission::CreateHypothesis,
        Permission::ModifyWorldState,
        Permission::InjectEvents,
    ]
}

pub open spec fn admin_only_permissions() -> Seq<Permission> {
    seq![
        Permission::ManageUsers,
        Permission::ViewAuditLogs,
        Permission::ModifySecuritySettings,
        Permission::AccessSystemMetrics,
    ]
}

/// What each role may do: viewers observe, developers also debug, admins also
/// administer.
pub open spec fn role_permissions(role: Role) -> Seq<Permission> {
    match role {
        Role::Viewer => observe_permissions(),
        Role::Developer => observe_permissions() + debugging_permissions(),
        Role::Admin => observe_permissions() + debugging_permissions() + admin_only_permissions(),
    }
}

/// The resources that restrict which permissions reach them, in table order.
pub open spec fn resource_names() -> Seq<Seq<char>> {
    seq!["entities"@, "systems"@, "performance"@, "behavior"@]
}

/// Permissions that can act on each restricted resource.
pub open spec fn resource_table() -> Seq<Seq<Permission>> {
    seq![
        seq![Permission::ObserveEntities, Permission::ModifyComponents],
        seq![Permission::ObserveSystems, Permission::PauseGame, Permission::StepFrame],
        seq![Permission::ObserveSystems, Permission::StressTest, Permission::AccessSystemMetrics],
        seq![Permission::CreateHypothesis, Permission::ModifyWorldState, Permission::InjectEvents],
    ]
}

/// Permissions that can act on `resource`; empty for an unrestricted one.
pub open spec fn resource_permissions(resource: Seq<char>) -> Seq<Permission> {
    if resource == "entities"@ {
        resource_table()[0]
    } else if resource == "systems"@ {
        resource_table()[1]
    } else if resource == "performance"@ {
        resource_table()[2]
    } else if resource == "behavior"@ {
        resource_table()[3]
    } else {
        Seq::empty()
    }
}

/// The permission an operation needs; an unknown operation needs the least.
pub open spec fn permission_for(operation: Seq<char>) -> Permission {
    if operation == "observe"@ {
        Permission::ObserveEntities
    } else if operation == "experiment"@ {
        Permission::RunExperiments
    } else if operation == "stress_test"@ {
        Permission::StressTest
    } else if operation == "hypothesis"@ {
        Permission::CreateHypothesis
    } else if operation == "modify_component"@ {
        Permission::ModifyComponents
    } else if operation == "pause_game"@ {
        Permission::PauseGame
    } else if operation == "step_frame"@ {
        Permission::StepFrame
    } else if operation == "modify_time"@ {
        Permission::ModifyTime
    } else if operation == "modify_world"@ {
        Permission::ModifyWorldState
    } else if operation == "inject_event"@ {
        Permission::InjectEvents
    } else if operation == "manage_users"@ {
        Permission::ManageUsers
    } else if operation == "view_audit"@ {
        Permission::ViewAuditLogs
    } else if operation == "modify_security"@ {
        Permission::ModifySecuritySettings
    } else if operation == "system_metrics"@ {
        Permission::AccessSystemMetrics
    } else {
        Permission::ObserveEntities
    }
}

/// Settings of access control; custom permissions are kept by resource name.
#[derive(Debug, Clone)]
pub struct RbacConfig {
    pub enable_hierarchical_roles: bool,
    pub default_role: Role,
    pub custom_permissions: Vec<(String, Vec<Permission>)>,
}

impl Default for RbacConfig {
    fn default() -> (r: Self)
        ensures
            r.enable_hierarchical_roles,
            r.default_role == Role::Viewer,
            r.custom_permissions@.len() == 0,
    {
        RbacConfig {
            enable_hierarchical_roles: true,
            default_role: Role::Viewer,
            custom_permissions: Vec::new(),
        }
    }
}

/// Role-based access control over operations and resources.
#[derive(Debug, Clone)]
pub struct RbacService {
    role_permissions: Vec<(Role, Vec<Permission>)>,
    resource_permissions: Vec<(String, Vec<Permission>)>,
}

fn push_all(v: &mut Vec<Permission>, items: &[Permission])
    ensures
        final(v)@ == old(v)@ + items@,
{
    let mut i: usize = 0;
    while i < items.len()
        invariant
            i <= items.len(),
            v@ == old(v)@ + items@.take(i as int),
        decreases items.len() - i,
    {
        v.push(items[i]);
        assert(items@.take(i + 1) =~= items@.take(i as int).push(items@[i as int]));
        i = i + 1;
    }
    assert(items@.take(items@.len() as int) =~= items@);
}

fn contains_permission(v: &Vec<Permission>, p: Permission) -> (r: bool)
    ensures
        r == v@.contains(p),
{
    let mut i: usize = 0;
    while i < v.len()
        invariant
            i <= v.len(),
            forall|k: int| 0 <= k < i ==> v@[k] != p,
        decreases v.len() - i,
    {
        if v[i] == p {
            return true;
        }
        i = i + 1;
    }
    false
}

impl RbacService {
    /// The tables hold the permissions of each role and each restricted
    /// resource.
    pub closed spec fn wf(&self) -> bool {
        &&& self.role_permissions@.len() == 3
        &&& self.role_permissions@[0].0 == Role::Viewer
        &&& self.role_permissions@[1].0 == Role::Developer
        &&& self.role_permissions@[2].0 == Role::Admin
        &&& forall|i: int|
            0 <= i < 3 ==> (#[trigger] self.role_permissions@[i]).1@ == role_permissions(
                self.role_permissions@[i].0,
            )
        &&& self.resource_permissions@.len() == 4
        &&& forall|i: int|
            0 <= i < 4 ==> (#[trigger] self.resource_permissions@[i]).0@ == resource_names()[i]
                && self.resource_permissions@[i].1@ == resource_table()[i]
    }

    /// A service with the built-in tables; the configuration only carries
    /// settings.
    pub fn new(_config: RbacConfig) -> (r: Self)
        ensures
            r.wf(),
    {
        let mut service = RbacService { role_permissions: Vec::new(), resource_permissions: Vec::new() };
        service.setup_default_permissions();
        service.setup_resource_permissions();
        service
    }

    fn setup_default_permissions(&mut self)
        ensures
            final(self).role_permissions@.len() == 3,
            final(self).role_permissions@[0].0 == Role::Viewer,
            final(self).role_permissions@[1].0 == Role::Developer,
            final(self).role_permissions@[2].0 == Role::Admin,
            forall|i: int|
                0 <= i < 3 ==> (#[trigger] final(self).role_permissions@[i]).1@ == role_permissions(
                    final(self).role_permissions@[i].0,
                ),
            final(self).resource_permissions == old(self).resource_permissions,
    {
        let observe = [
            Permission::ObserveEntities,
            Permission::ObserveComponents,
            Permission::ObserveSystems,
            Permission::ObserveResources,
        ];
        let debugging = [
            Permission::ModifyComponents,
            Permission::RunExperiments,
            Permission::StressTest,
            Permission::PauseGame,
            Permission::StepFrame,
            Permission::ModifyTime,
            Permission::CreateHypothesis,
            Permission::ModifyWorldState,
            Permission::InjectEvents,
        ];
        let admin = [
            Permission::ManageUsers,
            Permission::ViewAuditLogs,
            Permission::ModifySecuritySettings,
            Permission::AccessSystemMetrics,
        ];
        assert(observe@ =~= observe_permissions());
        assert(debugging@ =~= debugging_permissions());
        assert(admin@ =~= admin_only_permissions());
        let mut viewer: Vec<Permission> = Vec::new();
        push_all(&mut viewer, &observe);
        let mut developer: Vec<Permission> = Vec::new();
        push_all(&mut developer, &observe);
        push_all(&mut developer, &debugging);
        let mut administrator: Vec<Permission> = Vec::new();
        push_all(&mut administrator, &observe);
        push_all(&mut administrator, &debugging);
        push_all(&mut administrator, &admin);
        assert(viewer@ =~= role_permissions(Role::Viewer));
        assert(developer@ =~= role_permissions(Role::Developer));
        assert(administrator@ =~= role_permissions(Role::Admin));
        let mut table: Vec<(Role, Vec<Permission>)> = Vec::new();
        table.push((Role::Viewer, viewer));
        table.push((Role::Developer, developer));
        table.push((Role::Admin, administrator));
        self.role_permissions = table;
    }

    fn setup_resource_permissions(&mut self)
        ensures
            final(self).resource_permissions@.len() == 4,
            forall|i: int|
                0 <= i < 4 ==> (#[trigger] final(self).resource_permissions@[i]).0@
                    == resource_names()[i] && final(self).resource_permissions@[i].1@
                    == resource_table()[i],
            final(self).role_permissions == old(self).role_permissions,
    {
        let mut entities: Vec<Permission> = Vec::new();
        entities.push(Permission::ObserveEntities);
        entities.push(Permission::ModifyComponents);
        let mut systems: Vec<Permission> = Vec::new();
        systems.push(Permission::ObserveSystems);
        systems.push(Permission::PauseGame);
        systems.push(Permission::StepFrame);
        let mut performance: Vec<Permission> = Vec::new();
        performance.push(Permission::ObserveSystems);
        performance.push(Permission::StressTest);
        performance.push(Permission::AccessSystemMetrics);
        let mut behavior: Vec<Permission> = Vec::new();
        behavior.push(Permission::CreateHypothesis);
        behavior.push(Permission::ModifyWorldState);
        behavior.push(Permission::InjectEvents);
        let mut table: Vec<(String, Vec<Permission>)> = Vec::new();
        table.push((String::from_str("entities"), entities));
        table.push((String::from_str("systems"), systems));
        table.push((String::from_str("performance"), performance));
        table.push((String::from_str("behavior"), behavior));
        assert(table@[0].1@ =~= resource_table()[0]);
        assert(table@[1].1@ =~= resource_table()[1]);
        assert(table@[2].1@ =~= resource_table()[2]);
        assert(table@[3].1@ =~= resource_table()[3]);
        self.resource_permissions = table;
    }

    fn role_entry(&self, role: Role) -> (r: &Vec<Permission>)
        requires
            self.wf(),
        ensures
            r@ == role_permissions(role),
    {
        let i: usize = match role {
            Role::Viewer => 0,
            Role::Developer => 1,
            Role::Admin => 2,
        };
        assert(self.role_permissions@[i as int].1@ == role_permissions(self.role_permissions@[i as int].0));
        &self.role_permissions[i].1
    }

    /// Every permission of a role.
    pub fn get_permissions(&self, role: Role) -> (r: Vec<Permission>)
        requires
            self.wf(),
        ensures
            r@ == role_permissions(role),
    {
        let src = self.role_entry(role);
        let mut out: Vec<Permission> = Vec::new();
        push_all(&mut out, src.as_slice());
        assert(out@ =~= role_permissions(role));
        out
    }

    /// The permission an operation needs.
    pub fn map_operation_to_permission(&self, operation: &str) -> (r: Permission)
        ensures
            r == permission_for(operation@),
    {
        if str_eq(operation, "observe") {
            Permission::ObserveEntities
        } else if str_eq(operation, "experiment") {
            Permission::RunExperiments
        } else if str_eq(operation, "stress_test") {
            Permission::StressTest
        } else if str_eq(operation, "hypothesis") {
            Permission::CreateHypothesis
        } else if str_eq(operation, "modify_component") {
            Permission::ModifyComponents
        } else if str_eq(operation, "pause_game") {
            Permission::PauseGame
        } else if str_eq(operation, "step_frame") {
            Permission::StepFrame
        } else if str_eq(operation, "modify_time") {
            Permission::ModifyTime
        } else if str_eq(operation, "modify_world") {
            Permission::ModifyWorldState
        } else if str_eq(operation, "inject_event") {
            Permission::InjectEvents
        } else if str_eq(operation, "manage_users") {
            Permission::ManageUsers
        } else if str_eq(operation, "view_audit") {
            Permission::ViewAuditLogs
        } else if str_eq(operation, "modify_security") {
            Permission::ModifySecuritySettings
        } else if str_eq(operation, "system_metrics") {
            Permission::AccessSystemMetrics
        } else {
            Permission::ObserveEntities
        }
    }

    /// Permissions that can act on a resource; empty for an unrestricted one.
    fn resource_entry(&self, resource: &str) -> (r: Vec<Permission>)
        requires
            self.wf(),
        ensures
            r@ == resource_permissions(resource@),
    {
        let mut i: usize = 0;
        while i < self.resource_permissions.len()
            invariant
                self.wf(),
                i <= 4,
                forall|k: int| 0 <= k < i ==> resource_names()[k] != resource@,
            decreases 4 - i,
        {
            assert(self.resource_permissions@[i as int].0@ == resource_names()[i as int]);
            if str_eq(self.resource_permissions[i].0.as_str(), resource) {
                let mut out: Vec<Permission> = Vec::new();
                push_all(&mut out, self.resource_permissions[i].1.as_slice());
                assert(out@ =~= resource_table()[i as int]);
                return out;
            }
            i = i + 1;
        }
        proof {
            assert(resource_names()[0] == "entities"@);
            assert(resource_names()[1] == "systems"@);
            assert(resource_names()[2] == "performance"@);
            assert(resource_names()[3] == "behavior"@);
        }
        let r: Vec<Permission> = Vec::new();
        assert(r@ =~= resource_permissions(resource@));
        r
    }

    /// A role may perform `operation` on `resource` when it holds the needed
    /// permission and the resource is unrestricted or admits that permission.
    pub fn check_permission(&self, context: &SecurityContext, operation: &str, resource: &str) -> (r: bool)
        requires
            self.wf(),
        ensures
            r == (role_permissions(context.role).contains(permission_for(operation@)) && (resource_permissions(
                resource@,
            ).len() == 0 || resource_permissions(resource@).contains(permission_for(operation@)))),
    {
        let required = self.map_operation_to_permission(operation);
        let has_role_permission = contains_permission(self.role_entry(context.role), required);
        let resource_perms = self.resource_entry(resource);
        let has_resource_permission = contains_permission(&resource_perms, required);
        has_role_permission && (resource_perms.len() == 0 || has_resource_permission)
    }
}

} // verus!
