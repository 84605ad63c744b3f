//! The access rules that the controller and its users need in a cluster:
//! roles, their bindings and the service account, as plain values.

use crate::model::texts;
use vstd::prelude::*;
use vstd::string::*;

verus! {

/// The texts of a list of string slices.
pub open spec fn slice_texts(list: Seq<&'static str>) -> Seq<Seq<char>> {
    list.map_values(|s: &'static str| s@)
}

/// Owned copies of a fixed list of words.
pub fn strings<const N: usize>(words: [&'static str; N]) -> (out: Vec<String>)
    ensures
        texts(out@) == slice_texts(words@),
{
    let mut out: Vec<String> = Vec::new();
    let mut i: usize = 0;
    while i < N
        invariant
            i <= N,
            words@.len() == N,
            out.len() == i,
            forall|j: int| 0 <= j < i ==> (#[trigger] out[j])@ == words@[j]@,
        decreases N - i,
    {
        out.push(String::from_str(words[i]));
        i += 1;
    }
    assert(texts(out@) =~= slice_texts(words@));
    out
}

/// A rule of a role: the verbs allowed on resources of API groups.
#[derive(Clone, Debug)]
pub struct PolicyRule {
    pub api_groups: Vec<String>,
    pub resources: Vec<String>,
    pub verbs: Vec<String>,
}

/// What a `PolicyRule` holds.
pub struct PolicyRuleModel {
    pub api_groups: Seq<Seq<char>>,
    pub resources: Seq<Seq<char>>,
    pub verbs: Seq<Seq<char>>,
}

impl View for PolicyRule {
    type V = PolicyRuleModel;

    open spec fn view(&self) -> PolicyRuleModel {
        PolicyRuleModel {
            api_groups: texts(self.api_groups@),
            resources: texts(self.resources@),
            verbs: texts(self.verbs@),
        }
    }
}

/// A label: a key and its value.
#[derive(Clone, Debug)]
pub struct Label {
    pub key: String,
    pub value: String,
}

impl View for Label {
    type V = (Seq<char>, Seq<char>);

    open spec fn view(&self) -> (Seq<char>, Seq<char>) {
        (self.key@, self.value@)
    }
}

/// A role that holds in the whole cluster.
#[derive(Clone, Debug)]
pub struct ClusterRole {
    pub name: String,
    pub labels: Vec<Label>,
    pub rules: Vec<PolicyRule>,
}

/// What a `ClusterRole` holds.
pub struct ClusterRoleModel {
    pub name: Seq<char>,
    pub labels: Seq<(Seq<char>, Seq<char>)>,
    pub rules: Seq<PolicyRuleModel>,
}

impl View for ClusterRole {
    type V = ClusterRoleModel;

    open spec fn view(&self) -> ClusterRoleModel {
        ClusterRoleModel {
            name: self.name@,
            labels: self.labels@.map_values(|l: Label| l@),
            rules: self.rules@.map_values(|r: PolicyRule| r@),
        }
    }
}

/// The account that the controller runs as.
#[derive(Clone, Debug)]
pub struct ServiceAccount {
    pub name: String,
    pub namespace: Option<String>,
}

/// What a `ServiceAccount` holds.
pub struct ServiceAccountModel {
    pub name: Seq<char>,
    pub namespace: Option<Seq<char>>,
}

impl View for ServiceAccount {
    type V = ServiceAccountModel;

    open spec fn view(&self) -> ServiceAccountModel {
        ServiceAccountModel {
            name: self.name@,
            namespace: match self.namespace {
                Some(ns) => Some(ns@),
                None => None,
            },
        }
    }
}

/// The binding of a cluster role to the controller's service account.
#[derive(Clone, Debug)]
pub struct ClusterRoleBinding {
    /// Name of the binding.
    pub name: String,
    /// Name of the cluster role that is bound.
    pub role_name: String,
    /// The account that the role is bound to.
    pub subject: ServiceAccount,
}

/// What a `ClusterRoleBinding` holds.
pub struct ClusterRoleBindingModel {
    pub name: Seq<char>,
    pub role_name: Seq<char>,
    pub subject: ServiceAccountModel,
}

impl View for ClusterRoleBinding {
    type V = ClusterRoleBindingModel;

    open spec fn view(&self) -> ClusterRoleBindingModel {
        ClusterRoleBindingModel {
            name: self.name@,
            role_name: self.role_name@,
            subject: self.subject@,
        }
    }
}

/// The API group of the league's resources.
pub open spec fn group() -> Seq<char> {
    "bexxmodd.com"@
}

/// The name of the controller's service account.
pub open spec fn service_account_name() -> Seq<char> {
    "theleague-controller-manager"@
}

/// The verbs of full control over a resource, as the controller holds it.
pub open spec fn manager_verbs() -> Seq<Seq<char>> {
    seq!["get"@, "list"@, "watch"@, "create"@, "update"@, "patch"@, "delete"@]
}

/// The verbs on a status that only the controller writes.
pub open spec fn status_writer_verbs() -> Seq<Seq<char>> {
    seq!["get"@, "update"@, "patch"@]
}

/// The verbs of an editor.
pub open spec fn editor_verbs() -> Seq<Seq<char>> {
    seq!["create"@, "delete"@, "get"@, "list"@, "patch"@, "update"@, "watch"@]
}

/// The verbs of a viewer.
pub open spec fn viewer_verbs() -> Seq<Seq<char>> {
    seq!["get"@, "list"@, "watch"@]
}

/// Every verb.
pub open spec fn admin_verbs() -> Seq<Seq<char>> {
    seq!["*"@]
}

/// The rule that allows `verbs` on one resource of one group.
pub open spec fn rule_model(api_group: Seq<char>, resource: Seq<char>, verbs: Seq<Seq<char>>) -> PolicyRuleModel {
    PolicyRuleModel { api_groups: seq![api_group], resources: seq![resource], verbs }
}

/// The rules on the league's resources: `verbs` on leagues, standings and
/// game results, and `status_verbs` on the status of leagues and of
/// standings.
pub open spec fn resource_rules(verbs: Seq<Seq<char>>, status_verbs: Seq<Seq<char>>) -> Seq<
    PolicyRuleModel,
> {
    seq![
        rule_model(group(), "theleagues"@, verbs),
        rule_model(group(), "theleagues/status"@, status_verbs),
        rule_model(group(), "standings"@, verbs),
        rule_model(group(), "standings/status"@, status_verbs),
        rule_model(group(), "gameresults"@, verbs),
    ]
}

/// The labels of the roles that are handed to the cluster's users.
pub open spec fn user_role_labels() -> Seq<(Seq<char>, Seq<char>)> {
    seq![
        ("app.kubernetes.io/name"@, "theleague"@),
        ("app.kubernetes.io/managed-by"@, "kustomize"@),
    ]
}

/// The role of the controller: full control over the league's resources,
/// the right to write the statuses it owns, and the right to record events.
pub open spec fn manager_role_model() -> ClusterRoleModel {
    ClusterRoleModel {
        name: "manager-role"@,
        labels: Seq::empty(),
        rules: resource_rules(manager_verbs(), status_writer_verbs()).push(
            rule_model(""@, "events"@, seq!["create"@, "patch"@]),
        ),
    }
}

/// The role that lets several controllers elect a leader: full control
/// over leases.
pub open spec fn leader_election_role_model() -> ClusterRoleModel {
    ClusterRoleModel {
        name: "leader-election-role"@,
        labels: Seq::empty(),
        rules: seq![rule_model("coordination.k8s.io"@, "leases"@, manager_verbs())],
    }
}

/// A role for users: `verbs` on the league's resources, and read access to
/// the statuses.
pub open spec fn user_role_model(name: Seq<char>, verbs: Seq<Seq<char>>) -> ClusterRoleModel {
    ClusterRoleModel {
        name,
        labels: user_role_labels(),
        rules: resource_rules(verbs, seq!["get"@]),
    }
}

/// The service account in `namespace`.
pub open spec fn service_account_model(namespace: Option<Seq<char>>) -> ServiceAccountModel {
    ServiceAccountModel { name: service_account_name(), namespace }
}

/// The binding of the role `role` to the service account in `namespace`,
/// named like the role.
pub open spec fn binding_model(role: Seq<char>, namespace: Option<Seq<char>>) -> ClusterRoleBindingModel {
    ClusterRoleBindingModel { name: role, role_name: role, subject: service_account_model(namespace) }
}

/// The text of an optional string slice.
pub open spec fn slice_text(s: Option<&str>) -> Option<Seq<char>> {
    match s {
        Some(t) => Some(t@),
        None => None,
    }
}

/// The rule that allows `verbs` on one resource of one group.
pub fn rule(api_group: &str, resource: &str, verbs: Vec<String>) -> (r: PolicyRule)
    ensures
        r@ == rule_model(api_group@, resource@, texts(verbs@)),
{
    let mut api_groups: Vec<String> = Vec::new();
    api_groups.push(String::from_str(api_group));
    let mut resources: Vec<String> = Vec::new();
    resources.push(String::from_str(resource));
    let r = PolicyRule { api_groups, resources, verbs };
    assert(r@.api_groups =~= seq![api_group@]);
    assert(r@.resources =~= seq![resource@]);
    r
}

/// An owned copy of a list of strings.
pub fn copy_strings(list: &Vec<String>) -> (out: Vec<String>)
    ensures
        texts(out@) == texts(list@),
{
    let mut out: Vec<String> = Vec::new();
    let mut i: usize = 0;
    while i < list.len()
        invariant
            i <= list.len(),
            out.len() == i,
            forall|j: int| 0 <= j < i ==> (#[trigger] out[j])@ == list[j]@,
        decreases list.len() - i,
    {
        out.push(list[i].clone());
        i += 1;
    }
    assert(texts(out@) =~= texts(list@));
    out
}

/// The rules on the league's resources.
pub fn rules_on_resources(verbs: &Vec<String>, status_verbs: &Vec<String>) -> (rules: Vec<PolicyRule>)
    ensures
        rules@.map_values(|r: PolicyRule| r@) == resource_rules(texts(verbs@), texts(status_verbs@)),
{
    let mut rules: Vec<PolicyRule> = Vec::new();
    rules.push(rule("bexxmodd.com", "theleagues", copy_strings(verbs)));
    rules.push(rule("bexxmodd.com", "theleagues/status", copy_strings(status_verbs)));
    rules.push(rule("bexxmodd.com", "standings", copy_strings(verbs)));
    rules.push(rule("bexxmodd.com", "standings/status", copy_strings(status_verbs)));
    rules.push(rule("bexxmodd.com", "gameresults", copy_strings(verbs)));
    assert(rules@.map_values(|r: PolicyRule| r@) =~= resource_rules(
        texts(verbs@),
        texts(status_verbs@),
    ));
    rules
}

/// The labels of the roles that are handed to the cluster's users.
pub fn labels_of_user_roles() -> (labels: Vec<Label>)
    ensures
        labels@.map_values(|l: Label| l@) == user_role_labels(),
{
    let mut labels: Vec<Label> = Vec::new();
    labels.push(
        Label {
            key: String::from_str("app.kubernetes.io/name"),
            value: String::from_str("theleague"),
        },
    );
    labels.push(
        Label {
            key: String::from_str("app.kubernetes.io/managed-by"),
            value: String::from_str("kustomize"),
        },
    );
    assert(labels@.map_values(|l: Label| l@) =~= user_role_labels());
    labels
}

/// The role of the controller.
pub fn generate_manager_role() -> (role: ClusterRole)
    ensures
        role@ == manager_role_model(),
{
    let verbs = strings(["get", "list", "watch", "create", "update", "patch", "delete"]);
    let status_verbs = strings(["get", "update", "patch"]);
    assert(texts(verbs@) =~= manager_verbs());
    assert(texts(status_verbs@) =~= status_writer_verbs());
    let mut rules = rules_on_resources(&verbs, &status_verbs);
    let event_verbs = strings(["create", "patch"]);
    assert(texts(event_verbs@) =~= seq!["create"@, "patch"@]);
    let events = rule("", "events", event_verbs);
    proof {
        let before = rules@.map_values(|r: PolicyRule| r@);
        assert(rules@.push(events).map_values(|r: PolicyRule| r@) =~= before.push(events@));
    }
    rules.push(events);
    let role = ClusterRole { name: String::from_str("manager-role"), labels: Vec::new(), rules };
    assert(role@.labels =~= Seq::empty());
    role
}

/// The role for leader election.
pub fn generate_leader_election_role() -> (role: ClusterRole)
    ensures
        role@ == leader_election_role_model(),
{
    let verbs = strings(["get", "list", "watch", "create", "update", "patch", "delete"]);
    assert(texts(verbs@) =~= manager_verbs());
    let leases = rule("coordination.k8s.io", "leases", verbs);
    let mut rules: Vec<PolicyRule> = Vec::new();
    rules.push(leases);
    let role = ClusterRole {
        name: String::from_str("leader-election-role"),
        labels: Vec::new(),
        rules,
    };
    assert(role@.labels =~= Seq::empty());
    assert(role@.rules =~= seq![leases@]);
    role
}

/// A role for users with `verbs` on the league's resources.
pub fn user_role(name: &str, verbs: &Vec<String>) -> (role: ClusterRole)
    ensures
        role@ == user_role_model(name@, texts(verbs@)),
{
    let read = strings(["get"]);
    assert(texts(read@) =~= seq!["get"@]);
    ClusterRole {
        name: String::from_str(name),
        labels: labels_of_user_roles(),
        rules: rules_on_resources(verbs, &read),
    }
}

/// The role of an administrator of the league's resources: every verb on
/// them. For those who hand permissions on to others.
pub fn generate_admin_role() -> (role: ClusterRole)
    ensures
        role@ == user_role_model("theleague-admin-role"@, admin_verbs()),
{
    let verbs = strings(["*"]);
    assert(texts(verbs@) =~= admin_verbs());
    user_role("theleague-admin-role", &verbs)
}

/// The role of an editor: may create, change and delete the league's
/// resources, and has no say on permissions.
pub fn generate_editor_role() -> (role: ClusterRole)
    ensures
        role@ == user_role_model("theleague-editor-role"@, editor_verbs()),
{
    let verbs = strings(["create", "delete", "get", "list", "patch", "update", "watch"]);
    assert(texts(verbs@) =~= editor_verbs());
    user_role("theleague-editor-role", &verbs)
}

/// The role of a viewer: may read the league's resources and nothing
/// more.
pub fn generate_viewer_role() -> (role: ClusterRole)
    ensures
        role@ == user_role_model("theleague-viewer-role"@, viewer_verbs()),
{
    let verbs = strings(["get", "list", "watch"]);
    assert(texts(verbs@) =~= viewer_verbs());
    user_role("theleague-viewer-role", &verbs)
}

/// The controller's service account in `namespace`.
pub fn generate_service_account(namespace: Option<&str>) -> (account: ServiceAccount)
    ensures
        account@ == service_account_model(slice_text(namespace)),
{
    ServiceAccount {
        name: String::from_str("theleague-controller-manager"),
        namespace: match namespace {
            Some(ns) => Some(String::from_str(ns)),
            None => None,
        },
    }
}

/// The binding of the controller's role to its service account.
pub fn generate_role_binding(namespace: Option<&str>) -> (binding: ClusterRoleBinding)
    ensures
        binding@ == binding_model("manager-role"@, slice_text(namespace)),
{
    ClusterRoleBinding {
        name: String::from_str("manager-role"),
        role_name: String::from_str("manager-role"),
        subject: generate_service_account(namespace),
    }
}

/// The binding of the leader election role to the service account.
pub fn generate_leader_election_role_binding(namespace: Option<&str>) -> (binding:
    ClusterRoleBinding)
    ensures
        binding@ == binding_model("leader-election-role"@, slice_text(namespace)),
{
    ClusterRoleBinding {
        name: String::from_str("leader-election-role"),
        role_name: String::from_str("leader-election-role"),
        subject: generate_service_account(namespace),
    }
}

/// A resource of the access rules.
#[derive(Clone, Debug)]
pub enum Resource {
    Role(ClusterRole),
    Binding(ClusterRoleBinding),
    Account(ServiceAccount),
}

/// What a `Resource` holds.
pub enum ResourceModel {
    Role(ClusterRoleModel),
    Binding(ClusterRoleBindingModel),
    Account(ServiceAccountModel),
}

impl View for Resource {
    type V = ResourceModel;

    open spec fn view(&self) -> ResourceModel {
        match self {
            Resource::Role(r) => ResourceModel::Role(r@),
            Resource::Binding(b) => ResourceModel::Binding(b@),
            Resource::Account(a) => ResourceModel::Account(a@),
        }
    }
}

/// A resource and the name of the file that holds its description.
#[derive(Clone, Debug)]
pub struct ResourceFile {
    pub file_name: String,
    pub resource: Resource,
}

impl View for ResourceFile {
    type V = (Seq<char>, ResourceModel);

    open spec fn view(&self) -> (Seq<char>, ResourceModel) {
        (self.file_name@, self.resource@)
    }
}

/// All access rules with their files, in the order in which they are
/// written: the controller's role, the leader election role, the service
/// account, the two bindings, and the roles for administrators, editors
/// and viewers.
pub open spec fn all_rbac_model(namespace: Option<Seq<char>>) -> Seq<(Seq<char>, ResourceModel)> {
    seq![
        ("role.yaml"@, ResourceModel::Role(manager_role_model())),
        ("leader_election_role.yaml"@, ResourceModel::Role(leader_election_role_model())),
        ("service_account.yaml"@, ResourceModel::Account(service_account_model(namespace))),
        ("role_binding.yaml"@, ResourceModel::Binding(binding_model("manager-role"@, namespace))),
        (
            "leader_election_role_binding.yaml"@,
            ResourceModel::Binding(binding_model("leader-election-role"@, namespace)),
        ),
        (
            "theleague_admin_role.yaml"@,
            ResourceModel::Role(user_role_model("theleague-admin-role"@, admin_verbs())),
        ),
        (
            "theleague_editor_role.yaml"@,
            ResourceModel::Role(user_role_model("theleague-editor-role"@, editor_verbs())),
        ),
        (
            "theleague_viewer_role.yaml"@,
            ResourceModel::Role(user_role_model("theleague-viewer-role"@, viewer_verbs())),
        ),
    ]
}

/// All access rules with the names of their files.
pub fn generate_all_rbac(namespace: Option<&str>) -> (files: Vec<ResourceFile>)
    ensures
        files@.map_values(|f: ResourceFile| f@) == all_rbac_model(slice_text(namespace)),
{
    let mut files: Vec<ResourceFile> = Vec::new();
    files.push(
        ResourceFile {
            file_name: String::from_str("role.yaml"),
            resource: Resource::Role(generate_manager_role()),
        },
    );
    files.push(
        ResourceFile {
            file_name: String::from_str("leader_election_role.yaml"),
            resource: Resource::Role(generate_leader_election_role()),
        },
    );
    files.push(
        ResourceFile {
            file_name: String::from_str("service_account.yaml"),
            resource: Resource::Account(generate_service_account(namespace)),
        },
    );
    files.push(
        ResourceFile {
            file_name: String::from_str("role_binding.yaml"),
            resource: Resource::Binding(generate_role_binding(namespace)),
        },
    );
    files.push(
        ResourceFile {
            file_name: String::from_str("leader_election_role_binding.yaml"),
            resource: Resource::Binding(generate_leader_election_role_binding(namespace)),
        },
    );
    files.push(
        ResourceFile {
            file_name: String::from_str("theleague_admin_role.yaml"),
            resource: Resource::Role(generate_admin_role()),
        },
    );
    files.push(
        ResourceFile {
            file_name: String::from_str("theleague_editor_role.yaml"),
            resource: Resource::Role(generate_editor_role()),
        },
    );
    files.push(
        ResourceFile {
            file_name: String::from_str("theleague_viewer_role.yaml"),
            resource: Resource::Role(generate_viewer_role()),
        },
    );
    assert(files@.map_values(|f: ResourceFile| f@) =~= all_rbac_model(slice_text(namespace)));
    files
}

} // verus!
