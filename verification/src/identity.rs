//! The identity that mover pods run under: a service account bound to a narrow cluster role.
use crate::agent_work::{pair, pairs, MOVER_SA};
use vstd::prelude::*;

verus! {

/// The cluster role that movers are bound to.
pub const MOVER_CLUSTER_ROLE: &'static str = "proteus-mover";

/// What looking an object up, or creating it, came to.
pub enum LookupEvent {
    /// Nothing is known yet.
    Start,
    /// The service account was looked up: found, or an error with the API's status code.
    AccountLookup(Result<(), Option<u16>>),
    /// The service account was created, or could not be.
    AccountCreated(bool),
    /// The role binding was looked up: found, or an error with the API's status code.
    BindingLookup(Result<(), Option<u16>>),
    /// The role binding was created, or could not be.
    BindingCreated(bool),
}

/// A service account for movers.
pub struct MoverAccount {
    pub name: String,
    pub namespace: String,
    /// Labels, in the order of their names.
    pub labels: Vec<(String, String)>,
}

/// A binding of a namespace's mover account to the movers' cluster role.
pub struct MoverBinding {
    pub name: String,
    /// Labels, in the order of their names.
    pub labels: Vec<(String, String)>,
    pub role_api_group: String,
    pub role_kind: String,
    pub role_name: String,
    pub account_kind: String,
    pub account_name: String,
    pub account_namespace: String,
}

/// What provisioning the identity does next.
pub enum IdentityAction {
    GetAccount { name: String },
    CreateAccount(MoverAccount),
    GetBinding { name: String },
    CreateBinding(MoverBinding),
    Done,
    /// The last call failed; this says what it was for.
    Fail { context: String },
}

/// The labels of the objects that make up the identity.
pub open spec fn identity_labels() -> Seq<(Seq<char>, Seq<char>)> {
    seq![
        ("app.kubernetes.io/component"@, "mover"@),
        ("app.kubernetes.io/name"@, "proteus"@),
    ]
}

fn make_labels() -> (res: Vec<(String, String)>)
    ensures
        pairs(res@) == identity_labels(),
{
    let mut labels: Vec<(String, String)> = Vec::new();
    labels.push(pair("app.kubernetes.io/component", "mover"));
    labels.push(pair("app.kubernetes.io/name", "proteus"));
    assert(pairs(labels@) =~= identity_labels());
    labels
}

/// The name of the role binding for a namespace.
pub open spec fn binding_name(namespace: Seq<char>) -> Seq<char> {
    "proteus-mover-"@ + namespace
}

fn make_binding_name(namespace: &str) -> (res: String)
    ensures
        res@ == binding_name(namespace@),
{
    String::from_str("proteus-mover-").concat(namespace)
}

fn account_context(verb: &str, namespace: &str) -> (res: String)
    ensures
        res@ == verb@ + " ServiceAccount "@ + namespace@ + "/"@ + MOVER_SA@,
{
    String::from_str(verb).concat(" ServiceAccount ").concat(namespace).concat("/").concat(MOVER_SA)
}

/// Whether a lookup failed because there is no such object.
pub open spec fn is_missing(lookup: Result<(), Option<u16>>) -> bool {
    lookup == Err::<(), Option<u16>>(Some(404u16))
}

/// Whether `action` is what the event calls for.
pub open spec fn provisions(
    namespace: Seq<char>,
    event: LookupEvent,
    action: IdentityAction,
) -> bool {
    let get_binding = action matches IdentityAction::GetBinding { name } && name@ == binding_name(
        namespace,
    );
    match event {
        LookupEvent::Start => action matches IdentityAction::GetAccount { name } && name@
            == MOVER_SA@,
        LookupEvent::AccountLookup(lookup) => if lookup is Ok {
            get_binding
        } else if is_missing(lookup) {
            &&& action matches IdentityAction::CreateAccount(a)
            &&& a.name@ == MOVER_SA@
            &&& a.namespace@ == namespace
            &&& pairs(a.labels@) == identity_labels()
        } else {
            action matches IdentityAction::Fail { context } && context@ == "get"@
                + " ServiceAccount "@ + namespace + "/"@ + MOVER_SA@
        },
        LookupEvent::AccountCreated(created) => if created {
            get_binding
        } else {
            action matches IdentityAction::Fail { context } && context@ == "create"@
                + " ServiceAccount "@ + namespace + "/"@ + MOVER_SA@
        },
        LookupEvent::BindingLookup(lookup) => if lookup is Ok {
            action is Done
        } else if is_missing(lookup) {
            &&& action matches IdentityAction::CreateBinding(b)
            &&& b.name@ == binding_name(namespace)
            &&& pairs(b.labels@) == identity_labels()
            &&& b.role_api_group@ == "rbac.authorization.k8s.io"@
            &&& b.role_kind@ == "ClusterRole"@
            &&& b.role_name@ == MOVER_CLUSTER_ROLE@
            &&& b.account_kind@ == "ServiceAccount"@
            &&& b.account_name@ == MOVER_SA@
            &&& b.account_namespace@ == namespace
        } else {
            action matches IdentityAction::Fail { context } && context@
                == "get ClusterRoleBinding "@ + binding_name(namespace)
        },
        LookupEvent::BindingCreated(created) => if created {
            action is Done
        } else {
            action matches IdentityAction::Fail { context } && context@
                == "create ClusterRoleBinding "@ + binding_name(namespace)
        },
    }
}

fn missing(lookup: &Result<(), Option<u16>>) -> (res: bool)
    ensures
        res == is_missing(*lookup),
{
    match lookup {
        Err(Some(code)) => *code == 404,
        _ => false,
    }
}

/// What provisioning the movers' identity in `namespace` does next: whatever is missing is
/// created, what is there is left alone.
pub fn ensure_mover_identity(namespace: &str, event: LookupEvent) -> (res: IdentityAction)
    ensures
        provisions(namespace@, event, res),
{
    match event {
        LookupEvent::Start => IdentityAction::GetAccount { name: MOVER_SA.to_owned() },
        LookupEvent::AccountLookup(lookup) => {
            if lookup.is_ok() {
                IdentityAction::GetBinding { name: make_binding_name(namespace) }
            } else if missing(&lookup) {
                IdentityAction::CreateAccount(
                    MoverAccount {
                        name: MOVER_SA.to_owned(),
                        namespace: namespace.to_owned(),
                        labels: make_labels(),
                    },
                )
            } else {
                IdentityAction::Fail { context: account_context("get", namespace) }
            }
        },
        LookupEvent::AccountCreated(created) => {
            if created {
                IdentityAction::GetBinding { name: make_binding_name(namespace) }
            } else {
                IdentityAction::Fail { context: account_context("create", namespace) }
            }
        },
        LookupEvent::BindingLookup(lookup) => {
            if lookup.is_ok() {
                IdentityAction::Done
            } else if missing(&lookup) {
                IdentityAction::CreateBinding(
                    MoverBinding {
                        name: make_binding_name(namespace),
                        labels: make_labels(),
                        role_api_group: "rbac.authorization.k8s.io".to_owned(),
                        role_kind: "ClusterRole".to_owned(),
                        role_name: MOVER_CLUSTER_ROLE.to_owned(),
                        account_kind: "ServiceAccount".to_owned(),
                        account_name: MOVER_SA.to_owned(),
                        account_namespace: namespace.to_owned(),
                    },
                )
            } else {
                IdentityAction::Fail {
                    context: String::from_str("get ClusterRoleBinding ").concat(
                        make_binding_name(namespace).as_str(),
                    ),
                }
            }
        },
        LookupEvent::BindingCreated(created) => {
            if created {
                IdentityAction::Done
            } else {
                IdentityAction::Fail {
                    context: String::from_str("create ClusterRoleBinding ").concat(
                        make_binding_name(namespace).as_str(),
                    ),
                }
            }
        },
    }
}

/// An identity that is there is left alone: nothing is created for objects that are found.
pub proof fn law_present_identity_is_left_alone(
    namespace: Seq<char>,
    event: LookupEvent,
    action: IdentityAction,
)
    requires
        provisions(namespace, event, action),
        event matches LookupEvent::AccountLookup(Ok(_)) || event matches LookupEvent::BindingLookup(
            Ok(_),
        ),
    ensures
        action !is CreateAccount,
        action !is CreateBinding,
        action !is Fail,
{
}

/// The identity is complete exactly when the binding was found or created; a failed call stops it,
/// and an object is created exactly when it was looked for and is not there.
pub proof fn law_identity_is_completed_step_by_step(
    namespace: Seq<char>,
    event: LookupEvent,
    action: IdentityAction,
)
    requires
        provisions(namespace, event, action),
    ensures
        action is Done <==> (event matches LookupEvent::BindingLookup(Ok(_))) || event
            == LookupEvent::BindingCreated(true),
        action is CreateAccount <==> event == LookupEvent::AccountLookup(Err(Some(404u16))),
        action is CreateBinding <==> event == LookupEvent::BindingLookup(Err(Some(404u16))),
        action is GetAccount <==> event is Start,
        action is GetBinding <==> (event matches LookupEvent::AccountLookup(Ok(_))) || event
            == LookupEvent::AccountCreated(true),
{
}

/// What is created is what is looked for: the account by its name in the namespace, and the binding
/// by its name, which binds that account and no other.
pub proof fn law_created_identity_is_the_one_looked_for(
    namespace: Seq<char>,
    looked: (LookupEvent, IdentityAction),
    created: (LookupEvent, IdentityAction),
)
    requires
        provisions(namespace, looked.0, looked.1),
        provisions(namespace, created.0, created.1),
    ensures
        (looked.1 matches IdentityAction::GetAccount { name } && created.1 is CreateAccount)
            ==> created.1->CreateAccount_0.name@ == looked.1->GetAccount_name@,
        (looked.1 is GetBinding && created.1 is CreateBinding) ==> created.1->CreateBinding_0.name@
            == looked.1->GetBinding_name@,
        (looked.1 is GetAccount && created.1 is CreateBinding)
            ==> created.1->CreateBinding_0.account_name@ == looked.1->GetAccount_name@,
        created.1 is CreateAccount ==> created.1->CreateAccount_0.namespace@ == namespace,
        created.1 is CreateBinding ==> created.1->CreateBinding_0.account_namespace@ == namespace
            && created.1->CreateBinding_0.role_name@ == "proteus-mover"@
            && created.1->CreateBinding_0.role_kind@ == "ClusterRole"@
            && created.1->CreateBinding_0.account_kind@ == "ServiceAccount"@,
{
}

/// Two namespaces have two bindings.
pub proof fn law_bindings_are_told_apart(a: Seq<char>, b: Seq<char>)
    requires
        binding_name(a) == binding_name(b),
    ensures
        a == b,
{
    let n = "proteus-mover-"@.len() as int;
    assert(binding_name(a).skip(n) =~= a);
    assert(binding_name(b).skip(n) =~= b);
}

} // verus!
