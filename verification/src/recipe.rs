//! Resolving the recipe of a backup run: from its policy, or inline.
use crate::crd::{
    BackupPolicyPhase, ProteusBackup, ProteusBackupPolicy, ProteusBackupSpec, RetentionPolicy,
};
use crate::schedule::{parse_of, parsed_schedule, validate_schedule};
use crate::text::{copy_list, copy_option, named, opt_view, optional_trimmed};
use vstd::prelude::*;

verus! {

/// Resolved backup recipe used by the data path.
#[derive(Debug, Clone, PartialEq, Eq)]
pub struct BackupRecipe {
    pub repository_ref: String,
    pub repository_namespace: Option<String>,
    pub target_namespace: String,
    pub pvc_names: Vec<String>,
    pub retention: RetentionPolicy,
    pub include_volumes: bool,
    pub include_cluster_resources: bool,
}

/// The model of a [`BackupRecipe`].
#[verifier::ext_equal]
pub struct RecipeView {
    pub repository_ref: Seq<char>,
    pub repository_namespace: Option<Seq<char>>,
    pub target_namespace: Seq<char>,
    pub pvc_names: Seq<Seq<char>>,
    pub retention: RetentionPolicy,
    pub include_volumes: bool,
    pub include_cluster_resources: bool,
}

impl DeepView for BackupRecipe {
    type V = RecipeView;

    open spec fn deep_view(&self) -> RecipeView {
        RecipeView {
            repository_ref: self.repository_ref@,
            repository_namespace: opt_view(self.repository_namespace),
            target_namespace: self.target_namespace@,
            pvc_names: self.pvc_names.deep_view(),
            retention: self.retention,
            include_volumes: self.include_volumes,
            include_cluster_resources: self.include_cluster_resources,
        }
    }
}

/// The recipe that a backup spec holds inline.
pub open spec fn inline_recipe(spec: ProteusBackupSpec) -> RecipeView {
    RecipeView {
        repository_ref: spec.repository_ref@,
        repository_namespace: opt_view(spec.repository_namespace),
        target_namespace: spec.target_namespace@,
        pvc_names: spec.pvc_names.deep_view(),
        retention: spec.retention,
        include_volumes: spec.include_volumes,
        include_cluster_resources: spec.include_cluster_resources,
    }
}

/// The recipe of a policy.
pub open spec fn policy_recipe(policy: ProteusBackupPolicy) -> RecipeView {
    RecipeView {
        repository_ref: policy.spec.repository_ref@,
        repository_namespace: opt_view(policy.spec.repository_namespace),
        target_namespace: policy.spec.target_namespace@,
        pvc_names: policy.spec.pvc_names.deep_view(),
        retention: policy.spec.retention,
        include_volumes: policy.spec.include_volumes,
        include_cluster_resources: policy.spec.include_cluster_resources,
    }
}

impl RecipeView {
    /// What is wrong with the recipe, if anything is.
    pub open spec fn fault(self) -> Option<Seq<char>> {
        if self.repository_ref.len() == 0 {
            Some("repositoryRef must not be empty"@)
        } else if self.target_namespace.len() == 0 {
            Some("targetNamespace must not be empty"@)
        } else if self.pvc_names.len() == 0 {
            Some("pvcNames must contain at least one PVC name"@)
        } else if self.retention.keep_last == 0 {
            Some("retention.keepLast must be >= 1"@)
        } else {
            None
        }
    }
}

impl BackupRecipe {
    /// The recipe that a backup spec holds inline.
    pub fn from_inline(spec: &ProteusBackupSpec) -> (res: Self)
        ensures
            res.deep_view() == inline_recipe(*spec),
    {
        let res = BackupRecipe {
            repository_ref: spec.repository_ref.clone(),
            repository_namespace: copy_option(&spec.repository_namespace),
            target_namespace: spec.target_namespace.clone(),
            pvc_names: copy_list(&spec.pvc_names),
            retention: spec.retention,
            include_volumes: spec.include_volumes,
            include_cluster_resources: spec.include_cluster_resources,
        };
        assert(res.deep_view() =~= inline_recipe(*spec));
        res
    }

    /// The recipe of a policy.
    pub fn from_policy(policy: &ProteusBackupPolicy) -> (res: Self)
        ensures
            res.deep_view() == policy_recipe(*policy),
    {
        let res = BackupRecipe {
            repository_ref: policy.spec.repository_ref.clone(),
            repository_namespace: copy_option(&policy.spec.repository_namespace),
            target_namespace: policy.spec.target_namespace.clone(),
            pvc_names: copy_list(&policy.spec.pvc_names),
            retention: policy.spec.retention,
            include_volumes: policy.spec.include_volumes,
            include_cluster_resources: policy.spec.include_cluster_resources,
        };
        assert(res.deep_view() =~= policy_recipe(*policy));
        res
    }

    /// Checks that the recipe can be run.
    pub fn validate(&self) -> (res: Result<(), String>)
        ensures
            match res {
                Ok(_) => self.deep_view().fault() is None,
                Err(m) => self.deep_view().fault() == Some(m@),
            },
    {
        if self.repository_ref.as_str().is_empty() {
            return Err(String::from_str("repositoryRef must not be empty"));
        }
        if self.target_namespace.as_str().is_empty() {
            return Err(String::from_str("targetNamespace must not be empty"));
        }
        if self.pvc_names.len() == 0 {
            return Err(String::from_str("pvcNames must contain at least one PVC name"));
        }
        if self.retention.keep_last == 0 {
            return Err(String::from_str("retention.keepLast must be >= 1"));
        }
        Ok(())
    }
}

/// What is wrong with a policy, if anything is: its recipe, else its schedule where it has one.
pub open spec fn policy_fault(policy: ProteusBackupPolicy) -> Option<Seq<char>> {
    match policy_recipe(policy).fault() {
        Some(m) => Some(m),
        None => match named(opt_view(policy.spec.schedule)) {
            Some(s) => match parsed_schedule(s, parse_of(s)) {
                Ok(_) => None,
                Err(m) => Some(m),
            },
            None => None,
        },
    }
}

/// Checks that a policy can be run and its schedule, where it has one, parses.
pub fn validate_policy_spec(policy: &ProteusBackupPolicy) -> (res: Result<(), String>)
    ensures
        match res {
            Ok(_) => policy_fault(*policy) is None,
            Err(m) => policy_fault(*policy) == Some(m@),
        },
{
    match BackupRecipe::from_policy(policy).validate() {
        Ok(_) => {},
        Err(m) => {
            return Err(m);
        },
    }
    match optional_trimmed(&policy.spec.schedule) {
        Some(schedule) => validate_schedule(schedule.as_str()),
        None => Ok(()),
    }
}

/// Why a run cannot start yet, or at all.
#[derive(Debug, Clone, PartialEq, Eq)]
pub enum ResolveRecipeError {
    /// The policy exists but is not ready yet: requeue the run.
    NotReady(String),
    /// Missing or invalid policy, or invalid recipe: fail the run.
    Failed(String),
}

/// Where the recipe of a run comes from.
pub enum RecipeSource {
    /// The run holds it inline.
    Inline,
    /// A policy holds it, to be fetched by name and namespace.
    Policy { name: String, namespace: String },
}

/// The namespace in which a run's policy is looked up.
pub open spec fn policy_namespace_of(spec: ProteusBackupSpec, backup_namespace: Seq<char>) -> Seq<
    char,
> {
    match named(opt_view(spec.policy_namespace)) {
        Some(ns) => ns,
        None => backup_namespace,
    }
}

/// The namespace in which a run's policy is looked up: the one it names, else its own.
pub fn policy_namespace(backup: &ProteusBackup, backup_namespace: &str) -> (res: String)
    ensures
        res@ == policy_namespace_of(backup.spec, backup_namespace@),
{
    match optional_trimmed(&backup.spec.policy_namespace) {
        Some(ns) => ns,
        None => backup_namespace.to_owned(),
    }
}

/// Where the recipe of `backup` comes from.
pub fn recipe_source(backup: &ProteusBackup, backup_namespace: &str) -> (res: RecipeSource)
    ensures
        match (res, named(opt_view(backup.spec.policy_ref))) {
            (RecipeSource::Inline, None) => true,
            (RecipeSource::Policy { name, namespace }, Some(n)) => name@ == n && namespace@
                == policy_namespace_of(backup.spec, backup_namespace@),
            _ => false,
        },
{
    match optional_trimmed(&backup.spec.policy_ref) {
        Some(name) => RecipeSource::Policy {
            name,
            namespace: policy_namespace(backup, backup_namespace),
        },
        None => RecipeSource::Inline,
    }
}

/// The text for a policy that could not be fetched.
pub open spec fn missing_policy_text(
    name: Seq<char>,
    namespace: Seq<char>,
    err: Seq<char>,
) -> Seq<char> {
    "policyRef '"@ + name + "' in namespace '"@ + namespace + "': "@ + err
}

fn missing_policy(name: &str, namespace: &str, err: &str) -> (res: String)
    ensures
        res@ == missing_policy_text(name@, namespace@, err@),
{
    String::from_str("policyRef '").concat(name).concat("' in namespace '").concat(
        namespace,
    ).concat("': ").concat(err)
}

/// A checked recipe, or why it cannot be run.
pub open spec fn checked_recipe(
    recipe: RecipeView,
    res: Result<BackupRecipe, ResolveRecipeError>,
) -> bool {
    match recipe.fault() {
        None => res matches Ok(r) && r.deep_view() == recipe,
        Some(m) => res matches Err(ResolveRecipeError::Failed(t)) && t@ == m,
    }
}

/// The phase of a policy, if it has one.
pub open spec fn policy_phase(policy: ProteusBackupPolicy) -> Option<BackupPolicyPhase> {
    match policy.status {
        Some(s) => s.phase,
        None => None,
    }
}

/// What a policy says of itself, or `fallback`.
pub open spec fn policy_message(policy: ProteusBackupPolicy, fallback: Seq<char>) -> Seq<char> {
    match policy.status {
        Some(s) => match s.message {
            Some(m) => m@,
            None => fallback,
        },
        None => fallback,
    }
}

/// The outcome for a run whose policy was fetched: only a ready policy is run; one without a phase
/// is waited for.
pub open spec fn resolved_from_policy(
    policy: ProteusBackupPolicy,
    policy_ns: Seq<char>,
    res: Result<BackupRecipe, ResolveRecipeError>,
) -> bool {
    match policy_phase(policy) {
        Some(BackupPolicyPhase::Ready) => checked_recipe(policy_recipe(policy), res),
        Some(BackupPolicyPhase::Invalid) => res matches Err(ResolveRecipeError::Failed(t)) && t@
            == "policyRef '"@ + policy.metadata.any_name() + "' in namespace '"@ + policy_ns
            + "' is Invalid: "@ + policy_message(policy, "policy is Invalid"@),
        None => res matches Err(ResolveRecipeError::NotReady(t)) && t@
            == "waiting for policyRef '"@ + policy.metadata.any_name() + "' in namespace '"@
            + policy_ns + "' to become Ready"@,
    }
}

/// The recipe of a run that holds it inline.
pub fn resolve_inline_recipe(backup: &ProteusBackup) -> (res: Result<
    BackupRecipe,
    ResolveRecipeError,
>)
    ensures
        checked_recipe(inline_recipe(backup.spec), res),
{
    let recipe = BackupRecipe::from_inline(&backup.spec);
    match recipe.validate() {
        Ok(_) => Ok(recipe),
        Err(m) => Err(ResolveRecipeError::Failed(m)),
    }
}

/// The recipe of a run whose policy was fetched, or could not be. Only a ready policy is run; one
/// without a phase is waited for.
pub fn resolve_policy_recipe(
    policy_ref: &str,
    policy_ns: &str,
    fetched: Result<ProteusBackupPolicy, String>,
) -> (res: Result<BackupRecipe, ResolveRecipeError>)
    ensures
        match fetched {
            Err(e) => res matches Err(ResolveRecipeError::Failed(t)) && t@ == missing_policy_text(
                policy_ref@,
                policy_ns@,
                e@,
            ),
            Ok(policy) => resolved_from_policy(policy, policy_ns@, res),
        },
{
    let policy = match fetched {
        Ok(p) => p,
        Err(e) => {
            return Err(
                ResolveRecipeError::Failed(missing_policy(policy_ref, policy_ns, e.as_str())),
            );
        },
    };
    let phase = match &policy.status {
        Some(s) => s.phase,
        None => None,
    };
    match phase {
        Some(BackupPolicyPhase::Ready) => {
            let recipe = BackupRecipe::from_policy(&policy);
            match recipe.validate() {
                Ok(_) => Ok(recipe),
                Err(m) => Err(ResolveRecipeError::Failed(m)),
            }
        },
        Some(BackupPolicyPhase::Invalid) => {
            let message: String = match &policy.status {
                Some(s) => match &s.message {
                    Some(m) => m.clone(),
                    None => String::from_str("policy is Invalid"),
                },
                None => String::from_str("policy is Invalid"),
            };
            Err(
                ResolveRecipeError::Failed(
                    String::from_str("policyRef '").concat(
                        policy.metadata.name_any().as_str(),
                    ).concat("' in namespace '").concat(policy_ns).concat(
                        "' is Invalid: ",
                    ).concat(message.as_str()),
                ),
            )
        },
        None => Err(
            ResolveRecipeError::NotReady(
                String::from_str("waiting for policyRef '").concat(
                    policy.metadata.name_any().as_str(),
                ).concat("' in namespace '").concat(policy_ns).concat("' to become Ready"),
            ),
        ),
    }
}

/// The recipe of a run for restore and reclaim, where it holds it inline.
pub fn load_inline_recipe(backup: &ProteusBackup) -> (res: Result<BackupRecipe, String>)
    ensures
        match inline_recipe(backup.spec).fault() {
            None => res matches Ok(r) && r.deep_view() == inline_recipe(backup.spec),
            Some(m) => res matches Err(t) && t@ == m,
        },
{
    let recipe = BackupRecipe::from_inline(&backup.spec);
    match recipe.validate() {
        Ok(_) => Ok(recipe),
        Err(m) => Err(m),
    }
}

/// The recipe of a run for restore and reclaim: the live policy's, whatever its phase, else the
/// one stamped on the run where it is complete.
pub fn load_policy_recipe(
    backup: &ProteusBackup,
    policy_ref: &str,
    policy_ns: &str,
    fetched: Result<ProteusBackupPolicy, String>,
) -> (res: Result<BackupRecipe, String>)
    ensures
        match fetched {
            Ok(policy) => match policy_recipe(policy).fault() {
                None => res matches Ok(r) && r.deep_view() == policy_recipe(policy),
                Some(m) => res matches Err(t) && t@ == m,
            },
            Err(e) => match inline_recipe(backup.spec).fault() {
                None => res matches Ok(r) && r.deep_view() == inline_recipe(backup.spec),
                Some(_) => res matches Err(t) && t@ == missing_policy_text(
                    policy_ref@,
                    policy_ns@,
                    e@,
                ),
            },
        },
{
    match fetched {
        Ok(policy) => {
            let recipe = BackupRecipe::from_policy(&policy);
            match recipe.validate() {
                Ok(_) => Ok(recipe),
                Err(m) => Err(m),
            }
        },
        Err(e) => {
            let stamped = BackupRecipe::from_inline(&backup.spec);
            match stamped.validate() {
                Ok(_) => Ok(stamped),
                Err(_) => Err(missing_policy(policy_ref, policy_ns, e.as_str())),
            }
        },
    }
}

/// Loads the recipe of a run from its policy (which must be ready) or inline. `fetched` is what
/// fetching the policy gave, where [`recipe_source`] names one.
pub fn resolve_recipe(
    backup: &ProteusBackup,
    backup_namespace: &str,
    fetched: Option<Result<ProteusBackupPolicy, String>>,
) -> (res: Result<BackupRecipe, ResolveRecipeError>)
    requires
        fetched is Some <==> named(opt_view(backup.spec.policy_ref)) is Some,
    ensures
        match fetched {
            None => checked_recipe(inline_recipe(backup.spec), res),
            Some(Err(e)) => res matches Err(ResolveRecipeError::Failed(t)) && t@
                == missing_policy_text(
                named(opt_view(backup.spec.policy_ref))->0,
                policy_namespace_of(backup.spec, backup_namespace@),
                e@,
            ),
            Some(Ok(policy)) => resolved_from_policy(
                policy,
                policy_namespace_of(backup.spec, backup_namespace@),
                res,
            ),
        },
{
    match (recipe_source(backup, backup_namespace), fetched) {
        (RecipeSource::Policy { name, namespace }, Some(result)) => resolve_policy_recipe(
            name.as_str(),
            namespace.as_str(),
            result,
        ),
        _ => resolve_inline_recipe(backup),
    }
}

/// Recipe for restore and reclaim: the live policy's, else the stamped one. It does not require
/// the policy to be ready: historical runs must still find their repository.
pub fn load_recipe(
    backup: &ProteusBackup,
    backup_namespace: &str,
    fetched: Option<Result<ProteusBackupPolicy, String>>,
) -> (res: Result<BackupRecipe, String>)
    requires
        fetched is Some <==> named(opt_view(backup.spec.policy_ref)) is Some,
    ensures
        match fetched {
            Some(Ok(policy)) => match policy_recipe(policy).fault() {
                None => res matches Ok(r) && r.deep_view() == policy_recipe(policy),
                Some(m) => res matches Err(t) && t@ == m,
            },
            Some(Err(e)) => match inline_recipe(backup.spec).fault() {
                None => res matches Ok(r) && r.deep_view() == inline_recipe(backup.spec),
                Some(_) => res matches Err(t) && t@ == missing_policy_text(
                    named(opt_view(backup.spec.policy_ref))->0,
                    policy_namespace_of(backup.spec, backup_namespace@),
                    e@,
                ),
            },
            None => match inline_recipe(backup.spec).fault() {
                None => res matches Ok(r) && r.deep_view() == inline_recipe(backup.spec),
                Some(m) => res matches Err(t) && t@ == m,
            },
        },
{
    match (recipe_source(backup, backup_namespace), fetched) {
        (RecipeSource::Policy { name, namespace }, Some(result)) => load_policy_recipe(
            backup,
            name.as_str(),
            namespace.as_str(),
            result,
        ),
        _ => load_inline_recipe(backup),
    }
}

/// A recipe can be run exactly where it names a repository, a namespace and at least one claim, and
/// keeps at least one run.
pub proof fn law_complete_recipes_can_be_run(recipe: BackupRecipe)
    ensures
        recipe.deep_view().fault() is None <==> recipe.repository_ref@.len() > 0
            && recipe.target_namespace@.len() > 0 && recipe.pvc_names@.len() > 0
            && recipe.retention.keep_last > 0,
{
    assert(recipe.pvc_names.deep_view().len() == recipe.pvc_names@.len());
}

/// A run that holds its recipe is run by it: by what its spec says, and by nothing else.
pub proof fn law_inline_recipe_is_the_spec(
    spec: ProteusBackupSpec,
    res: Result<BackupRecipe, ResolveRecipeError>,
)
    requires
        checked_recipe(inline_recipe(spec), res),
    ensures
        res is Ok <==> spec.repository_ref@.len() > 0 && spec.target_namespace@.len() > 0
            && spec.pvc_names@.len() > 0 && spec.retention.keep_last > 0,
        res matches Ok(r) ==> {
            &&& r.repository_ref@ == spec.repository_ref@
            &&& opt_view(r.repository_namespace) == opt_view(spec.repository_namespace)
            &&& r.target_namespace@ == spec.target_namespace@
            &&& r.pvc_names.deep_view() == spec.pvc_names.deep_view()
            &&& r.retention == spec.retention
            &&& r.include_volumes == spec.include_volumes
            &&& r.include_cluster_resources == spec.include_cluster_resources
        },
        res matches Err(e) ==> e is Failed,
{
    assert(spec.pvc_names.deep_view().len() == spec.pvc_names@.len());
}

/// A run of a policy is run by what the policy's spec says, where the policy is ready; one that is
/// invalid fails it, and one that was not looked at yet is waited for.
pub proof fn law_ready_policies_are_run(
    policy: ProteusBackupPolicy,
    policy_ns: Seq<char>,
    res: Result<BackupRecipe, ResolveRecipeError>,
)
    requires
        resolved_from_policy(policy, policy_ns, res),
    ensures
        res is Ok ==> (policy.status matches Some(s) && s.phase == Some(BackupPolicyPhase::Ready)),
        (policy.status matches Some(s) && s.phase == Some(BackupPolicyPhase::Ready)) ==> (res is Ok
            <==> policy.spec.repository_ref@.len() > 0 && policy.spec.target_namespace@.len() > 0
            && policy.spec.pvc_names@.len() > 0 && policy.spec.retention.keep_last > 0),
        (policy.status matches Some(s) && s.phase == Some(BackupPolicyPhase::Invalid)) ==> (
        res matches Err(ResolveRecipeError::Failed(_))),
        policy.status is None || policy.status->0.phase is None ==> (res matches Err(
            ResolveRecipeError::NotReady(_),
        )),
        res matches Ok(r) ==> {
            &&& r.repository_ref@ == policy.spec.repository_ref@
            &&& opt_view(r.repository_namespace) == opt_view(policy.spec.repository_namespace)
            &&& r.target_namespace@ == policy.spec.target_namespace@
            &&& r.pvc_names.deep_view() == policy.spec.pvc_names.deep_view()
            &&& r.retention == policy.spec.retention
            &&& r.include_volumes == policy.spec.include_volumes
            &&& r.include_cluster_resources == policy.spec.include_cluster_resources
        },
{
    assert(policy.spec.pvc_names.deep_view().len() == policy.spec.pvc_names@.len());
}

/// A policy is valid exactly where its recipe can be run and its schedule, where it has one, is one
/// that cron takes.
pub proof fn law_valid_policies_can_be_run(policy: ProteusBackupPolicy)
    ensures
        policy_fault(policy) is None <==> policy.spec.repository_ref@.len() > 0
            && policy.spec.target_namespace@.len() > 0 && policy.spec.pvc_names@.len() > 0
            && policy.spec.retention.keep_last > 0 && (policy.spec.schedule matches Some(s)
            && !crate::text::blank(s@) ==> parsed_schedule(
            crate::text::trim(policy.spec.schedule->0@),
            parse_of(crate::text::trim(policy.spec.schedule->0@)),
        ) is Ok),
{
    assert(policy.spec.pvc_names.deep_view().len() == policy.spec.pvc_names@.len());
    if let Some(s) = policy.spec.schedule {
        crate::text::lemma_trim_empty_iff_blank(s@);
    }
}

/// A policy is looked for in the namespace that the run names, without white space round it, else
/// in the run's own.
pub proof fn law_policy_is_looked_for_where_named(spec: ProteusBackupSpec, own: Seq<char>)
    ensures
        spec.policy_namespace is None || crate::text::blank(spec.policy_namespace->0@)
            ==> policy_namespace_of(spec, own) == own,
        spec.policy_namespace matches Some(ns) && !crate::text::blank(ns@) ==> policy_namespace_of(
            spec,
            own,
        ) == crate::text::trim(spec.policy_namespace->0@),
{
    if let Some(ns) = spec.policy_namespace {
        crate::text::lemma_trim_empty_iff_blank(ns@);
    }
}

/// What is said of a policy is its own message where it has one; what could not be had is named,
/// with the reason behind it.
pub proof fn law_policy_faults_are_told(
    policy: ProteusBackupPolicy,
    fallback: Seq<char>,
    name: Seq<char>,
    namespace: Seq<char>,
    err: Seq<char>,
)
    ensures
        policy.status matches Some(s) && s.message is Some ==> policy_message(policy, fallback)
            == policy.status->0.message->0@,
        policy.status is None || policy.status->0.message is None ==> policy_message(
            policy,
            fallback,
        ) == fallback,
        policy.status matches Some(s) ==> policy_phase(policy) == s.phase,
        policy.status is None ==> policy_phase(policy) is None,
        ("policyRef '"@ + name + "'"@).is_prefix_of(missing_policy_text(name, namespace, err)),
        err.is_suffix_of(missing_policy_text(name, namespace, err)),
{
    reveal_strlit("'");
    reveal_strlit("' in namespace '");
    let t = missing_policy_text(name, namespace, err);
    let head = "policyRef '"@ + name + "'"@;
    assert(t.subrange(0, head.len() as int) =~= head);
    assert(t.subrange(t.len() - err.len(), t.len() as int) =~= err);
}

} // verus!
