//! The Kubernetes side of a Malstrom job: the job resource, the plain parts of
//! the resources deployed for it, and the decisions of the operator which
//! creates, patches and rescales jobs.
use vstd::prelude::*;

use std::collections::BTreeMap;

use crate::decimal::{decimal_int, i32_decimal};
use crate::kafka::{effective_config, entry_views};
use vstd::string::StringExecFns;

verus! {

/// Desired or current running state of a job.
#[derive(Clone, Copy, Debug, PartialEq, Eq, Structural)]
pub enum JobState {
    Running,
    Suspended,
}

impl JobState {
    /// The default state of a job: running.
    pub fn default_state() -> (r: JobState)
        ensures
            r == JobState::Running,
    {
        JobState::Running
    }
}

/// The executable of a job and where to put it.
#[derive(Clone, Debug)]
pub struct Binary {
    /// Full URI to the source executable
    pub source: String,
    /// Local path including the file name
    pub destination: String,
    /// Artifact downloader environment for configuring authentication.
    pub environment: Option<BTreeMap<String, String>>,
}

/// Status of a job as reported on its resource.
#[derive(Clone, Copy, Debug, PartialEq, Eq, Structural)]
pub struct MalstromJobStatus {
    /// Current state of the job
    pub state: JobState,
    /// Current replica count
    pub replicas: i32,
}

/// A job with replicas runs, a job scaled to zero (or below) is suspended.
pub open spec fn state_for_replicas(replicas: i32) -> JobState {
    if replicas > 0 {
        JobState::Running
    } else {
        JobState::Suspended
    }
}

impl MalstromJobStatus {
    /// The status written after the job's resources were created or patched
    /// for `replicas` workers.
    pub fn for_replicas(replicas: i32) -> (r: MalstromJobStatus)
        ensures
            r.state == state_for_replicas(replicas),
            r.replicas == replicas,
    {
        let state = if replicas > 0 {
            JobState::Running
        } else {
            JobState::Suspended
        };
        MalstromJobStatus { state, replicas }
    }
}

/// How to change the number of workers of a running job.
///
/// Scaling up first creates the new worker pods, then tells the coordinator
/// to add them to the job. Scaling down first tells the coordinator to remove
/// workers, then removes their pods.
#[derive(Clone, Copy, Debug, PartialEq, Eq, Structural)]
pub enum RescalePlan {
    /// Worker count unchanged: nothing to do.
    Unchanged,
    /// Patch the worker statefulset, then request the rescale.
    PatchThenRescale { desired: u64 },
    /// Request the rescale, then patch the worker statefulset.
    RescaleThenPatch { desired: u64 },
}

/// Decide how to go from `current_scale` to `desired_scale` workers. The
/// scale sent to the coordinator is `desired_scale` as an unsigned number.
pub fn plan_rescale(desired_scale: i32, current_scale: i32) -> (r: RescalePlan)
    requires
        i32::MIN <= desired_scale - current_scale <= i32::MAX,
    ensures
        desired_scale == current_scale ==> r == RescalePlan::Unchanged,
        desired_scale > current_scale ==> r == (RescalePlan::PatchThenRescale {
            desired: desired_scale as u64,
        }),
        desired_scale < current_scale ==> r == (RescalePlan::RescaleThenPatch {
            desired: desired_scale as u64,
        }),
{
    let diff = desired_scale - current_scale;
    if diff == 0 {
        RescalePlan::Unchanged
    } else if diff > 0 {
        RescalePlan::PatchThenRescale { desired: desired_scale as u64 }
    } else {
        RescalePlan::RescaleThenPatch { desired: desired_scale as u64 }
    }
}

/// A patch rescales the job exactly when the deployed worker count differs
/// from the desired one.
pub fn needs_rescale(deployed_scale: i32, desired_scale: i32) -> (r: bool)
    ensures
        r == (deployed_scale != desired_scale),
{
    deployed_scale != desired_scale
}

/// The namespace of a job, `default` when the job names none.
pub fn namespace_or_default(namespace: &Option<String>) -> (r: String)
    ensures
        namespace is Some ==> r@ == namespace->0@,
        namespace is None ==> r@ == "default"@,
{
    match namespace {
        Some(ns) => ns.clone(),
        None => String::from_str("default"),
    }
}

/// Name of the worker service and worker statefulset of a job.
pub fn worker_name(job_name: &String) -> (r: String)
    ensures
        r@ == job_name@ + "-worker"@,
{
    job_name.clone().concat("-worker")
}

/// Name of the coordinator service and coordinator statefulset of a job.
pub fn coordinator_name(job_name: &String) -> (r: String)
    ensures
        r@ == job_name@ + "-coordinator"@,
{
    job_name.clone().concat("-coordinator")
}

/// Port on which workers and coordinator serve.
pub const MALSTROM_PORT: i32 = 29091;

/// In-cluster URL of the coordinator's gRPC service.
pub fn coordinator_url(coordinator_service: &String, namespace: &String) -> (r: String)
    ensures
        r@ == "http://"@ + coordinator_service@ + "."@ + namespace@ + ".svc.cluster.local:29091"@,
{
    let url = String::from_str("http://");
    let url = url.concat(coordinator_service.as_str());
    let url = url.concat(".");
    let url = url.concat(namespace.as_str());
    url.concat(".svc.cluster.local:29091")
}

/// Label key naming the job a resource belongs to.
pub open spec fn app_label() -> Seq<char> {
    "app.malstorm.io"@
}

/// Label key naming the role (worker or coordinator) of a resource.
pub open spec fn role_label() -> Seq<char> {
    "app.malstorm.io/role"@
}

/// Labels of a service: the job name and the role.
pub fn service_labels(job_name: &String, role: &str) -> (r: Vec<(String, String)>)
    ensures
        r@.len() == 2,
        r@[0].0@ == app_label() && r@[0].1@ == job_name@,
        r@[1].0@ == role_label() && r@[1].1@ == role@,
{
    let mut labels: Vec<(String, String)> = Vec::new();
    labels.push((String::from_str("app.malstorm.io"), job_name.clone()));
    labels.push((String::from_str("app.malstorm.io/role"), String::from_str(role)));
    labels
}

/// Whether no key occurs twice among a list of settings.
pub open spec fn unique_keys(s: Seq<(Seq<char>, Seq<char>)>) -> bool {
    forall|i: int, j: int| 0 <= i < j < s.len() ==> s[i].0 != s[j].0
}

/// Settings whose keys are unique map each key to the value it is given.
proof fn lemma_unique_settings(s: Seq<(Seq<char>, Seq<char>)>)
    requires
        unique_keys(s),
    ensures
        forall|i: int| 0 <= i < s.len() ==> #[trigger] effective_config(s).contains_key(s[i].0)
            && effective_config(s)[s[i].0] == s[i].1,
        forall|key: Seq<char>| #[trigger] effective_config(s).contains_key(key) ==> exists|i: int|
            0 <= i < s.len() && s[i].0 == key,
    decreases s.len(),
{
    if s.len() > 0 {
        let p = s.drop_last();
        lemma_unique_settings(p);
        assert forall|i: int| 0 <= i < s.len() implies #[trigger] effective_config(s).contains_key(s[i].0)
            && effective_config(s)[s[i].0] == s[i].1 by {
            assert(effective_config(s) == effective_config(p).insert(s.last().0, s.last().1));
            if i < s.len() - 1 {
                assert(p[i] == s[i]);
                assert(s[i].0 != s[s.len() - 1].0);
            }
        }
        assert forall|key: Seq<char>| #[trigger] effective_config(s).contains_key(key) implies exists|i: int|
            0 <= i < s.len() && s[i].0 == key by {
            assert(effective_config(s) == effective_config(p).insert(s.last().0, s.last().1));
            if key != s.last().0 {
                assert(effective_config(p).contains_key(key));
                let i = choose|i: int| 0 <= i < p.len() && p[i].0 == key;
                assert(s[i] == p[i]);
            } else {
                assert(s[s.len() - 1].0 == key);
            }
        }
    }
}

/// Giving the setting at `j` a new value changes the configuration as
/// setting that key again would.
proof fn lemma_update_setting(s: Seq<(Seq<char>, Seq<char>)>, j: int, v: Seq<char>)
    requires
        unique_keys(s),
        0 <= j < s.len(),
    ensures
        unique_keys(s.update(j, (s[j].0, v))),
        effective_config(s.update(j, (s[j].0, v))) == effective_config(s).insert(s[j].0, v),
{
    let u = s.update(j, (s[j].0, v));
    assert(unique_keys(u)) by {
        assert forall|a: int, b: int| 0 <= a < b < u.len() implies u[a].0 != u[b].0 by {
            assert(u[a].0 == s[a].0);
            assert(u[b].0 == s[b].0);
        }
    }
    lemma_unique_settings(s);
    lemma_unique_settings(u);
    let lhs = effective_config(u);
    let rhs = effective_config(s).insert(s[j].0, v);
    assert forall|key: Seq<char>| lhs.contains_key(key) <==> rhs.contains_key(key) by {
        if lhs.contains_key(key) {
            let i = choose|i: int| 0 <= i < u.len() && u[i].0 == key;
            assert(s[i].0 == key);
        }
        if effective_config(s).contains_key(key) {
            let i = choose|i: int| 0 <= i < s.len() && s[i].0 == key;
            assert(u[i].0 == key);
        }
        if key == s[j].0 {
            assert(u[j].0 == key);
        }
    }
    assert forall|key: Seq<char>| lhs.contains_key(key) implies lhs[key] == rhs[key] by {
        let i = choose|i: int| 0 <= i < u.len() && u[i].0 == key;
        if i != j {
            assert(u[i] == s[i]);
        }
    }
    assert(lhs =~= rhs);
}

/// Labels in the order given, where a later label replaces an earlier one of
/// the same key: each key once, at the place it first occurs, with the value
/// it was given last.
pub fn override_labels(pairs: &Vec<(String, String)>) -> (r: Vec<(String, String)>)
    ensures
        unique_keys(entry_views(r@)),
        effective_config(entry_views(r@)) == effective_config(entry_views(pairs@)),
{
    let mut r: Vec<(String, String)> = Vec::new();
    let mut i: usize = 0;
    while i < pairs.len()
        invariant
            i <= pairs@.len(),
            unique_keys(entry_views(r@)),
            effective_config(entry_views(r@)) == effective_config(entry_views(pairs@.take(i as int))),
        decreases pairs.len() - i,
    {
        let key = pairs[i].0.clone();
        let value = pairs[i].1.clone();
        let ghost before = entry_views(r@);
        let mut j: usize = 0;
        while j < r.len() && !(r[j].0 == key)
            invariant
                j <= r@.len(),
                forall|x: int| 0 <= x < j ==> r@[x].0@ != key@,
            decreases r.len() - j,
        {
            j = j + 1;
        }
        proof {
            assert(entry_views(pairs@.take(i + 1)).drop_last() =~= entry_views(pairs@.take(i as int)));
            assert(entry_views(pairs@.take(i + 1)).last() == (key@, value@));
        }
        if j < r.len() {
            r.set(j, (key, value));
            proof {
                lemma_update_setting(before, j as int, value@);
                assert(entry_views(r@) =~= before.update(j as int, (before[j as int].0, value@)));
            }
        } else {
            r.push((key, value));
            proof {
                assert(entry_views(r@).drop_last() =~= before);
                assert(unique_keys(entry_views(r@))) by {
                    assert forall|a: int, b: int| 0 <= a < b < entry_views(r@).len() implies entry_views(r@)[a].0
                        != entry_views(r@)[b].0 by {
                        if b == r@.len() - 1 {
                            assert(entry_views(r@)[a].0 == r@[a].0@);
                        } else {
                            assert(entry_views(r@)[a] == before[a]);
                            assert(entry_views(r@)[b] == before[b]);
                        }
                    }
                }
            }
        }
        i = i + 1;
    }
    proof {
        assert(pairs@.take(pairs@.len() as int) =~= pairs@);
    }
    r
}

/// Labels of a statefulset and its pods: the labels of the job resource,
/// overridden by the job name and the role, each key once.
pub fn statefulset_labels(job_labels: Vec<(String, String)>, job_name: &String, role: &str) -> (r: Vec<
    (String, String),
>)
    ensures
        unique_keys(entry_views(r@)),
        effective_config(entry_views(r@)) == effective_config(entry_views(job_labels@)).insert(
            app_label(),
            job_name@,
        ).insert(role_label(), role@),
{
    let mut labels = job_labels;
    let ghost base = labels@;
    labels.push((String::from_str("app.malstorm.io"), job_name.clone()));
    labels.push((String::from_str("app.malstorm.io/role"), String::from_str(role)));
    proof {
        let v = entry_views(labels@);
        assert(v.drop_last().drop_last() =~= entry_views(base));
        assert(v.drop_last().last() == (app_label(), job_name@));
        assert(v.last() == (role_label(), role@));
        assert(effective_config(v.drop_last()) == effective_config(entry_views(base)).insert(
            app_label(),
            job_name@,
        ));
        assert(effective_config(v) == effective_config(v.drop_last()).insert(role_label(), role@));
    }
    override_labels(&labels)
}

/// The fixed settings of the statefulsets of a job and of their pods.
pub struct StatefulSetSettings {
    /// Pods start in parallel: the coordinator waits for all workers before
    /// starting the job.
    pub pod_management_policy: String,
    pub revision_history_limit: i32,
    /// What happens to volume claims when the set is deleted or scaled down.
    pub pvc_retention: String,
    pub update_strategy: String,
    pub update_partition: i32,
    pub restart_policy: String,
    pub service_account: String,
    pub scheduler_name: String,
    pub termination_grace_period_seconds: i64,
    pub dns_policy: String,
}

/// The fixed settings every statefulset of a job gets.
pub fn statefulset_settings() -> (r: StatefulSetSettings)
    ensures
        r.pod_management_policy@ == "Parallel"@,
        r.revision_history_limit == 10,
        r.pvc_retention@ == "Retain"@,
        r.update_strategy@ == "RollingUpdate"@,
        r.update_partition == 0,
        r.restart_policy@ == "Always"@,
        r.service_account@ == "malstrom-k8s-operator"@,
        r.scheduler_name@ == "default-scheduler"@,
        r.termination_grace_period_seconds == 30,
        r.dns_policy@ == "ClusterFirst"@,
{
    StatefulSetSettings {
        pod_management_policy: String::from_str("Parallel"),
        revision_history_limit: 10,
        pvc_retention: String::from_str("Retain"),
        update_strategy: String::from_str("RollingUpdate"),
        update_partition: 0,
        restart_policy: String::from_str("Always"),
        service_account: String::from_str("malstrom-k8s-operator"),
        scheduler_name: String::from_str("default-scheduler"),
        termination_grace_period_seconds: 30,
        dns_policy: String::from_str("ClusterFirst"),
    }
}

/// Value of an environment variable of a job container.
#[derive(Clone, Debug, PartialEq, Eq)]
pub enum EnvValue {
    /// A literal value.
    Literal(String),
    /// The name of the pod the container runs in.
    PodName,
    /// No value.
    Unset,
}

/// An environment variable set by the operator on job containers.
#[derive(Clone, Debug)]
pub struct EnvVarPlan {
    pub name: String,
    pub value: EnvValue,
}

/// An environment variable with a literal value, or none.
fn env_var(name: &str, value: Option<String>) -> (r: EnvVarPlan)
    ensures
        r.name@ == name@,
        value is Some ==> (r.value matches EnvValue::Literal(v) && v@ == value->0@),
        value is None ==> r.value == EnvValue::Unset,
{
    let value = match value {
        Some(v) => EnvValue::Literal(v),
        None => EnvValue::Unset,
    };
    EnvVarPlan { name: String::from_str(name), value }
}

/// Whether `e` is the variable `name` with the literal value `value`.
pub open spec fn env_is(e: EnvVarPlan, name: Seq<char>, value: Seq<char>) -> bool {
    &&& e.name@ == name
    &&& e.value matches EnvValue::Literal(v) && v@ == value
}

/// Whether `e` is the variable `name` with the given optional value.
pub open spec fn env_is_opt(e: EnvVarPlan, name: Seq<char>, value: Option<String>) -> bool {
    &&& e.name@ == name
    &&& match value {
        Some(v) => e.value matches EnvValue::Literal(x) && x@ == v@,
        None => e.value == EnvValue::Unset,
    }
}

/// The variables shared by worker and coordinator containers: where to find
/// the services, the worker statefulset, the scale and the namespace.
fn common_env(job_name: &String, namespace: &Option<String>, replicas: i32, out: &mut Vec<EnvVarPlan>)
    ensures
        final(out)@.len() == old(out)@.len() + 5,
        final(out)@.take(old(out)@.len() as int) == old(out)@,
        env_is(final(out)@[old(out)@.len() as int], "MALSTROM_K8S_WORKER_SVC_NAME"@, job_name@ + "-worker"@),
        env_is(final(out)@[old(out)@.len() + 1int], "MALSTROM_K8S_WORKER_STS_NAME"@, job_name@ + "-worker"@),
        env_is(final(out)@[old(out)@.len() + 2int], "MALSTROM_K8S_COORDINATOR_SVC_NAME"@, job_name@ + "-coordinator"@),
        env_is(final(out)@[old(out)@.len() + 3int], "MALSTROM_K8S_SCALE"@, decimal_int(replicas as int)),
        env_is_opt(final(out)@[old(out)@.len() + 4int], "MALSTROM_K8S_NS"@, *namespace),
{
    let ghost start = out@;
    out.push(env_var("MALSTROM_K8S_WORKER_SVC_NAME", Some(worker_name(job_name))));
    out.push(env_var("MALSTROM_K8S_WORKER_STS_NAME", Some(worker_name(job_name))));
    out.push(env_var("MALSTROM_K8S_COORDINATOR_SVC_NAME", Some(coordinator_name(job_name))));
    out.push(env_var("MALSTROM_K8S_SCALE", Some(i32_decimal(replicas))));
    out.push(env_var("MALSTROM_K8S_NS", namespace.clone()));
    assert(out@.take(start.len() as int) =~= start);
}

/// Environment variables the operator sets on worker containers, before the
/// job's own environment is merged over them.
pub fn worker_env(job_name: &String, namespace: &Option<String>, replicas: i32) -> (r: Vec<EnvVarPlan>)
    ensures
        r@.len() == 6,
        r@[0].name@ == "MALSTROM_K8S_WORKER_HOSTNAME"@ && r@[0].value == EnvValue::PodName,
        env_is(r@[1], "MALSTROM_K8S_WORKER_SVC_NAME"@, job_name@ + "-worker"@),
        env_is(r@[2], "MALSTROM_K8S_WORKER_STS_NAME"@, job_name@ + "-worker"@),
        env_is(r@[3], "MALSTROM_K8S_COORDINATOR_SVC_NAME"@, job_name@ + "-coordinator"@),
        env_is(r@[4], "MALSTROM_K8S_SCALE"@, decimal_int(replicas as int)),
        env_is_opt(r@[5], "MALSTROM_K8S_NS"@, *namespace),
{
    let mut env: Vec<EnvVarPlan> = Vec::new();
    env.push(EnvVarPlan { name: String::from_str("MALSTROM_K8S_WORKER_HOSTNAME"), value: EnvValue::PodName });
    let ghost first = env@;
    common_env(job_name, namespace, replicas, &mut env);
    assert(env@[0] == env@.take(1)[0]);
    assert(env@[0] == first[0]);
    env
}

/// Environment variables the operator sets on coordinator containers, before
/// the job's own environment is merged over them.
pub fn coordinator_env(job_name: &String, namespace: &Option<String>, replicas: i32) -> (r: Vec<EnvVarPlan>)
    ensures
        r@.len() == 6,
        env_is(r@[0], "MALSTROM_K8S_IS_COORDINATOR"@, "true"@),
        env_is(r@[1], "MALSTROM_K8S_WORKER_SVC_NAME"@, job_name@ + "-worker"@),
        env_is(r@[2], "MALSTROM_K8S_WORKER_STS_NAME"@, job_name@ + "-worker"@),
        env_is(r@[3], "MALSTROM_K8S_COORDINATOR_SVC_NAME"@, job_name@ + "-coordinator"@),
        env_is(r@[4], "MALSTROM_K8S_SCALE"@, decimal_int(replicas as int)),
        env_is_opt(r@[5], "MALSTROM_K8S_NS"@, *namespace),
{
    let mut env: Vec<EnvVarPlan> = Vec::new();
    env.push(env_var("MALSTROM_K8S_IS_COORDINATOR", Some(String::from_str("true"))));
    let ghost first = env@;
    common_env(job_name, namespace, replicas, &mut env);
    assert(env@[0] == env@.take(1)[0]);
    assert(env@[0] == first[0]);
    env
}

/// Where a container takes environment variables from in bulk.
#[derive(Clone, Debug, PartialEq, Eq)]
pub enum EnvSource {
    ConfigMap(String),
    Secret(String),
}

/// Environment sources of the main container: the job's config maps, then
/// its secrets, each in the order given.
pub fn job_env_sources(config_maps: &Vec<String>, secrets: &Vec<String>) -> (r: Vec<EnvSource>)
    ensures
        r@.len() == config_maps@.len() + secrets@.len(),
        forall|i: int|
            0 <= i < config_maps@.len() ==> (#[trigger] r@[i]) == EnvSource::ConfigMap(config_maps@[i]),
        forall|i: int|
            0 <= i < secrets@.len() ==> (#[trigger] r@[config_maps@.len() + i]) == EnvSource::Secret(
                secrets@[i],
            ),
{
    let mut r: Vec<EnvSource> = Vec::new();
    let mut i: usize = 0;
    while i < config_maps.len()
        invariant
            i <= config_maps@.len(),
            r@.len() == i,
            forall|j: int| 0 <= j < i ==> (#[trigger] r@[j]) == EnvSource::ConfigMap(config_maps@[j]),
        decreases config_maps.len() - i,
    {
        r.push(EnvSource::ConfigMap(config_maps[i].clone()));
        i = i + 1;
    }
    let mut k: usize = 0;
    while k < secrets.len()
        invariant
            k <= secrets@.len(),
            r@.len() == config_maps@.len() + k,
            forall|j: int| 0 <= j < config_maps@.len() ==> (#[trigger] r@[j]) == EnvSource::ConfigMap(config_maps@[j]),
            forall|j: int|
                0 <= j < k ==> (#[trigger] r@[config_maps@.len() + j]) == EnvSource::Secret(secrets@[j]),
        decreases secrets.len() - k,
    {
        r.push(EnvSource::Secret(secrets[k].clone()));
        k = k + 1;
    }
    r
}

/// Environment sources of the artifact downloader: the job's init secrets.
pub fn init_env_sources(secrets: &Vec<String>) -> (r: Vec<EnvSource>)
    ensures
        r@.len() == secrets@.len(),
        forall|i: int| 0 <= i < secrets@.len() ==> (#[trigger] r@[i]) == EnvSource::Secret(secrets@[i]),
{
    let empty: Vec<String> = Vec::new();
    let r = job_env_sources(&empty, secrets);
    assert forall|i: int| 0 <= i < secrets@.len() implies (#[trigger] r@[i]) == EnvSource::Secret(secrets@[i]) by {
        assert(r@[empty@.len() + i] == EnvSource::Secret(secrets@[i]));
    }
    r
}

/// Command of the main container: the downloaded binary, if the job has one.
pub fn main_command(binary: &Option<Binary>) -> (r: Option<Vec<String>>)
    ensures
        binary is None ==> r is None,
        binary is Some ==> (r matches Some(c) && c@.len() == 1 && c@[0]@ == binary->0.destination@),
{
    match binary {
        Some(b) => {
            let mut c: Vec<String> = Vec::new();
            c.push(b.destination.clone());
            Some(c)
        },
        None => None,
    }
}

/// Arguments of the artifact downloader init container.
pub fn downloader_args(binary: &Binary) -> (r: Vec<String>)
    ensures
        r@.len() == 4,
        r@[0]@ == "--source"@,
        r@[1]@ == binary.source@,
        r@[2]@ == "--destination"@,
        r@[3]@ == binary.destination@,
{
    let mut args: Vec<String> = Vec::new();
    args.push(String::from_str("--source"));
    args.push(binary.source.clone());
    args.push(String::from_str("--destination"));
    args.push(binary.destination.clone());
    args
}

/// Image of the artifact downloader init container.
pub fn downloader_image() -> (r: String)
    ensures
        r@ == "ghcr.io/malstromdevelopers/artifact-downloader:latest"@,
{
    String::from_str("ghcr.io/malstromdevelopers/artifact-downloader:latest")
}

/// Replicas of the statefulsets of a job: the job's replicas for workers, a
/// single coordinator.
pub fn statefulset_replicas(job_replicas: i32, is_coordinator: bool) -> (r: i32)
    ensures
        r == if is_coordinator {
            1
        } else {
            job_replicas
        },
{
    if is_coordinator {
        1
    } else {
        job_replicas
    }
}

} // verus!
