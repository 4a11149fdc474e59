use malstrom::k8s::{
    coordinator_env, coordinator_name, coordinator_url, downloader_args, job_env_sources,
    main_command, namespace_or_default, needs_rescale, plan_rescale, service_labels,
    override_labels, statefulset_labels, statefulset_settings, statefulset_replicas, worker_env, worker_name, Binary, EnvSource, EnvValue,
    JobState, MalstromJobStatus, RescalePlan,
};

#[test]
fn status_follows_replicas() {
    assert_eq!(MalstromJobStatus::for_replicas(3), MalstromJobStatus { state: JobState::Running, replicas: 3 });
    assert_eq!(MalstromJobStatus::for_replicas(0), MalstromJobStatus { state: JobState::Suspended, replicas: 0 });
    assert_eq!(JobState::default_state(), JobState::Running);
}

#[test]
fn rescale_order_depends_on_direction() {
    assert_eq!(plan_rescale(3, 3), RescalePlan::Unchanged);
    assert_eq!(plan_rescale(5, 3), RescalePlan::PatchThenRescale { desired: 5 });
    assert_eq!(plan_rescale(1, 3), RescalePlan::RescaleThenPatch { desired: 1 });
    assert!(needs_rescale(2, 3));
    assert!(!needs_rescale(3, 3));
}

#[test]
fn names_and_urls() {
    let name = "job".to_string();
    assert_eq!(worker_name(&name), "job-worker");
    assert_eq!(coordinator_name(&name), "job-coordinator");
    assert_eq!(coordinator_url(&coordinator_name(&name), &"ns".to_string()), "http://job-coordinator.ns.svc.cluster.local:29091");
    assert_eq!(namespace_or_default(&None), "default");
    assert_eq!(namespace_or_default(&Some("x".to_string())), "x");
}

#[test]
fn labels() {
    let name = "job".to_string();
    let l = service_labels(&name, "worker");
    assert_eq!(l, vec![("app.malstorm.io".to_string(), "job".to_string()), ("app.malstorm.io/role".to_string(), "worker".to_string())]);
    let l = statefulset_labels(vec![("team".to_string(), "a".to_string())], &name, "coordinator");
    assert_eq!(l.len(), 3);
    assert_eq!(l[0].0, "team");
    assert_eq!(l[2].1, "coordinator");
    // a job label of the same key is replaced, keeping its place
    let l = statefulset_labels(
        vec![("app.malstorm.io".to_string(), "other".to_string()), ("team".to_string(), "a".to_string())],
        &name,
        "worker",
    );
    assert_eq!(
        l,
        vec![
            ("app.malstorm.io".to_string(), "job".to_string()),
            ("team".to_string(), "a".to_string()),
            ("app.malstorm.io/role".to_string(), "worker".to_string()),
        ]
    );
}

#[test]
fn later_labels_override_earlier_ones() {
    let pairs = vec![
        ("a".to_string(), "1".to_string()),
        ("b".to_string(), "2".to_string()),
        ("a".to_string(), "3".to_string()),
    ];
    assert_eq!(override_labels(&pairs), vec![("a".to_string(), "3".to_string()), ("b".to_string(), "2".to_string())]);
}

#[test]
fn environment_of_containers() {
    let name = "job".to_string();
    let env = worker_env(&name, &Some("ns".to_string()), 4);
    assert_eq!(env.len(), 6);
    assert_eq!(env[0].name, "MALSTROM_K8S_WORKER_HOSTNAME");
    assert_eq!(env[0].value, EnvValue::PodName);
    assert_eq!(env[1].value, EnvValue::Literal("job-worker".to_string()));
    assert_eq!(env[3].value, EnvValue::Literal("job-coordinator".to_string()));
    assert_eq!(env[4].value, EnvValue::Literal("4".to_string()));
    assert_eq!(env[5].value, EnvValue::Literal("ns".to_string()));
    let env = coordinator_env(&name, &None, 2);
    assert_eq!(env[0].name, "MALSTROM_K8S_IS_COORDINATOR");
    assert_eq!(env[0].value, EnvValue::Literal("true".to_string()));
    assert_eq!(env[5].value, EnvValue::Unset);
}

#[test]
fn env_sources_and_binary() {
    let s = job_env_sources(&vec!["cm".to_string()], &vec!["s1".to_string(), "s2".to_string()]);
    assert_eq!(s, vec![EnvSource::ConfigMap("cm".to_string()), EnvSource::Secret("s1".to_string()), EnvSource::Secret("s2".to_string())]);
    let b = Binary { source: "s3://x".to_string(), destination: "/artifact/x".to_string(), environment: None };
    assert_eq!(downloader_args(&b), vec!["--source", "s3://x", "--destination", "/artifact/x"]);
    assert_eq!(main_command(&Some(b)), Some(vec!["/artifact/x".to_string()]));
    assert_eq!(main_command(&None), None);
    assert_eq!(statefulset_replicas(5, true), 1);
    assert_eq!(statefulset_replicas(5, false), 5);
}

#[test]
fn fixed_statefulset_settings() {
    let s = statefulset_settings();
    assert_eq!(s.pod_management_policy, "Parallel");
    assert_eq!(s.revision_history_limit, 10);
    assert_eq!(s.pvc_retention, "Retain");
    assert_eq!((s.update_strategy.as_str(), s.update_partition), ("RollingUpdate", 0));
    assert_eq!(s.restart_policy, "Always");
    assert_eq!(s.service_account, "malstrom-k8s-operator");
    assert_eq!(s.scheduler_name, "default-scheduler");
    assert_eq!(s.termination_grace_period_seconds, 30);
    assert_eq!(s.dns_policy, "ClusterFirst");
}
