use komodo::builder::{
    builder_connected_log, unusable_builder_message, builder_instance_name, builder_periphery_address, check_url_builder_address, choose_server_builder,
    aws_builder_log_labels, cleanup_plan, next_poll_step, release_build_usage, start_aws_builder_log,
    AwsBuilderLogSettings, BuildCleanupData, BuilderUsage, BuilderUsageCache, CleanupPlan,
    PollStep,
};
use komodo::listener::{branch_matches, is_any_branch};
use komodo::permission::query::{restricts_targets, user_resource_target_query, TargetQuery};
use komodo::permission::target::ResourceTargetVariant;
use komodo::reporting::{core_report, report_prologue, ResourceCounts};
use komodo::stats::{next_stats_page, processes_cache_fresh, processes_expiry, stats_page_timestamps};
use komodo::text::{format_i64, format_u128, parse_i64, str_chars};

fn ids(v: &[&str]) -> Vec<String> {
    v.iter().map(|s| s.to_string()).collect()
}

#[test]
fn builder_usage_picks_least_used_first() {
    let mut usage = BuilderUsage::new();
    let servers = ids(&["a", "b", "c"]);
    assert_eq!(usage.select(&servers), Some(0));
    assert_eq!(usage.select(&servers), Some(1));
    assert_eq!(usage.select(&servers), Some(2));
    assert_eq!(usage.select(&servers), Some(0));
    assert_eq!(usage.usage("a"), 2);
    usage.release("a");
    usage.release("a");
    usage.release("a");
    assert_eq!(usage.usage("a"), 0);
    assert_eq!(usage.select(&[]), None);
}

#[test]
fn server_builder_choice() {
    let mut cache = BuilderUsageCache::new();
    let e = choose_server_builder("b1", &vec![], &vec![], &mut cache).unwrap_err();
    assert_eq!(e, "Server Builder has no configured Servers");
    let only = choose_server_builder("b1", &ids(&["x"]), &vec![false], &mut cache).unwrap();
    assert_eq!(only.server_id, "x");
    assert!(matches!(only.cleanup, BuildCleanupData::Server(None)));
    assert_eq!(cache.usage("b1", "x"), 0);
    let e = choose_server_builder("b1", &ids(&["x", "y"]), &vec![false, false], &mut cache).unwrap_err();
    assert_eq!(e, "Server builder has no available servers");
    let got = choose_server_builder("b1", &ids(&["x", "y", "z"]), &vec![false, true, true], &mut cache).unwrap();
    assert_eq!(got.server_id, "y");
    assert!(matches!(&got.cleanup, BuildCleanupData::Server(Some(b)) if b == "b1"));
    let got = choose_server_builder("b1", &ids(&["x", "y", "z"]), &vec![false, true, true], &mut cache).unwrap();
    assert_eq!(got.server_id, "z");
    assert_eq!(cache.usage("b1", "y"), 1);
    // Another builder counts its own builds.
    let other = choose_server_builder("b2", &ids(&["y", "z"]), &vec![true, true], &mut cache).unwrap();
    assert_eq!(other.server_id, "y");
    assert_eq!(cache.usage("b2", "y"), 1);
    assert_eq!(cache.usage("b1", "y"), 1);
}

#[test]
fn cleanup_releases_under_the_builder() {
    let mut cache = BuilderUsageCache::new();
    let servers = ids(&["s1", "s2"]);
    let first = choose_server_builder("builder-1", &servers, &vec![true, true], &mut cache).unwrap();
    let second = choose_server_builder("builder-1", &servers, &vec![true, true], &mut cache).unwrap();
    assert_eq!(first.server_id, "s1");
    assert_eq!(second.server_id, "s2");
    let elsewhere = choose_server_builder("builder-2", &servers, &vec![true, true], &mut cache).unwrap();
    assert_eq!(cache.usage("builder-1", "s1"), 1);
    release_build_usage(&mut cache, &first.cleanup, &first.server_id);
    assert_eq!(cache.usage("builder-1", "s1"), 0);
    assert_eq!(cache.usage("builder-1", "s2"), 1);
    assert_eq!(cache.usage("builder-2", "s1"), 1);
    // Releasing again never goes below zero.
    release_build_usage(&mut cache, &first.cleanup, &first.server_id);
    assert_eq!(cache.usage("builder-1", "s1"), 0);
    // A single-server pick counted nothing and releases nothing.
    release_build_usage(&mut cache, &BuildCleanupData::Server(None), "s2");
    assert_eq!(cache.usage("builder-1", "s2"), 1);
    release_build_usage(&mut cache, &elsewhere.cleanup, &elsewhere.server_id);
    assert_eq!(cache.usage("builder-2", "s1"), 0);
}

#[test]
fn cleanup_after_builds() {
    assert!(matches!(cleanup_plan(BuildCleanupData::Server(None)), CleanupPlan::Nothing));
    assert!(matches!(cleanup_plan(BuildCleanupData::Server(Some("b".into()))), CleanupPlan::Release(id) if id == "b"));
    assert!(matches!(cleanup_plan(BuildCleanupData::Url), CleanupPlan::CloseConnection));
    match cleanup_plan(BuildCleanupData::Aws { instance_id: "i-123".into(), region: "us-east-1".into() }) {
        CleanupPlan::CloseAndTerminate { instance_id, region, log } => {
            assert_eq!(instance_id, "i-123");
            assert_eq!(region, "us-east-1");
            assert_eq!(log, "termination queued for instance id i-123");
        }
        other => panic!("unexpected plan {:?}", other),
    }
}

#[test]
fn builder_connection_details() {
    assert_eq!(check_url_builder_address("").unwrap_err(), "Builder has not yet configured an address");
    assert!(check_url_builder_address("https://b:8120").is_ok());
    assert_eq!(next_poll_step(1, 60, true), PollStep::Connected);
    assert_eq!(next_poll_step(59, 60, false), PollStep::Retry);
    assert_eq!(next_poll_step(60, 60, false), PollStep::GiveUp);
    assert_eq!(builder_instance_name("my-build", Some("1.2.3")), "BUILDER-my-build-v1.2.3");
    assert_eq!(builder_instance_name("my-build", None), "BUILDER-my-build");
    assert_eq!(builder_periphery_address(true, "10.0.0.1", 8120), "wss://10.0.0.1:8120");
    assert_eq!(builder_periphery_address(false, "10.0.0.1", 8120), "ws://10.0.0.1:8120");
}

#[test]
fn stats_page_timestamps_step_back() {
    let ts = stats_page_timestamps(1_000_123, 1_000, 0);
    assert_eq!(ts.len(), 200);
    assert_eq!(ts[0], 1_000_000);
    assert_eq!(ts[1], 999_000);
    assert_eq!(ts[199], 801_000);
    let ts = stats_page_timestamps(1_000_123, 1_000, 2);
    assert_eq!(ts[0], 1_000_000 - 400_000);
    assert_eq!(next_stats_page(3, 200), Some(4));
    assert_eq!(next_stats_page(3, 199), None);
}

#[test]
fn processes_cache() {
    assert!(processes_cache_fresh(Some(100), 99));
    assert!(!processes_cache_fresh(Some(100), 100));
    assert!(!processes_cache_fresh(None, 0));
    assert_eq!(processes_expiry(1_000), 16_000);
}

#[test]
fn target_query_for_admin_is_unchanged() {
    assert!(!restricts_targets(true, false));
    assert!(!restricts_targets(false, true));
    assert!(restricts_targets(false, false));
    let q = user_resource_target_query(true, false, vec![], Some("incoming"));
    assert!(matches!(q, TargetQuery::Unchanged(Some("incoming"))));
}

#[test]
fn target_query_restricts_each_kind() {
    let mut visible: Vec<Option<Vec<String>>> = vec![None; 11];
    visible[1] = Some(ids(&["srv-1"]));
    let q = user_resource_target_query::<u8>(false, false, visible, None);
    match q {
        TargetQuery::Restricted { clauses, and } => {
            assert!(and.is_none());
            assert_eq!(clauses.len(), 11);
            assert_eq!(clauses[0].kind, ResourceTargetVariant::Swarm);
            assert!(clauses[0].ids.is_none());
            assert_eq!(clauses[1].kind, ResourceTargetVariant::Server);
            assert_eq!(clauses[1].ids, Some(ids(&["srv-1"])));
            assert_eq!(clauses[10].kind, ResourceTargetVariant::ResourceSync);
        }
        _ => panic!("expected a restricted query"),
    }
}

#[test]
fn core_report_and_prologue() {
    let r = core_report(
        "pk".to_string(),
        3,
        ResourceCounts { servers: 2, swarms: 0, stacks: 5, deployments: 1, builds: 4 },
    );
    assert_eq!(r.users, 3);
    assert_eq!(r.count.len(), 5);
    assert_eq!(r.count[0], (ResourceTargetVariant::Server, 2));
    assert_eq!(r.count[2], (ResourceTargetVariant::Stack, 5));
    assert_eq!(report_prologue("{\"users\":3}", 17), "POST|/report/komodo|{\"users\":3}|17");
}

#[test]
fn webhook_branches() {
    assert_eq!(branch_matches::<()>(Ok("main".to_string()), "main"), Ok(true));
    assert_eq!(branch_matches::<()>(Ok("dev".to_string()), "main"), Ok(false));
    assert_eq!(branch_matches(Err("no branch"), "main"), Err("no branch"));
    assert!(is_any_branch("__ANY__"));
    assert!(!is_any_branch("main"));
}

#[test]
fn decimal_round_trip() {
    for x in [0i64, 7, -7, 10, 1234567890, i64::MAX, i64::MIN] {
        let s = format_i64(x);
        assert_eq!(s, x.to_string());
        assert_eq!(parse_i64(&str_chars(&s)), Some(x));
    }
    assert_eq!(format_u128(u128::MAX), u128::MAX.to_string());
    assert_eq!(parse_i64(&str_chars("+5")), Some(5));
    assert_eq!(parse_i64(&str_chars("-")), None);
    assert_eq!(parse_i64(&str_chars("9223372036854775808")), None);
}

#[test]
fn builder_log_texts() {
    assert_eq!(
        builder_connected_log("1.19.0"),
        "established contact with periphery on builder\nperiphery version: v1.19.0"
    );
    assert_eq!(unusable_builder_message(), "failed to start usable builder. terminating instance.");
}

#[test]
fn aws_builder_start_log_lists_the_settings() {
    let labels: Vec<String> = aws_builder_log_labels().iter().map(|l| format!("<{l}>")).collect();
    let config = AwsBuilderLogSettings {
        ami_id: "ami-1".into(),
        instance_type: "t3.large".into(),
        volume_gb: 20,
        subnet_id: "subnet-9".into(),
        assign_public_ip: true,
        security_group_ids: vec!["sg-a".into(), "sg-b".into()],
        use_public_ip: false,
        use_https: true,
    };
    let log = start_aws_builder_log("i-1", "10.0.0.1", &config, &labels);
    assert_eq!(
        log,
        "<instance id>: i-1\n<ip>: 10.0.0.1\n<ami id>: ami-1\n<instance type>: t3.large\n<volume size>: 20 GB\n<subnet id>: subnet-9\n<security groups>: sg-a, sg-b\n<assign public ip>: true\n<use public ip>: false\n<use https>: true"
    );
}
