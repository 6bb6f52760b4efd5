use komodo::mem::{parse_meminfo, parse_zfs_arc_size, read_linux, read_sysinfo};
use komodo::permission::level::{PermissionLevel, PermissionLevelAndSpecifics};
use komodo::permission::list::{load_list_permits_start, FineListPermits, ListPermits, ListPermitsStart, PermitCheck};
use komodo::permission::resolve::{get_check_permissions, get_user_permission_on_resource};
use komodo::permission::specific::{SpecificPermission, SpecificSet};
use komodo::permission::target::{check_user_target_access, ResourceTarget, ResourceTargetVariant};
use komodo::rand::{random_bytes, random_string};
use komodo::summary::{
    summarize_actions, summarize_containers, summarize_resource_syncs, summarize_servers, summarize_swarms,
    ActionSummaryItem, ContainerStateStatusEnum, RunState, ServerState, ServerSummaryItem, SwarmState,
    SyncSummaryItem,
};

fn perm(level: PermissionLevel) -> PermissionLevelAndSpecifics {
    level.into_specifics()
}

#[test]
fn admin_gets_write_with_every_specific() {
    let p = get_user_permission_on_resource(true, false, SpecificSet::new(), &perm(PermissionLevel::NoAccess), None, &vec![], &vec![]);
    assert_eq!(p.level, PermissionLevel::Write);
    assert_eq!(p.specific.len(), 5);
}

#[test]
fn permission_is_the_highest_layer() {
    let groups = vec![None, Some(perm(PermissionLevel::Execute))];
    let records = vec![perm(PermissionLevel::Read)];
    let p = get_user_permission_on_resource(false, false, SpecificSet::new(), &perm(PermissionLevel::NoAccess), None, &groups, &records);
    assert_eq!(p.level, PermissionLevel::Execute);
    let p = get_user_permission_on_resource(false, true, SpecificSet::new(), &perm(PermissionLevel::NoAccess), None, &vec![], &vec![]);
    assert_eq!(p.level, PermissionLevel::Read);
    let p = get_user_permission_on_resource(false, false, SpecificSet::new(), &perm(PermissionLevel::NoAccess), None, &vec![], &vec![]);
    assert_eq!(p.level, PermissionLevel::NoAccess);
}

#[test]
fn specific_permissions_are_joined() {
    let mut inherited = SpecificSet::new();
    inherited.insert(SpecificPermission::Logs);
    let base = PermissionLevel::Read.terminal();
    let p = get_user_permission_on_resource(false, false, inherited, &base, None, &vec![], &vec![]);
    assert!(p.specific.contains(SpecificPermission::Logs));
    assert!(p.specific.contains(SpecificPermission::Terminal));
    assert!(!p.specific.contains(SpecificPermission::Attach));
}

#[test]
fn check_permissions_message() {
    let required = PermissionLevel::Execute.logs();
    let err = get_check_permissions("Server", false, false, &perm(PermissionLevel::Read), &perm(PermissionLevel::Read), &required)
        .unwrap_err();
    assert_eq!(
        err,
        "User does not have required permissions on this Server. Must have at least Execute permissions, as well as these specific permissions: [Logs]"
    );
    assert!(get_check_permissions("Server", true, false, &perm(PermissionLevel::NoAccess), &perm(PermissionLevel::NoAccess), &required).is_ok());
    assert!(get_check_permissions("Server", false, false, &perm(PermissionLevel::NoAccess), &PermissionLevel::Write.all(), &required).is_ok());
    let read = perm(PermissionLevel::Read);
    assert!(get_check_permissions("Stack", false, true, &perm(PermissionLevel::NoAccess), &perm(PermissionLevel::NoAccess), &read).is_ok());
}

#[test]
fn list_permits_for_fine_checks() {
    let required = perm(PermissionLevel::Read);
    assert!(matches!(load_list_permits_start(true, false, &required, None), ListPermitsStart::Unrestricted));
    assert!(matches!(load_list_permits_start(false, true, &required, None), ListPermitsStart::Unrestricted));
    assert!(matches!(load_list_permits_start(false, false, &required, None), ListPermitsStart::Continue(_)));
    let records = vec![("visible".to_string(), perm(PermissionLevel::Read))];
    let fine = FineListPermits::new(required, perm(PermissionLevel::NoAccess), &records);
    let permits = ListPermits::Fine(Box::new(fine));
    assert!(matches!(permits.check("visible", &perm(PermissionLevel::NoAccess), false), PermitCheck::Permitted));
    assert!(matches!(permits.check("hidden", &perm(PermissionLevel::NoAccess), false), PermitCheck::Refused));
    assert!(matches!(permits.check("hidden", &perm(PermissionLevel::Read), false), PermitCheck::Permitted));
    assert!(matches!(ListPermits::Unrestricted.check("any", &perm(PermissionLevel::NoAccess), false), PermitCheck::Permitted));
}

#[test]
fn list_permits_join_user_and_group_records() {
    // A user record at Write and a group record at Read on one resource:
    // the list sees Write, as the per-resource resolution does.
    let required = perm(PermissionLevel::Write);
    let records = vec![
        ("shared".to_string(), perm(PermissionLevel::Write)),
        ("shared".to_string(), perm(PermissionLevel::Read)),
    ];
    let fine = FineListPermits::new(required, perm(PermissionLevel::NoAccess), &records);
    assert!(matches!(fine.check("shared", &perm(PermissionLevel::NoAccess), false), PermitCheck::Permitted));
    let resolved = get_user_permission_on_resource(
        false,
        false,
        SpecificSet::new(),
        &perm(PermissionLevel::NoAccess),
        None,
        &vec![],
        &vec![perm(PermissionLevel::Write), perm(PermissionLevel::Read)],
    );
    assert_eq!(resolved.level, PermissionLevel::Write);
}

#[test]
fn system_targets_need_admin() {
    let e = check_user_target_access(&ResourceTarget::System("x".into())).unwrap_err();
    assert_eq!(e, "user must be admin to view system updates");
    let target = ResourceTarget::Server("s".into());
    let (kind, id) = check_user_target_access(&target).unwrap();
    assert_eq!(kind, ResourceTargetVariant::Server);
    assert_eq!(id, "s");
}

#[test]
fn meminfo_is_parsed_in_bytes() {
    let meminfo = "MemTotal:       16000 kB\nMemFree:         4000 kB\nMemAvailable:    8000 kB\nBuffers:          100 kB\nCached:          2000 kB\nSReclaimable:     300 kB\nShmem:            400 kB\n";
    let info = parse_meminfo(meminfo).unwrap();
    assert_eq!(info.total, 16000 * 1024);
    assert_eq!(info.available, 8000 * 1024);
    let arc = "name type data\nhits 4 100\nsize 4 1048576\n";
    assert_eq!(parse_zfs_arc_size(arc), 1048576);
    assert_eq!(parse_zfs_arc_size("hits 4 1\n"), 0);
    let b = read_linux(Some(meminfo), Some(arc)).unwrap();
    assert_eq!(b.buff_cache, (2000 + 300 + 100 - 400) * 1024);
    assert_eq!(b.used, (16000 - 8000) * 1024 - 1048576);
    assert!(read_linux(None, Some(arc)).is_none());
    let s = read_sysinfo(100, 30, 20);
    assert_eq!((s.total, s.free, s.used, s.buff_cache, s.zfs_arc), (100, 20, 70, 0, 0));
}

#[test]
fn meminfo_ignores_unrecognised_lines() {
    let meminfo = "MemTotal:       16000 kB\nMemFree:         4000 kB\nMemAvailable:    8000 kB\nShmem:            400 kB";
    let base = parse_meminfo(meminfo).unwrap();
    for extra in ["HugePages_Total:       0", "garbage line", "Cached: lots kB", "Buffers:", ""] {
        let longer = format!("{}\n{}", meminfo, extra);
        let info = parse_meminfo(&longer).unwrap();
        assert_eq!(
            (info.total, info.free, info.available, info.buffers, info.cached, info.s_reclaimable, info.shmem),
            (base.total, base.free, base.available, base.buffers, base.cached, base.s_reclaimable, base.shmem)
        );
    }
    // Also after a final line break, or a carriage return.
    let info = parse_meminfo("MemTotal: 1 kB\r\n\nfoo").unwrap();
    assert_eq!(info.total, 1024);
    assert!(parse_meminfo("MemFree: 1 kB\nMemTotal kB").is_none());
}

#[test]
fn summaries_count_by_state() {
    let servers = vec![
        ServerSummaryItem { state: ServerState::Okay, version: Some("1.0".into()), template: false },
        ServerSummaryItem { state: ServerState::Okay, version: Some("0.9".into()), template: false },
        ServerSummaryItem { state: ServerState::NotOk, version: None, template: false },
        ServerSummaryItem { state: ServerState::Disabled, version: None, template: true },
    ];
    let s = summarize_servers(&servers, "1.0");
    assert_eq!((s.total, s.healthy, s.warning, s.unhealthy, s.disabled), (4, 1, 1, 1, 0));
    let c = summarize_containers(&vec![
        ContainerStateStatusEnum::Running,
        ContainerStateStatusEnum::Exited,
        ContainerStateStatusEnum::Dead,
        ContainerStateStatusEnum::Empty,
        ContainerStateStatusEnum::Paused,
    ]);
    assert_eq!((c.total, c.running, c.stopped, c.unhealthy, c.unknown), (5, 1, 2, 1, 1));
    assert_eq!(c.running + c.stopped + c.unhealthy + c.unknown, c.total);
    let w = summarize_swarms(&vec![SwarmState::Healthy, SwarmState::Down, SwarmState::Unknown]);
    assert_eq!((w.total, w.healthy, w.down, w.unknown), (3, 1, 1, 1));
    let a = summarize_actions(&vec![
        ActionSummaryItem { state: RunState::Running, running: 2 },
        ActionSummaryItem { state: RunState::Okay, running: 0 },
        ActionSummaryItem { state: RunState::Failed, running: 0 },
    ]);
    assert_eq!((a.total, a.running, a.ok, a.failed), (3, 2, 1, 1));
    let pending = SyncSummaryItem {
        pending_deploys: 1, resource_updates: 0, variable_updates: 0, user_group_updates: 0,
        pending_error: true, remote_errors: 0, syncing: false,
    };
    let failed = SyncSummaryItem { pending_deploys: 0, ..pending };
    let r = summarize_resource_syncs(&vec![pending, failed]);
    assert_eq!((r.total, r.pending, r.failed, r.ok), (2, 1, 1, 0));
}

#[test]
fn random_values_are_alphanumeric() {
    let s = random_string(32);
    assert_eq!(s.len(), 32);
    assert!(s.chars().all(|c| c.is_ascii_alphanumeric()));
    let b = random_bytes(16);
    assert_eq!(b.len(), 16);
    assert!(b.iter().all(|c| c.is_ascii_alphanumeric()));
    assert_eq!(random_string(0), "");
}

#[test]
fn raising_permissions() {
    let read_logs = PermissionLevel::Read.logs();
    let exec = PermissionLevel::Execute.into_specifics();
    let joined = read_logs.join(&exec);
    assert_eq!(joined.level, PermissionLevel::Execute);
    assert!(joined.specific.contains(SpecificPermission::Logs));
    assert!(joined.fulfills(&read_logs));
    assert!(joined.fulfills(&exec));
    assert!(joined.fulfills(&joined.duplicate()));
    assert!(!exec.fulfills(&read_logs));
    let other_way = exec.join(&read_logs);
    assert_eq!(other_way.level, joined.level);
    assert_eq!(other_way.fulfills(&read_logs), joined.fulfills(&read_logs));
    assert_eq!(joined.specifics_for_log(), "Logs");
}

#[test]
fn list_check_agrees_with_single_resource_resolution() {
    let required = PermissionLevel::Read.logs();
    let records = vec![("r1".to_string(), PermissionLevel::Read.into_specifics())];
    let fine = FineListPermits::new(required.duplicate(), perm(PermissionLevel::NoAccess), &records);
    let listed = matches!(fine.check("r1", &PermissionLevel::NoAccess.logs(), false), PermitCheck::Permitted);
    let resolved = get_user_permission_on_resource(
        false,
        false,
        SpecificSet::new(),
        &PermissionLevel::NoAccess.logs(),
        None,
        &vec![],
        &vec![PermissionLevel::Read.into_specifics()],
    );
    assert!(listed);
    assert_eq!(listed, resolved.fulfills(&required));
    let listed = matches!(fine.check("r1", &perm(PermissionLevel::NoAccess), false), PermitCheck::Permitted);
    let resolved = get_user_permission_on_resource(
        false,
        false,
        SpecificSet::new(),
        &perm(PermissionLevel::NoAccess),
        None,
        &vec![],
        &vec![PermissionLevel::Read.into_specifics()],
    );
    assert!(!listed);
    assert_eq!(listed, resolved.fulfills(&required));
}

#[test]
fn inherited_specifics_are_cached() {
    let mut fine = FineListPermits::new(perm(PermissionLevel::Read), perm(PermissionLevel::NoAccess), &vec![]);
    let target = ResourceTarget::Server("srv".into());
    assert!(fine.cached_inherited(&target).is_none());
    fine.cache_inherited(target.clone(), SpecificSet::single(SpecificPermission::Terminal));
    let got = fine.cached_inherited(&ResourceTarget::Server("srv".into())).unwrap();
    assert!(got.contains(SpecificPermission::Terminal));
    assert!(fine.cached_inherited(&ResourceTarget::Stack("srv".into())).is_none());
}

#[test]
fn swarm_summary_adds_up() {
    let w = summarize_swarms(&vec![SwarmState::Healthy, SwarmState::Unhealthy, SwarmState::Down, SwarmState::Unknown, SwarmState::Healthy]);
    assert_eq!(w.healthy + w.unhealthy + w.down + w.unknown, w.total);
}
