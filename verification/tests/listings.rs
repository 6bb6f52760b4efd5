use komodo::resource_lists::{
    state_passes, RunListItem, RunListOrder, RunSortBy, SwarmListItem, SwarmListOrder, SyncListItem,
    SyncListOrder, SyncSortBy,
};
use komodo::sorting::sort_and_page;
use komodo::containers::{
    capped_tail, default_tail, list_all_containers, resource_matching_container, ContainerListItem,
    ContainerSortBy, ListAllContainers, StackServiceMatches,
};
use komodo::listing::{page_limit, paginate, PageState, PageStep};
use komodo::permission::target::ResourceTarget;
use komodo::schedule::{list_schedules, Schedule, ScheduleSortBy};
use komodo::summary::ContainerStateStatusEnum;

fn schedule(name: &str, sched: &str, next: Option<i64>, enabled: bool) -> Schedule {
    Schedule {
        target: ResourceTarget::Action(format!("id-{name}")),
        name: name.to_string(),
        enabled,
        schedule: sched.to_string(),
        schedule_timezone: String::new(),
        tags: vec![],
        last_run_at: None,
        next_scheduled_run: next,
        schedule_error: None,
    }
}

fn names(s: &[Schedule]) -> Vec<&str> {
    s.iter().map(|x| x.name.as_str()).collect()
}

fn sample() -> Vec<Schedule> {
    vec![
        schedule("delta", "every day", Some(30), true),
        schedule("alpha", "every hour", None, false),
        schedule("charlie", "every day", Some(10), true),
        schedule("bravo", "at noon", Some(30), false),
    ]
}

#[test]
fn schedules_sort_by_name() {
    let got = list_schedules(sample(), ScheduleSortBy::Name, false, 0, 0);
    assert_eq!(names(&got), vec!["alpha", "bravo", "charlie", "delta"]);
    let got = list_schedules(sample(), ScheduleSortBy::Name, true, 0, 0);
    assert_eq!(names(&got), vec!["delta", "charlie", "bravo", "alpha"]);
}

#[test]
fn schedules_sort_by_next_run_with_unscheduled_last() {
    let got = list_schedules(sample(), ScheduleSortBy::NextRun, false, 0, 0);
    assert_eq!(names(&got), vec!["charlie", "bravo", "delta", "alpha"]);
    let got = list_schedules(sample(), ScheduleSortBy::NextRun, true, 0, 0);
    assert_eq!(names(&got), vec!["alpha", "delta", "bravo", "charlie"]);
}

#[test]
fn schedules_sort_by_schedule_and_enabled() {
    let got = list_schedules(sample(), ScheduleSortBy::Schedule, false, 0, 0);
    assert_eq!(names(&got), vec!["bravo", "charlie", "delta", "alpha"]);
    let got = list_schedules(sample(), ScheduleSortBy::Enabled, false, 0, 0);
    assert_eq!(names(&got), vec!["alpha", "bravo", "charlie", "delta"]);
}

#[test]
fn schedules_are_paged_after_sorting() {
    let got = list_schedules(sample(), ScheduleSortBy::Name, false, 3, 0);
    assert_eq!(names(&got), vec!["alpha", "bravo", "charlie"]);
    let got = list_schedules(sample(), ScheduleSortBy::Name, false, 3, 1);
    assert_eq!(names(&got), vec!["delta"]);
    let got = list_schedules(sample(), ScheduleSortBy::Name, false, 3, 2);
    assert!(got.is_empty());
    let got = list_schedules(sample(), ScheduleSortBy::Name, false, 2, u64::MAX);
    assert!(got.is_empty());
}

#[test]
fn equal_keys_keep_their_order() {
    let items = vec![schedule("same", "a", None, true), schedule("same", "b", None, true)];
    let got = list_schedules(items, ScheduleSortBy::Name, true, 0, 0);
    assert_eq!(got[0].schedule, "a");
    assert_eq!(got[1].schedule, "b");
}

fn container(name: &str, state: ContainerStateStatusEnum, image: Option<&str>, port: Option<u16>) -> ContainerListItem {
    ContainerListItem {
        name: name.to_string(),
        server_name: Some("srv".to_string()),
        state,
        image: image.map(String::from),
        networks: vec![],
        ports: port.into_iter().collect(),
        volumes: vec![],
    }
}

fn request(terms: &[&str], states: Vec<ContainerStateStatusEnum>, sort_by: ContainerSortBy, desc: bool) -> ListAllContainers {
    ListAllContainers {
        servers: vec![],
        tags: vec![],
        terms: terms.iter().map(|t| t.to_string()).collect(),
        state: states,
        page: 0,
        limit: None,
        sort_by,
        sort_desc: desc,
    }
}

fn containers() -> Vec<ContainerListItem> {
    vec![
        container("Web-Frontend", ContainerStateStatusEnum::Running, Some("nginx"), Some(80)),
        container("db", ContainerStateStatusEnum::Exited, Some("postgres"), Some(5432)),
        container("web-backend", ContainerStateStatusEnum::Running, None, None),
    ]
}

#[test]
fn containers_filter_by_terms_case_insensitively() {
    let req = request(&["WEB"], vec![], ContainerSortBy::Name, false);
    let got = list_all_containers(containers(), &req, 0);
    let names: Vec<&str> = got.iter().map(|c| c.name.as_str()).collect();
    assert_eq!(names, vec!["Web-Frontend", "web-backend"]);
    let req = request(&["web", "back"], vec![], ContainerSortBy::Name, false);
    assert_eq!(list_all_containers(containers(), &req, 0).len(), 1);
}

#[test]
fn containers_filter_by_state() {
    let req = request(&[], vec![ContainerStateStatusEnum::Exited], ContainerSortBy::Name, false);
    let got = list_all_containers(containers(), &req, 0);
    assert_eq!(got.len(), 1);
    assert_eq!(got[0].name, "db");
}

#[test]
fn containers_sort_by_column_then_name() {
    let req = request(&[], vec![], ContainerSortBy::Image, false);
    let got = list_all_containers(containers(), &req, 0);
    let names: Vec<&str> = got.iter().map(|c| c.name.as_str()).collect();
    assert_eq!(names, vec!["web-backend", "Web-Frontend", "db"]);
    let req = request(&[], vec![], ContainerSortBy::Ports, true);
    let got = list_all_containers(containers(), &req, 0);
    let names: Vec<&str> = got.iter().map(|c| c.name.as_str()).collect();
    assert_eq!(names, vec!["db", "Web-Frontend", "web-backend"]);
    let req = request(&[], vec![], ContainerSortBy::Name, false);
    let got = list_all_containers(containers(), &req, 1);
    assert_eq!(got.len(), 1);
    assert_eq!(got[0].name, "Web-Frontend");
}

#[test]
fn container_log_tail() {
    assert_eq!(default_tail(), 100);
    assert_eq!(capped_tail(10), 10);
    assert_eq!(capped_tail(5000), 5000);
    assert_eq!(capped_tail(9999), 5000);
}

#[test]
fn matching_container_resource_order() {
    let stacks = vec![
        StackServiceMatches { stack_id: "s1".into(), matches: vec![false, false] },
        StackServiceMatches { stack_id: "s2".into(), matches: vec![false, true] },
        StackServiceMatches { stack_id: "s3".into(), matches: vec![true] },
    ];
    let r = resource_matching_container("app", Some("d1".into()), Some(("d2".into(), "app".into())), &stacks);
    assert!(matches!(r, Some(ResourceTarget::Deployment(id)) if id == "d1"));
    let r = resource_matching_container("", Some("d1".into()), Some(("d2".into(), "".into())), &stacks);
    assert!(matches!(r, Some(ResourceTarget::Deployment(id)) if id == "d2"));
    let r = resource_matching_container("app", None, Some(("d2".into(), "other".into())), &stacks);
    assert!(matches!(r, Some(ResourceTarget::Stack(id)) if id == "s2"));
    let r = resource_matching_container("app", None, None, &vec![]);
    assert!(r.is_none());
}

#[test]
fn paging_helpers() {
    assert_eq!(page_limit(Some(25)), 25);
    assert_eq!(page_limit(Some(-3)), 0);
    assert_eq!(page_limit(None), 0);
    assert_eq!(paginate(vec![1, 2, 3, 4, 5], 2, 1), vec![3, 4]);
    assert_eq!(paginate(vec![1, 2, 3], 0, 7), vec![1, 2, 3]);
    let mut st = PageState::new();
    assert_eq!(st.step(1, 2), PageStep::Skip);
    assert_eq!(st.step(1, 2), PageStep::Take);
    assert_eq!(st.step(1, 2), PageStep::TakeAndStop);
}

#[test]
fn resource_list_orders() {
    let run = |name: &str, rank: u8, next: Option<i64>| RunListItem { name: name.into(), state_rank: rank, next_scheduled_run: next };
    let items = vec![run("b", 1, Some(5)), run("a", 1, None), run("c", 0, Some(1))];
    let got = sort_and_page(&RunListOrder { sort_by: RunSortBy::NextRun, desc: false }, items.clone(), 0, 0);
    let names: Vec<&str> = got.iter().map(|x| x.name.as_str()).collect();
    assert_eq!(names, vec!["a", "c", "b"]);
    let got = sort_and_page(&RunListOrder { sort_by: RunSortBy::State, desc: true }, items, 2, 0);
    let names: Vec<&str> = got.iter().map(|x| x.name.as_str()).collect();
    assert_eq!(names, vec!["b", "a"]);
    let sync = |name: &str, host: bool, linked: &str, repo: &str| SyncListItem {
        name: name.into(), files_on_host: host, linked_repo_name: linked.into(), repo: repo.into(),
        branch: "main".into(), state_rank: 0,
    };
    let syncs = vec![sync("x", true, "", ""), sync("y", false, "", "org/b"), sync("z", false, "", "org/a")];
    let got = sort_and_page(&SyncListOrder { sort_by: SyncSortBy::Source, desc: false }, syncs, 0, 0);
    let names: Vec<&str> = got.iter().map(|x| x.name.as_str()).collect();
    assert_eq!(names, vec!["z", "y", "x"]);
    let swarms = vec![
        SwarmListItem { name: "s2".into(), state_rank: 2 },
        SwarmListItem { name: "s1".into(), state_rank: 2 },
        SwarmListItem { name: "s0".into(), state_rank: 1 },
    ];
    let got = sort_and_page(&SwarmListOrder { desc: false }, swarms, 0, 0);
    let names: Vec<&str> = got.iter().map(|x| x.name.as_str()).collect();
    assert_eq!(names, vec!["s0", "s1", "s2"]);
    assert!(state_passes(&[], 3));
    assert!(state_passes(&[1, 3], 3));
    assert!(!state_passes(&[1], 3));
}
