//! Summaries of resource states, as shown on the dashboard: how many
//! resources of a type are in each state.

use vstd::prelude::*;

verus! {

/// The number of items of `s` that satisfy `f`.
pub open spec fn count_where<T>(s: Seq<T>, f: spec_fn(T) -> bool) -> nat
    decreases s.len(),
{
    if s.len() == 0 {
        0
    } else {
        count_where(s.drop_last(), f) + if f(s.last()) { 1nat } else { 0nat }
    }
}

/// Counting never exceeds the number of items.
pub proof fn lemma_count_le_len<T>(s: Seq<T>, f: spec_fn(T) -> bool)
    ensures
        count_where(s, f) <= s.len(),
    decreases s.len(),
{
    if s.len() > 0 {
        lemma_count_le_len(s.drop_last(), f);
    }
}

/// Counting over one more item.
proof fn lemma_count_push<T>(s: Seq<T>, i: int, f: spec_fn(T) -> bool)
    requires
        0 <= i < s.len(),
    ensures
        count_where(s.take(i + 1), f) == count_where(s.take(i), f) + if f(s[i]) { 1nat } else { 0nat },
{
    assert(s.take(i + 1).drop_last() =~= s.take(i));
}

// ----- Servers -----

/// The state of a server as last seen.
#[derive(Clone, Copy, Debug, PartialEq, Eq, Structural)]
pub enum ServerState {
    /// Server health check passing.
    Okay,
    /// Server is unreachable.
    NotOk,
    /// Server is disabled.
    Disabled,
}

/// What the server summary reads of one server.
pub struct ServerSummaryItem {
    pub state: ServerState,
    /// The Periphery version the server reported, if any.
    pub version: Option<String>,
    /// Whether the server is a template.
    pub template: bool,
}

/// Response for the servers summary.
#[derive(Clone, Copy, Debug, PartialEq, Eq, Structural)]
pub struct GetServersSummaryResponse {
    /// The total number of servers.
    pub total: u32,
    /// The number of healthy (`status: OK`) servers.
    pub healthy: u32,
    /// The number of servers with warnings (e.g., version mismatch).
    pub warning: u32,
    /// The number of unhealthy servers.
    pub unhealthy: u32,
    /// The number of disabled servers.
    pub disabled: u32,
}

/// A reachable server whose version differs from the core's has a warning.
pub open spec fn server_is_warning(core_version: Seq<char>) -> spec_fn(ServerSummaryItem) -> bool {
    |s: ServerSummaryItem|
        s.state == ServerState::Okay && (s.version matches Some(v) && v@ != core_version)
}

/// A reachable server running the core's version (or not reporting one) is healthy.
pub open spec fn server_is_healthy(core_version: Seq<char>) -> spec_fn(ServerSummaryItem) -> bool {
    |s: ServerSummaryItem|
        s.state == ServerState::Okay && !(s.version matches Some(v) && v@ != core_version)
}

/// An unreachable server is unhealthy.
pub open spec fn server_is_unhealthy() -> spec_fn(ServerSummaryItem) -> bool {
    |s: ServerSummaryItem| s.state == ServerState::NotOk
}

/// A disabled server counts as disabled unless it is a template.
pub open spec fn server_is_disabled() -> spec_fn(ServerSummaryItem) -> bool {
    |s: ServerSummaryItem| s.state == ServerState::Disabled && !s.template
}

/// Counts servers by state. Servers reachable but on another version than
/// `core_version` are counted as warnings; disabled templates are counted
/// only in the total.
pub fn summarize_servers(servers: &Vec<ServerSummaryItem>, core_version: &str) -> (res: GetServersSummaryResponse)
    requires
        servers@.len() <= u32::MAX,
    ensures
        res.total == servers@.len(),
        res.healthy == count_where(servers@, server_is_healthy(core_version@)),
        res.warning == count_where(servers@, server_is_warning(core_version@)),
        res.unhealthy == count_where(servers@, server_is_unhealthy()),
        res.disabled == count_where(servers@, server_is_disabled()),
{
    let mut res = GetServersSummaryResponse { total: 0, healthy: 0, warning: 0, unhealthy: 0, disabled: 0 };
    let n = servers.len();
    let mut i: usize = 0;
    while i < n
        invariant
            n == servers@.len(),
            n <= u32::MAX,
            i <= n,
            res.total == i,
            res.healthy == count_where(servers@.take(i as int), server_is_healthy(core_version@)),
            res.warning == count_where(servers@.take(i as int), server_is_warning(core_version@)),
            res.unhealthy == count_where(servers@.take(i as int), server_is_unhealthy()),
            res.disabled == count_where(servers@.take(i as int), server_is_disabled()),
        decreases n - i,
    {
        let server = &servers[i];
        proof {
            lemma_count_push(servers@, i as int, server_is_healthy(core_version@));
            lemma_count_push(servers@, i as int, server_is_warning(core_version@));
            lemma_count_push(servers@, i as int, server_is_unhealthy());
            lemma_count_push(servers@, i as int, server_is_disabled());
            lemma_count_le_len(servers@.take(i as int), server_is_healthy(core_version@));
            lemma_count_le_len(servers@.take(i as int), server_is_warning(core_version@));
            lemma_count_le_len(servers@.take(i as int), server_is_unhealthy());
            lemma_count_le_len(servers@.take(i as int), server_is_disabled());
        }
        res.total = res.total + 1;
        match server.state {
            ServerState::Okay => {
                let mismatch = match &server.version {
                    Some(version) => !crate::text::chars_eq_str(
                        crate::text::str_chars(version.as_str()).as_slice(),
                        core_version,
                    ),
                    None => false,
                };
                if mismatch {
                    res.warning = res.warning + 1;
                } else {
                    res.healthy = res.healthy + 1;
                }
            },
            ServerState::NotOk => {
                res.unhealthy = res.unhealthy + 1;
            },
            ServerState::Disabled => {
                if !server.template {
                    res.disabled = res.disabled + 1;
                }
            },
        }
        i = i + 1;
    }
    proof {
        assert(servers@.take(n as int) =~= servers@);
    }
    res
}

// ----- Containers -----

/// The state of a container, as docker reports it.
#[derive(Clone, Copy, Debug, PartialEq, Eq, Structural)]
pub enum ContainerStateStatusEnum {
    Empty,
    Created,
    Running,
    Paused,
    Restarting,
    Removing,
    Exited,
    Dead,
}

/// Response for the containers summary.
#[derive(Clone, Copy, Debug, PartialEq, Eq, Structural)]
pub struct GetContainersSummaryResponse {
    /// The total number of Containers
    pub total: u32,
    /// The number of Containers with Running state
    pub running: u32,
    /// The number of Containers with Stopped or Paused or Created state
    pub stopped: u32,
    /// The number of Containers with Restarting or Dead state
    pub unhealthy: u32,
    /// The number of Containers with Unknown state
    pub unknown: u32,
}

/// Created, paused and exited containers count as stopped.
pub open spec fn container_is_stopped() -> spec_fn(ContainerStateStatusEnum) -> bool {
    |s: ContainerStateStatusEnum|
        s == ContainerStateStatusEnum::Created || s == ContainerStateStatusEnum::Paused || s
            == ContainerStateStatusEnum::Exited
}

/// A container in the given state.
pub open spec fn container_in(state: ContainerStateStatusEnum) -> spec_fn(ContainerStateStatusEnum) -> bool {
    |s: ContainerStateStatusEnum| s == state
}

/// Restarting, removing and dead containers count as unhealthy.
pub open spec fn container_is_unhealthy() -> spec_fn(ContainerStateStatusEnum) -> bool {
    |s: ContainerStateStatusEnum|
        s == ContainerStateStatusEnum::Restarting || s == ContainerStateStatusEnum::Removing || s
            == ContainerStateStatusEnum::Dead
}

/// Counts containers by state across the given container states.
pub fn summarize_containers(states: &Vec<ContainerStateStatusEnum>) -> (res: GetContainersSummaryResponse)
    requires
        states@.len() <= u32::MAX,
    ensures
        res.total == states@.len(),
        res.running == count_where(states@, container_in(ContainerStateStatusEnum::Running)),
        res.stopped == count_where(states@, container_is_stopped()),
        res.unhealthy == count_where(states@, container_is_unhealthy()),
        res.unknown == count_where(states@, container_in(ContainerStateStatusEnum::Empty)),
{
    let mut res = GetContainersSummaryResponse { total: 0, running: 0, stopped: 0, unhealthy: 0, unknown: 0 };
    let n = states.len();
    let mut i: usize = 0;
    while i < n
        invariant
            n == states@.len(),
            n <= u32::MAX,
            i <= n,
            res.total == i,
            res.running == count_where(states@.take(i as int), container_in(ContainerStateStatusEnum::Running)),
            res.stopped == count_where(states@.take(i as int), container_is_stopped()),
            res.unhealthy == count_where(states@.take(i as int), container_is_unhealthy()),
            res.unknown == count_where(states@.take(i as int), container_in(ContainerStateStatusEnum::Empty)),
        decreases n - i,
    {
        proof {
            lemma_count_push(states@, i as int, container_in(ContainerStateStatusEnum::Running));
            lemma_count_push(states@, i as int, container_is_stopped());
            lemma_count_push(states@, i as int, container_is_unhealthy());
            lemma_count_push(states@, i as int, container_in(ContainerStateStatusEnum::Empty));
            lemma_count_le_len(states@.take(i as int), container_in(ContainerStateStatusEnum::Running));
            lemma_count_le_len(states@.take(i as int), container_is_stopped());
            lemma_count_le_len(states@.take(i as int), container_is_unhealthy());
            lemma_count_le_len(states@.take(i as int), container_in(ContainerStateStatusEnum::Empty));
        }
        res.total = res.total + 1;
        match states[i] {
            ContainerStateStatusEnum::Created | ContainerStateStatusEnum::Paused
            | ContainerStateStatusEnum::Exited => res.stopped = res.stopped + 1,
            ContainerStateStatusEnum::Running => res.running = res.running + 1,
            ContainerStateStatusEnum::Empty => res.unknown = res.unknown + 1,
            _ => res.unhealthy = res.unhealthy + 1,
        }
        i = i + 1;
    }
    proof {
        assert(states@.take(n as int) =~= states@);
    }
    res
}

// ----- Swarms -----

/// The health of a swarm.
#[derive(Clone, Copy, Debug, PartialEq, Eq, Structural)]
pub enum SwarmState {
    Unknown,
    Healthy,
    Unhealthy,
    Down,
}

/// Response for the swarms summary.
#[derive(Clone, Copy, Debug, PartialEq, Eq, Structural)]
pub struct GetSwarmsSummaryResponse {
    pub total: u32,
    pub healthy: u32,
    pub unhealthy: u32,
    pub down: u32,
    pub unknown: u32,
}

/// A swarm in the given state.
pub open spec fn swarm_in(state: SwarmState) -> spec_fn(SwarmState) -> bool {
    |s: SwarmState| s == state
}

/// Counts swarms by state; swarms without a cached status are given as `Unknown`.
pub fn summarize_swarms(states: &Vec<SwarmState>) -> (res: GetSwarmsSummaryResponse)
    requires
        states@.len() <= u32::MAX,
    ensures
        res.total == states@.len(),
        res.healthy == count_where(states@, swarm_in(SwarmState::Healthy)),
        res.unhealthy == count_where(states@, swarm_in(SwarmState::Unhealthy)),
        res.down == count_where(states@, swarm_in(SwarmState::Down)),
        res.unknown == count_where(states@, swarm_in(SwarmState::Unknown)),
{
    let mut res = GetSwarmsSummaryResponse { total: 0, healthy: 0, unhealthy: 0, down: 0, unknown: 0 };
    let n = states.len();
    let mut i: usize = 0;
    while i < n
        invariant
            n == states@.len(),
            n <= u32::MAX,
            i <= n,
            res.total == i,
            res.healthy == count_where(states@.take(i as int), swarm_in(SwarmState::Healthy)),
            res.unhealthy == count_where(states@.take(i as int), swarm_in(SwarmState::Unhealthy)),
            res.down == count_where(states@.take(i as int), swarm_in(SwarmState::Down)),
            res.unknown == count_where(states@.take(i as int), swarm_in(SwarmState::Unknown)),
        decreases n - i,
    {
        proof {
            lemma_count_push(states@, i as int, swarm_in(SwarmState::Healthy));
            lemma_count_push(states@, i as int, swarm_in(SwarmState::Unhealthy));
            lemma_count_push(states@, i as int, swarm_in(SwarmState::Down));
            lemma_count_push(states@, i as int, swarm_in(SwarmState::Unknown));
            lemma_count_le_len(states@.take(i as int), swarm_in(SwarmState::Healthy));
            lemma_count_le_len(states@.take(i as int), swarm_in(SwarmState::Unhealthy));
            lemma_count_le_len(states@.take(i as int), swarm_in(SwarmState::Down));
            lemma_count_le_len(states@.take(i as int), swarm_in(SwarmState::Unknown));
        }
        res.total = res.total + 1;
        match states[i] {
            SwarmState::Unknown => res.unknown = res.unknown + 1,
            SwarmState::Healthy => res.healthy = res.healthy + 1,
            SwarmState::Unhealthy => res.unhealthy = res.unhealthy + 1,
            SwarmState::Down => res.down = res.down + 1,
        }
        i = i + 1;
    }
    proof {
        assert(states@.take(n as int) =~= states@);
    }
    res
}


// ----- Actions and procedures -----

/// The last known state of an action or procedure run.
#[derive(Clone, Copy, Debug, PartialEq, Eq, Structural)]
pub enum RunState {
    /// Last run successful.
    Okay,
    /// Last run failed.
    Failed,
    /// Currently running.
    Running,
    /// Unknown (never run).
    Unknown,
}

/// What the actions summary reads of one action: its cached state and how
/// many runs of it are in progress.
#[derive(Clone, Copy, Debug)]
pub struct ActionSummaryItem {
    pub state: RunState,
    pub running: u32,
}

/// Response for the actions summary.
#[derive(Clone, Copy, Debug, PartialEq, Eq, Structural)]
pub struct GetActionsSummaryResponse {
    pub total: u32,
    pub ok: u32,
    pub running: u32,
    pub failed: u32,
    pub unknown: u32,
}

/// The number of runs in progress over all actions.
pub open spec fn sum_running(s: Seq<ActionSummaryItem>) -> nat
    decreases s.len(),
{
    if s.len() == 0 {
        0
    } else {
        sum_running(s.drop_last()) + s.last().running as nat
    }
}

/// An idle action whose cached state is `state`.
pub open spec fn action_idle_in(state: RunState) -> spec_fn(ActionSummaryItem) -> bool {
    |a: ActionSummaryItem| a.running == 0 && a.state == state
}

proof fn lemma_sum_running_push(s: Seq<ActionSummaryItem>, i: int)
    requires
        0 <= i < s.len(),
    ensures
        sum_running(s.take(i + 1)) == sum_running(s.take(i)) + s[i].running,
{
    assert(s.take(i + 1).drop_last() =~= s.take(i));
}

proof fn lemma_sum_running_prefix(s: Seq<ActionSummaryItem>, i: int)
    requires
        0 <= i <= s.len(),
    ensures
        sum_running(s.take(i)) <= sum_running(s),
    decreases s.len() - i,
{
    if i < s.len() {
        lemma_sum_running_prefix(s, i + 1);
        lemma_sum_running_push(s, i);
    } else {
        assert(s.take(i) =~= s);
    }
}

/// Counts actions by state. Actions with runs in progress add their number
/// of runs to `running`; the rest are counted by their cached state, which
/// is never `Running` for an idle action.
pub fn summarize_actions(actions: &Vec<ActionSummaryItem>) -> (res: GetActionsSummaryResponse)
    requires
        actions@.len() <= u32::MAX,
        sum_running(actions@) <= u32::MAX,
        forall|i: int| 0 <= i < actions@.len() && actions@[i].state == RunState::Running ==> #[trigger] actions@[i].running > 0,
    ensures
        res.total == actions@.len(),
        res.running == sum_running(actions@),
        res.ok == count_where(actions@, action_idle_in(RunState::Okay)),
        res.failed == count_where(actions@, action_idle_in(RunState::Failed)),
        res.unknown == count_where(actions@, action_idle_in(RunState::Unknown)),
{
    let mut res = GetActionsSummaryResponse { total: 0, ok: 0, running: 0, failed: 0, unknown: 0 };
    let n = actions.len();
    let mut i: usize = 0;
    while i < n
        invariant
            n == actions@.len(),
            n <= u32::MAX,
            sum_running(actions@) <= u32::MAX,
            forall|i: int| 0 <= i < actions@.len() && actions@[i].state == RunState::Running ==> #[trigger] actions@[i].running > 0,
            i <= n,
            res.total == i,
            res.running == sum_running(actions@.take(i as int)),
            res.ok == count_where(actions@.take(i as int), action_idle_in(RunState::Okay)),
            res.failed == count_where(actions@.take(i as int), action_idle_in(RunState::Failed)),
            res.unknown == count_where(actions@.take(i as int), action_idle_in(RunState::Unknown)),
        decreases n - i,
    {
        let a = actions[i];
        proof {
            lemma_count_push(actions@, i as int, action_idle_in(RunState::Okay));
            lemma_count_push(actions@, i as int, action_idle_in(RunState::Failed));
            lemma_count_push(actions@, i as int, action_idle_in(RunState::Unknown));
            lemma_count_le_len(actions@.take(i as int), action_idle_in(RunState::Okay));
            lemma_count_le_len(actions@.take(i as int), action_idle_in(RunState::Failed));
            lemma_count_le_len(actions@.take(i as int), action_idle_in(RunState::Unknown));
            lemma_sum_running_push(actions@, i as int);
            lemma_sum_running_prefix(actions@, i + 1);
        }
        res.total = res.total + 1;
        if a.running > 0 {
            res.running = res.running + a.running;
        } else {
            match a.state {
                RunState::Okay => res.ok = res.ok + 1,
                RunState::Failed => res.failed = res.failed + 1,
                RunState::Unknown => res.unknown = res.unknown + 1,
                RunState::Running => {
                    assert(false);
                },
            }
        }
        i = i + 1;
    }
    proof {
        assert(actions@.take(n as int) =~= actions@);
    }
    res
}

/// What the procedures summary reads of one procedure: its cached state and
/// whether a run of it is in progress.
#[derive(Clone, Copy, Debug)]
pub struct ProcedureSummaryItem {
    pub state: RunState,
    pub running: bool,
}

/// Response for the procedures summary.
#[derive(Clone, Copy, Debug, PartialEq, Eq, Structural)]
pub struct GetProceduresSummaryResponse {
    pub total: u32,
    pub ok: u32,
    pub running: u32,
    pub failed: u32,
    pub unknown: u32,
}

/// A procedure with a run in progress.
pub open spec fn procedure_running() -> spec_fn(ProcedureSummaryItem) -> bool {
    |p: ProcedureSummaryItem| p.running
}

/// An idle procedure whose cached state is `state`.
pub open spec fn procedure_idle_in(state: RunState) -> spec_fn(ProcedureSummaryItem) -> bool {
    |p: ProcedureSummaryItem| !p.running && p.state == state
}

/// Counts procedures by state: running ones first, the rest by their cached
/// state, which is never `Running` for an idle procedure.
pub fn summarize_procedures(procedures: &Vec<ProcedureSummaryItem>) -> (res: GetProceduresSummaryResponse)
    requires
        procedures@.len() <= u32::MAX,
        forall|i: int| 0 <= i < procedures@.len() && procedures@[i].state == RunState::Running ==> #[trigger] procedures@[i].running,
    ensures
        res.total == procedures@.len(),
        res.running == count_where(procedures@, procedure_running()),
        res.ok == count_where(procedures@, procedure_idle_in(RunState::Okay)),
        res.failed == count_where(procedures@, procedure_idle_in(RunState::Failed)),
        res.unknown == count_where(procedures@, procedure_idle_in(RunState::Unknown)),
{
    let mut res = GetProceduresSummaryResponse { total: 0, ok: 0, running: 0, failed: 0, unknown: 0 };
    let n = procedures.len();
    let mut i: usize = 0;
    while i < n
        invariant
            n == procedures@.len(),
            n <= u32::MAX,
            forall|i: int| 0 <= i < procedures@.len() && procedures@[i].state == RunState::Running ==> #[trigger] procedures@[i].running,
            i <= n,
            res.total == i,
            res.running == count_where(procedures@.take(i as int), procedure_running()),
            res.ok == count_where(procedures@.take(i as int), procedure_idle_in(RunState::Okay)),
            res.failed == count_where(procedures@.take(i as int), procedure_idle_in(RunState::Failed)),
            res.unknown == count_where(procedures@.take(i as int), procedure_idle_in(RunState::Unknown)),
        decreases n - i,
    {
        let p = procedures[i];
        proof {
            lemma_count_push(procedures@, i as int, procedure_running());
            lemma_count_push(procedures@, i as int, procedure_idle_in(RunState::Okay));
            lemma_count_push(procedures@, i as int, procedure_idle_in(RunState::Failed));
            lemma_count_push(procedures@, i as int, procedure_idle_in(RunState::Unknown));
            lemma_count_le_len(procedures@.take(i as int), procedure_running());
            lemma_count_le_len(procedures@.take(i as int), procedure_idle_in(RunState::Okay));
            lemma_count_le_len(procedures@.take(i as int), procedure_idle_in(RunState::Failed));
            lemma_count_le_len(procedures@.take(i as int), procedure_idle_in(RunState::Unknown));
        }
        res.total = res.total + 1;
        if p.running {
            res.running = res.running + 1;
        } else {
            match p.state {
                RunState::Okay => res.ok = res.ok + 1,
                RunState::Failed => res.failed = res.failed + 1,
                RunState::Unknown => res.unknown = res.unknown + 1,
                RunState::Running => {
                    assert(false);
                },
            }
        }
        i = i + 1;
    }
    proof {
        assert(procedures@.take(n as int) =~= procedures@);
    }
    res
}

// ----- Resource syncs -----

/// What the resource syncs summary reads of one sync: the sizes of its
/// pending change lists, whether it holds a pending error, how many remote
/// errors it has, and whether it is syncing now.
#[derive(Clone, Copy, Debug)]
pub struct SyncSummaryItem {
    pub pending_deploys: usize,
    pub resource_updates: usize,
    pub variable_updates: usize,
    pub user_group_updates: usize,
    pub pending_error: bool,
    pub remote_errors: usize,
    pub syncing: bool,
}

/// Response for the resource syncs summary.
#[derive(Clone, Copy, Debug, PartialEq, Eq, Structural)]
pub struct GetResourceSyncsSummaryResponse {
    pub total: u32,
    pub ok: u32,
    pub syncing: u32,
    pub pending: u32,
    pub failed: u32,
    pub unknown: u32,
}

/// A sync with any pending change is pending.
pub open spec fn sync_is_pending() -> spec_fn(SyncSummaryItem) -> bool {
    |s: SyncSummaryItem|
        !(s.pending_deploys == 0 && s.resource_updates == 0 && s.variable_updates == 0
            && s.user_group_updates == 0)
}

/// A sync without pending changes but with errors has failed.
pub open spec fn sync_is_failed() -> spec_fn(SyncSummaryItem) -> bool {
    |s: SyncSummaryItem| !sync_is_pending()(s) && (s.pending_error || s.remote_errors != 0)
}

/// A sync without pending changes or errors that is syncing now.
pub open spec fn sync_is_syncing() -> spec_fn(SyncSummaryItem) -> bool {
    |s: SyncSummaryItem| !sync_is_pending()(s) && !sync_is_failed()(s) && s.syncing
}

/// A sync with nothing pending, no errors, and not syncing.
pub open spec fn sync_is_ok() -> spec_fn(SyncSummaryItem) -> bool {
    |s: SyncSummaryItem| !sync_is_pending()(s) && !sync_is_failed()(s) && !s.syncing
}

/// Counts resource syncs: pending changes first, then errors, then whether
/// a sync is running, and otherwise ok.
pub fn summarize_resource_syncs(syncs: &Vec<SyncSummaryItem>) -> (res: GetResourceSyncsSummaryResponse)
    requires
        syncs@.len() <= u32::MAX,
    ensures
        res.total == syncs@.len(),
        res.pending == count_where(syncs@, sync_is_pending()),
        res.failed == count_where(syncs@, sync_is_failed()),
        res.syncing == count_where(syncs@, sync_is_syncing()),
        res.ok == count_where(syncs@, sync_is_ok()),
        res.unknown == 0,
{
    let mut res = GetResourceSyncsSummaryResponse { total: 0, ok: 0, syncing: 0, pending: 0, failed: 0, unknown: 0 };
    let n = syncs.len();
    let mut i: usize = 0;
    while i < n
        invariant
            n == syncs@.len(),
            n <= u32::MAX,
            i <= n,
            res.total == i,
            res.unknown == 0,
            res.pending == count_where(syncs@.take(i as int), sync_is_pending()),
            res.failed == count_where(syncs@.take(i as int), sync_is_failed()),
            res.syncing == count_where(syncs@.take(i as int), sync_is_syncing()),
            res.ok == count_where(syncs@.take(i as int), sync_is_ok()),
        decreases n - i,
    {
        let s = syncs[i];
        proof {
            lemma_count_push(syncs@, i as int, sync_is_pending());
            lemma_count_push(syncs@, i as int, sync_is_failed());
            lemma_count_push(syncs@, i as int, sync_is_syncing());
            lemma_count_push(syncs@, i as int, sync_is_ok());
            lemma_count_le_len(syncs@.take(i as int), sync_is_pending());
            lemma_count_le_len(syncs@.take(i as int), sync_is_failed());
            lemma_count_le_len(syncs@.take(i as int), sync_is_syncing());
            lemma_count_le_len(syncs@.take(i as int), sync_is_ok());
        }
        res.total = res.total + 1;
        if !(s.pending_deploys == 0 && s.resource_updates == 0 && s.variable_updates == 0
            && s.user_group_updates == 0) {
            res.pending = res.pending + 1;
        } else if s.pending_error || s.remote_errors != 0 {
            res.failed = res.failed + 1;
        } else if s.syncing {
            res.syncing = res.syncing + 1;
        } else {
            res.ok = res.ok + 1;
        }
        i = i + 1;
    }
    proof {
        assert(syncs@.take(n as int) =~= syncs@);
    }
    res
}

/// Response for the alerters summary.
#[derive(Clone, Copy, Debug, PartialEq, Eq, Structural)]
pub struct GetAlertersSummaryResponse {
    pub total: u32,
}

/// Response for the builders summary.
#[derive(Clone, Copy, Debug, PartialEq, Eq, Structural)]
pub struct GetBuildersSummaryResponse {
    /// The total number of builders.
    pub total: u32,
}

/// Response for the repos summary.
#[derive(Clone, Copy, Debug, PartialEq, Eq, Structural)]
pub struct GetReposSummaryResponse {
    /// The total number of repos
    pub total: u32,
    /// The number of repos with Ok state.
    pub ok: u32,
    /// The number of repos currently cloning.
    pub cloning: u32,
    /// The number of repos currently pulling.
    pub pulling: u32,
    /// The number of repos currently building.
    pub building: u32,
    /// The number of repos with failed state.
    pub failed: u32,
    /// The number of repos with unknown state.
    pub unknown: u32,
}

/// Counts by four predicates that sort every item into exactly one of them
/// add up to the number of items.
proof fn lemma_count_partition4<T>(
    s: Seq<T>,
    a: spec_fn(T) -> bool,
    b: spec_fn(T) -> bool,
    c: spec_fn(T) -> bool,
    d: spec_fn(T) -> bool,
)
    requires
        forall|x: T|
            (if #[trigger] a(x) { 1int } else { 0int }) + (if b(x) { 1int } else { 0int }) + (if c(x) {
                1int
            } else {
                0int
            }) + (if d(x) { 1int } else { 0int }) == 1,
    ensures
        count_where(s, a) + count_where(s, b) + count_where(s, c) + count_where(s, d) == s.len(),
    decreases s.len(),
{
    if s.len() > 0 {
        lemma_count_partition4(s.drop_last(), a, b, c, d);
        let x = s.last();
        assert((if a(x) { 1int } else { 0int }) + (if b(x) { 1int } else { 0int }) + (if c(x) { 1int } else { 0int })
            + (if d(x) { 1int } else { 0int }) == 1);
    }
}

/// Every container is counted in exactly one state group: the running,
/// stopped, unhealthy and unknown counts add up to the total.
pub proof fn law_container_summary_adds_up(states: Seq<ContainerStateStatusEnum>)
    ensures
        count_where(states, container_in(ContainerStateStatusEnum::Running)) + count_where(
            states,
            container_is_stopped(),
        ) + count_where(states, container_is_unhealthy()) + count_where(
            states,
            container_in(ContainerStateStatusEnum::Empty),
        ) == states.len(),
{
    lemma_count_partition4(
        states,
        container_in(ContainerStateStatusEnum::Running),
        container_is_stopped(),
        container_is_unhealthy(),
        container_in(ContainerStateStatusEnum::Empty),
    );
}

/// Counting by a predicate that holds exactly where one of three others
/// does, and no two of those at once, adds up their counts.
proof fn lemma_count_split3<T>(
    s: Seq<T>,
    f: spec_fn(T) -> bool,
    a: spec_fn(T) -> bool,
    b: spec_fn(T) -> bool,
    c: spec_fn(T) -> bool,
)
    requires
        forall|x: T|
            (if #[trigger] f(x) { 1int } else { 0int }) == (if a(x) { 1int } else { 0int }) + (if b(x) {
                1int
            } else {
                0int
            }) + (if c(x) { 1int } else { 0int }),
    ensures
        count_where(s, f) == count_where(s, a) + count_where(s, b) + count_where(s, c),
    decreases s.len(),
{
    if s.len() > 0 {
        lemma_count_split3(s.drop_last(), f, a, b, c);
        let x = s.last();
        assert((if f(x) { 1int } else { 0int }) == (if a(x) { 1int } else { 0int }) + (if b(x) { 1int } else {
            0int
        }) + (if c(x) { 1int } else { 0int }));
    }
}

/// The stopped containers are exactly the created, paused and exited ones,
/// and the unhealthy ones exactly the restarting, removing and dead ones:
/// each count is the sum of the counts of those three states.
pub proof fn law_container_stopped_and_unhealthy_states(states: Seq<ContainerStateStatusEnum>)
    ensures
        count_where(states, container_is_stopped()) == count_where(
            states,
            container_in(ContainerStateStatusEnum::Created),
        ) + count_where(states, container_in(ContainerStateStatusEnum::Paused)) + count_where(
            states,
            container_in(ContainerStateStatusEnum::Exited),
        ),
        count_where(states, container_is_unhealthy()) == count_where(
            states,
            container_in(ContainerStateStatusEnum::Restarting),
        ) + count_where(states, container_in(ContainerStateStatusEnum::Removing)) + count_where(
            states,
            container_in(ContainerStateStatusEnum::Dead),
        ),
{
    lemma_count_split3(
        states,
        container_is_stopped(),
        container_in(ContainerStateStatusEnum::Created),
        container_in(ContainerStateStatusEnum::Paused),
        container_in(ContainerStateStatusEnum::Exited),
    );
    lemma_count_split3(
        states,
        container_is_unhealthy(),
        container_in(ContainerStateStatusEnum::Restarting),
        container_in(ContainerStateStatusEnum::Removing),
        container_in(ContainerStateStatusEnum::Dead),
    );
}

/// Every swarm is counted in exactly one state group: the healthy,
/// unhealthy, down and unknown counts add up to the total.
pub proof fn law_swarm_summary_adds_up(states: Seq<SwarmState>)
    ensures
        count_where(states, swarm_in(SwarmState::Healthy)) + count_where(
            states,
            swarm_in(SwarmState::Unhealthy),
        ) + count_where(states, swarm_in(SwarmState::Down)) + count_where(
            states,
            swarm_in(SwarmState::Unknown),
        ) == states.len(),
{
    lemma_count_partition4(
        states,
        swarm_in(SwarmState::Healthy),
        swarm_in(SwarmState::Unhealthy),
        swarm_in(SwarmState::Down),
        swarm_in(SwarmState::Unknown),
    );
}

/// Counting over one more item adds one where the item is counted.
proof fn lemma_count_one_more<T>(s: Seq<T>, x: T, f: spec_fn(T) -> bool)
    ensures
        count_where(s.push(x), f) == count_where(s, f) + if f(x) { 1nat } else { 0nat },
{
    assert(s.push(x).drop_last() =~= s);
}

/// Adding a container to those summarized adds one to exactly the group of
/// its state: running for Running; stopped for Created, Paused and Exited;
/// unhealthy for Restarting, Removing and Dead; unknown for Empty.
pub proof fn law_container_summary_one_more(states: Seq<ContainerStateStatusEnum>, x: ContainerStateStatusEnum)
    ensures
        count_where(states.push(x), container_in(ContainerStateStatusEnum::Running)) == count_where(
            states,
            container_in(ContainerStateStatusEnum::Running),
        ) + if x == ContainerStateStatusEnum::Running { 1nat } else { 0nat },
        count_where(states.push(x), container_is_stopped()) == count_where(states, container_is_stopped())
            + if x == ContainerStateStatusEnum::Created || x == ContainerStateStatusEnum::Paused || x
            == ContainerStateStatusEnum::Exited { 1nat } else { 0nat },
        count_where(states.push(x), container_is_unhealthy()) == count_where(states, container_is_unhealthy())
            + if x == ContainerStateStatusEnum::Restarting || x == ContainerStateStatusEnum::Removing || x
            == ContainerStateStatusEnum::Dead { 1nat } else { 0nat },
        count_where(states.push(x), container_in(ContainerStateStatusEnum::Empty)) == count_where(
            states,
            container_in(ContainerStateStatusEnum::Empty),
        ) + if x == ContainerStateStatusEnum::Empty { 1nat } else { 0nat },
{
    lemma_count_one_more(states, x, container_in(ContainerStateStatusEnum::Running));
    lemma_count_one_more(states, x, container_is_stopped());
    lemma_count_one_more(states, x, container_is_unhealthy());
    lemma_count_one_more(states, x, container_in(ContainerStateStatusEnum::Empty));
}

/// Adding a server to those summarized adds one to exactly one group, or to
/// none for a disabled template: healthy for a reachable server on the core's
/// version or reporting none; warning for a reachable server on another
/// version; unhealthy for an unreachable one; disabled for a disabled
/// server that is not a template.
pub proof fn law_server_summary_one_more(servers: Seq<ServerSummaryItem>, x: ServerSummaryItem, core_version: Seq<char>)
    ensures
        count_where(servers.push(x), server_is_healthy(core_version)) == count_where(
            servers,
            server_is_healthy(core_version),
        ) + if x.state == ServerState::Okay && (x.version is None || x.version->0@ == core_version) {
            1nat
        } else {
            0nat
        },
        count_where(servers.push(x), server_is_warning(core_version)) == count_where(
            servers,
            server_is_warning(core_version),
        ) + if x.state == ServerState::Okay && x.version is Some && x.version->0@ != core_version {
            1nat
        } else {
            0nat
        },
        count_where(servers.push(x), server_is_unhealthy()) == count_where(servers, server_is_unhealthy())
            + if x.state == ServerState::NotOk { 1nat } else { 0nat },
        count_where(servers.push(x), server_is_disabled()) == count_where(servers, server_is_disabled())
            + if x.state == ServerState::Disabled && !x.template { 1nat } else { 0nat },
{
    lemma_count_one_more(servers, x, server_is_healthy(core_version));
    lemma_count_one_more(servers, x, server_is_warning(core_version));
    lemma_count_one_more(servers, x, server_is_unhealthy());
    lemma_count_one_more(servers, x, server_is_disabled());
}

/// Adding a swarm to those summarized adds one to the group of its state.
pub proof fn law_swarm_summary_one_more(states: Seq<SwarmState>, x: SwarmState)
    ensures
        count_where(states.push(x), swarm_in(SwarmState::Healthy)) == count_where(states, swarm_in(SwarmState::Healthy))
            + if x == SwarmState::Healthy { 1nat } else { 0nat },
        count_where(states.push(x), swarm_in(SwarmState::Unhealthy)) == count_where(
            states,
            swarm_in(SwarmState::Unhealthy),
        ) + if x == SwarmState::Unhealthy { 1nat } else { 0nat },
        count_where(states.push(x), swarm_in(SwarmState::Down)) == count_where(states, swarm_in(SwarmState::Down))
            + if x == SwarmState::Down { 1nat } else { 0nat },
        count_where(states.push(x), swarm_in(SwarmState::Unknown)) == count_where(states, swarm_in(SwarmState::Unknown))
            + if x == SwarmState::Unknown { 1nat } else { 0nat },
{
    lemma_count_one_more(states, x, swarm_in(SwarmState::Healthy));
    lemma_count_one_more(states, x, swarm_in(SwarmState::Unhealthy));
    lemma_count_one_more(states, x, swarm_in(SwarmState::Down));
    lemma_count_one_more(states, x, swarm_in(SwarmState::Unknown));
}

/// Adding an action to those summarized adds its runs in progress to the
/// running count, and, when none is in progress, one to the group of its
/// cached state.
pub proof fn law_action_summary_one_more(actions: Seq<ActionSummaryItem>, x: ActionSummaryItem)
    ensures
        sum_running(actions.push(x)) == sum_running(actions) + x.running,
        count_where(actions.push(x), action_idle_in(RunState::Okay)) == count_where(
            actions,
            action_idle_in(RunState::Okay),
        ) + if x.running == 0 && x.state == RunState::Okay { 1nat } else { 0nat },
        count_where(actions.push(x), action_idle_in(RunState::Failed)) == count_where(
            actions,
            action_idle_in(RunState::Failed),
        ) + if x.running == 0 && x.state == RunState::Failed { 1nat } else { 0nat },
        count_where(actions.push(x), action_idle_in(RunState::Unknown)) == count_where(
            actions,
            action_idle_in(RunState::Unknown),
        ) + if x.running == 0 && x.state == RunState::Unknown { 1nat } else { 0nat },
{
    assert(actions.push(x).drop_last() =~= actions);
    lemma_count_one_more(actions, x, action_idle_in(RunState::Okay));
    lemma_count_one_more(actions, x, action_idle_in(RunState::Failed));
    lemma_count_one_more(actions, x, action_idle_in(RunState::Unknown));
}

/// Adding a procedure to those summarized adds one to running when a run is
/// in progress, and otherwise one to the group of its cached state.
pub proof fn law_procedure_summary_one_more(procedures: Seq<ProcedureSummaryItem>, x: ProcedureSummaryItem)
    ensures
        count_where(procedures.push(x), procedure_running()) == count_where(procedures, procedure_running())
            + if x.running { 1nat } else { 0nat },
        count_where(procedures.push(x), procedure_idle_in(RunState::Okay)) == count_where(
            procedures,
            procedure_idle_in(RunState::Okay),
        ) + if !x.running && x.state == RunState::Okay { 1nat } else { 0nat },
        count_where(procedures.push(x), procedure_idle_in(RunState::Failed)) == count_where(
            procedures,
            procedure_idle_in(RunState::Failed),
        ) + if !x.running && x.state == RunState::Failed { 1nat } else { 0nat },
        count_where(procedures.push(x), procedure_idle_in(RunState::Unknown)) == count_where(
            procedures,
            procedure_idle_in(RunState::Unknown),
        ) + if !x.running && x.state == RunState::Unknown { 1nat } else { 0nat },
{
    lemma_count_one_more(procedures, x, procedure_running());
    lemma_count_one_more(procedures, x, procedure_idle_in(RunState::Okay));
    lemma_count_one_more(procedures, x, procedure_idle_in(RunState::Failed));
    lemma_count_one_more(procedures, x, procedure_idle_in(RunState::Unknown));
}

/// Adding a resource sync to those summarized adds one to exactly one
/// group: pending when it has any pending deploy, resource, variable or user
/// group update; otherwise failed when it has a pending error or remote
/// errors; otherwise syncing when a sync is running; otherwise ok.
pub proof fn law_sync_summary_one_more(syncs: Seq<SyncSummaryItem>, x: SyncSummaryItem)
    ensures
        ({
            let pending = x.pending_deploys > 0 || x.resource_updates > 0 || x.variable_updates > 0
                || x.user_group_updates > 0;
            let failed = !pending && (x.pending_error || x.remote_errors > 0);
            let syncing = !pending && !failed && x.syncing;
            let ok = !pending && !failed && !x.syncing;
            &&& count_where(syncs.push(x), sync_is_pending()) == count_where(syncs, sync_is_pending())
                + if pending { 1nat } else { 0nat }
            &&& count_where(syncs.push(x), sync_is_failed()) == count_where(syncs, sync_is_failed())
                + if failed { 1nat } else { 0nat }
            &&& count_where(syncs.push(x), sync_is_syncing()) == count_where(syncs, sync_is_syncing())
                + if syncing { 1nat } else { 0nat }
            &&& count_where(syncs.push(x), sync_is_ok()) == count_where(syncs, sync_is_ok())
                + if ok { 1nat } else { 0nat }
        }),
{
    lemma_count_one_more(syncs, x, sync_is_pending());
    lemma_count_one_more(syncs, x, sync_is_failed());
    lemma_count_one_more(syncs, x, sync_is_syncing());
    lemma_count_one_more(syncs, x, sync_is_ok());
}

} // verus!
