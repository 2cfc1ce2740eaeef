//! What the daemon knows about a managed process, as plain values.

use crate::reading::Figure;
use crate::text::{decimal, parse_unsigned, same_text, unsigned_number};
use vstd::prelude::*;

verus! {

/// What the operator wants of a process.
#[derive(Debug, Clone, Copy, PartialEq, Eq, Structural)]
pub enum DesiredState {
    Running,
    Stopped,
}

impl DesiredState {
    /// The label of the state, in characters.
    pub open spec fn label_text(self) -> Seq<char> {
        match self {
            DesiredState::Running => "running"@,
            DesiredState::Stopped => "stopped"@,
        }
    }

    /// The label of the state.
    pub fn label(self) -> (label: &'static str)
        ensures
            label@ == self.label_text(),
    {
        match self {
            DesiredState::Running => "running",
            DesiredState::Stopped => "stopped",
        }
    }
}

/// A managed process as the last publication described it.
#[derive(Debug, Clone)]
pub struct ManagedProcess {
    pub id: u64,
    pub name: String,
    pub namespace: Option<String>,
    pub pid: Option<u32>,
    /// Whether the lifecycle status is `running`.
    pub running: bool,
    /// The lifecycle status, rendered.
    pub status: String,
    pub desired_state: DesiredState,
    /// The restart policy, rendered.
    pub restart_policy: String,
    /// The health-check status, rendered.
    pub health_status: String,
    pub restart_count: u64,
    pub cpu_percent: Figure,
    pub memory_bytes: u64,
    pub last_started_at: Option<u64>,
    pub last_metrics_at: Option<u64>,
    pub disk_read_total: u64,
    pub disk_write_total: u64,
    /// Bytes read per second over the interval the last sample covered, when measured.
    pub disk_read_rate: Option<Figure>,
    /// Bytes written per second over the interval the last sample covered, when measured.
    pub disk_write_rate: Option<Figure>,
    pub stdout_log: String,
    pub stderr_log: String,
    pub cluster_mode: bool,
    /// The number of instances asked for. `None` when the runtime chooses.
    pub cluster_instances: Option<u32>,
}

impl ManagedProcess {
    /// Whether the process is up: its status is running and it has a process id.
    pub open spec fn up(self) -> bool {
        self.running && self.pid is Some
    }

    /// Whether the process is up.
    pub fn is_up(&self) -> (up: bool)
        ensures
            up == self.up(),
    {
        self.running && self.pid.is_some()
    }
}

/// The place of the first process with a name.
pub open spec fn place_by_name(processes: Seq<ManagedProcess>, name: Seq<char>) -> Option<int>
    decreases processes.len(),
{
    if processes.len() == 0 {
        None
    } else if place_by_name(processes.drop_last(), name) is Some {
        place_by_name(processes.drop_last(), name)
    } else if processes.last().name@ == name {
        Some(processes.len() - 1)
    } else {
        None
    }
}

/// The place of the first process with an id.
pub open spec fn place_by_id(processes: Seq<ManagedProcess>, id: u64) -> Option<int>
    decreases processes.len(),
{
    if processes.len() == 0 {
        None
    } else if place_by_id(processes.drop_last(), id) is Some {
        place_by_id(processes.drop_last(), id)
    } else if processes.last().id == id {
        Some(processes.len() - 1)
    } else {
        None
    }
}

/// The place of the process that a target names: by name first, then by id.
pub open spec fn place_of(processes: Seq<ManagedProcess>, target: Seq<char>) -> Option<int> {
    match place_by_name(processes, target) {
        Some(at) => Some(at),
        None => match unsigned_number(target) {
            Some(id) => place_by_id(processes, id),
            None => None,
        },
    }
}

proof fn lemma_place_by_name(processes: Seq<ManagedProcess>, name: Seq<char>, n: int)
    requires
        0 <= n <= processes.len(),
        forall|i: int| 0 <= i < n ==> (#[trigger] processes[i]).name@ != name,
    ensures
        n < processes.len() && processes[n].name@ == name ==> place_by_name(processes, name)
            == Some(n),
        n == processes.len() ==> place_by_name(processes, name) is None,
    decreases processes.len(),
{
    if processes.len() > 0 {
        let rest = processes.drop_last();
        if n < processes.len() {
            assert forall|i: int| 0 <= i < n implies (#[trigger] rest[i]).name@ != name by {
                assert(processes[i].name@ != name);
            }
            lemma_place_by_name(rest, name, n);
        } else {
            assert forall|i: int| 0 <= i < n - 1 implies (#[trigger] rest[i]).name@ != name by {
                assert(processes[i].name@ != name);
            }
            lemma_place_by_name(rest, name, n - 1);
        }
    }
}

proof fn lemma_place_by_id(processes: Seq<ManagedProcess>, id: u64, n: int)
    requires
        0 <= n <= processes.len(),
        forall|i: int| 0 <= i < n ==> (#[trigger] processes[i]).id != id,
    ensures
        n < processes.len() && processes[n].id == id ==> place_by_id(processes, id) == Some(n),
        n == processes.len() ==> place_by_id(processes, id) is None,
    decreases processes.len(),
{
    if processes.len() > 0 {
        let rest = processes.drop_last();
        if n < processes.len() {
            assert forall|i: int| 0 <= i < n implies (#[trigger] rest[i]).id != id by {
                assert(processes[i].id != id);
            }
            lemma_place_by_id(rest, id, n);
        } else {
            assert forall|i: int| 0 <= i < n - 1 implies (#[trigger] rest[i]).id != id by {
                assert(processes[i].id != id);
            }
            lemma_place_by_id(rest, id, n - 1);
        }
    }
}

/// The first process with a name.
pub fn find_by_name(processes: &[ManagedProcess], name: &str) -> (found: Option<usize>)
    ensures
        match found {
            Some(i) => i < processes@.len() && place_by_name(processes@, name@) == Some(i as int),
            None => place_by_name(processes@, name@) is None,
        },
{
    let mut i: usize = 0;
    while i < processes.len()
        invariant
            i <= processes.len(),
            forall|j: int| 0 <= j < i ==> (#[trigger] processes@[j]).name@ != name@,
        decreases processes.len() - i,
    {
        if same_text(processes[i].name.as_str(), name) {
            proof {
                lemma_place_by_name(processes@, name@, i as int);
            }
            return Some(i);
        }
        i = i + 1;
    }
    proof {
        lemma_place_by_name(processes@, name@, i as int);
    }
    None
}

/// The process that a target names: by name first, then by id.
pub fn get_process(processes: &[ManagedProcess], target: &str) -> (found: Option<usize>)
    ensures
        match found {
            Some(i) => i < processes@.len() && place_of(processes@, target@) == Some(i as int),
            None => place_of(processes@, target@) is None,
        },
{
    if let Some(i) = find_by_name(processes, target) {
        return Some(i);
    }
    let id: u64 = match parse_unsigned(target) {
        Some(id) => id,
        None => {
            return None;
        },
    };
    let mut i: usize = 0;
    while i < processes.len()
        invariant
            i <= processes.len(),
            place_by_name(processes@, target@) is None,
            unsigned_number(target@) == Some(id),
            forall|j: int| 0 <= j < i ==> (#[trigger] processes@[j]).id != id,
        decreases processes.len() - i,
    {
        if processes[i].id == id {
            proof {
                lemma_place_by_id(processes@, id, i as int);
            }
            return Some(i);
        }
        i = i + 1;
    }
    proof {
        lemma_place_by_id(processes@, id, i as int);
    }
    None
}

/// The process ids of the processes that have one, with their names.
pub open spec fn managed_pids(processes: Seq<ManagedProcess>) -> Seq<(u32, Seq<char>)>
    decreases processes.len(),
{
    if processes.len() == 0 {
        Seq::empty()
    } else {
        let rest = managed_pids(processes.drop_last());
        match processes.last().pid {
            Some(pid) => rest.push((pid, processes.last().name@)),
            None => rest,
        }
    }
}

/// What pairs of a process id and a name denote.
pub open spec fn pid_views(pids: Seq<(u32, String)>) -> Seq<(u32, Seq<char>)> {
    pids.map_values(|entry: (u32, String)| (entry.0, entry.1@))
}

/// The process ids of the processes that have one, with their names.
pub fn managed_pid_list(processes: &[ManagedProcess]) -> (pids: Vec<(u32, String)>)
    ensures
        pid_views(pids@) == managed_pids(processes@),
{
    let mut pids: Vec<(u32, String)> = Vec::new();
    let mut i: usize = 0;
    assert(pid_views(pids@) =~= Seq::<(u32, Seq<char>)>::empty());
    assert(processes@.take(0) =~= Seq::<ManagedProcess>::empty());
    while i < processes.len()
        invariant
            i <= processes.len(),
            pid_views(pids@) == managed_pids(processes@.take(i as int)),
        decreases processes.len() - i,
    {
        assert(processes@.take(i + 1).drop_last() =~= processes@.take(i as int));
        assert(processes@.take(i + 1).last() == processes@[i as int]);
        if let Some(pid) = processes[i].pid {
            let ghost earlier = pids@;
            pids.push((pid, processes[i].name.clone()));
            assert(pid_views(pids@) =~= pid_views(earlier).push((pid, processes@[i as int].name@)));
        }
        i = i + 1;
    }
    assert(processes@.take(i as int) =~= processes@);
    pids
}

/// The first process with a name is the one found, and none is found only where no process has
/// the name.
pub proof fn the_first_of_a_name_is_found(processes: Seq<ManagedProcess>, name: Seq<char>)
    ensures
        match place_by_name(processes, name) {
            Some(at) => 0 <= at < processes.len() && processes[at].name@ == name && forall|i: int|
                0 <= i < at ==> (#[trigger] processes[i]).name@ != name,
            None => forall|i: int| 0 <= i < processes.len() ==> (#[trigger] processes[i]).name@ != name,
        },
    decreases processes.len(),
{
    if processes.len() > 0 {
        let rest = processes.drop_last();
        the_first_of_a_name_is_found(rest, name);
        assert(forall|i: int| 0 <= i < rest.len() ==> rest[i] == #[trigger] processes[i]);
    }
}

/// The first process with an id is the one found by it, and none is found only where no process
/// has the id.
pub proof fn the_first_of_an_id_is_found(processes: Seq<ManagedProcess>, id: u64)
    ensures
        match place_by_id(processes, id) {
            Some(at) => 0 <= at < processes.len() && processes[at].id == id && forall|i: int|
                0 <= i < at ==> (#[trigger] processes[i]).id != id,
            None => forall|i: int| 0 <= i < processes.len() ==> (#[trigger] processes[i]).id != id,
        },
    decreases processes.len(),
{
    if processes.len() > 0 {
        let rest = processes.drop_last();
        the_first_of_an_id_is_found(rest, id);
        assert(forall|i: int| 0 <= i < rest.len() ==> rest[i] == #[trigger] processes[i]);
    }
}

/// A target is a name before it is a number: a process is found by its name even where another has
/// that text as its id, and by its id in decimal where no process has that text as its name.
pub proof fn a_name_comes_before_an_id(processes: Seq<ManagedProcess>, target: Seq<char>, at: int)
    requires
        0 <= at < processes.len(),
    ensures
        processes[at].name@ == target ==> (place_of(processes, target) matches Some(found)
            && 0 <= found <= at && processes[found].name@ == target),
        (forall|i: int| 0 <= i < processes.len() ==> (#[trigger] processes[i]).name@ != target)
            && target == decimal(processes[at].id as nat) ==> (place_of(
            processes,
            target,
        ) matches Some(found) && 0 <= found <= at && processes[found].id == processes[at].id),
        (forall|i: int| 0 <= i < processes.len() ==> (#[trigger] processes[i]).name@ != target)
            && unsigned_number(target) is None ==> place_of(processes, target) is None,
        place_of(processes, target) matches Some(found) ==> 0 <= found < processes.len() && (
        processes[found].name@ == target || unsigned_number(target) == Some(processes[found].id)),
{
    the_first_of_a_name_is_found(processes, target);
    crate::text::a_decimal_denotes_its_number(processes[at].id as nat);
    if let Some(id) = unsigned_number(target) {
        the_first_of_an_id_is_found(processes, id);
    }
}

/// The process ids handed out are those of the processes that have one, each beside its name, in
/// order; a process without one adds nothing.
pub proof fn only_running_processes_have_ids(
    processes: Seq<ManagedProcess>,
    process: ManagedProcess,
)
    ensures
        process.pid matches Some(pid) ==> managed_pids(processes.push(process)) == managed_pids(
            processes,
        ).push((pid, process.name@)),
        process.pid is None ==> managed_pids(processes.push(process)) == managed_pids(processes),
        managed_pids(Seq::<ManagedProcess>::empty()).len() == 0,
{
    assert(processes.push(process).drop_last() =~= processes);
}

/// A process is up exactly when its status is running and it has a process id.
pub proof fn up_takes_a_status_and_an_id(process: ManagedProcess)
    ensures
        process.up() ==> process.running && process.pid is Some,
        process.running && process.pid is Some ==> process.up(),
        process.desired_state is Running ==> process.desired_state.label_text() == "running"@,
        process.desired_state is Stopped ==> process.desired_state.label_text() == "stopped"@,
{
}

} // verus!
