//! What is added to a process when it is sent out: its rates, what cannot be measured of it, and
//! what host-wide sampling observed of its descendants.
//!
//! Unavailable is not empty. A process that no observation covers carries the reason, never a
//! figure; an observed process without descendants carries an empty list.

use crate::http::reply::Message;
use crate::process::{get_process as find_process, place_of, ManagedProcess};
use crate::reading::Figure;
use vstd::prelude::*;

verus! {

/// Why a process carries no network figures.
pub const NETWORK_IO_REASON: &'static str = "Per-process network I/O is not measurable on the supported platforms: the operating system reports network counters per interface, not per process. Attributing traffic to a process needs per-socket accounting (eBPF, or socket-inode correlation), which is not portable. Host-level interface figures are reported separately and are the host's, not any one process's.";

/// What is said of the network traffic of a process.
pub const NETWORK_IO_STATUS: &'static str = "unsupported";

/// A descendant of a managed process.
#[derive(Debug)]
pub struct AttributedDescendant {
    pub pid: u32,
    pub ppid: Option<u32>,
    pub name: String,
    pub cpu_percent: Figure,
    pub memory_bytes: u64,
    pub depth: u32,
    pub command: Option<String>,
}

/// What one sample attributed to a managed process.
#[derive(Debug)]
pub struct ManagedProcessAttribution {
    pub pid: u32,
    pub name: String,
    pub descendants: Vec<AttributedDescendant>,
    pub descendants_cpu_percent: Figure,
    pub descendants_memory_bytes: u64,
    pub truncated: bool,
    pub descendant_count: usize,
}

/// A completed host-wide sample.
#[derive(Debug)]
pub struct HostObservation {
    pub attribution: Vec<ManagedProcessAttribution>,
    pub sampled_at: u64,
}

/// Why an observation does not cover a process.
#[derive(Debug, Clone, Copy, PartialEq, Eq, Structural)]
pub enum Unobserved {
    NoSampleYet,
    SamplingDisabled,
    NotRunning,
    NotYetObserved,
}

impl Unobserved {
    /// The reason, in characters.
    pub open spec fn reason_text(self) -> Seq<char> {
        match self {
            Unobserved::NoSampleYet => "no host-wide observation has completed since the daemon started"@,
            Unobserved::SamplingDisabled => "host-wide consumer sampling is disabled (OXMGR_HOST_CONSUMERS)"@,
            Unobserved::NotRunning => "process is not running"@,
            Unobserved::NotYetObserved => "not yet observed by host-wide sampling"@,
        }
    }

    /// The reason.
    pub fn reason(self) -> (text: &'static str)
        ensures
            text@ == self.reason_text(),
    {
        match self {
            Unobserved::NoSampleYet => "no host-wide observation has completed since the daemon started",
            Unobserved::SamplingDisabled => "host-wide consumer sampling is disabled (OXMGR_HOST_CONSUMERS)",
            Unobserved::NotRunning => "process is not running",
            Unobserved::NotYetObserved => "not yet observed by host-wide sampling",
        }
    }
}

/// What was observed of the descendants of a process.
#[derive(Debug)]
pub enum Descendants<'a> {
    Unavailable(Unobserved),
    Observed { entry: &'a ManagedProcessAttribution, observed_at: u64 },
}

/// How many instances were asked for.
#[derive(Debug, Clone, Copy, PartialEq, Eq, Structural)]
pub struct RequestedInstances {
    pub count: Option<u32>,
    /// Whether the runtime chose the number.
    pub derived: bool,
}

/// How many workers were observed.
#[derive(Debug, Clone, Copy, PartialEq, Eq, Structural)]
pub enum ObservedWorkers {
    Unavailable(Unobserved),
    Observed { workers: usize, observed_at: u64 },
}

/// The shape of a cluster: what was asked for beside what was observed.
#[derive(Debug, Clone, Copy, PartialEq, Eq, Structural)]
pub struct ClusterShape {
    pub requested: RequestedInstances,
    pub observed: ObservedWorkers,
}

/// The fields that an observation adds to a process.
#[derive(Debug)]
pub struct ObservationFields<'a> {
    pub descendants: Descendants<'a>,
    /// Present on cluster processes only.
    pub cluster: Option<ClusterShape>,
}

/// The place of the first entry for a process id.
pub open spec fn entry_for(entries: Seq<ManagedProcessAttribution>, pid: u32) -> Option<int>
    decreases entries.len(),
{
    if entries.len() == 0 {
        None
    } else if entry_for(entries.drop_last(), pid) is Some {
        entry_for(entries.drop_last(), pid)
    } else if entries.last().pid == pid {
        Some(entries.len() - 1)
    } else {
        None
    }
}

proof fn lemma_entry_for(entries: Seq<ManagedProcessAttribution>, pid: u32, n: int)
    requires
        0 <= n <= entries.len(),
        forall|i: int| 0 <= i < n ==> (#[trigger] entries[i]).pid != pid,
    ensures
        n < entries.len() && entries[n].pid == pid ==> entry_for(entries, pid) == Some(n),
        n == entries.len() ==> entry_for(entries, pid) is None,
    decreases entries.len(),
{
    if entries.len() > 0 {
        let rest = entries.drop_last();
        let m = if n < entries.len() {
            n
        } else {
            n - 1
        };
        assert forall|i: int| 0 <= i < m implies (#[trigger] rest[i]).pid != pid by {
            assert(entries[i].pid != pid);
        }
        lemma_entry_for(rest, pid, m);
    }
}

/// What is known of the descendants of a process.
pub open spec fn descendants_of(
    pid: Option<u32>,
    sample: Option<&HostObservation>,
    sampling_enabled: bool,
) -> Descendants<'_> {
    match sample {
        None => Descendants::Unavailable(
            if sampling_enabled {
                Unobserved::NoSampleYet
            } else {
                Unobserved::SamplingDisabled
            },
        ),
        Some(sample) => match pid {
            None => Descendants::Unavailable(Unobserved::NotRunning),
            Some(pid) => match entry_for(sample.attribution@, pid) {
                Some(at) => Descendants::Observed {
                    entry: &sample.attribution@[at],
                    observed_at: sample.sampled_at,
                },
                None => Descendants::Unavailable(Unobserved::NotYetObserved),
            },
        },
    }
}

/// The workers that an observation shows.
pub open spec fn workers_of(descendants: Descendants<'_>) -> ObservedWorkers {
    match descendants {
        Descendants::Unavailable(why) => ObservedWorkers::Unavailable(why),
        Descendants::Observed { entry, observed_at } => ObservedWorkers::Observed {
            workers: entry.descendant_count,
            observed_at,
        },
    }
}

/// The fields that an observation adds to a process.
pub fn attach_observation_fields<'a>(
    process: &ManagedProcess,
    sample: Option<&'a HostObservation>,
    sampling_enabled: bool,
) -> (fields: ObservationFields<'a>)
    ensures
        fields.descendants == descendants_of(process.pid, sample, sampling_enabled),
        process.cluster_mode ==> fields.cluster == Some(
            ClusterShape {
                requested: RequestedInstances {
                    count: process.cluster_instances,
                    derived: process.cluster_instances is None,
                },
                observed: workers_of(fields.descendants),
            },
        ),
        !process.cluster_mode ==> fields.cluster is None,
{
    let descendants: Descendants<'a> = match sample {
        None => if sampling_enabled {
            Descendants::Unavailable(Unobserved::NoSampleYet)
        } else {
            Descendants::Unavailable(Unobserved::SamplingDisabled)
        },
        Some(sample) => match process.pid {
            None => Descendants::Unavailable(Unobserved::NotRunning),
            Some(pid) => {
                let entries: &'a Vec<ManagedProcessAttribution> = &sample.attribution;
                let mut i: usize = 0;
                let mut found: Option<usize> = None;
                while i < entries.len() && found.is_none()
                    invariant
                        i <= entries.len(),
                        match found {
                            Some(at) => at < entries.len() && entry_for(entries@, pid) == Some(
                                at as int,
                            ),
                            None => forall|j: int|
                                0 <= j < i ==> (#[trigger] entries@[j]).pid != pid,
                        },
                    decreases entries.len() - i,
                {
                    if entries[i].pid == pid {
                        proof {
                            lemma_entry_for(entries@, pid, i as int);
                        }
                        found = Some(i);
                    }
                    i = i + 1;
                }
                match found {
                    Some(at) => Descendants::Observed {
                        entry: &entries[at],
                        observed_at: sample.sampled_at,
                    },
                    None => {
                        proof {
                            lemma_entry_for(entries@, pid, i as int);
                        }
                        Descendants::Unavailable(Unobserved::NotYetObserved)
                    },
                }
            },
        },
    };
    let cluster: Option<ClusterShape> = if process.cluster_mode {
        let observed: ObservedWorkers = match &descendants {
            Descendants::Unavailable(why) => ObservedWorkers::Unavailable(*why),
            Descendants::Observed { entry, observed_at } => ObservedWorkers::Observed {
                workers: entry.descendant_count,
                observed_at: *observed_at,
            },
        };
        let requested = RequestedInstances {
            count: process.cluster_instances,
            derived: process.cluster_instances.is_none(),
        };
        Some(ClusterShape { requested, observed })
    } else {
        None
    };
    ObservationFields { descendants, cluster }
}

/// A figure that can be sent: one that is finite.
pub open spec fn sendable_rate(rate: Option<Figure>) -> Option<Figure> {
    match rate {
        Some(figure) => if figure.reading.finite() {
            Some(figure)
        } else {
            None
        },
        None => None,
    }
}

/// A rate as it is sent: withheld where it was not measured or is not finite.
pub fn json_rate(rate: &Option<Figure>) -> (sent: Option<&Figure>)
    ensures
        match sendable_rate(*rate) {
            Some(figure) => sent == Some(&figure),
            None => sent is None,
        },
{
    match rate {
        Some(figure) => if figure.reading.is_finite() {
            Some(figure)
        } else {
            None
        },
        None => None,
    }
}

/// The fields that are added to every process that is sent out.
#[derive(Debug)]
pub struct TransportFields<'a> {
    pub network_io_status: &'static str,
    pub network_io_reason: &'static str,
    pub disk_read_bytes_per_second: Option<&'a Figure>,
    pub disk_write_bytes_per_second: Option<&'a Figure>,
}

impl<'a> TransportFields<'a> {
    /// Whether these are the fields of a process.
    pub open spec fn describes(self, process: ManagedProcess) -> bool {
        &&& self.network_io_status@ == NETWORK_IO_STATUS@
        &&& self.network_io_reason@ == NETWORK_IO_REASON@
        &&& self.disk_read_bytes_per_second == (match sendable_rate(process.disk_read_rate) {
            Some(figure) => Some(&figure),
            None => None,
        })
        &&& self.disk_write_bytes_per_second == (match sendable_rate(process.disk_write_rate) {
            Some(figure) => Some(&figure),
            None => None,
        })
    }
}

/// The fields that are added to a process that is sent out.
pub fn process_json_for_transport(process: &ManagedProcess) -> (fields: TransportFields<'_>)
    ensures
        fields.describes(*process),
{
    TransportFields {
        network_io_status: NETWORK_IO_STATUS,
        network_io_reason: NETWORK_IO_REASON,
        disk_read_bytes_per_second: json_rate(&process.disk_read_rate),
        disk_write_bytes_per_second: json_rate(&process.disk_write_rate),
    }
}

/// A process as it is sent out: where it stands in the listing, and what is added to it.
#[derive(Debug)]
pub struct SentProcess<'a> {
    pub place: usize,
    pub transport: TransportFields<'a>,
    pub observation: ObservationFields<'a>,
}

impl<'a> SentProcess<'a> {
    /// Whether this is the process at a place of the listing.
    pub open spec fn sends(
        self,
        processes: Seq<ManagedProcess>,
        at: int,
        sample: Option<&HostObservation>,
        sampling_enabled: bool,
    ) -> bool {
        let process = processes[at];
        &&& self.place == at
        &&& self.transport.describes(process)
        &&& self.observation.descendants == descendants_of(process.pid, sample, sampling_enabled)
        &&& self.observation.cluster == (if process.cluster_mode {
            Some(
                ClusterShape {
                    requested: RequestedInstances {
                        count: process.cluster_instances,
                        derived: process.cluster_instances is None,
                    },
                    observed: workers_of(self.observation.descendants),
                },
            )
        } else {
            None
        })
    }
}

/// Every process of the listing, in its order.
pub fn get_processes<'a>(
    processes: &'a [ManagedProcess],
    sample: Option<&'a HostObservation>,
    sampling_enabled: bool,
) -> (sent: Vec<SentProcess<'a>>)
    ensures
        sent@.len() == processes@.len(),
        forall|i: int|
            0 <= i < sent@.len() ==> (#[trigger] sent@[i]).sends(
                processes@,
                i,
                sample,
                sampling_enabled,
            ),
{
    let mut sent: Vec<SentProcess<'a>> = Vec::new();
    let mut i: usize = 0;
    while i < processes.len()
        invariant
            i <= processes.len(),
            sent@.len() == i,
            forall|j: int|
                0 <= j < i ==> (#[trigger] sent@[j]).sends(
                    processes@,
                    j,
                    sample,
                    sampling_enabled,
                ),
        decreases processes.len() - i,
    {
        let process = &processes[i];
        let transport = process_json_for_transport(process);
        let observation = attach_observation_fields(process, sample, sampling_enabled);
        sent.push(SentProcess { place: i, transport, observation });
        i = i + 1;
    }
    sent
}

/// One process, or the refusal for one that is not known.
pub fn get_process<'a>(
    processes: &'a [ManagedProcess],
    name: &str,
    sample: Option<&'a HostObservation>,
    sampling_enabled: bool,
) -> (sent: Result<SentProcess<'a>, Message>)
    ensures
        match sent {
            Ok(sent) => place_of(processes@, name@) matches Some(at) && 0 <= at < processes@.len()
                && sent.sends(processes@, at, sample, sampling_enabled),
            Err(refusal) => place_of(processes@, name@) is None && refusal.says(
                404,
                false,
                "service not found"@,
            ),
        },
{
    match find_process(processes, name) {
        Some(place) => {
            let process = &processes[place];
            let transport = process_json_for_transport(process);
            let observation = attach_observation_fields(process, sample, sampling_enabled);
            Ok(SentProcess { place, transport, observation })
        },
        None => Err(Message::refusal(404, "service not found")),
    }
}

/// A total is sent only with an observation of the very process: without one, what is sent is a
/// reason, and the worker count of a cluster is withheld for that same reason. What was asked for
/// is sent either way.
pub proof fn what_was_not_observed_is_withheld(
    processes: Seq<ManagedProcess>,
    at: int,
    sample: Option<&HostObservation>,
    sampling_enabled: bool,
    sent: SentProcess<'_>,
)
    requires
        0 <= at < processes.len(),
        sent.sends(processes, at, sample, sampling_enabled),
    ensures
        sent.observation.descendants matches Descendants::Observed { entry, observed_at } ==> (
        sample matches Some(sample) && sample.attribution@.contains(*entry) && Some(entry.pid)
            == processes[at].pid && observed_at == sample.sampled_at),
        sample is None ==> sent.observation.descendants is Unavailable,
        processes[at].cluster_mode ==> (sent.observation.cluster matches Some(cluster)
            && cluster.requested.count == processes[at].cluster_instances && (
        cluster.observed is Unavailable <==> sent.observation.descendants is Unavailable) && (
        sent.observation.descendants matches Descendants::Unavailable(why) ==> cluster.observed
            == ObservedWorkers::Unavailable(why))),
{
    if let Some(sample) = sample {
        if let Some(pid) = processes[at].pid {
            lemma_entry_found(sample.attribution@, pid);
        }
    }
}

proof fn lemma_entry_found(entries: Seq<ManagedProcessAttribution>, pid: u32)
    ensures
        entry_for(entries, pid) matches Some(at) ==> 0 <= at < entries.len() && entries[at].pid == pid,
    decreases entries.len(),
{
    if entries.len() > 0 {
        lemma_entry_found(entries.drop_last(), pid);
    }
}

/// The observation of a process is the first entry for its process id, and there is none only
/// where no entry has it.
pub proof fn the_first_entry_of_a_process_is_used(
    entries: Seq<ManagedProcessAttribution>,
    pid: u32,
)
    ensures
        match entry_for(entries, pid) {
            Some(at) => 0 <= at < entries.len() && entries[at].pid == pid && forall|i: int|
                0 <= i < at ==> (#[trigger] entries[i]).pid != pid,
            None => forall|i: int| 0 <= i < entries.len() ==> (#[trigger] entries[i]).pid != pid,
        },
    decreases entries.len(),
{
    if entries.len() > 0 {
        let rest = entries.drop_last();
        the_first_entry_of_a_process_is_used(rest, pid);
        assert(forall|i: int| 0 <= i < rest.len() ==> rest[i] == #[trigger] entries[i]);
    }
}

/// What is missing is told apart: sampling that is switched off, a first sample that has not been
/// taken, a process that does not run, and one that no sample has seen. An observed process carries
/// its own entry and the time of the sample.
pub proof fn each_absence_has_its_own_reason(
    processes: Seq<ManagedProcess>,
    at: int,
    sample: Option<&HostObservation>,
    sampling_enabled: bool,
    sent: SentProcess<'_>,
)
    requires
        0 <= at < processes.len(),
        sent.sends(processes, at, sample, sampling_enabled),
    ensures
        sent.place == at,
        sample is None && sampling_enabled ==> sent.observation.descendants
            == Descendants::Unavailable(Unobserved::NoSampleYet),
        sample is None && !sampling_enabled ==> sent.observation.descendants
            == Descendants::Unavailable(Unobserved::SamplingDisabled),
        sample is Some && processes[at].pid is None ==> sent.observation.descendants
            == Descendants::Unavailable(Unobserved::NotRunning),
        sample is Some && processes[at].pid is Some && (forall|i: int|
            0 <= i < (sample->0).attribution@.len() ==> Some(
                (#[trigger] (sample->0).attribution@[i]).pid,
            ) != processes[at].pid) ==> sent.observation.descendants == Descendants::Unavailable(
            Unobserved::NotYetObserved,
        ),
        sample is Some && (exists|i: int|
            0 <= i < (sample->0).attribution@.len() && Some(
                (#[trigger] (sample->0).attribution@[i]).pid,
            ) == processes[at].pid) ==> (
        sent.observation.descendants matches Descendants::Observed { entry, observed_at }
            && Some(entry.pid) == processes[at].pid && observed_at == (sample->0).sampled_at),
        !processes[at].cluster_mode ==> sent.observation.cluster is None,
        processes[at].cluster_mode ==> (sent.observation.cluster matches Some(cluster)
            && cluster.requested.count == processes[at].cluster_instances && (
        cluster.requested.derived <==> processes[at].cluster_instances is None) && (
        sent.observation.descendants matches Descendants::Observed { entry, observed_at }
            ==> cluster.observed == (ObservedWorkers::Observed {
            workers: entry.descendant_count,
            observed_at,
        }))),
{
    if sample is Some && processes[at].pid is Some {
        the_first_entry_of_a_process_is_used((sample->0).attribution@, processes[at].pid->0);
    }
}

/// A rate is sent where it was measured and is finite, read as read and written as written, and
/// what cannot be measured is said to be unsupported.
pub proof fn rates_are_sent_where_measured(process: ManagedProcess, fields: TransportFields<'_>)
    requires
        fields.describes(process),
    ensures
        process.disk_read_rate matches Some(rate) ==> (rate.reading.finite()
            ==> fields.disk_read_bytes_per_second == Some(&rate)),
        process.disk_write_rate matches Some(rate) ==> (rate.reading.finite()
            ==> fields.disk_write_bytes_per_second == Some(&rate)),
        process.disk_read_rate is None ==> fields.disk_read_bytes_per_second is None,
        process.disk_write_rate is None ==> fields.disk_write_bytes_per_second is None,
        process.disk_read_rate matches Some(rate) ==> (!rate.reading.finite()
            ==> fields.disk_read_bytes_per_second is None),
        process.disk_write_rate matches Some(rate) ==> (!rate.reading.finite()
            ==> fields.disk_write_bytes_per_second is None),
        fields.network_io_status@ == "unsupported"@,
{
}

/// Every process of the listing is sent once, in order, and one that is asked for is the one that
/// its target names, or a refusal where there is none.
pub proof fn every_process_is_sent_once(
    processes: &[ManagedProcess],
    name: &str,
    sampling_enabled: bool,
    all: Vec<SentProcess<'_>>,
    one: Result<SentProcess<'_>, Message>,
    at: int,
)
    requires
        call_ensures(get_processes, (processes, None, sampling_enabled), all),
        call_ensures(get_process, (processes, name, None, sampling_enabled), one),
    ensures
        all@.len() == processes@.len(),
        0 <= at < processes@.len() ==> all@[at].place == at && all@[at].transport.describes(
            processes@[at],
        ),
        one is Ok <==> place_of(processes@, name@) is Some,
        one matches Ok(sent) ==> place_of(processes@, name@) == Some(sent.place as int),
        one matches Err(refusal) ==> refusal.status == 404 && !refusal.ok,
{
    if 0 <= at < processes@.len() {
        assert(all@[at].sends(processes@, at, None, sampling_enabled));
    }
}

/// Each absence is explained in its own words.
pub proof fn each_absence_is_explained(why: Unobserved)
    ensures
        why is NoSampleYet ==> why.reason_text()
            == "no host-wide observation has completed since the daemon started"@,
        why is SamplingDisabled ==> why.reason_text()
            == "host-wide consumer sampling is disabled (OXMGR_HOST_CONSUMERS)"@,
        why is NotRunning ==> why.reason_text() == "process is not running"@,
        why is NotYetObserved ==> why.reason_text() == "not yet observed by host-wide sampling"@,
{
}

} // verus!
