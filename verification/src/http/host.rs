//! Host metrics: what was measured of the machine, and how it is exposed.

use crate::http::exposition::{
    families_text, family_views, figure_text, label_views, push_family, push_sample,
    render_families, sample_views, sanitize_prometheus_figure, Family, FamilyView, Sample,
    SampleView,
};
use crate::http::reply::{Reply, ReplyView};
use crate::reading::Figure;
use crate::text::{decimal, decimal_text};
use vstd::prelude::*;

verus! {

/// Static identity of the host.
#[derive(Debug, Clone)]
pub struct HostIdentity {
    pub host_name: Option<String>,
    pub os_name: Option<String>,
    pub os_version: Option<String>,
    pub kernel_version: Option<String>,
    pub cpu_arch: Option<String>,
}

/// Swap space. A host without any has no value of this type.
#[derive(Debug, Clone, Copy, PartialEq, Eq, Structural)]
pub struct HostSwap {
    pub total_bytes: u64,
    pub used_bytes: u64,
}

/// Memory.
#[derive(Debug, Clone)]
pub struct HostMemory {
    pub total_bytes: u64,
    pub used_bytes: u64,
    pub available_bytes: u64,
    pub free_bytes: u64,
    pub used_percent: Option<Figure>,
    pub effective_used_percent: Option<Figure>,
    pub effective_total_bytes: Option<u64>,
    pub swap: Option<HostSwap>,
}

/// One core.
#[derive(Debug, Clone)]
pub struct HostCore {
    pub name: String,
    pub usage_percent: Figure,
}

/// Processor utilisation, withheld until sampled over a valid interval.
#[derive(Debug, Clone)]
pub struct HostCpu {
    pub global_percent: Option<Figure>,
    pub per_core: Option<Vec<HostCore>>,
}

/// Load averages.
#[derive(Debug, Clone)]
pub struct HostLoad {
    pub one: Figure,
    pub five: Figure,
    pub fifteen: Figure,
}

/// A filesystem. One without capacity has no utilisation.
#[derive(Debug, Clone)]
pub struct HostFilesystem {
    pub mount_point: String,
    pub file_system: String,
    pub total_bytes: u64,
    pub available_bytes: u64,
    pub used_bytes: u64,
    pub used_percent: Option<Figure>,
}

/// A network interface.
#[derive(Debug, Clone)]
pub struct HostInterface {
    pub name: String,
    pub total_received_bytes: u64,
    pub total_transmitted_bytes: u64,
    pub errors_on_received: u64,
    pub errors_on_transmitted: u64,
    /// The interval the last measurement covered. `None` for the first one.
    pub interval_ms: Option<u64>,
    /// Bytes per second over the interval, where it is usable.
    pub received_rate: Figure,
    pub transmitted_rate: Figure,
}

/// A component with a sensor.
#[derive(Debug, Clone)]
pub struct HostComponent {
    pub label: String,
    pub temperature_celsius: Option<Figure>,
}

/// Everything measured of the host. What is absent was not measured, or is not reported here.
#[derive(Debug, Clone)]
pub struct HostMetrics {
    pub identity: HostIdentity,
    pub uptime_secs: Option<u64>,
    pub memory: Option<HostMemory>,
    pub cpu: Option<HostCpu>,
    pub load_average: Option<HostLoad>,
    pub filesystems: Option<Vec<HostFilesystem>>,
    pub network: Option<Vec<HostInterface>>,
    pub components: Option<Vec<HostComponent>>,
    /// The subsystems that failed to collect, by name.
    pub failures: Vec<String>,
    /// The shortest interval, in milliseconds, over which a rate is reported.
    pub min_rate_interval_ms: u64,
}

/// A label, unless its value is absent or empty.
pub open spec fn optional_label(key: Seq<char>, value: Option<String>) -> Seq<
    (Seq<char>, Seq<char>),
> {
    match value {
        Some(text) => if text@.len() == 0 {
            Seq::empty()
        } else {
            seq![(key, text@)]
        },
        None => Seq::empty(),
    }
}

/// The labels that identify the host.
pub open spec fn identity_labels(identity: HostIdentity) -> Seq<(Seq<char>, Seq<char>)> {
    optional_label("host"@, identity.host_name) + optional_label("os"@, identity.os_name)
        + optional_label("os_version"@, identity.os_version) + optional_label(
        "kernel"@,
        identity.kernel_version,
    ) + optional_label("arch"@, identity.cpu_arch)
}

fn push_optional_label(
    labels: &mut Vec<(&'static str, String)>,
    key: &'static str,
    value: &Option<String>,
)
    ensures
        label_views(final(labels)@) == label_views(old(labels)@) + optional_label(key@, *value),
{
    assert(label_views(labels@) + Seq::<(Seq<char>, Seq<char>)>::empty() =~= label_views(labels@));
    if let Some(text) = value {
        if !text.as_str().is_empty() {
            labels.push((key, text.clone()));
            assert(label_views(labels@) =~= label_views(old(labels)@) + seq![(key@, text@)]);
        }
    }
}

/// One label and its value.
pub open spec fn one_label(key: Seq<char>, value: Seq<char>) -> Seq<(Seq<char>, Seq<char>)> {
    seq![(key, value)]
}

fn sample1(key: &'static str, label: String, value: String) -> (sample: Sample)
    ensures
        sample@ == SampleView::labelled(one_label(key@, label@), value@),
{
    let mut labels: Vec<(&'static str, String)> = Vec::new();
    labels.push((key, label));
    assert(label_views(labels@) =~= one_label(key@, label@));
    Sample::labelled(labels, value)
}

fn sample2(
    key1: &'static str,
    label1: String,
    key2: &'static str,
    label2: String,
    value: String,
) -> (sample: Sample)
    ensures
        sample@ == SampleView::labelled(seq![(key1@, label1@), (key2@, label2@)], value@),
{
    let mut labels: Vec<(&'static str, String)> = Vec::new();
    labels.push((key1, label1));
    labels.push((key2, label2));
    assert(label_views(labels@) =~= seq![(key1@, label1@), (key2@, label2@)]);
    Sample::labelled(labels, value)
}

fn sample3(
    key1: &'static str,
    label1: String,
    key2: &'static str,
    label2: String,
    key3: &'static str,
    label3: String,
    value: String,
) -> (sample: Sample)
    ensures
        sample@ == SampleView::labelled(
            seq![(key1@, label1@), (key2@, label2@), (key3@, label3@)],
            value@,
        ),
{
    let mut labels: Vec<(&'static str, String)> = Vec::new();
    labels.push((key1, label1));
    labels.push((key2, label2));
    labels.push((key3, label3));
    assert(label_views(labels@) =~= seq![(key1@, label1@), (key2@, label2@), (key3@, label3@)]);
    Sample::labelled(labels, value)
}

/// A sample labelled by a state.
pub open spec fn state_sample(state: Seq<char>, bytes: u64) -> SampleView {
    SampleView::labelled(one_label("state"@, state), decimal(bytes as nat))
}

/// A family of one sample without labels, holding a figure.
pub open spec fn figure_family(name: Seq<char>, help: Seq<char>, figure: Option<Figure>) -> Seq<
    FamilyView,
> {
    match figure {
        Some(figure) => seq![
            FamilyView {
                name,
                help,
                kind: "gauge"@,
                samples: seq![SampleView::bare(figure_text(figure))],
            },
        ],
        None => Seq::empty(),
    }
}

fn push_figure_family(
    families: &mut Vec<Family>,
    name: &'static str,
    help: &'static str,
    figure: &Option<Figure>,
)
    ensures
        family_views(final(families)@) == family_views(old(families)@) + figure_family(
            name@,
            help@,
            *figure,
        ),
{
    assert(family_views(families@) + Seq::<FamilyView>::empty() =~= family_views(families@));
    if let Some(figure) = figure {
        let mut samples: Vec<Sample> = Vec::new();
        push_sample(&mut samples, Sample::bare(sanitize_prometheus_figure(figure)));
        let family = Family { name, help, kind: "gauge", samples };
        assert(family@.samples =~= seq![SampleView::bare(figure_text(*figure))]);
        push_family(families, family);
        assert(family_views(families@) =~= family_views(old(families)@) + seq![family@]);
    }
}

/// The family that names the host.
pub open spec fn identity_family(identity: HostIdentity) -> FamilyView {
    FamilyView {
        name: "oxmgr_host_info"@,
        help: "Static identity of the host oxmgr is running on."@,
        kind: "gauge"@,
        samples: seq![SampleView::labelled(identity_labels(identity), "1"@)],
    }
}

fn build_identity(identity: &HostIdentity) -> (family: Family)
    ensures
        family@ == identity_family(*identity),
{
    let mut labels: Vec<(&'static str, String)> = Vec::new();
    assert(label_views(labels@) =~= Seq::<(Seq<char>, Seq<char>)>::empty());
    push_optional_label(&mut labels, "host", &identity.host_name);
    assert(label_views(labels@) =~= optional_label("host"@, identity.host_name));
    push_optional_label(&mut labels, "os", &identity.os_name);
    push_optional_label(&mut labels, "os_version", &identity.os_version);
    push_optional_label(&mut labels, "kernel", &identity.kernel_version);
    push_optional_label(&mut labels, "arch", &identity.cpu_arch);
    let mut samples: Vec<Sample> = Vec::new();
    push_sample(&mut samples, Sample::labelled(labels, "1".to_owned()));
    let family = Family {
        name: "oxmgr_host_info",
        help: "Static identity of the host oxmgr is running on.",
        kind: "gauge",
        samples,
    };
    assert(family@.samples =~= identity_family(*identity).samples);
    family
}

/// The family of the uptime, where it is known.
pub open spec fn uptime_families(uptime_secs: Option<u64>) -> Seq<FamilyView> {
    match uptime_secs {
        Some(uptime) => seq![
            FamilyView {
                name: "oxmgr_host_uptime_seconds"@,
                help: "Seconds since the host booted."@,
                kind: "gauge"@,
                samples: seq![SampleView::bare(decimal(uptime as nat))],
            },
        ],
        None => Seq::empty(),
    }
}

fn push_uptime(families: &mut Vec<Family>, uptime_secs: Option<u64>)
    ensures
        family_views(final(families)@) == family_views(old(families)@) + uptime_families(
            uptime_secs,
        ),
{
    assert(family_views(families@) + Seq::<FamilyView>::empty() =~= family_views(families@));
    if let Some(uptime) = uptime_secs {
        let mut samples: Vec<Sample> = Vec::new();
        push_sample(&mut samples, Sample::bare(decimal_text(uptime)));
        let family = Family {
            name: "oxmgr_host_uptime_seconds",
            help: "Seconds since the host booted.",
            kind: "gauge",
            samples,
        };
        assert(family@.samples =~= seq![SampleView::bare(decimal(uptime as nat))]);
        push_family(families, family);
        assert(family_views(families@) =~= family_views(old(families)@) + seq![family@]);
    }
}

/// The family of the swap space, where there is any.
pub open spec fn swap_families(swap: Option<HostSwap>) -> Seq<FamilyView> {
    match swap {
        Some(swap) => seq![
            FamilyView {
                name: "oxmgr_host_swap_bytes"@,
                help: "Host swap in bytes by state."@,
                kind: "gauge"@,
                samples: seq![
                    state_sample("total"@, swap.total_bytes),
                    state_sample("used"@, swap.used_bytes),
                ],
            },
        ],
        None => Seq::empty(),
    }
}

/// The families of the memory, where it was measured.
pub open spec fn memory_families(memory: Option<HostMemory>) -> Seq<FamilyView> {
    match memory {
        Some(memory) => seq![
            FamilyView {
                name: "oxmgr_host_memory_bytes"@,
                help: "Host memory in bytes by state."@,
                kind: "gauge"@,
                samples: seq![
                    state_sample("total"@, memory.total_bytes),
                    state_sample("used"@, memory.used_bytes),
                    state_sample("available"@, memory.available_bytes),
                    state_sample("free"@, memory.free_bytes),
                ],
            },
        ] + figure_family(
            "oxmgr_host_memory_used_percent"@,
            "Share of host memory in use."@,
            memory.used_percent,
        ) + swap_families(memory.swap),
        None => Seq::empty(),
    }
}

fn push_state(samples: &mut Vec<Sample>, state: &'static str, bytes: u64)
    ensures
        sample_views(final(samples)@) == sample_views(old(samples)@).push(
            state_sample(state@, bytes),
        ),
{
    push_sample(samples, sample1("state", state.to_owned(), decimal_text(bytes)));
}

fn push_memory(families: &mut Vec<Family>, memory: &Option<HostMemory>)
    ensures
        family_views(final(families)@) == family_views(old(families)@) + memory_families(*memory),
{
    assert(family_views(families@) + Seq::<FamilyView>::empty() =~= family_views(families@));
    if let Some(memory) = memory {
        let ghost before = family_views(families@);
        let mut samples: Vec<Sample> = Vec::new();
        push_state(&mut samples, "total", memory.total_bytes);
        push_state(&mut samples, "used", memory.used_bytes);
        push_state(&mut samples, "available", memory.available_bytes);
        push_state(&mut samples, "free", memory.free_bytes);
        let family = Family {
            name: "oxmgr_host_memory_bytes",
            help: "Host memory in bytes by state.",
            kind: "gauge",
            samples,
        };
        let ghost bytes = family@;
        assert(bytes.samples =~= memory_families(Some(*memory))[0].samples);
        push_family(families, family);
        push_figure_family(
            families,
            "oxmgr_host_memory_used_percent",
            "Share of host memory in use.",
            &memory.used_percent,
        );
        let ghost middle = family_views(families@);
        if let Some(swap) = &memory.swap {
            let mut samples: Vec<Sample> = Vec::new();
            push_state(&mut samples, "total", swap.total_bytes);
            push_state(&mut samples, "used", swap.used_bytes);
            let family = Family {
                name: "oxmgr_host_swap_bytes",
                help: "Host swap in bytes by state.",
                kind: "gauge",
                samples,
            };
            assert(family@.samples =~= swap_families(memory.swap)[0].samples);
            push_family(families, family);
        }
        assert(family_views(families@) =~= middle + swap_families(memory.swap));
        assert(family_views(families@) =~= before + memory_families(Some(*memory)));
    }
}

/// The sample of one core.
pub open spec fn core_sample(core: HostCore) -> SampleView {
    SampleView::labelled(one_label("core"@, core.name@), figure_text(core.usage_percent))
}

/// The families of the processor.
pub open spec fn cpu_families(cpu: Option<HostCpu>) -> Seq<FamilyView> {
    match cpu {
        Some(cpu) => figure_family(
            "oxmgr_host_cpu_used_percent"@,
            "Host CPU utilisation."@,
            cpu.global_percent,
        ) + (match cpu.per_core {
            Some(cores) => seq![
                FamilyView {
                    name: "oxmgr_host_cpu_core_used_percent"@,
                    help: "Per-core CPU utilisation."@,
                    kind: "gauge"@,
                    samples: cores@.map_values(|core: HostCore| core_sample(core)),
                },
            ],
            None => Seq::empty(),
        }),
        None => Seq::empty(),
    }
}

fn push_cpu(families: &mut Vec<Family>, cpu: &Option<HostCpu>)
    ensures
        family_views(final(families)@) == family_views(old(families)@) + cpu_families(*cpu),
{
    assert(family_views(families@) + Seq::<FamilyView>::empty() =~= family_views(families@));
    if let Some(cpu) = cpu {
        let ghost before = family_views(families@);
        push_figure_family(
            families,
            "oxmgr_host_cpu_used_percent",
            "Host CPU utilisation.",
            &cpu.global_percent,
        );
        if let Some(cores) = &cpu.per_core {
            let mut samples: Vec<Sample> = Vec::new();
            let mut i: usize = 0;
            while i < cores.len()
                invariant
                    i <= cores.len(),
                    samples.len() == i,
                    forall|j: int| 0 <= j < i ==> (#[trigger] samples@[j])@ == core_sample(
                        cores@[j],
                    ),
                decreases cores.len() - i,
            {
                samples.push(
                    sample1(
                        "core",
                        cores[i].name.clone(),
                        sanitize_prometheus_figure(&cores[i].usage_percent),
                    ),
                );
                i = i + 1;
            }
            let family = Family {
                name: "oxmgr_host_cpu_core_used_percent",
                help: "Per-core CPU utilisation.",
                kind: "gauge",
                samples,
            };
            assert(family@.samples =~= cores@.map_values(|core: HostCore| core_sample(core)));
            push_family(families, family);
        }
        assert(family_views(families@) =~= before + cpu_families(Some(*cpu)));
    }
}

/// The family of the load averages.
pub open spec fn load_families(load: Option<HostLoad>) -> Seq<FamilyView> {
    match load {
        Some(load) => seq![
            FamilyView {
                name: "oxmgr_host_load_average"@,
                help: "Host load average."@,
                kind: "gauge"@,
                samples: seq![
                    SampleView::labelled(one_label("window"@, "1m"@), load.one.text@),
                    SampleView::labelled(one_label("window"@, "5m"@), load.five.text@),
                    SampleView::labelled(one_label("window"@, "15m"@), load.fifteen.text@),
                ],
            },
        ],
        None => Seq::empty(),
    }
}

fn push_load(families: &mut Vec<Family>, load: &Option<HostLoad>)
    ensures
        family_views(final(families)@) == family_views(old(families)@) + load_families(*load),
{
    assert(family_views(families@) + Seq::<FamilyView>::empty() =~= family_views(families@));
    if let Some(load) = load {
        let mut samples: Vec<Sample> = Vec::new();
        push_sample(&mut samples, sample1("window", "1m".to_owned(), load.one.text.clone()));
        push_sample(&mut samples, sample1("window", "5m".to_owned(), load.five.text.clone()));
        push_sample(&mut samples, sample1("window", "15m".to_owned(), load.fifteen.text.clone()));
        let family = Family {
            name: "oxmgr_host_load_average",
            help: "Host load average.",
            kind: "gauge",
            samples,
        };
        assert(family@.samples =~= load_families(Some(*load))[0].samples);
        push_family(families, family);
        assert(family_views(families@) =~= family_views(old(families)@) + load_families(
            Some(*load),
        ));
    }
}

/// A sample of a filesystem's capacity in one state.
pub open spec fn filesystem_sample(fs: HostFilesystem, state: Seq<char>, bytes: u64) -> SampleView {
    SampleView::labelled(
        seq![("mount"@, fs.mount_point@), ("fstype"@, fs.file_system@), ("state"@, state)],
        decimal(bytes as nat),
    )
}

/// The capacity samples of some filesystems.
pub open spec fn capacity_samples(filesystems: Seq<HostFilesystem>) -> Seq<SampleView>
    decreases filesystems.len(),
{
    if filesystems.len() == 0 {
        Seq::empty()
    } else {
        let fs = filesystems.last();
        capacity_samples(filesystems.drop_last()).push(
            filesystem_sample(fs, "total"@, fs.total_bytes),
        ).push(filesystem_sample(fs, "available"@, fs.available_bytes)).push(
            filesystem_sample(fs, "used"@, fs.used_bytes),
        )
    }
}

/// The utilisation samples of some filesystems: none for one without capacity.
pub open spec fn utilisation_samples(filesystems: Seq<HostFilesystem>) -> Seq<SampleView>
    decreases filesystems.len(),
{
    if filesystems.len() == 0 {
        Seq::empty()
    } else {
        let fs = filesystems.last();
        let rest = utilisation_samples(filesystems.drop_last());
        match fs.used_percent {
            Some(percent) => rest.push(
                SampleView::labelled(
                    seq![("mount"@, fs.mount_point@), ("fstype"@, fs.file_system@)],
                    figure_text(percent),
                ),
            ),
            None => rest,
        }
    }
}

/// The families of the filesystems.
pub open spec fn filesystem_families(filesystems: Option<Vec<HostFilesystem>>) -> Seq<FamilyView> {
    match filesystems {
        Some(filesystems) => seq![
            FamilyView {
                name: "oxmgr_host_filesystem_bytes"@,
                help: "Filesystem capacity in bytes by state."@,
                kind: "gauge"@,
                samples: capacity_samples(filesystems@),
            },
            FamilyView {
                name: "oxmgr_host_filesystem_used_percent"@,
                help: "Share of a filesystem in use."@,
                kind: "gauge"@,
                samples: utilisation_samples(filesystems@),
            },
        ],
        None => Seq::empty(),
    }
}

fn push_filesystem_sample(
    samples: &mut Vec<Sample>,
    fs: &HostFilesystem,
    state: &'static str,
    bytes: u64,
)
    ensures
        sample_views(final(samples)@) == sample_views(old(samples)@).push(
            filesystem_sample(*fs, state@, bytes),
        ),
{
    push_sample(
        samples,
        sample3(
            "mount",
            fs.mount_point.clone(),
            "fstype",
            fs.file_system.clone(),
            "state",
            state.to_owned(),
            decimal_text(bytes),
        ),
    );
}

fn push_filesystems(families: &mut Vec<Family>, filesystems: &Option<Vec<HostFilesystem>>)
    ensures
        family_views(final(families)@) == family_views(old(families)@) + filesystem_families(
            *filesystems,
        ),
{
    assert(family_views(families@) + Seq::<FamilyView>::empty() =~= family_views(families@));
    let list = match filesystems {
        Some(list) => list,
        None => {
            return;
        },
    };
    let mut capacity: Vec<Sample> = Vec::new();
    let mut utilisation: Vec<Sample> = Vec::new();
    let mut i: usize = 0;
    assert(list@.take(0) =~= Seq::<HostFilesystem>::empty());
    assert(sample_views(capacity@) =~= Seq::<SampleView>::empty());
    assert(sample_views(utilisation@) =~= Seq::<SampleView>::empty());
    while i < list.len()
        invariant
            i <= list.len(),
            sample_views(capacity@) == capacity_samples(list@.take(i as int)),
            sample_views(utilisation@) == utilisation_samples(list@.take(i as int)),
        decreases list.len() - i,
    {
        proof {
            assert(list@.take(i + 1).drop_last() =~= list@.take(i as int));
            assert(list@.take(i + 1).last() == list@[i as int]);
        }
        let fs = &list[i];
        push_filesystem_sample(&mut capacity, fs, "total", fs.total_bytes);
        push_filesystem_sample(&mut capacity, fs, "available", fs.available_bytes);
        push_filesystem_sample(&mut capacity, fs, "used", fs.used_bytes);
        if let Some(percent) = &fs.used_percent {
            push_sample(
                &mut utilisation,
                sample2(
                    "mount",
                    fs.mount_point.clone(),
                    "fstype",
                    fs.file_system.clone(),
                    sanitize_prometheus_figure(percent),
                ),
            );
        }
        i = i + 1;
    }
    assert(list@.take(i as int) =~= list@);
    push_family(
        families,
        Family {
            name: "oxmgr_host_filesystem_bytes",
            help: "Filesystem capacity in bytes by state.",
            kind: "gauge",
            samples: capacity,
        },
    );
    push_family(
        families,
        Family {
            name: "oxmgr_host_filesystem_used_percent",
            help: "Share of a filesystem in use.",
            kind: "gauge",
            samples: utilisation,
        },
    );
    assert(family_views(families@) =~= family_views(old(families)@) + filesystem_families(
        *filesystems,
    ));
}

/// The metrics of network interfaces.
#[derive(Debug, Clone, Copy, PartialEq, Eq, Structural)]
pub enum InterfaceSeries {
    Received,
    Transmitted,
    Errors,
    ReceivedRate,
    TransmittedRate,
}

/// Whether the interval of a measurement is long enough to report a rate over it.
pub open spec fn rate_usable(interval_ms: Option<u64>, min_interval_ms: u64) -> bool {
    interval_ms matches Some(interval) && interval >= min_interval_ms
}

/// A sample of an interface. The label says that the figure is the host's.
pub open spec fn interface_sample(interface: HostInterface, value: Seq<char>) -> SampleView {
    SampleView::labelled(seq![("interface"@, interface.name@), ("scope"@, "host"@)], value)
}

/// A sample of the errors of an interface in one direction.
pub open spec fn error_sample(
    interface: HostInterface,
    direction: Seq<char>,
    errors: u64,
) -> SampleView {
    SampleView::labelled(
        seq![("interface"@, interface.name@), ("scope"@, "host"@), ("direction"@, direction)],
        decimal(errors as nat),
    )
}

impl InterfaceSeries {
    /// The name, the meaning and the kind of the metric.
    pub open spec fn heading(self) -> (Seq<char>, Seq<char>, Seq<char>) {
        match self {
            InterfaceSeries::Received => (
                "oxmgr_host_network_received_bytes_total"@,
                "Cumulative bytes received per interface."@,
                "counter"@,
            ),
            InterfaceSeries::Transmitted => (
                "oxmgr_host_network_transmitted_bytes_total"@,
                "Cumulative bytes transmitted per interface."@,
                "counter"@,
            ),
            InterfaceSeries::Errors => (
                "oxmgr_host_network_errors_total"@,
                "Cumulative interface errors by direction."@,
                "counter"@,
            ),
            InterfaceSeries::ReceivedRate => (
                "oxmgr_host_network_received_bytes_per_second"@,
                "Bytes received per second over the observed interval."@,
                "gauge"@,
            ),
            InterfaceSeries::TransmittedRate => (
                "oxmgr_host_network_transmitted_bytes_per_second"@,
                "Bytes transmitted per second over the observed interval."@,
                "gauge"@,
            ),
        }
    }

    fn titles(self) -> (titles: (&'static str, &'static str, &'static str))
        ensures
            (titles.0@, titles.1@, titles.2@) == self.heading(),
    {
        match self {
            InterfaceSeries::Received => (
                "oxmgr_host_network_received_bytes_total",
                "Cumulative bytes received per interface.",
                "counter",
            ),
            InterfaceSeries::Transmitted => (
                "oxmgr_host_network_transmitted_bytes_total",
                "Cumulative bytes transmitted per interface.",
                "counter",
            ),
            InterfaceSeries::Errors => (
                "oxmgr_host_network_errors_total",
                "Cumulative interface errors by direction.",
                "counter",
            ),
            InterfaceSeries::ReceivedRate => (
                "oxmgr_host_network_received_bytes_per_second",
                "Bytes received per second over the observed interval.",
                "gauge",
            ),
            InterfaceSeries::TransmittedRate => (
                "oxmgr_host_network_transmitted_bytes_per_second",
                "Bytes transmitted per second over the observed interval.",
                "gauge",
            ),
        }
    }

    /// The samples of one interface. A rate without a usable interval has none.
    pub open spec fn samples_of(self, interface: HostInterface, min_interval_ms: u64) -> Seq<
        SampleView,
    > {
        match self {
            InterfaceSeries::Received => seq![
                interface_sample(interface, decimal(interface.total_received_bytes as nat)),
            ],
            InterfaceSeries::Transmitted => seq![
                interface_sample(interface, decimal(interface.total_transmitted_bytes as nat)),
            ],
            InterfaceSeries::Errors => seq![
                error_sample(interface, "received"@, interface.errors_on_received),
                error_sample(interface, "transmitted"@, interface.errors_on_transmitted),
            ],
            InterfaceSeries::ReceivedRate => if rate_usable(
                interface.interval_ms,
                min_interval_ms,
            ) {
                seq![interface_sample(interface, figure_text(interface.received_rate))]
            } else {
                Seq::empty()
            },
            InterfaceSeries::TransmittedRate => if rate_usable(
                interface.interval_ms,
                min_interval_ms,
            ) {
                seq![interface_sample(interface, figure_text(interface.transmitted_rate))]
            } else {
                Seq::empty()
            },
        }
    }

    /// The samples of some interfaces, in order.
    pub open spec fn samples(self, interfaces: Seq<HostInterface>, min_interval_ms: u64) -> Seq<
        SampleView,
    >
        decreases interfaces.len(),
    {
        if interfaces.len() == 0 {
            Seq::empty()
        } else {
            self.samples(interfaces.drop_last(), min_interval_ms) + self.samples_of(
                interfaces.last(),
                min_interval_ms,
            )
        }
    }

    /// The family of the metric.
    pub open spec fn family(self, interfaces: Seq<HostInterface>, min_interval_ms: u64) -> FamilyView {
        FamilyView {
            name: self.heading().0,
            help: self.heading().1,
            kind: self.heading().2,
            samples: self.samples(interfaces, min_interval_ms),
        }
    }

    fn push_samples(
        self,
        samples: &mut Vec<Sample>,
        interface: &HostInterface,
        min_interval_ms: u64,
    )
        ensures
            sample_views(final(samples)@) == sample_views(old(samples)@) + self.samples_of(
                *interface,
                min_interval_ms,
            ),
    {
        let ghost before = sample_views(samples@);
        assert(before + Seq::<SampleView>::empty() =~= before);
        let usable: bool = match interface.interval_ms {
            Some(interval) => interval >= min_interval_ms,
            None => false,
        };
        let value = match self {
            InterfaceSeries::Received => decimal_text(interface.total_received_bytes),
            InterfaceSeries::Transmitted => decimal_text(interface.total_transmitted_bytes),
            InterfaceSeries::Errors => {
                push_sample(
                    samples,
                    sample3(
                        "interface",
                        interface.name.clone(),
                        "scope",
                        "host".to_owned(),
                        "direction",
                        "received".to_owned(),
                        decimal_text(interface.errors_on_received),
                    ),
                );
                push_sample(
                    samples,
                    sample3(
                        "interface",
                        interface.name.clone(),
                        "scope",
                        "host".to_owned(),
                        "direction",
                        "transmitted".to_owned(),
                        decimal_text(interface.errors_on_transmitted),
                    ),
                );
                assert(sample_views(samples@) =~= before + self.samples_of(
                    *interface,
                    min_interval_ms,
                ));
                return;
            },
            InterfaceSeries::ReceivedRate => {
                if !usable {
                    return;
                }
                sanitize_prometheus_figure(&interface.received_rate)
            },
            InterfaceSeries::TransmittedRate => {
                if !usable {
                    return;
                }
                sanitize_prometheus_figure(&interface.transmitted_rate)
            },
        };
        push_sample(
            samples,
            sample2("interface", interface.name.clone(), "scope", "host".to_owned(), value),
        );
        assert(sample_views(samples@) =~= before + self.samples_of(*interface, min_interval_ms));
    }

    fn build(self, interfaces: &[HostInterface], min_interval_ms: u64) -> (family: Family)
        ensures
            family@ == self.family(interfaces@, min_interval_ms),
    {
        let mut samples: Vec<Sample> = Vec::new();
        let mut i: usize = 0;
        assert(sample_views(samples@) =~= Seq::<SampleView>::empty());
        assert(interfaces@.take(0) =~= Seq::<HostInterface>::empty());
        while i < interfaces.len()
            invariant
                i <= interfaces.len(),
                sample_views(samples@) == self.samples(interfaces@.take(i as int), min_interval_ms),
            decreases interfaces.len() - i,
        {
            proof {
                assert(interfaces@.take(i + 1).drop_last() =~= interfaces@.take(i as int));
                assert(interfaces@.take(i + 1).last() == interfaces@[i as int]);
            }
            self.push_samples(&mut samples, &interfaces[i], min_interval_ms);
            i = i + 1;
        }
        assert(interfaces@.take(i as int) =~= interfaces@);
        let (name, help, kind) = self.titles();
        Family { name, help, kind, samples }
    }
}

/// The families of the network.
pub open spec fn network_families(
    network: Option<Vec<HostInterface>>,
    min_interval_ms: u64,
) -> Seq<FamilyView> {
    match network {
        Some(interfaces) => seq![
            InterfaceSeries::Received.family(interfaces@, min_interval_ms),
            InterfaceSeries::Transmitted.family(interfaces@, min_interval_ms),
            InterfaceSeries::Errors.family(interfaces@, min_interval_ms),
            InterfaceSeries::ReceivedRate.family(interfaces@, min_interval_ms),
            InterfaceSeries::TransmittedRate.family(interfaces@, min_interval_ms),
        ],
        None => Seq::empty(),
    }
}

fn push_network(
    families: &mut Vec<Family>,
    network: &Option<Vec<HostInterface>>,
    min_interval_ms: u64,
)
    ensures
        family_views(final(families)@) == family_views(old(families)@) + network_families(
            *network,
            min_interval_ms,
        ),
{
    assert(family_views(families@) + Seq::<FamilyView>::empty() =~= family_views(families@));
    if let Some(interfaces) = network {
        let list = interfaces.as_slice();
        push_family(families, InterfaceSeries::Received.build(list, min_interval_ms));
        push_family(families, InterfaceSeries::Transmitted.build(list, min_interval_ms));
        push_family(families, InterfaceSeries::Errors.build(list, min_interval_ms));
        push_family(families, InterfaceSeries::ReceivedRate.build(list, min_interval_ms));
        push_family(families, InterfaceSeries::TransmittedRate.build(list, min_interval_ms));
        assert(family_views(families@) =~= family_views(old(families)@) + network_families(
            *network,
            min_interval_ms,
        ));
    }
}

/// The temperature samples of the components that have one.
pub open spec fn temperature_samples(components: Seq<HostComponent>) -> Seq<SampleView>
    decreases components.len(),
{
    if components.len() == 0 {
        Seq::empty()
    } else {
        let component = components.last();
        let rest = temperature_samples(components.drop_last());
        match component.temperature_celsius {
            Some(temperature) => rest.push(
                SampleView::labelled(
                    one_label("component"@, component.label@),
                    figure_text(temperature),
                ),
            ),
            None => rest,
        }
    }
}

/// The family of the temperatures, where any component has one.
pub open spec fn temperature_families(components: Option<Vec<HostComponent>>) -> Seq<FamilyView> {
    match components {
        Some(components) => if temperature_samples(components@).len() > 0 {
            seq![
                FamilyView {
                    name: "oxmgr_host_temperature_celsius"@,
                    help: "Component temperature."@,
                    kind: "gauge"@,
                    samples: temperature_samples(components@),
                },
            ]
        } else {
            Seq::empty()
        },
        None => Seq::empty(),
    }
}

fn push_temperatures(families: &mut Vec<Family>, components: &Option<Vec<HostComponent>>)
    ensures
        family_views(final(families)@) == family_views(old(families)@) + temperature_families(
            *components,
        ),
{
    assert(family_views(families@) + Seq::<FamilyView>::empty() =~= family_views(families@));
    let list = match components {
        Some(list) => list,
        None => {
            return;
        },
    };
    let mut samples: Vec<Sample> = Vec::new();
    let mut i: usize = 0;
    assert(list@.take(0) =~= Seq::<HostComponent>::empty());
    assert(sample_views(samples@) =~= Seq::<SampleView>::empty());
    while i < list.len()
        invariant
            i <= list.len(),
            sample_views(samples@) == temperature_samples(list@.take(i as int)),
        decreases list.len() - i,
    {
        proof {
            assert(list@.take(i + 1).drop_last() =~= list@.take(i as int));
            assert(list@.take(i + 1).last() == list@[i as int]);
        }
        if let Some(temperature) = &list[i].temperature_celsius {
            push_sample(
                &mut samples,
                sample1(
                    "component",
                    list[i].label.clone(),
                    sanitize_prometheus_figure(temperature),
                ),
            );
        }
        i = i + 1;
    }
    assert(list@.take(i as int) =~= list@);
    assert(samples@.len() == sample_views(samples@).len());
    if samples.len() > 0 {
        push_family(
            families,
            Family {
                name: "oxmgr_host_temperature_celsius",
                help: "Component temperature.",
                kind: "gauge",
                samples,
            },
        );
        assert(family_views(families@) =~= family_views(old(families)@) + temperature_families(
            *components,
        ));
    }
}

/// The family of the subsystems that failed to collect, where any did.
pub open spec fn failure_families(failures: Seq<String>) -> Seq<FamilyView> {
    if failures.len() == 0 {
        Seq::empty()
    } else {
        seq![
            FamilyView {
                name: "oxmgr_host_subsystem_failed"@,
                help: "Whether a host metrics subsystem failed to collect."@,
                kind: "gauge"@,
                samples: failures.map_values(
                    |name: String| SampleView::labelled(one_label("subsystem"@, name@), "1"@),
                ),
            },
        ]
    }
}

fn push_failures(families: &mut Vec<Family>, failures: &[String])
    ensures
        family_views(final(families)@) == family_views(old(families)@) + failure_families(
            failures@,
        ),
{
    assert(family_views(families@) + Seq::<FamilyView>::empty() =~= family_views(families@));
    if failures.len() == 0 {
        return;
    }
    let mut samples: Vec<Sample> = Vec::new();
    let mut i: usize = 0;
    while i < failures.len()
        invariant
            i <= failures.len(),
            samples.len() == i,
            forall|j: int|
                0 <= j < i ==> (#[trigger] samples@[j])@ == SampleView::labelled(
                    one_label("subsystem"@, failures@[j]@),
                    "1"@,
                ),
        decreases failures.len() - i,
    {
        samples.push(sample1("subsystem", failures[i].clone(), "1".to_owned()));
        i = i + 1;
    }
    let family = Family {
        name: "oxmgr_host_subsystem_failed",
        help: "Whether a host metrics subsystem failed to collect.",
        kind: "gauge",
        samples,
    };
    assert(family@.samples =~= failure_families(failures@)[0].samples);
    push_family(families, family);
    assert(family_views(families@) =~= family_views(old(families)@) + failure_families(failures@));
}

/// The families that describe the host.
pub open spec fn host_families(metrics: HostMetrics) -> Seq<FamilyView> {
    seq![identity_family(metrics.identity)] + uptime_families(metrics.uptime_secs)
        + memory_families(metrics.memory) + cpu_families(metrics.cpu) + load_families(
        metrics.load_average,
    ) + filesystem_families(metrics.filesystems) + network_families(
        metrics.network,
        metrics.min_rate_interval_ms,
    ) + temperature_families(metrics.components) + failure_families(metrics.failures@)
}

/// Renders the metrics of the host. What was not measured is left out.
pub fn render_host_prometheus_metrics(metrics: &HostMetrics) -> (body: String)
    ensures
        body@ == families_text(host_families(*metrics)),
{
    let mut families: Vec<Family> = Vec::new();
    push_family(&mut families, build_identity(&metrics.identity));
    assert(family_views(families@) =~= seq![identity_family(metrics.identity)]);
    push_uptime(&mut families, metrics.uptime_secs);
    push_memory(&mut families, &metrics.memory);
    push_cpu(&mut families, &metrics.cpu);
    push_load(&mut families, &metrics.load_average);
    push_filesystems(&mut families, &metrics.filesystems);
    push_network(&mut families, &metrics.network, metrics.min_rate_interval_ms);
    push_temperatures(&mut families, &metrics.components);
    push_failures(&mut families, metrics.failures.as_slice());
    render_families(families.as_slice())
}

/// Answers a request for a value that is collected in the background: the value in JSON, or a
/// refusal while there is none.
fn collected(value: Option<&str>, absent: &str) -> (reply: Reply)
    ensures
        match value {
            Some(json) => reply@ == ReplyView::plain(200, vstd::utf8::encode_utf8(json@)).with(
                "content-type"@,
                "application/json"@,
            ),
            None => reply@ == ReplyView::text(503, absent@),
        },
{
    match value {
        Some(json) => Reply::new(200, json.as_bytes_vec()).with("content-type", "application/json"),
        None => Reply::text(503, absent),
    }
}

/// Answers a request for the host metrics, given in JSON once the first collection has completed.
pub fn get_host(metrics: Option<&str>) -> (reply: Reply)
    ensures
        match metrics {
            Some(json) => reply@ == ReplyView::plain(200, vstd::utf8::encode_utf8(json@)).with(
                "content-type"@,
                "application/json"@,
            ),
            None => reply@ == ReplyView::text(
                503,
                "host metrics not collected yet: the first collection has not completed"@,
            ),
        },
{
    collected(metrics, "host metrics not collected yet: the first collection has not completed")
}

/// Answers a request for the host-wide consumers, given in JSON once they have been sampled.
pub fn get_host_consumers(consumers: Option<&str>) -> (reply: Reply)
    ensures
        match consumers {
            Some(json) => reply@ == ReplyView::plain(200, vstd::utf8::encode_utf8(json@)).with(
                "content-type"@,
                "application/json"@,
            ),
            None => reply@ == ReplyView::text(
                503,
                "host-wide consumer sampling is disabled or has not yet produced a sample"@,
            ),
        },
{
    collected(
        consumers,
        "host-wide consumer sampling is disabled or has not yet produced a sample",
    )
}

/// Whether a metric shows a value under some labels.
pub open spec fn tells(
    families: Seq<FamilyView>,
    name: Seq<char>,
    labels: Seq<(Seq<char>, Seq<char>)>,
    value: Seq<char>,
) -> bool {
    exists|family: FamilyView, k: int|
        #![trigger families.contains(family), family.samples[k]]
        families.contains(family) && family.name == name && 0 <= k < family.samples.len()
            && family.samples[k].labels == Some(labels) && family.samples[k].value == value
}

/// Whether a metric shows a value without labels.
pub open spec fn tells_alone(
    families: Seq<FamilyView>,
    name: Seq<char>,
    value: Seq<char>,
) -> bool {
    exists|family: FamilyView| #[trigger]
        families.contains(family) && family.name == name && family.samples.len() == 1
            && family.samples[0].labels is None && family.samples[0].value == value
}

/// A family of one part of the host is a family of the host.
proof fn lemma_part_of_host(metrics: HostMetrics, family: FamilyView)
    ensures
        family == identity_family(metrics.identity) || uptime_families(
            metrics.uptime_secs,
        ).contains(family) || memory_families(metrics.memory).contains(family) || cpu_families(
            metrics.cpu,
        ).contains(family) || load_families(metrics.load_average).contains(family)
            || filesystem_families(metrics.filesystems).contains(family) || network_families(
            metrics.network,
            metrics.min_rate_interval_ms,
        ).contains(family) || temperature_families(metrics.components).contains(family)
            || failure_families(metrics.failures@).contains(family) ==> host_families(
            metrics,
        ).contains(family),
{
    let p0 = seq![identity_family(metrics.identity)];
    assert(p0[0] == identity_family(metrics.identity));
    let p1 = uptime_families(metrics.uptime_secs);
    let p2 = memory_families(metrics.memory);
    let p3 = cpu_families(metrics.cpu);
    let p4 = load_families(metrics.load_average);
    let p5 = filesystem_families(metrics.filesystems);
    let p6 = network_families(metrics.network, metrics.min_rate_interval_ms);
    let p7 = temperature_families(metrics.components);
    let p8 = failure_families(metrics.failures@);
    lemma_in_sum(p0, p1, family);
    lemma_in_sum(p0 + p1, p2, family);
    lemma_in_sum(p0 + p1 + p2, p3, family);
    lemma_in_sum(p0 + p1 + p2 + p3, p4, family);
    lemma_in_sum(p0 + p1 + p2 + p3 + p4, p5, family);
    lemma_in_sum(p0 + p1 + p2 + p3 + p4 + p5, p6, family);
    lemma_in_sum(p0 + p1 + p2 + p3 + p4 + p5 + p6, p7, family);
    lemma_in_sum(p0 + p1 + p2 + p3 + p4 + p5 + p6 + p7, p8, family);
}

proof fn lemma_in_sum(a: Seq<FamilyView>, b: Seq<FamilyView>, family: FamilyView)
    ensures
        (a + b).contains(family) <==> a.contains(family) || b.contains(family),
{
    if a.contains(family) {
        let i = choose|i: int| 0 <= i < a.len() && a[i] == family;
        assert((a + b)[i] == family);
    }
    if b.contains(family) {
        let i = choose|i: int| 0 <= i < b.len() && b[i] == family;
        assert((a + b)[a.len() + i] == family);
    }
    if (a + b).contains(family) {
        let i = choose|i: int| 0 <= i < (a + b).len() && (a + b)[i] == family;
        if i < a.len() {
            assert(a[i] == family);
        } else {
            assert(b[i - a.len()] == family);
        }
    }
}

/// Memory is shown state by state, each with the bytes of that state, and swap likewise where the
/// host has any.
pub proof fn memory_is_shown_by_state(metrics: HostMetrics, memory: HostMemory)
    requires
        metrics.memory == Some(memory),
    ensures
        tells(
            host_families(metrics),
            "oxmgr_host_memory_bytes"@,
            seq![("state"@, "total"@)],
            decimal(memory.total_bytes as nat),
        ),
        tells(
            host_families(metrics),
            "oxmgr_host_memory_bytes"@,
            seq![("state"@, "used"@)],
            decimal(memory.used_bytes as nat),
        ),
        tells(
            host_families(metrics),
            "oxmgr_host_memory_bytes"@,
            seq![("state"@, "available"@)],
            decimal(memory.available_bytes as nat),
        ),
        tells(
            host_families(metrics),
            "oxmgr_host_memory_bytes"@,
            seq![("state"@, "free"@)],
            decimal(memory.free_bytes as nat),
        ),
        memory.used_percent matches Some(percent) ==> tells_alone(
            host_families(metrics),
            "oxmgr_host_memory_used_percent"@,
            figure_text(percent),
        ),
        memory.swap matches Some(swap) ==> tells(
            host_families(metrics),
            "oxmgr_host_swap_bytes"@,
            seq![("state"@, "total"@)],
            decimal(swap.total_bytes as nat),
        ) && tells(
            host_families(metrics),
            "oxmgr_host_swap_bytes"@,
            seq![("state"@, "used"@)],
            decimal(swap.used_bytes as nat),
        ),
        memory_families(metrics.memory).len() == 1 + (if memory.used_percent is Some {
            1int
        } else {
            0
        }) + (if memory.swap is Some {
            1int
        } else {
            0
        }),
        memory_families(None).len() == 0,
{
    let families = memory_families(metrics.memory);
    let bytes = families[0];
    assert(families.contains(bytes));
    lemma_part_of_host(metrics, bytes);
    assert(bytes.samples[0] == state_sample("total"@, memory.total_bytes));
    assert(bytes.samples[1] == state_sample("used"@, memory.used_bytes));
    assert(bytes.samples[2] == state_sample("available"@, memory.available_bytes));
    assert(bytes.samples[3] == state_sample("free"@, memory.free_bytes));
    if memory.used_percent is Some {
        let share = families[1];
        assert(families.contains(share));
        lemma_part_of_host(metrics, share);
    }
    if memory.swap is Some {
        let swap = swap_families(memory.swap)[0];
        let at = families.len() - 1;
        assert(families[at] == swap);
        assert(families.contains(swap));
        lemma_part_of_host(metrics, swap);
        assert(swap.samples[0] == state_sample("total"@, (memory.swap->0).total_bytes));
        assert(swap.samples[1] == state_sample("used"@, (memory.swap->0).used_bytes));
    }
}

/// Load averages are shown by the window they cover, and the time since boot in seconds.
pub proof fn load_is_shown_by_window(metrics: HostMetrics)
    ensures
        metrics.load_average matches Some(load) ==> tells(
            host_families(metrics),
            "oxmgr_host_load_average"@,
            seq![("window"@, "1m"@)],
            load.one.text@,
        ) && tells(
            host_families(metrics),
            "oxmgr_host_load_average"@,
            seq![("window"@, "5m"@)],
            load.five.text@,
        ) && tells(
            host_families(metrics),
            "oxmgr_host_load_average"@,
            seq![("window"@, "15m"@)],
            load.fifteen.text@,
        ),
        metrics.uptime_secs matches Some(uptime) ==> tells_alone(
            host_families(metrics),
            "oxmgr_host_uptime_seconds"@,
            decimal(uptime as nat),
        ),
        load_families(None).len() == 0,
        uptime_families(None).len() == 0,
{
    if let Some(load) = metrics.load_average {
        let family = load_families(metrics.load_average)[0];
        assert(load_families(metrics.load_average).contains(family));
        lemma_part_of_host(metrics, family);
        assert(family.samples[0].labels == Some(seq![("window"@, "1m"@)]));
        assert(family.samples[1].labels == Some(seq![("window"@, "5m"@)]));
        assert(family.samples[2].labels == Some(seq![("window"@, "15m"@)]));
    }
    if metrics.uptime_secs is Some {
        let family = uptime_families(metrics.uptime_secs)[0];
        assert(uptime_families(metrics.uptime_secs).contains(family));
        lemma_part_of_host(metrics, family);
    }
}

/// Processor use is shown for the host and for each core, where it was sampled.
pub proof fn processor_use_is_shown_where_sampled(metrics: HostMetrics, cpu: HostCpu, at: int)
    requires
        metrics.cpu == Some(cpu),
    ensures
        cpu.global_percent matches Some(percent) ==> tells_alone(
            host_families(metrics),
            "oxmgr_host_cpu_used_percent"@,
            figure_text(percent),
        ),
        cpu.per_core matches Some(cores) ==> (0 <= at < cores@.len() ==> tells(
            host_families(metrics),
            "oxmgr_host_cpu_core_used_percent"@,
            seq![("core"@, cores@[at].name@)],
            figure_text(cores@[at].usage_percent),
        )),
        cpu.global_percent is None && cpu.per_core is None ==> cpu_families(metrics.cpu).len() == 0,
        cpu_families(None).len() == 0,
{
    let families = cpu_families(metrics.cpu);
    if cpu.global_percent is Some {
        assert(families.contains(families[0]));
        lemma_part_of_host(metrics, families[0]);
    }
    if let Some(cores) = cpu.per_core {
        let last = families.len() - 1;
        let family = families[last];
        assert(families.contains(family));
        lemma_part_of_host(metrics, family);
        assert(family.name == "oxmgr_host_cpu_core_used_percent"@);
        if 0 <= at < cores@.len() {
            assert(family.samples[at] == core_sample(cores@[at]));
        }
    }
}

proof fn lemma_capacity_sample(filesystems: Seq<HostFilesystem>, at: int)
    requires
        0 <= at < filesystems.len(),
    ensures
        capacity_samples(filesystems).len() == 3 * filesystems.len(),
        capacity_samples(filesystems)[3 * at] == filesystem_sample(
            filesystems[at],
            "total"@,
            filesystems[at].total_bytes,
        ),
        capacity_samples(filesystems)[3 * at + 1] == filesystem_sample(
            filesystems[at],
            "available"@,
            filesystems[at].available_bytes,
        ),
        capacity_samples(filesystems)[3 * at + 2] == filesystem_sample(
            filesystems[at],
            "used"@,
            filesystems[at].used_bytes,
        ),
    decreases filesystems.len(),
{
    let rest = filesystems.drop_last();
    if rest.len() > 0 {
        lemma_capacity_sample(
            rest,
            if at < rest.len() {
                at
            } else {
                0
            },
        );
    } else {
        assert(capacity_samples(rest).len() == 0);
    }
}

proof fn lemma_utilisation_sample(filesystems: Seq<HostFilesystem>, at: int) -> (k: int)
    requires
        0 <= at < filesystems.len(),
        filesystems[at].used_percent is Some,
    ensures
        0 <= k < utilisation_samples(filesystems).len(),
        utilisation_samples(filesystems)[k].labels == Some(
            seq![
                ("mount"@, filesystems[at].mount_point@),
                ("fstype"@, filesystems[at].file_system@),
            ],
        ),
        utilisation_samples(filesystems)[k].value == figure_text(filesystems[at].used_percent->0),
    decreases filesystems.len(),
{
    let rest = filesystems.drop_last();
    if at < rest.len() {
        let k = lemma_utilisation_sample(rest, at);
        assert(utilisation_samples(filesystems)[k] == utilisation_samples(rest)[k]);
        k
    } else {
        utilisation_samples(rest).len() as int
    }
}

/// A filesystem is shown by its mount point and kind: its capacity by state, and its share in use
/// where that is known.
pub proof fn a_filesystem_is_shown_by_state(
    metrics: HostMetrics,
    filesystems: Seq<HostFilesystem>,
    at: int,
)
    requires
        metrics.filesystems is Some,
        (metrics.filesystems->0)@ == filesystems,
        0 <= at < filesystems.len(),
    ensures
        tells(
            host_families(metrics),
            "oxmgr_host_filesystem_bytes"@,
            seq![
                ("mount"@, filesystems[at].mount_point@),
                ("fstype"@, filesystems[at].file_system@),
                ("state"@, "total"@),
            ],
            decimal(filesystems[at].total_bytes as nat),
        ),
        tells(
            host_families(metrics),
            "oxmgr_host_filesystem_bytes"@,
            seq![
                ("mount"@, filesystems[at].mount_point@),
                ("fstype"@, filesystems[at].file_system@),
                ("state"@, "available"@),
            ],
            decimal(filesystems[at].available_bytes as nat),
        ),
        tells(
            host_families(metrics),
            "oxmgr_host_filesystem_bytes"@,
            seq![
                ("mount"@, filesystems[at].mount_point@),
                ("fstype"@, filesystems[at].file_system@),
                ("state"@, "used"@),
            ],
            decimal(filesystems[at].used_bytes as nat),
        ),
        filesystems[at].used_percent matches Some(percent) ==> tells(
            host_families(metrics),
            "oxmgr_host_filesystem_used_percent"@,
            seq![
                ("mount"@, filesystems[at].mount_point@),
                ("fstype"@, filesystems[at].file_system@),
            ],
            figure_text(percent),
        ),
        filesystem_families(None).len() == 0,
{
    let families = filesystem_families(metrics.filesystems);
    let bytes = families[0];
    let share = families[1];
    assert(families.contains(bytes));
    assert(families.contains(share));
    lemma_part_of_host(metrics, bytes);
    lemma_part_of_host(metrics, share);
    lemma_capacity_sample(filesystems, at);
    assert(bytes.samples[3 * at] == filesystem_sample(
        filesystems[at],
        "total"@,
        filesystems[at].total_bytes,
    ));
    assert(bytes.samples[3 * at + 1] == filesystem_sample(
        filesystems[at],
        "available"@,
        filesystems[at].available_bytes,
    ));
    assert(bytes.samples[3 * at + 2] == filesystem_sample(
        filesystems[at],
        "used"@,
        filesystems[at].used_bytes,
    ));
    if filesystems[at].used_percent is Some {
        let k = lemma_utilisation_sample(filesystems, at);
        assert(share.samples[k] == utilisation_samples(filesystems)[k]);
    }
}

proof fn lemma_interface_sample(
    series: InterfaceSeries,
    interfaces: Seq<HostInterface>,
    min_interval_ms: u64,
    at: int,
    n: int,
) -> (k: int)
    requires
        0 <= at < interfaces.len(),
        0 <= n < series.samples_of(interfaces[at], min_interval_ms).len(),
    ensures
        0 <= k < series.samples(interfaces, min_interval_ms).len(),
        series.samples(interfaces, min_interval_ms)[k] == series.samples_of(
            interfaces[at],
            min_interval_ms,
        )[n],
    decreases interfaces.len(),
{
    let rest = interfaces.drop_last();
    if at < rest.len() {
        assert(rest[at] == interfaces[at]);
        lemma_interface_sample(series, rest, min_interval_ms, at, n)
    } else {
        series.samples(rest, min_interval_ms).len() + n
    }
}

/// The traffic and the errors of an interface are shown by direction: what was received as
/// received, what was transmitted as transmitted.
pub proof fn traffic_is_shown_by_direction(
    metrics: HostMetrics,
    interfaces: Seq<HostInterface>,
    at: int,
)
    requires
        metrics.network is Some,
        (metrics.network->0)@ == interfaces,
        0 <= at < interfaces.len(),
    ensures
        tells(
            host_families(metrics),
            "oxmgr_host_network_received_bytes_total"@,
            seq![("interface"@, interfaces[at].name@), ("scope"@, "host"@)],
            decimal(interfaces[at].total_received_bytes as nat),
        ),
        tells(
            host_families(metrics),
            "oxmgr_host_network_transmitted_bytes_total"@,
            seq![("interface"@, interfaces[at].name@), ("scope"@, "host"@)],
            decimal(interfaces[at].total_transmitted_bytes as nat),
        ),
        tells(
            host_families(metrics),
            "oxmgr_host_network_errors_total"@,
            seq![
                ("interface"@, interfaces[at].name@),
                ("scope"@, "host"@),
                ("direction"@, "received"@),
            ],
            decimal(interfaces[at].errors_on_received as nat),
        ),
        tells(
            host_families(metrics),
            "oxmgr_host_network_errors_total"@,
            seq![
                ("interface"@, interfaces[at].name@),
                ("scope"@, "host"@),
                ("direction"@, "transmitted"@),
            ],
            decimal(interfaces[at].errors_on_transmitted as nat),
        ),
        network_families(None, metrics.min_rate_interval_ms).len() == 0,
{
    let least = metrics.min_rate_interval_ms;
    let families = network_families(metrics.network, least);
    let received = families[0];
    let transmitted = families[1];
    let errors = families[2];
    assert(families.contains(received) && families.contains(transmitted) && families.contains(
        errors,
    ));
    lemma_part_of_host(metrics, received);
    lemma_part_of_host(metrics, transmitted);
    lemma_part_of_host(metrics, errors);
    let a = lemma_interface_sample(InterfaceSeries::Received, interfaces, least, at, 0);
    let b = lemma_interface_sample(InterfaceSeries::Transmitted, interfaces, least, at, 0);
    let c = lemma_interface_sample(InterfaceSeries::Errors, interfaces, least, at, 0);
    let d = lemma_interface_sample(InterfaceSeries::Errors, interfaces, least, at, 1);
    assert(received.samples[a] == interface_sample(
        interfaces[at],
        decimal(interfaces[at].total_received_bytes as nat),
    ));
    assert(transmitted.samples[b] == interface_sample(
        interfaces[at],
        decimal(interfaces[at].total_transmitted_bytes as nat),
    ));
    assert(errors.samples[c] == error_sample(
        interfaces[at],
        "received"@,
        interfaces[at].errors_on_received,
    ));
    assert(errors.samples[d] == error_sample(
        interfaces[at],
        "transmitted"@,
        interfaces[at].errors_on_transmitted,
    ));
}

/// A rate over an interval that is long enough is shown, in its own direction; over a shorter one,
/// or over none, neither rate is.
pub proof fn a_rate_takes_a_long_enough_interval(
    metrics: HostMetrics,
    interfaces: Seq<HostInterface>,
    at: int,
)
    requires
        metrics.network is Some,
        (metrics.network->0)@ == interfaces,
        0 <= at < interfaces.len(),
    ensures
        interfaces[at].interval_ms matches Some(interval) ==> (interval
            >= metrics.min_rate_interval_ms ==> tells(
            host_families(metrics),
            "oxmgr_host_network_received_bytes_per_second"@,
            seq![("interface"@, interfaces[at].name@), ("scope"@, "host"@)],
            figure_text(interfaces[at].received_rate),
        ) && tells(
            host_families(metrics),
            "oxmgr_host_network_transmitted_bytes_per_second"@,
            seq![("interface"@, interfaces[at].name@), ("scope"@, "host"@)],
            figure_text(interfaces[at].transmitted_rate),
        )),
        interfaces[at].interval_ms is None || (interfaces[at].interval_ms->0)
            < metrics.min_rate_interval_ms ==> InterfaceSeries::ReceivedRate.samples_of(
            interfaces[at],
            metrics.min_rate_interval_ms,
        ).len() == 0 && InterfaceSeries::TransmittedRate.samples_of(
            interfaces[at],
            metrics.min_rate_interval_ms,
        ).len() == 0,
{
    let least = metrics.min_rate_interval_ms;
    let families = network_families(metrics.network, least);
    let received = families[3];
    let transmitted = families[4];
    assert(families.contains(received) && families.contains(transmitted));
    lemma_part_of_host(metrics, received);
    lemma_part_of_host(metrics, transmitted);
    if interfaces[at].interval_ms is Some && interfaces[at].interval_ms->0 >= least {
        let a = lemma_interface_sample(InterfaceSeries::ReceivedRate, interfaces, least, at, 0);
        let b = lemma_interface_sample(InterfaceSeries::TransmittedRate, interfaces, least, at, 0);
        assert(received.samples[a] == interface_sample(
            interfaces[at],
            figure_text(interfaces[at].received_rate),
        ));
        assert(transmitted.samples[b] == interface_sample(
            interfaces[at],
            figure_text(interfaces[at].transmitted_rate),
        ));
    }
}

proof fn lemma_temperature_sample(components: Seq<HostComponent>, at: int) -> (k: int)
    requires
        0 <= at < components.len(),
        components[at].temperature_celsius is Some,
    ensures
        0 <= k < temperature_samples(components).len(),
        temperature_samples(components)[k].labels == Some(
            seq![("component"@, components[at].label@)],
        ),
        temperature_samples(components)[k].value == figure_text(
            components[at].temperature_celsius->0,
        ),
    decreases components.len(),
{
    let rest = components.drop_last();
    if at < rest.len() {
        let k = lemma_temperature_sample(rest, at);
        assert(temperature_samples(components)[k] == temperature_samples(rest)[k]);
        k
    } else {
        temperature_samples(rest).len() as int
    }
}

proof fn lemma_no_temperature(components: Seq<HostComponent>)
    requires
        forall|i: int|
            0 <= i < components.len() ==> (#[trigger] components[i]).temperature_celsius is None,
    ensures
        temperature_samples(components).len() == 0,
    decreases components.len(),
{
    if components.len() > 0 {
        let rest = components.drop_last();
        assert forall|i: int| 0 <= i < rest.len() implies (
        #[trigger] rest[i]).temperature_celsius is None by {
            assert(rest[i] == components[i]);
        }
        lemma_no_temperature(rest);
        assert(components[components.len() - 1].temperature_celsius is None);
    }
}

/// A temperature is shown under its component; where no component has one the metric is left out.
pub proof fn temperatures_are_shown_where_read(
    metrics: HostMetrics,
    components: Seq<HostComponent>,
    at: int,
)
    requires
        metrics.components is Some,
        (metrics.components->0)@ == components,
    ensures
        0 <= at < components.len() && components[at].temperature_celsius is Some ==> tells(
            host_families(metrics),
            "oxmgr_host_temperature_celsius"@,
            seq![("component"@, components[at].label@)],
            figure_text(components[at].temperature_celsius->0),
        ),
        (forall|i: int|
            0 <= i < components.len() ==> (#[trigger] components[i]).temperature_celsius is None)
            ==> temperature_families(metrics.components).len() == 0,
        temperature_families(None).len() == 0,
{
    if 0 <= at < components.len() && components[at].temperature_celsius is Some {
        let k = lemma_temperature_sample(components, at);
        let family = temperature_families(metrics.components)[0];
        assert(temperature_families(metrics.components).contains(family));
        lemma_part_of_host(metrics, family);
        assert(family.samples[k] == temperature_samples(components)[k]);
    }
    if forall|i: int|
        0 <= i < components.len() ==> (#[trigger] components[i]).temperature_celsius is None {
        lemma_no_temperature(components);
    }
}

/// Each subsystem that failed is named, and a host none of which failed has no such metric.
pub proof fn failed_subsystems_are_named(metrics: HostMetrics, at: int)
    ensures
        0 <= at < metrics.failures@.len() ==> tells(
            host_families(metrics),
            "oxmgr_host_subsystem_failed"@,
            seq![("subsystem"@, metrics.failures@[at]@)],
            "1"@,
        ),
        metrics.failures@.len() == 0 <==> failure_families(metrics.failures@).len() == 0,
{
    if 0 <= at < metrics.failures@.len() {
        let family = failure_families(metrics.failures@)[0];
        assert(failure_families(metrics.failures@).contains(family));
        lemma_part_of_host(metrics, family);
        assert(family.samples[at].labels == Some(seq![("subsystem"@, metrics.failures@[at]@)]));
    }
}

/// Whether labels hold a key with a value.
pub open spec fn labelled_with(
    labels: Seq<(Seq<char>, Seq<char>)>,
    key: Seq<char>,
    value: Seq<char>,
) -> bool {
    labels.contains((key, value))
}

/// The identity of the host is in labels, each part under its own key; a part that is absent or
/// empty is left out.
pub proof fn the_host_is_identified_by_labels(identity: HostIdentity)
    ensures
        identity.host_name matches Some(text) ==> (text@.len() > 0 ==> labelled_with(
            identity_labels(identity),
            "host"@,
            text@,
        )),
        identity.os_name matches Some(text) ==> (text@.len() > 0 ==> labelled_with(
            identity_labels(identity),
            "os"@,
            text@,
        )),
        identity.os_version matches Some(text) ==> (text@.len() > 0 ==> labelled_with(
            identity_labels(identity),
            "os_version"@,
            text@,
        )),
        identity.kernel_version matches Some(text) ==> (text@.len() > 0 ==> labelled_with(
            identity_labels(identity),
            "kernel"@,
            text@,
        )),
        identity.cpu_arch matches Some(text) ==> (text@.len() > 0 ==> labelled_with(
            identity_labels(identity),
            "arch"@,
            text@,
        )),
        forall|i: int|
            0 <= i < identity_labels(identity).len() ==> (#[trigger] identity_labels(
                identity,
            )[i]).1.len() > 0,
{
    let a = optional_label("host"@, identity.host_name);
    let b = optional_label("os"@, identity.os_name);
    let c = optional_label("os_version"@, identity.os_version);
    let d = optional_label("kernel"@, identity.kernel_version);
    let e = optional_label("arch"@, identity.cpu_arch);
    let all = identity_labels(identity);
    assert(all == a + b + c + d + e);
    if a.len() > 0 {
        assert(all[0] == a[0]);
    }
    if b.len() > 0 {
        assert(all[a.len() as int] == b[0]);
    }
    if c.len() > 0 {
        assert(all[(a + b).len() as int] == c[0]);
    }
    if d.len() > 0 {
        assert(all[(a + b + c).len() as int] == d[0]);
    }
    if e.len() > 0 {
        assert(all[(a + b + c + d).len() as int] == e[0]);
    }
}

/// What was collected is sent as it is, as JSON; until then the request is told to come back.
pub proof fn what_was_collected_is_sent(
    value: Option<&str>,
    metrics: Reply,
    consumers: Reply,
)
    requires
        call_ensures(get_host, (value,), metrics),
        call_ensures(get_host_consumers, (value,), consumers),
    ensures
        value is None ==> metrics@.status == 503 && consumers@.status == 503,
        value matches Some(json) ==> metrics@.status == 200 && consumers@.status == 200
            && metrics@.body == vstd::utf8::encode_utf8(json@) && consumers@.body
            == vstd::utf8::encode_utf8(json@),
        value is Some ==> metrics@.headers == seq![("content-type"@, "application/json"@)]
            && consumers@.headers == seq![("content-type"@, "application/json"@)],
{
    if value is Some {
        assert(metrics@.headers =~= seq![("content-type"@, "application/json"@)]);
        assert(consumers@.headers =~= seq![("content-type"@, "application/json"@)]);
    }
}

/// Each metric of the interfaces bears its own name, says what it is of, and is a counter exactly when
/// it is a total.
pub proof fn each_interface_metric_says_what_it_is(
    series: InterfaceSeries,
    interfaces: Seq<HostInterface>,
    min_interval_ms: u64,
)
    ensures
        series is Received ==> series.family(interfaces, min_interval_ms).name
            == "oxmgr_host_network_received_bytes_total"@ && series.family(interfaces, min_interval_ms).help
            == "Cumulative bytes received per interface."@ && series.family(interfaces, min_interval_ms).kind
            == "counter"@,
        series is Transmitted ==> series.family(interfaces, min_interval_ms).name
            == "oxmgr_host_network_transmitted_bytes_total"@ && series.family(interfaces, min_interval_ms).help
            == "Cumulative bytes transmitted per interface."@ && series.family(interfaces, min_interval_ms).kind
            == "counter"@,
        series is Errors ==> series.family(interfaces, min_interval_ms).name
            == "oxmgr_host_network_errors_total"@ && series.family(interfaces, min_interval_ms).help
            == "Cumulative interface errors by direction."@ && series.family(interfaces, min_interval_ms).kind
            == "counter"@,
        series is ReceivedRate ==> series.family(interfaces, min_interval_ms).name
            == "oxmgr_host_network_received_bytes_per_second"@ && series.family(interfaces, min_interval_ms).help
            == "Bytes received per second over the observed interval."@ && series.family(interfaces, min_interval_ms).kind
            == "gauge"@,
        series is TransmittedRate ==> series.family(interfaces, min_interval_ms).name
            == "oxmgr_host_network_transmitted_bytes_per_second"@ && series.family(interfaces, min_interval_ms).help
            == "Bytes transmitted per second over the observed interval."@ && series.family(interfaces, min_interval_ms).kind
            == "gauge"@,
{
}

/// The other metrics of the host are gauges that say what they are of.
pub proof fn each_host_metric_says_what_it_is(
    identity: HostIdentity,
    uptime: u64,
    memory: HostMemory,
    load: HostLoad,
    filesystems: Vec<HostFilesystem>,
)
    ensures
        identity_family(identity).name == "oxmgr_host_info"@,
        identity_family(identity).help == "Static identity of the host oxmgr is running on."@,
        identity_family(identity).samples.len() == 1 && identity_family(identity).samples[0].value
            == "1"@,
        uptime_families(Some(uptime))[0].help == "Seconds since the host booted."@,
        uptime_families(Some(uptime))[0].kind == "gauge"@,
        memory_families(Some(memory))[0].help == "Host memory in bytes by state."@,
        memory_families(Some(memory))[0].kind == "gauge"@,
        memory.used_percent is Some ==> memory_families(Some(memory))[1].help
            == "Share of host memory in use."@,
        memory.swap is Some ==> swap_families(memory.swap)[0].help
            == "Host swap in bytes by state."@,
        load_families(Some(load))[0].help == "Host load average."@,
        load_families(Some(load))[0].kind == "gauge"@,
        filesystem_families(Some(filesystems))[0].help
            == "Filesystem capacity in bytes by state."@,
        filesystem_families(Some(filesystems))[1].help == "Share of a filesystem in use."@,
        filesystem_families(Some(filesystems))[0].kind == "gauge"@
            && filesystem_families(Some(filesystems))[1].kind == "gauge"@,
{
}

} // verus!
