//! Protection mode: the guarded gate between a decision and a real action.
//!
//! Nothing here decides. A decision passes with exactly the action it proposed, or is withheld
//! with the reason on record. Admitting is not acting: cooldowns and caps count only what was
//! confirmed, so an admitted action that is then abandoned leaves no trace in the limits.

use crate::ordered_map::OrderedMap;
use crate::rules::{Action, Decision};
use crate::sequences::{
    lemma_filter_element, lemma_filter_ends, lemma_filter_none, lemma_filter_step,
    lemma_filter_twice, lemma_filter_weaker, newest,
};
use crate::text::{decimal, join_texts, joined, push_decimal, same_text, texts};
use std::collections::VecDeque;
use vstd::prelude::*;

verus! {

broadcast use vstd::std_specs::vecdeque::group_vec_dequeue_axioms;

/// Default cooldown after an action, in seconds.
pub const DEFAULT_COOLDOWN_SECS: u64 = 300;

/// Default window over which actions are counted for the rate caps.
pub const DEFAULT_RATE_WINDOW_SECS: u64 = 3_600;

/// Default per-process cap within the window.
pub const DEFAULT_PER_PROCESS_CAP: u32 = 3;

/// Default daemon-wide cap within the window.
pub const DEFAULT_DAEMON_CAP: u32 = 10;

/// How many action records are retained.
pub const DEFAULT_HISTORY_CAPACITY: usize = 256;

/// Why an action was not taken, with what is needed to check the reason later.
#[derive(Debug, PartialEq, Eq)]
pub enum Refusal {
    /// Automated action is disabled daemon-wide.
    Disabled,
    /// Action mode was never enabled for this process.
    NotEnabledForProcess,
    /// The action is not on this process's permitted list.
    ActionNotPermitted { action: Action, permitted: Vec<Action> },
    /// The process is within its cooldown.
    InCooldown { remaining_secs: u64, cooldown_secs: u64 },
    /// This process has reached its cap within the window.
    PerProcessCapReached { taken: u32, cap: u32, window_secs: u64 },
    /// The daemon has reached its cap within the window.
    DaemonCapReached { taken: u32, cap: u32, window_secs: u64 },
    /// The decision itself proposed no action.
    NoActionProposed,
}

/// A copy of some actions.
fn copy_actions(actions: &[Action]) -> (copies: Vec<Action>)
    ensures
        copies@ == actions@,
{
    let mut copies: Vec<Action> = Vec::new();
    let mut i: usize = 0;
    while i < actions.len()
        invariant
            i <= actions.len(),
            copies@ == actions@.take(i as int),
        decreases actions.len() - i,
    {
        copies.push(actions[i]);
        i = i + 1;
        assert(actions@.take(i as int) =~= actions@.take(i - 1).push(actions@[i - 1]));
    }
    assert(actions@.take(i as int) =~= actions@);
    copies
}

impl Clone for Refusal {
    fn clone(&self) -> (copy: Self)
        ensures
            copy.says(*self),
    {
        match self {
            Refusal::Disabled => Refusal::Disabled,
            Refusal::NotEnabledForProcess => Refusal::NotEnabledForProcess,
            Refusal::ActionNotPermitted { action, permitted } => Refusal::ActionNotPermitted {
                action: *action,
                permitted: copy_actions(permitted.as_slice()),
            },
            Refusal::InCooldown { remaining_secs, cooldown_secs } => Refusal::InCooldown {
                remaining_secs: *remaining_secs,
                cooldown_secs: *cooldown_secs,
            },
            Refusal::PerProcessCapReached { taken, cap, window_secs } => {
                Refusal::PerProcessCapReached {
                    taken: *taken,
                    cap: *cap,
                    window_secs: *window_secs,
                }
            },
            Refusal::DaemonCapReached { taken, cap, window_secs } => Refusal::DaemonCapReached {
                taken: *taken,
                cap: *cap,
                window_secs: *window_secs,
            },
            Refusal::NoActionProposed => Refusal::NoActionProposed,
        }
    }
}

/// The wire names of some actions.
pub open spec fn action_names(actions: Seq<Action>) -> Seq<Seq<char>> {
    actions.map_values(|action: Action| action.wire())
}

/// `head`, a count, ` of `, a cap, ` in `, a window, and `s`.
pub open spec fn cap_text(head: Seq<char>, taken: u32, cap: u32, window_secs: u64) -> Seq<char> {
    head + decimal(taken as nat) + " of "@ + decimal(cap as nat) + " in "@ + decimal(
        window_secs as nat,
    ) + "s"@
}

fn cap_reason(head: &str, taken: u32, cap: u32, window_secs: u64) -> (text: String)
    ensures
        text@ == cap_text(head@, taken, cap, window_secs),
{
    let mut text = head.to_owned();
    push_decimal(&mut text, taken as u64);
    text.append(" of ");
    push_decimal(&mut text, cap as u64);
    text.append(" in ");
    push_decimal(&mut text, window_secs);
    text.append("s");
    text
}

fn names_of(actions: &[Action]) -> (names: Vec<String>)
    ensures
        texts(names@) == action_names(actions@),
{
    let mut names: Vec<String> = Vec::new();
    let mut i: usize = 0;
    while i < actions.len()
        invariant
            i <= actions.len(),
            names.len() == i,
            forall|j: int| 0 <= j < i ==> (#[trigger] names@[j])@ == actions@[j].wire(),
        decreases actions.len() - i,
    {
        names.push(actions[i].as_wire().to_owned());
        i = i + 1;
    }
    assert(texts(names@) =~= action_names(actions@));
    names
}

impl Refusal {
    /// Whether two refusals are the same refusal, permitted actions compared one by one.
    pub open spec fn says(self, other: Self) -> bool {
        match (self, other) {
            (
                Refusal::ActionNotPermitted { action: a, permitted: p },
                Refusal::ActionNotPermitted { action: b, permitted: q },
            ) => a == b && p@ == q@,
            _ => self == other,
        }
    }

    /// The reason, in characters.
    pub open spec fn reason_text(self) -> Seq<char> {
        match self {
            Refusal::Disabled => "automated action is disabled"@,
            Refusal::NotEnabledForProcess => "automated action is not enabled for this process"@,
            Refusal::ActionNotPermitted { action, permitted } => if permitted@.len() == 0 {
                action.wire() + " is not permitted: this process permits no actions"@
            } else {
                action.wire() + " is not permitted (permitted: "@ + joined(
                    action_names(permitted@),
                    ", "@,
                ) + ")"@
            },
            Refusal::InCooldown { remaining_secs, cooldown_secs } => "in cooldown: "@ + decimal(
                remaining_secs as nat,
            ) + "s remaining of "@ + decimal(cooldown_secs as nat) + "s"@,
            Refusal::PerProcessCapReached { taken, cap, window_secs } => cap_text(
                "per-process cap reached: "@,
                taken,
                cap,
                window_secs,
            ),
            Refusal::DaemonCapReached { taken, cap, window_secs } => cap_text(
                "daemon-wide cap reached: "@,
                taken,
                cap,
                window_secs,
            ),
            Refusal::NoActionProposed => "no action was proposed"@,
        }
    }

    /// A short operator-facing reason.
    pub fn reason(&self) -> (text: String)
        ensures
            text@ == self.reason_text(),
    {
        match self {
            Refusal::Disabled => "automated action is disabled".to_owned(),
            Refusal::NotEnabledForProcess => {
                "automated action is not enabled for this process".to_owned()
            },
            Refusal::ActionNotPermitted { action, permitted } => {
                let mut text = action.as_wire().to_owned();
                if permitted.len() == 0 {
                    text.append(" is not permitted: this process permits no actions");
                } else {
                    text.append(" is not permitted (permitted: ");
                    let names = names_of(permitted.as_slice());
                    text.append(join_texts(names.as_slice(), ", ").as_str());
                    text.append(")");
                }
                text
            },
            Refusal::InCooldown { remaining_secs, cooldown_secs } => {
                let mut text = "in cooldown: ".to_owned();
                push_decimal(&mut text, *remaining_secs);
                text.append("s remaining of ");
                push_decimal(&mut text, *cooldown_secs);
                text.append("s");
                text
            },
            Refusal::PerProcessCapReached { taken, cap, window_secs } => {
                cap_reason("per-process cap reached: ", *taken, *cap, *window_secs)
            },
            Refusal::DaemonCapReached { taken, cap, window_secs } => {
                cap_reason("daemon-wide cap reached: ", *taken, *cap, *window_secs)
            },
            Refusal::NoActionProposed => "no action was proposed".to_owned(),
        }
    }

    /// Whether this refusal came from a safety limit rather than from there being nothing to do.
    pub fn is_safety_limit(&self) -> (limit: bool)
        ensures
            limit == !(self is NoActionProposed),
    {
        match self {
            Refusal::NoActionProposed => false,
            _ => true,
        }
    }
}

/// What protection mode may do for one process.
#[derive(Debug, Clone, PartialEq, Eq)]
pub struct ProcessPolicy {
    /// Whether protection mode may act for this process at all.
    pub act: bool,
    /// The actions it may take. An empty list means none.
    pub permitted: Vec<Action>,
    /// Per-process cooldown override, in seconds.
    pub cooldown_secs: Option<u64>,
    /// Per-process cap override within the window.
    pub max_actions: Option<u32>,
}

impl Default for ProcessPolicy {
    fn default() -> (policy: Self)
        ensures
            !policy.act,
            policy.permitted@.len() == 0,
            policy.cooldown_secs is None,
            policy.max_actions is None,
    {
        ProcessPolicy {
            act: false,
            permitted: Vec::new(),
            cooldown_secs: None,
            max_actions: None,
        }
    }
}

impl ProcessPolicy {
    /// A policy permitting the given actions.
    pub fn acting(permitted: Vec<Action>) -> (policy: Self)
        ensures
            policy.act,
            policy.permitted == permitted,
            policy.cooldown_secs is None,
            policy.max_actions is None,
    {
        ProcessPolicy { act: true, permitted, cooldown_secs: None, max_actions: None }
    }
}

/// Daemon-wide protection configuration.
#[derive(Debug, Clone)]
pub struct ProtectionConfig {
    /// The master switch. `false` means no action is taken for anybody.
    pub enabled: bool,
    /// Default cooldown, in seconds.
    pub cooldown_secs: u64,
    /// The window over which actions are counted.
    pub rate_window_secs: u64,
    /// Default per-process cap within the window.
    pub per_process_cap: u32,
    /// Daemon-wide cap within the window.
    pub daemon_cap: u32,
    /// Per-process policies. Absent means observe only.
    pub processes: OrderedMap<String, ProcessPolicy>,
}

impl Default for ProtectionConfig {
    /// Observing, for everybody.
    fn default() -> (config: Self)
        ensures
            !config.enabled,
            config.cooldown_secs == DEFAULT_COOLDOWN_SECS,
            config.rate_window_secs == DEFAULT_RATE_WINDOW_SECS,
            config.per_process_cap == DEFAULT_PER_PROCESS_CAP,
            config.daemon_cap == DEFAULT_DAEMON_CAP,
            config.processes@ == Map::<Seq<char>, ProcessPolicy>::empty(),
    {
        ProtectionConfig {
            enabled: false,
            cooldown_secs: DEFAULT_COOLDOWN_SECS,
            rate_window_secs: DEFAULT_RATE_WINDOW_SECS,
            per_process_cap: DEFAULT_PER_PROCESS_CAP,
            daemon_cap: DEFAULT_DAEMON_CAP,
            processes: OrderedMap::new(),
        }
    }
}

impl ProtectionConfig {
    /// The policy of a process, if it has one.
    pub open spec fn policy(&self, process: Seq<char>) -> Option<ProcessPolicy> {
        if self.processes@.contains_key(process) {
            Some(self.processes@[process])
        } else {
            None
        }
    }

    /// The effective cooldown: the policy's own, zero included, or the daemon's.
    pub open spec fn cooldown_of(&self, process: Seq<char>) -> u64 {
        match self.policy(process) {
            Some(policy) => match policy.cooldown_secs {
                Some(secs) => secs,
                None => self.cooldown_secs,
            },
            None => self.cooldown_secs,
        }
    }

    /// The effective per-process cap: the policy's own or the daemon's.
    pub open spec fn cap_of(&self, process: Seq<char>) -> u32 {
        match self.policy(process) {
            Some(policy) => match policy.max_actions {
                Some(cap) => cap,
                None => self.per_process_cap,
            },
            None => self.per_process_cap,
        }
    }

    /// Whether a process is configured to act at all.
    pub open spec fn acting(&self, process: Seq<char>) -> bool {
        self.policy(process) matches Some(policy) && policy.act
    }

    /// The permitted actions of a process.
    pub open spec fn permits(&self, process: Seq<char>) -> Seq<Action> {
        match self.policy(process) {
            Some(policy) => policy.permitted@,
            None => Seq::empty(),
        }
    }

    /// The effective cooldown for a process.
    pub fn cooldown_for(&self, process: &str) -> (secs: u64)
        ensures
            secs == self.cooldown_of(process@),
    {
        match self.processes.get(&process.to_owned()) {
            Some(policy) => match policy.cooldown_secs {
                Some(secs) => secs,
                None => self.cooldown_secs,
            },
            None => self.cooldown_secs,
        }
    }

    /// The effective per-process cap.
    pub fn cap_for(&self, process: &str) -> (cap: u32)
        ensures
            cap == self.cap_of(process@),
    {
        match self.processes.get(&process.to_owned()) {
            Some(policy) => match policy.max_actions {
                Some(cap) => cap,
                None => self.per_process_cap,
            },
            None => self.per_process_cap,
        }
    }

    /// Whether a process is configured to act at all.
    pub fn acts_for(&self, process: &str) -> (acts: bool)
        ensures
            acts == self.acting(process@),
    {
        match self.processes.get(&process.to_owned()) {
            Some(policy) => policy.act,
            None => false,
        }
    }

    /// The permitted actions for a process.
    pub fn permitted_for(&self, process: &str) -> (permitted: Vec<Action>)
        ensures
            permitted@ == self.permits(process@),
    {
        match self.processes.get(&process.to_owned()) {
            Some(policy) => copy_actions(policy.permitted.as_slice()),
            None => Vec::new(),
        }
    }
}

/// One action, taken or withheld.
#[derive(Debug, PartialEq, Eq)]
pub struct ActionRecord {
    pub process: String,
    pub at_unix: u64,
    /// The action, or `None` when the decision proposed nothing.
    pub action: Option<Action>,
    /// The rule that produced the decision, rendered for the record.
    pub rule: Option<String>,
    /// Whether the action was admitted.
    pub taken: bool,
    /// Why not, when it was not.
    pub refusal: Option<Refusal>,
}

impl ActionRecord {
    /// The summary, in characters.
    pub open spec fn summary_text(self) -> Seq<char> {
        match self.action {
            Some(action) => if self.taken {
                self.process@ + ": took "@ + action.wire()
            } else {
                match self.refusal {
                    Some(refusal) => self.process@ + ": withheld "@ + action.wire() + " — "@
                        + refusal.reason_text(),
                    None => self.process@ + ": withheld "@ + action.wire(),
                }
            },
            None => self.process@ + ": no action proposed"@,
        }
    }

    /// A short operator-facing sentence.
    pub fn summary(&self) -> (text: String)
        ensures
            text@ == self.summary_text(),
    {
        let mut text = self.process.clone();
        match self.action {
            Some(action) => if self.taken {
                text.append(": took ");
                text.append(action.as_wire());
            } else {
                text.append(": withheld ");
                text.append(action.as_wire());
                match &self.refusal {
                    Some(refusal) => {
                        text.append(" — ");
                        text.append(refusal.reason().as_str());
                    },
                    None => {},
                }
            },
            None => {
                text.append(": no action proposed");
            },
        }
        text
    }
}

/// An action that was performed: the process, and when.
pub open spec fn performed(entry: (String, u64)) -> (Seq<char>, u64) {
    (entry.0@, entry.1)
}

/// Actions performed at or after a time, for one process or for all.
pub open spec fn counted(process: Option<Seq<char>>, start: u64) -> spec_fn(
    (Seq<char>, u64),
) -> bool {
    |entry: (Seq<char>, u64)|
        entry.1 >= start && (process matches Some(wanted) ==> entry.0 == wanted)
}

/// Performed actions of any other process.
pub open spec fn performed_by_others(process: Seq<char>) -> spec_fn((Seq<char>, u64)) -> bool {
    |entry: (Seq<char>, u64)| entry.0 != process
}

/// Records about any other process.
pub open spec fn records_of_others(process: Seq<char>) -> spec_fn(ActionRecord) -> bool {
    |record: ActionRecord| record.process@ != process
}

/// Records about one process.
pub open spec fn records_of(process: Seq<char>) -> spec_fn(ActionRecord) -> bool {
    |record: ActionRecord| record.process@ == process
}

/// The start of a window that ends now, no earlier than zero.
pub open spec fn window_start(window_secs: u64, at_unix: u64) -> u64 {
    if at_unix >= window_secs {
        (at_unix - window_secs) as u64
    } else {
        0
    }
}

/// The guarded gate between a decision and a real action.
#[derive(Debug)]
pub struct Gate {
    last_action_at: OrderedMap<String, u64>,
    taken_at: VecDeque<(String, u64)>,
    history: VecDeque<ActionRecord>,
    history_capacity: usize,
}

impl Default for Gate {
    fn default() -> (gate: Self)
        ensures
            gate.wf(),
            gate.limit() == DEFAULT_HISTORY_CAPACITY,
            gate.last_actions() == Map::<Seq<char>, u64>::empty(),
            gate.taken() == Seq::<(Seq<char>, u64)>::empty(),
            gate.records() == Seq::<ActionRecord>::empty(),
    {
        Gate::new(DEFAULT_HISTORY_CAPACITY)
    }
}

impl Gate {
    /// When each process last had an action performed.
    pub closed spec fn last_actions(&self) -> Map<Seq<char>, u64> {
        self.last_action_at@
    }

    /// The actions performed, oldest first.
    pub closed spec fn taken(&self) -> Seq<(Seq<char>, u64)> {
        self.taken_at@.map_values(|entry: (String, u64)| performed(entry))
    }

    /// The retained records, oldest first.
    pub closed spec fn records(&self) -> Seq<ActionRecord> {
        self.history@
    }

    /// How many records, and how many performed actions, are retained at most.
    pub closed spec fn limit(&self) -> usize {
        self.history_capacity
    }

    /// Retention is bounded, and there is room for at least one record.
    pub open spec fn wf(&self) -> bool {
        &&& self.limit() >= 1
        &&& self.records().len() <= self.limit()
        &&& self.taken().len() <= self.limit()
    }

    /// How many actions were performed within a window, for one process or for all.
    pub open spec fn performed_in_window(
        &self,
        process: Option<Seq<char>>,
        window_secs: u64,
        at_unix: u64,
    ) -> nat {
        self.taken().filter(counted(process, window_start(window_secs, at_unix))).len()
    }

    /// Seconds of cooldown left for a process.
    pub open spec fn cooling(&self, process: Seq<char>, cooldown: u64, at_unix: u64) -> int {
        if self.last_actions().contains_key(process) {
            let last = self.last_actions()[process];
            let elapsed = if at_unix >= last {
                at_unix - last
            } else {
                0
            };
            if elapsed < cooldown {
                cooldown - elapsed
            } else {
                0
            }
        } else {
            0
        }
    }

    /// The limits, from the most fundamental to the most situational: whether `refusal` is what the
    /// first limit that withholds an action says, or `None` when every limit permits it.
    pub open spec fn first_limit(
        &self,
        process: Seq<char>,
        action: Action,
        config: ProtectionConfig,
        at_unix: u64,
        refusal: Option<Refusal>,
    ) -> bool {
        let cooling = self.cooling(process, config.cooldown_of(process), at_unix);
        let own = saturated(
            self.performed_in_window(Some(process), config.rate_window_secs, at_unix),
        );
        let all = saturated(self.performed_in_window(None, config.rate_window_secs, at_unix));
        if !config.enabled {
            refusal == Some(Refusal::Disabled)
        } else if !config.acting(process) {
            refusal == Some(Refusal::NotEnabledForProcess)
        } else if !config.permits(process).contains(action) {
            refusal matches Some(Refusal::ActionNotPermitted { action: refused, permitted })
                && refused == action && permitted@ == config.permits(process)
        } else if cooling > 0 {
            refusal == Some(
                Refusal::InCooldown {
                    remaining_secs: cooling as u64,
                    cooldown_secs: config.cooldown_of(process),
                },
            )
        } else if own >= config.cap_of(process) {
            refusal == Some(
                Refusal::PerProcessCapReached {
                    taken: own,
                    cap: config.cap_of(process),
                    window_secs: config.rate_window_secs,
                },
            )
        } else if all >= config.daemon_cap {
            refusal == Some(
                Refusal::DaemonCapReached {
                    taken: all,
                    cap: config.daemon_cap,
                    window_secs: config.rate_window_secs,
                },
            )
        } else {
            refusal is None
        }
    }

    /// A gate that has recorded nothing. A capacity of zero is treated as one.
    pub fn new(history_capacity: usize) -> (gate: Self)
        ensures
            gate.wf(),
            gate.limit() == (if history_capacity == 0 {
                1
            } else {
                history_capacity
            }),
            gate.last_actions() == Map::<Seq<char>, u64>::empty(),
            gate.taken() == Seq::<(Seq<char>, u64)>::empty(),
            gate.records() == Seq::<ActionRecord>::empty(),
    {
        let gate = Gate {
            last_action_at: OrderedMap::new(),
            taken_at: VecDeque::new(),
            history: VecDeque::new(),
            history_capacity: if history_capacity == 0 {
                1
            } else {
                history_capacity
            },
        };
        assert(gate.taken() =~= Seq::<(Seq<char>, u64)>::empty());
        gate
    }

    /// Decides whether a decision's action may be taken, and records the outcome.
    ///
    /// Admission is not execution: the caller performs the action and then calls
    /// [`Gate::confirm`].
    pub fn admit_decision(
        &mut self,
        decision: &Decision,
        config: &ProtectionConfig,
        at_unix: u64,
    ) -> (admitted: Option<Action>)
        requires
            old(self).wf(),
        ensures
            final(self).wf(),
            admitted is Some ==> admitted == decision.action && config.enabled && config.acting(
                decision.process@,
            ) && config.permits(decision.process@).contains(admitted->0),
            decision.action is None ==> admitted is None,
            final(self).limit() == old(self).limit(),
            final(self).last_actions() == old(self).last_actions(),
            final(self).taken() == old(self).taken(),
            final(self).records().len() > 0,
            final(self).records() == newest(old(self).records(), old(self).limit() - 1).push(
                final(self).records().last(),
            ),
            ({
                let record = final(self).records().last();
                &&& record.process@ == decision.process@
                &&& record.at_unix == at_unix
                &&& record.action == decision.action
                &&& record.taken == (admitted is Some)
                &&& match decision.rule {
                    Some(rule) => record.rule matches Some(name) && name@ == rule.wire(),
                    None => record.rule is None,
                }
                &&& match decision.action {
                    None => record.refusal == Some(Refusal::NoActionProposed),
                    Some(action) => old(self).first_limit(
                        decision.process@,
                        action,
                        *config,
                        at_unix,
                        record.refusal,
                    ),
                }
                &&& admitted == (if record.refusal is None {
                    decision.action
                } else {
                    None
                })
            }),
    {
        let rule: Option<String> = match decision.rule {
            Some(rule) => Some(rule.as_wire().to_owned()),
            None => None,
        };
        let refusal: Option<Refusal> = match decision.action {
            None => Some(Refusal::NoActionProposed),
            Some(action) => self.refusal_for(decision.process.as_str(), action, config, at_unix),
        };
        let taken: bool = refusal.is_none();
        let admitted: Option<Action> = if taken {
            decision.action
        } else {
            None
        };
        self.record(
            ActionRecord {
                process: decision.process.clone(),
                at_unix,
                action: decision.action,
                rule,
                taken,
                refusal,
            },
        );
        admitted
    }

    /// The first limit that withholds an action, or `None` when every limit permits it.
    pub fn refusal_for(
        &self,
        process: &str,
        action: Action,
        config: &ProtectionConfig,
        at_unix: u64,
    ) -> (refusal: Option<Refusal>)
        ensures
            self.first_limit(process@, action, *config, at_unix, refusal),
    {
        if !config.enabled {
            return Some(Refusal::Disabled);
        }
        if !config.acts_for(process) {
            return Some(Refusal::NotEnabledForProcess);
        }
        let permitted = config.permitted_for(process);
        if !contains_action(permitted.as_slice(), action) {
            return Some(Refusal::ActionNotPermitted { action, permitted });
        }
        let cooldown = config.cooldown_for(process);
        let remaining = self.cooldown_remaining(process, config, at_unix);
        if remaining > 0 {
            return Some(
                Refusal::InCooldown { remaining_secs: remaining, cooldown_secs: cooldown },
            );
        }
        let window: u64 = config.rate_window_secs;
        let cap = config.cap_for(process);
        let taken = self.count_in_window(Some(process), window, at_unix);
        if taken >= cap {
            return Some(Refusal::PerProcessCapReached { taken, cap, window_secs: window });
        }
        let daemon_taken = self.count_in_window(None, window, at_unix);
        if daemon_taken >= config.daemon_cap {
            return Some(
                Refusal::DaemonCapReached {
                    taken: daemon_taken,
                    cap: config.daemon_cap,
                    window_secs: window,
                },
            );
        }
        None
    }

    /// Records that an admitted action was performed: starts the cooldown and consumes cap.
    pub fn confirm(&mut self, process: &str, at_unix: u64)
        requires
            old(self).wf(),
        ensures
            final(self).wf(),
            final(self).last_actions().contains_key(process@),
            final(self).last_actions()[process@] == at_unix,
            final(self).taken().last() == (process@, at_unix),
            final(self).limit() == old(self).limit(),
            final(self).last_actions() == old(self).last_actions().insert(process@, at_unix),
            final(self).taken() == newest(
                old(self).taken().push((process@, at_unix)),
                old(self).limit() as int,
            ),
            final(self).records() == old(self).records(),
    {
        let name = process.to_owned();
        self.last_action_at.insert(name.clone(), at_unix);
        let full: bool = self.taken_at.len() >= self.history_capacity;
        if full {
            let _ = self.taken_at.pop_front();
        }
        self.taken_at.push_back((name, at_unix));
        assert(self.taken() =~= newest(
            old(self).taken().push((process@, at_unix)),
            old(self).limit() as int,
        ));
    }

    /// Actions performed within the window, for one process or the whole daemon, up to the
    /// largest count.
    pub fn count_in_window(
        &self,
        process: Option<&str>,
        window_secs: u64,
        at_unix: u64,
    ) -> (count: u32)
        ensures
            count == saturated(
                self.performed_in_window(optional_view(process), window_secs, at_unix),
            ),
    {
        let start: u64 = at_unix.saturating_sub(window_secs);
        let ghost keep = counted(optional_view(process), start);
        let ghost all = self.taken();
        let mut count: u32 = 0;
        let mut i: usize = 0;
        proof {
            lemma_filter_ends(all, keep);
        }
        while i < self.taken_at.len()
            invariant
                i <= self.taken_at@.len(),
                all == self.taken(),
                start == window_start(window_secs, at_unix),
                keep == counted(optional_view(process), start),
                count == saturated(all.take(i as int).filter(keep).len()),
            decreases self.taken_at@.len() - i,
        {
            proof {
                lemma_filter_step(all, i as int, keep);
            }
            let entry = &self.taken_at[i];
            let matches_process: bool = match process {
                Some(wanted) => same_text(entry.0.as_str(), wanted),
                None => true,
            };
            if entry.1 >= start && matches_process {
                count = count.saturating_add(1);
            }
            i = i + 1;
        }
        count
    }

    /// Seconds remaining of a process's cooldown. 0 when it is free to act.
    pub fn cooldown_remaining(
        &self,
        process: &str,
        config: &ProtectionConfig,
        at_unix: u64,
    ) -> (remaining: u64)
        ensures
            remaining == self.cooling(process@, config.cooldown_of(process@), at_unix),
    {
        let cooldown = config.cooldown_for(process);
        match self.last_action_at.get(&process.to_owned()) {
            Some(last) => cooldown.saturating_sub(at_unix.saturating_sub(*last)),
            None => 0,
        }
    }

    /// Actions performed for a process within the window.
    pub fn actions_taken(&self, process: &str, config: &ProtectionConfig, at_unix: u64) -> (count:
        u32)
        ensures
            count == saturated(
                self.performed_in_window(Some(process@), config.rate_window_secs, at_unix),
            ),
    {
        self.count_in_window(Some(process), config.rate_window_secs, at_unix)
    }

    /// Adds a record, evicting the oldest if full.
    pub fn record(&mut self, record: ActionRecord)
        requires
            old(self).wf(),
        ensures
            final(self).wf(),
            final(self).records().last() == record,
            final(self).limit() == old(self).limit(),
            final(self).last_actions() == old(self).last_actions(),
            final(self).taken() == old(self).taken(),
            final(self).records() == newest(old(self).records(), old(self).limit() - 1).push(
                record,
            ),
    {
        let full: bool = self.history.len() >= self.history_capacity;
        if full {
            let _ = self.history.pop_front();
        }
        self.history.push_back(record);
        assert(self.records() =~= newest(old(self).records(), old(self).limit() - 1).push(record));
    }

    /// Every retained record, oldest first.
    pub fn history(&self) -> (found: Vec<&ActionRecord>)
        ensures
            refer_to_records(found@, self.records()),
    {
        let mut found: Vec<&ActionRecord> = Vec::new();
        let mut i: usize = 0;
        while i < self.history.len()
            invariant
                i <= self.history@.len(),
                refer_to_records(found@, self.history@.take(i as int)),
            decreases self.history@.len() - i,
        {
            assert(self.history@.take(i + 1) =~= self.history@.take(i as int).push(
                self.history@[i as int],
            ));
            found.push(&self.history[i]);
            i = i + 1;
        }
        assert(self.history@.take(i as int) =~= self.history@);
        found
    }

    /// Retained records for one process, oldest first.
    pub fn history_for(&self, process: &str) -> (found: Vec<&ActionRecord>)
        ensures
            refer_to_records(found@, self.records().filter(records_of(process@))),
    {
        let mut found: Vec<&ActionRecord> = Vec::new();
        let mut i: usize = 0;
        proof {
            lemma_filter_ends(self.history@, records_of(process@));
        }
        while i < self.history.len()
            invariant
                i <= self.history@.len(),
                refer_to_records(
                    found@,
                    self.history@.take(i as int).filter(records_of(process@)),
                ),
            decreases self.history@.len() - i,
        {
            proof {
                lemma_filter_step(self.history@, i as int, records_of(process@));
            }
            let record = &self.history[i];
            if same_text(record.process.as_str(), process) {
                found.push(record);
            }
            i = i + 1;
        }
        found
    }

    fn forget_taken(&mut self, process: &str)
        requires
            old(self).wf(),
        ensures
            final(self).wf(),
            final(self).limit() == old(self).limit(),
            final(self).last_actions() == old(self).last_actions(),
            final(self).records() == old(self).records(),
            final(self).taken() == old(self).taken().filter(performed_by_others(process@)),
    {
        let count: usize = self.taken_at.len();
        let ghost before = self.taken_at@;
        let ghost all = self.taken();
        let ghost keep = performed_by_others(process@);
        let mut kept: VecDeque<(String, u64)> = VecDeque::new();
        let mut i: usize = 0;
        proof {
            lemma_filter_ends(all, keep);
            assert(kept@.map_values(|entry: (String, u64)| performed(entry)) =~= all.take(
                0,
            ).filter(keep));
        }
        while i < count
            invariant
                i <= count,
                before == old(self).taken_at@,
                all == old(self).taken(),
                count == before.len(),
                keep == performed_by_others(process@),
                self.history == old(self).history,
                self.history_capacity == old(self).history_capacity,
                self.last_action_at == old(self).last_action_at,
                self.taken_at@ == before.subrange(i as int, count as int),
                kept@.map_values(|entry: (String, u64)| performed(entry)) == all.take(
                    i as int,
                ).filter(keep),
                kept@.len() <= i,
            decreases count - i,
        {
            proof {
                lemma_filter_step(all, i as int, keep);
            }
            let next = self.taken_at.pop_front();
            if let Some(entry) = next {
                if !same_text(entry.0.as_str(), process) {
                    let ghost earlier = kept@;
                    kept.push_back(entry);
                    assert(kept@.map_values(|entry: (String, u64)| performed(entry))
                        =~= earlier.map_values(|entry: (String, u64)| performed(entry)).push(
                        performed(entry),
                    ));
                }
            }
            i = i + 1;
        }
        self.taken_at = kept;
    }

    fn forget_records(&mut self, process: &str)
        requires
            old(self).wf(),
        ensures
            final(self).wf(),
            final(self).limit() == old(self).limit(),
            final(self).last_actions() == old(self).last_actions(),
            final(self).taken() == old(self).taken(),
            final(self).records() == old(self).records().filter(records_of_others(process@)),
    {
        let count: usize = self.history.len();
        let ghost before = self.history@;
        let ghost keep = records_of_others(process@);
        let mut kept: VecDeque<ActionRecord> = VecDeque::new();
        let mut i: usize = 0;
        proof {
            lemma_filter_ends(before, keep);
        }
        while i < count
            invariant
                i <= count,
                before == old(self).history@,
                count == before.len(),
                keep == records_of_others(process@),
                self.taken_at == old(self).taken_at,
                self.history_capacity == old(self).history_capacity,
                self.last_action_at == old(self).last_action_at,
                self.history@ == before.subrange(i as int, count as int),
                kept@ == before.take(i as int).filter(keep),
                kept@.len() <= i,
            decreases count - i,
        {
            proof {
                lemma_filter_step(before, i as int, keep);
            }
            let next = self.history.pop_front();
            if let Some(record) = next {
                if !same_text(record.process.as_str(), process) {
                    kept.push_back(record);
                }
            }
            i = i + 1;
        }
        self.history = kept;
    }

    /// Drops one process's state and records, for a delete.
    pub fn forget(&mut self, process: &str)
        requires
            old(self).wf(),
        ensures
            final(self).wf(),
            final(self).limit() == old(self).limit(),
            final(self).last_actions() == old(self).last_actions().remove(process@),
            final(self).taken() == old(self).taken().filter(performed_by_others(process@)),
            final(self).records() == old(self).records().filter(records_of_others(process@)),
    {
        let _ = self.last_action_at.remove(&process.to_owned());
        self.forget_taken(process);
        self.forget_records(process);
    }
}

/// A count, capped at the largest 32-bit one.
pub open spec fn saturated(count: nat) -> u32 {
    if count <= u32::MAX {
        count as u32
    } else {
        u32::MAX
    }
}

/// What an optional string slice denotes.
pub open spec fn optional_view(text: Option<&str>) -> Option<Seq<char>> {
    match text {
        Some(inner) => Some(inner@),
        None => None,
    }
}

/// Whether every reference is to the record at the same place of a sequence.
pub open spec fn refer_to_records(found: Seq<&ActionRecord>, listed: Seq<ActionRecord>) -> bool {
    &&& found.len() == listed.len()
    &&& forall|i: int| 0 <= i < found.len() ==> *(#[trigger] found[i]) == listed[i]
}

fn contains_action(actions: &[Action], action: Action) -> (found: bool)
    ensures
        found == actions@.contains(action),
{
    let mut i: usize = 0;
    while i < actions.len()
        invariant
            i <= actions.len(),
            forall|j: int| 0 <= j < i ==> actions@[j] != action,
        decreases actions.len() - i,
    {
        if actions[i] == action {
            return true;
        }
        i = i + 1;
    }
    false
}

/// An action that no limit withholds meets every one of them: the daemon is enabled, the process
/// may act and permits the action, its cooldown is over, and neither cap is reached.
pub proof fn admission_meets_every_limit(
    gate: &Gate,
    process: Seq<char>,
    action: Action,
    config: ProtectionConfig,
    at_unix: u64,
)
    requires
        gate.first_limit(process, action, config, at_unix, None),
    ensures
        config.enabled,
        config.acting(process),
        config.permits(process).contains(action),
        gate.cooling(process, config.cooldown_of(process), at_unix) == 0,
        saturated(gate.performed_in_window(Some(process), config.rate_window_secs, at_unix))
            < config.cap_of(process),
        saturated(gate.performed_in_window(None, config.rate_window_secs, at_unix))
            < config.daemon_cap,
{
}

/// A disabled daemon acts for nobody, and a process without a policy is only observed.
pub proof fn nothing_acts_by_default(
    gate: &Gate,
    process: Seq<char>,
    action: Action,
    config: ProtectionConfig,
    at_unix: u64,
    refusal: Option<Refusal>,
)
    requires
        gate.first_limit(process, action, config, at_unix, refusal),
        !config.enabled || config.policy(process) is None,
    ensures
        refusal is Some,
        !config.enabled ==> refusal == Some(Refusal::Disabled),
{
}

/// Confirming an action starts the cooldown of its process, which lasts exactly the configured
/// time, and starts none for any other process.
pub proof fn confirming_starts_the_cooldown(
    before: &Gate,
    after: &Gate,
    process: Seq<char>,
    other: Seq<char>,
    confirmed_at: u64,
    cooldown: u64,
    at_unix: u64,
)
    requires
        after.last_actions() == before.last_actions().insert(process, confirmed_at),
        at_unix >= confirmed_at,
        other != process,
    ensures
        at_unix - confirmed_at < cooldown ==> after.cooling(process, cooldown, at_unix) == cooldown
            - (at_unix - confirmed_at),
        at_unix - confirmed_at >= cooldown ==> after.cooling(process, cooldown, at_unix) == 0,
        after.cooling(other, cooldown, at_unix) == before.cooling(other, cooldown, at_unix),
{
}

/// As time passes without further actions, the number of actions inside the window never grows,
/// and once the window has passed them all it is zero: capacity returns by itself.
pub proof fn capacity_returns_as_the_window_passes(
    gate: &Gate,
    process: Option<Seq<char>>,
    window_secs: u64,
    earlier: u64,
    later: u64,
)
    requires
        earlier <= later,
    ensures
        gate.performed_in_window(process, window_secs, later) <= gate.performed_in_window(
            process,
            window_secs,
            earlier,
        ),
        (forall|i: int|
            0 <= i < gate.taken().len() ==> (#[trigger] gate.taken()[i]).1 + window_secs < later)
            ==> gate.performed_in_window(process, window_secs, later) == 0,
{
    let now = counted(process, window_start(window_secs, later));
    let then = counted(process, window_start(window_secs, earlier));
    lemma_filter_weaker(gate.taken(), now, then);
    if forall|i: int|
        0 <= i < gate.taken().len() ==> (#[trigger] gate.taken()[i]).1 + window_secs < later {
        assert forall|i: int| 0 <= i < gate.taken().len() implies !now(
            #[trigger] gate.taken()[i],
        ) by {}
        lemma_filter_none(gate.taken(), now);
    }
}

/// Forgetting a process frees it of its cooldown and its count, drops its records, and leaves the
/// cooldown and the count of every other process as they were.
pub proof fn forgetting_one_process_leaves_the_others(
    before: &Gate,
    after: &Gate,
    process: Seq<char>,
    other: Seq<char>,
    cooldown: u64,
    window_secs: u64,
    at_unix: u64,
)
    requires
        other != process,
        after.last_actions() == before.last_actions().remove(process),
        after.taken() == before.taken().filter(performed_by_others(process)),
        after.records() == before.records().filter(records_of_others(process)),
    ensures
        after.cooling(process, cooldown, at_unix) == 0,
        after.performed_in_window(Some(process), window_secs, at_unix) == 0,
        after.records().filter(records_of(process)) == Seq::<ActionRecord>::empty(),
        after.cooling(other, cooldown, at_unix) == before.cooling(other, cooldown, at_unix),
        after.performed_in_window(Some(other), window_secs, at_unix) == before.performed_in_window(
            Some(other),
            window_secs,
            at_unix,
        ),
        after.records().filter(records_of(other)) == before.records().filter(records_of(other)),
{
    let start = window_start(window_secs, at_unix);
    let own = counted(Some(process), start);
    let theirs = counted(Some(other), start);
    assert forall|i: int| 0 <= i < after.taken().len() implies !own(
        #[trigger] after.taken()[i],
    ) by {
        lemma_filter_element(before.taken(), performed_by_others(process), i);
    }
    lemma_filter_none(after.taken(), own);
    lemma_filter_twice(before.taken(), performed_by_others(process), theirs);
    assert forall|i: int| 0 <= i < after.records().len() implies !records_of(process)(
        #[trigger] after.records()[i],
    ) by {
        lemma_filter_element(before.records(), records_of_others(process), i);
    }
    lemma_filter_none(after.records(), records_of(process));
    lemma_filter_twice(before.records(), records_of_others(process), records_of(other));
}

/// An action of a process performed at a time that is not later than now, and not more than the
/// window before now, is counted in the window that ends now, for that process and for the daemon
/// as a whole.
pub proof fn an_action_within_the_window_is_counted(
    gate: &Gate,
    at: int,
    window_secs: u64,
    now: u64,
)
    requires
        0 <= at < gate.taken().len(),
        gate.taken()[at].1 <= now,
        now - gate.taken()[at].1 <= window_secs,
    ensures
        gate.performed_in_window(Some(gate.taken()[at].0), window_secs, now) >= 1,
        gate.performed_in_window(None, window_secs, now) >= 1,
{
    broadcast use vstd::seq_lib::group_filter_ensures;

    let entry = gate.taken()[at];
    let own = counted(Some(entry.0), window_start(window_secs, now));
    let all = counted(None, window_start(window_secs, now));
    assert(gate.taken().contains(entry));
    assert(own(entry) && all(entry));
    assert(gate.taken().filter(own).contains(entry));
    assert(gate.taken().filter(all).contains(entry));
}

/// The actions, of one process or of all, that lie no more than a window before now.
pub open spec fn recent(process: Option<Seq<char>>, window_secs: u64, now: u64) -> spec_fn(
    (Seq<char>, u64),
) -> bool {
    |entry: (Seq<char>, u64)|
        now - entry.1 <= window_secs && (process is None || process == Some(entry.0))
}

/// The count in a window is the number of actions that lie no more than the window before now,
/// those of one process where one is asked for.
pub proof fn the_window_counts_recent_actions_only(
    gate: &Gate,
    process: Option<Seq<char>>,
    window_secs: u64,
    now: u64,
)
    ensures
        gate.performed_in_window(process, window_secs, now) == gate.taken().filter(
            recent(process, window_secs, now),
        ).len(),
{
    let mine = counted(process, window_start(window_secs, now));
    let theirs = recent(process, window_secs, now);
    lemma_filter_weaker(gate.taken(), mine, theirs);
    lemma_filter_weaker(gate.taken(), theirs, mine);
}

/// Confirming an action uses up one place in the window, of its process and of the daemon, and none
/// of any other process. Only a full history gives up its oldest action for it.
pub proof fn confirming_consumes_capacity(
    before: &Gate,
    after: &Gate,
    process: Seq<char>,
    other: Seq<char>,
    confirmed_at: u64,
    window_secs: u64,
    now: u64,
)
    requires
        before.wf(),
        after.taken() == newest(
            before.taken().push((process, confirmed_at)),
            before.limit() as int,
        ),
        confirmed_at <= now,
        now - confirmed_at <= window_secs,
        other != process,
    ensures
        after.taken().len() >= 1,
        after.taken().last() == (process, confirmed_at),
        before.taken().len() < before.limit() ==> {
            &&& after.performed_in_window(Some(process), window_secs, now)
                == before.performed_in_window(Some(process), window_secs, now) + 1
            &&& after.performed_in_window(None, window_secs, now) == before.performed_in_window(
                None,
                window_secs,
                now,
            ) + 1
            &&& after.performed_in_window(Some(other), window_secs, now)
                == before.performed_in_window(Some(other), window_secs, now)
        },
        before.taken().len() == before.limit() ==> after.taken()
            == before.taken().drop_first().push((process, confirmed_at)),
{
    let entry = (process, confirmed_at);
    let start = window_start(window_secs, now);
    let grown = before.taken().push(entry);
    if before.taken().len() < before.limit() {
        assert(after.taken() == grown);
        lemma_filter_pushed(before.taken(), entry, counted(Some(process), start));
        lemma_filter_pushed(before.taken(), entry, counted(None, start));
        lemma_filter_pushed(before.taken(), entry, counted(Some(other), start));
    } else {
        assert(after.taken() =~= before.taken().drop_first().push(entry));
    }
}

proof fn lemma_filter_pushed(
    s: Seq<(Seq<char>, u64)>,
    entry: (Seq<char>, u64),
    keep: spec_fn((Seq<char>, u64)) -> bool,
)
    ensures
        s.push(entry).filter(keep) == (if keep(entry) {
            s.filter(keep).push(entry)
        } else {
            s.filter(keep)
        }),
{
    let grown = s.push(entry);
    lemma_filter_step(grown, s.len() as int, keep);
    assert(grown.take(s.len() as int) =~= s);
    assert(grown.take(grown.len() as int) =~= grown);
}

/// A process without a policy is only observed, under the daemon's limits; one with a policy has
/// what its policy says, a zero included, and the daemon's where that says nothing.
pub proof fn a_policy_overrides_the_daemon(config: ProtectionConfig, process: Seq<char>)
    ensures
        !config.processes@.contains_key(process) ==> {
            &&& !config.acting(process)
            &&& config.permits(process).len() == 0
            &&& config.cooldown_of(process) == config.cooldown_secs
            &&& config.cap_of(process) == config.per_process_cap
        },
        config.processes@.contains_key(process) ==> {
            let policy = config.processes@[process];
            &&& config.acting(process) == policy.act
            &&& config.permits(process) == policy.permitted@
            &&& policy.cooldown_secs is Some ==> Some(config.cooldown_of(process))
                == policy.cooldown_secs
            &&& policy.cooldown_secs is None ==> config.cooldown_of(process)
                == config.cooldown_secs
            &&& policy.max_actions is Some ==> Some(config.cap_of(process)) == policy.max_actions
            &&& policy.max_actions is None ==> config.cap_of(process) == config.per_process_cap
        },
{
}

/// A process that never had an action performed is not cooling down; one that had is cooling for
/// the configured time from then, and for all of it while the clock stands before that action.
pub proof fn a_cooldown_runs_from_the_last_action(
    gate: &Gate,
    process: Seq<char>,
    cooldown: u64,
    now: u64,
)
    ensures
        !gate.last_actions().contains_key(process) ==> gate.cooling(process, cooldown, now) == 0,
        gate.last_actions().contains_key(process) ==> {
            let last = gate.last_actions()[process];
            &&& now <= last ==> gate.cooling(process, cooldown, now) == cooldown
            &&& last <= now <= last + cooldown ==> now + gate.cooling(process, cooldown, now)
                == last + cooldown
            &&& last + cooldown <= now ==> gate.cooling(process, cooldown, now) == 0
        },
{
}

/// A refusal says what the limit saw: the seconds that are left of the cooldown in force, or the
/// number of actions in the window beside the cap that it reached.
pub proof fn a_refusal_says_what_the_limit_saw(
    gate: &Gate,
    process: Seq<char>,
    action: Action,
    config: ProtectionConfig,
    now: u64,
    refusal: Refusal,
)
    requires
        gate.first_limit(process, action, config, now, Some(refusal)),
        gate.wf(),
        gate.limit() <= u32::MAX,
    ensures
        !(refusal is NoActionProposed),
        refusal is Disabled <==> !config.enabled,
        refusal is NotEnabledForProcess <==> config.enabled && !(config.processes@.contains_key(
            process,
        ) && config.processes@[process].act),
        refusal is ActionNotPermitted ==> config.processes@.contains_key(process)
            && !config.processes@[process].permitted@.contains(action),
        refusal matches Refusal::ActionNotPermitted { action: refused, permitted } ==> refused
            == action && permitted@ == config.processes@[process].permitted@,
        refusal matches Refusal::InCooldown { remaining_secs, cooldown_secs } ==> remaining_secs > 0
            && cooldown_secs == config.cooldown_of(process) && remaining_secs == gate.cooling(
            process,
            cooldown_secs,
            now,
        ),
        refusal matches Refusal::PerProcessCapReached { taken, cap, window_secs } ==> cap
            == config.cap_of(process) && window_secs == config.rate_window_secs && taken
            == gate.performed_in_window(Some(process), window_secs, now) && taken >= cap,
        refusal matches Refusal::DaemonCapReached { taken, cap, window_secs } ==> cap
            == config.daemon_cap && window_secs == config.rate_window_secs && taken
            == gate.performed_in_window(None, window_secs, now) && taken >= cap,
{
    broadcast use vstd::seq_lib::group_filter_ensures;

    let start = window_start(config.rate_window_secs, now);
    assert(gate.taken().filter(counted(Some(process), start)).len() <= gate.taken().len());
    assert(gate.taken().filter(counted(None, start)).len() <= gate.taken().len());
}

/// Where an action is allowed in itself, the cooldown withholds it first, then the cap of the
/// process, then that of the daemon; below both caps, and with no cooldown left, it is taken.
pub proof fn limits_withhold_in_order(
    gate: &Gate,
    process: Seq<char>,
    action: Action,
    config: ProtectionConfig,
    now: u64,
    refusal: Option<Refusal>,
)
    requires
        gate.first_limit(process, action, config, now, refusal),
        gate.wf(),
        gate.limit() <= u32::MAX,
        config.enabled,
        config.processes@.contains_key(process),
        config.processes@[process].act,
        config.processes@[process].permitted@.contains(action),
    ensures
        gate.cooling(process, config.cooldown_of(process), now) > 0 ==> refusal matches Some(
            Refusal::InCooldown { .. },
        ),
        gate.cooling(process, config.cooldown_of(process), now) == 0 && gate.performed_in_window(
            Some(process),
            config.rate_window_secs,
            now,
        ) >= config.cap_of(process) ==> refusal matches Some(Refusal::PerProcessCapReached { .. }),
        gate.cooling(process, config.cooldown_of(process), now) == 0 && gate.performed_in_window(
            Some(process),
            config.rate_window_secs,
            now,
        ) < config.cap_of(process) && gate.performed_in_window(None, config.rate_window_secs, now)
            >= config.daemon_cap ==> refusal matches Some(Refusal::DaemonCapReached { .. }),
        gate.cooling(process, config.cooldown_of(process), now) == 0 && gate.performed_in_window(
            Some(process),
            config.rate_window_secs,
            now,
        ) < config.cap_of(process) && gate.performed_in_window(None, config.rate_window_secs, now)
            < config.daemon_cap ==> refusal is None,
{
    broadcast use vstd::seq_lib::group_filter_ensures;

    let start = window_start(config.rate_window_secs, now);
    assert(gate.taken().filter(counted(Some(process), start)).len() <= gate.taken().len());
    assert(gate.taken().filter(counted(None, start)).len() <= gate.taken().len());
}

/// A record is added behind the others; only the oldest makes room for it, and only in a full
/// history. Counts are capped, never wrapped.
pub proof fn records_evict_only_the_oldest(before: &Gate, after: &Gate, record: ActionRecord)
    requires
        before.wf(),
        after.records() == newest(before.records(), before.limit() - 1).push(record),
    ensures
        before.records().len() < before.limit() ==> after.records() == before.records().push(
            record,
        ),
        before.records().len() == before.limit() ==> after.records()
            == before.records().drop_first().push(record),
        forall|n: nat| n < 0x1_0000_0000 ==> #[trigger] saturated(n) == n,
        forall|n: nat| n >= 0x1_0000_0000 ==> #[trigger] saturated(n) == u32::MAX,
{
    if before.records().len() == before.limit() {
        assert(newest(before.records(), before.limit() - 1) =~= before.records().drop_first());
    }
}

/// A record of an action says whether it was taken: a taken action is never called withheld, and
/// what withheld another is given behind it.
pub proof fn a_summary_tells_taken_from_withheld(record: ActionRecord, action: Action)
    requires
        record.action == Some(action),
    ensures
        record.taken ==> record.summary_text() == record.process@ + ": took "@ + action.wire(),
        !record.taken && record.refusal is None ==> record.summary_text() == record.process@
            + ": withheld "@ + action.wire(),
        !record.taken && record.refusal is Some ==> record.summary_text() == record.process@
            + ": withheld "@ + action.wire() + " — "@ + (record.refusal->0).reason_text(),
{
}

/// Every refusal but that of a decision without an action is a safety limit.
pub proof fn only_nothing_to_do_is_no_limit(refusal: &Refusal, limit: bool)
    requires
        call_ensures(Refusal::is_safety_limit, (refusal,), limit),
    ensures
        limit <==> !(refusal is NoActionProposed),
{
}

/// What is counted for a process is what its limits go by: the actions in the configured window,
/// and the rest of the cooldown that its policy sets.
pub proof fn counts_and_cooldowns_follow_the_configuration(
    gate: &Gate,
    process: &str,
    config: &ProtectionConfig,
    now: u64,
    taken: u32,
    remaining: u64,
)
    requires
        gate.wf(),
        gate.limit() <= u32::MAX,
        call_ensures(Gate::actions_taken, (gate, process, config, now), taken),
        call_ensures(Gate::cooldown_remaining, (gate, process, config, now), remaining),
    ensures
        taken == gate.taken().filter(
            recent(Some(process@), config.rate_window_secs, now),
        ).len(),
        remaining == gate.cooling(process@, config.cooldown_of(process@), now),
        !gate.last_actions().contains_key(process@) ==> remaining == 0,
        remaining <= config.cooldown_of(process@),
{
    broadcast use vstd::seq_lib::group_filter_ensures;

    the_window_counts_recent_actions_only(
        gate,
        Some(process@),
        config.rate_window_secs,
        now,
    );
    let start = window_start(config.rate_window_secs, now);
    assert(gate.taken().filter(counted(Some(process@), start)).len() <= gate.taken().len());
}

/// The records of a process are those retained about it, oldest first, and no other's.
pub proof fn records_are_listed_by_process(
    gate: &Gate,
    process: &str,
    all: Vec<&ActionRecord>,
    found: Vec<&ActionRecord>,
    i: int,
)
    requires
        call_ensures(Gate::history, (gate,), all),
        call_ensures(Gate::history_for, (gate, process), found),
    ensures
        all@.len() == gate.records().len(),
        0 <= i < all@.len() ==> *all@[i] == gate.records()[i],
        0 <= i < found@.len() ==> found@[i].process@ == process@ && gate.records().contains(
            *found@[i],
        ),
        0 <= i < gate.records().len() && gate.records()[i].process@ == process@ ==> exists|j: int|
            0 <= j < found@.len() && *(#[trigger] found@[j]) == gate.records()[i],
{
    broadcast use vstd::seq_lib::group_filter_ensures;

    let kept = gate.records().filter(records_of(process@));
    if 0 <= i < found@.len() {
        lemma_filter_element(gate.records(), records_of(process@), i);
        assert(*found@[i] == kept[i]);
    }
    if 0 <= i < gate.records().len() && gate.records()[i].process@ == process@ {
        assert(records_of(process@)(gate.records()[i]));
        assert(gate.records().contains(gate.records()[i]));
        assert(kept.contains(gate.records()[i]));
        let j = choose|j: int| 0 <= j < kept.len() && kept[j] == gate.records()[i];
        assert(*found@[j] == kept[j]);
    }
}

/// A reason gives the figures of its limit, each in its place: what remains before the whole
/// cooldown, what was taken before the cap and the window, for the process or for the daemon.
pub proof fn a_reason_gives_the_figures_of_its_limit(
    remaining_secs: u64,
    cooldown_secs: u64,
    taken: u32,
    cap: u32,
    window_secs: u64,
)
    ensures
        (Refusal::InCooldown { remaining_secs, cooldown_secs }).reason_text() == "in cooldown: "@
            + decimal(remaining_secs as nat) + "s remaining of "@ + decimal(cooldown_secs as nat)
            + "s"@,
        (Refusal::PerProcessCapReached { taken, cap, window_secs }).reason_text()
            == "per-process cap reached: "@ + decimal(taken as nat) + " of "@ + decimal(cap as nat)
            + " in "@ + decimal(window_secs as nat) + "s"@,
        (Refusal::DaemonCapReached { taken, cap, window_secs }).reason_text()
            == "daemon-wide cap reached: "@ + decimal(taken as nat) + " of "@ + decimal(cap as nat)
            + " in "@ + decimal(window_secs as nat) + "s"@,
        Refusal::Disabled.reason_text() == "automated action is disabled"@,
        Refusal::NotEnabledForProcess.reason_text()
            == "automated action is not enabled for this process"@,
        Refusal::NoActionProposed.reason_text() == "no action was proposed"@,
{
}

/// A reason for an action that is not permitted names that action first, and then those that are,
/// or says that none is.
pub proof fn a_reason_names_what_is_permitted(action: Action, permitted: Vec<Action>)
    ensures
        permitted@.len() == 0 ==> (Refusal::ActionNotPermitted { action, permitted }).reason_text()
            == action.wire() + " is not permitted: this process permits no actions"@,
        permitted@.len() == 1 ==> (Refusal::ActionNotPermitted { action, permitted }).reason_text()
            == action.wire() + " is not permitted (permitted: "@ + permitted@[0].wire() + ")"@,
        permitted@.len() == 2 ==> (Refusal::ActionNotPermitted { action, permitted }).reason_text()
            == action.wire() + " is not permitted (permitted: "@ + (permitted@[0].wire() + ", "@
            + permitted@[1].wire()) + ")"@,
{
    let names = action_names(permitted@);
    if permitted@.len() == 2 {
        assert(names.drop_last() =~= seq![permitted@[0].wire()]);
        assert(joined(names.drop_last(), ", "@) == permitted@[0].wire());
        assert(names.last() == permitted@[1].wire());
    }
}

/// A record without an action says so, whatever else it holds.
pub proof fn a_record_without_an_action_says_so(record: ActionRecord)
    requires
        record.action is None,
    ensures
        record.summary_text() == record.process@ + ": no action proposed"@,
{
}

/// Two refusals say the same exactly when they are the same refusal: a refused action is compared
/// with the actions that are permitted, whatever holds them.
pub proof fn refusals_say_the_same_when_they_are(a: Refusal, b: Refusal)
    ensures
        a == b ==> a.says(b),
        a.says(b) <==> b.says(a),
        a.says(b) ==> a.reason_text() == b.reason_text(),
        a.says(b) && !(a is ActionNotPermitted) ==> a == b,
        a.says(b) && a is ActionNotPermitted ==> b is ActionNotPermitted,
{
}

} // verus!
