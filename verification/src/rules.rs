//! Deterministic mapping from findings to intended actions.
//!
//! Rules are evaluated in one declared order and the first that applies decides. A rule reads the
//! findings and the facts about the process and nothing else: the time of evaluation is an
//! argument, and the order in which findings are handed over cannot matter. Nothing here acts.

use crate::findings::Finding;
use crate::identity::{key_before, Detector, FindingKey, KeyView};
use crate::ordered_map::OrderedKey;
use crate::reading::{Reading, NEGATIVE_INFINITY_BITS, ONE_BITS};
use crate::sequences::{lemma_filter_element, lemma_filter_ends, lemma_filter_step, newest};
use crate::text::{copy_texts, join_texts, joined, same_text, texts, Rank};
use std::collections::VecDeque;
use vstd::multiset::Multiset;
use vstd::prelude::*;
use vstd::relations::{sorted_by, total_ordering};

verus! {

broadcast use vstd::std_specs::vecdeque::group_vec_dequeue_axioms;

/// How many decisions are retained per daemon.
pub const DEFAULT_DECISION_CAPACITY: usize = 256;

/// The minimum confidence a supporting finding must carry before a rule may propose an action:
/// 0.6, as a double's bit pattern.
pub const DEFAULT_MIN_CONFIDENCE: u64 = 0x3fe3_3333_3333_3333;

/// What a decision would do to a process.
#[derive(Debug, Clone, Copy, PartialEq, Eq, Hash, Structural)]
pub enum Action {
    /// Restart the process through the normal supervision path.
    Restart,
    /// Tell the operator; change nothing.
    Notify,
}

impl Action {
    /// The canonical wire name, in characters.
    pub open spec fn wire(self) -> Seq<char> {
        match self {
            Action::Restart => "restart"@,
            Action::Notify => "notify"@,
        }
    }

    /// The canonical wire name.
    pub fn as_wire(self) -> (name: &'static str)
        ensures
            name@ == self.wire(),
    {
        match self {
            Action::Restart => "restart",
            Action::Notify => "notify",
        }
    }
}

/// Identity of a declared rule.
#[derive(Debug, Clone, Copy, PartialEq, Eq, Hash, Structural)]
pub enum RuleId {
    /// A declared dependency is implicated, so the dependent process is left alone.
    DependencyImplicated,
    /// The operator asked for this process to be stopped.
    ProcessStopped,
    /// Existing supervision has already given up.
    CrashLoopLimitReached,
    /// Sustained, well-fitted growth that will not resolve itself.
    ResourceLeak,
    /// A metric parked far from its baseline.
    LevelDeparture,
}

impl RuleId {
    /// The stable wire name, in characters.
    pub open spec fn wire(self) -> Seq<char> {
        match self {
            RuleId::DependencyImplicated => "dependency_implicated"@,
            RuleId::ProcessStopped => "process_stopped"@,
            RuleId::CrashLoopLimitReached => "crash_loop_limit_reached"@,
            RuleId::ResourceLeak => "resource_leak"@,
            RuleId::LevelDeparture => "level_departure"@,
        }
    }

    /// The stable wire name.
    pub fn as_wire(self) -> (name: &'static str)
        ensures
            name@ == self.wire(),
    {
        match self {
            RuleId::DependencyImplicated => "dependency_implicated",
            RuleId::ProcessStopped => "process_stopped",
            RuleId::CrashLoopLimitReached => "crash_loop_limit_reached",
            RuleId::ResourceLeak => "resource_leak",
            RuleId::LevelDeparture => "level_departure",
        }
    }

    /// Why this rule exists, in characters.
    pub open spec fn rationale_text(self) -> Seq<char> {
        match self {
            RuleId::DependencyImplicated =>
                "a declared dependency is implicated; acting on the symptom would not address the cause"@,
            RuleId::ProcessStopped => "the process is stopped by operator intent"@,
            RuleId::CrashLoopLimitReached =>
                "the process is at its crash-restart limit, where existing supervision is authoritative"@,
            RuleId::ResourceLeak =>
                "sustained resource growth will not resolve without intervention"@,
            RuleId::LevelDeparture =>
                "the metric is far from its baseline, which an operator should see"@,
        }
    }

    /// Why this rule exists, for the decision record.
    pub fn rationale(self) -> (text: &'static str)
        ensures
            text@ == self.rationale_text(),
    {
        match self {
            RuleId::DependencyImplicated => "a declared dependency is implicated; acting on the symptom would not address the cause",
            RuleId::ProcessStopped => "the process is stopped by operator intent",
            RuleId::CrashLoopLimitReached => "the process is at its crash-restart limit, where existing supervision is authoritative",
            RuleId::ResourceLeak => "sustained resource growth will not resolve without intervention",
            RuleId::LevelDeparture => "the metric is far from its baseline, which an operator should see",
        }
    }

    /// What the rule would do; `None` for a refusal, which matches in order to prevent the rules
    /// after it from acting.
    pub open spec fn proposal(self) -> Option<Action> {
        match self {
            RuleId::ResourceLeak => Some(Action::Restart),
            RuleId::LevelDeparture => Some(Action::Notify),
            _ => None,
        }
    }

    fn proposes(self) -> (action: Option<Action>)
        ensures
            action == self.proposal(),
    {
        match self {
            RuleId::ResourceLeak => Some(Action::Restart),
            RuleId::LevelDeparture => Some(Action::Notify),
            _ => None,
        }
    }
}

/// Process state a rule may read: everything it may know that is not a finding.
#[derive(Debug, Clone, PartialEq, Eq)]
pub struct ProcessFacts {
    /// The operator asked for this process to be stopped.
    pub desired_stopped: bool,
    /// Existing supervision has reached its crash-restart limit for this process.
    pub at_crash_loop_limit: bool,
    /// Declared dependencies implicated in a failure correlated with this process.
    pub implicated_dependencies: Vec<String>,
}

impl Default for ProcessFacts {
    fn default() -> (facts: Self)
        ensures
            !facts.desired_stopped,
            !facts.at_crash_loop_limit,
            facts.implicated_dependencies@.len() == 0,
    {
        ProcessFacts {
            desired_stopped: false,
            at_crash_loop_limit: false,
            implicated_dependencies: Vec::new(),
        }
    }
}

impl ProcessFacts {
    /// Facts for an ordinary running process with nothing implicated.
    pub fn running() -> (facts: Self)
        ensures
            !facts.desired_stopped,
            !facts.at_crash_loop_limit,
            facts.implicated_dependencies@.len() == 0,
    {
        ProcessFacts::default()
    }
}

/// Why an action was not proposed, when a rule matched but declined to act.
#[derive(Debug, Clone, PartialEq, Eq)]
pub enum Withheld {
    /// A dependency is implicated.
    DependencyImplicated { dependencies: Vec<String> },
    /// Operator intent is that this process be stopped.
    ProcessStopped,
    /// Existing crash-loop protection is authoritative here.
    CrashLoopLimitReached,
    /// The supporting findings did not reach the minimum confidence.
    BelowMinConfidence { observed: Reading, required: Reading },
}

impl Withheld {
    /// The reason, in characters; the two scores are given as printed.
    pub open spec fn reason_text(self, observed: Seq<char>, required: Seq<char>) -> Seq<char> {
        match self {
            Withheld::DependencyImplicated { dependencies } =>
                "withheld: dependency implicated ("@ + joined(texts(dependencies@), ", "@) + ")"@,
            Withheld::ProcessStopped => "withheld: process is stopped by operator intent"@,
            Withheld::CrashLoopLimitReached => "withheld: process is at its crash-restart limit"@,
            Withheld::BelowMinConfidence { .. } => "withheld: confidence "@ + observed
                + " is below the required "@ + required,
        }
    }

    /// A short operator-facing reason. `observed` and `required` are the two scores of a
    /// confidence gate, printed to two decimals; the other reasons do not read them.
    pub fn reason(&self, observed: &str, required: &str) -> (text: String)
        ensures
            text@ == self.reason_text(observed@, required@),
    {
        match self {
            Withheld::DependencyImplicated { dependencies } => {
                let mut text = "withheld: dependency implicated (".to_owned();
                text.append(join_texts(dependencies.as_slice(), ", ").as_str());
                text.append(")");
                text
            },
            Withheld::ProcessStopped => "withheld: process is stopped by operator intent".to_owned(),
            Withheld::CrashLoopLimitReached => "withheld: process is at its crash-restart limit".to_owned(),
            Withheld::BelowMinConfidence { .. } => {
                let mut text = "withheld: confidence ".to_owned();
                text.append(observed);
                text.append(" is below the required ");
                text.append(required);
                text
            },
        }
    }
}

/// One evaluation's outcome.
#[derive(Debug, Clone, PartialEq, Eq)]
pub struct Decision {
    /// The process this decision concerns.
    pub process: String,
    /// When the decision was evaluated.
    pub at_unix: u64,
    /// The rule that produced it, or `None` when nothing matched.
    pub rule: Option<RuleId>,
    /// The action that would be taken.
    pub action: Option<Action>,
    /// Why no action was proposed, when a rule matched and declined.
    pub withheld: Option<Withheld>,
    /// Keys of the findings that satisfied the rule, sorted.
    pub findings: Vec<FindingKey>,
}

impl Decision {
    /// No rule matched.
    pub fn no_match(process: String, at_unix: u64) -> (decision: Self)
        ensures
            decision.process == process,
            decision.at_unix == at_unix,
            decision.rule is None,
            decision.action is None,
            decision.withheld is None,
            decision.findings@.len() == 0,
    {
        Decision {
            process,
            at_unix,
            rule: None,
            action: None,
            withheld: None,
            findings: Vec::new(),
        }
    }

    /// Whether this decision proposes doing something.
    pub fn proposes_action(&self) -> (proposes: bool)
        ensures
            proposes == (self.action is Some),
    {
        self.action.is_some()
    }

    /// The summary, in characters; the two scores of a confidence gate are given as printed.
    pub open spec fn summary_text(self, observed: Seq<char>, required: Seq<char>) -> Seq<char> {
        match self.rule {
            None => self.process@ + ": no rule matched"@,
            Some(rule) => match self.action {
                Some(action) => self.process@ + ": "@ + rule.wire() + " would "@ + action.wire(),
                None => match self.withheld {
                    Some(withheld) => self.process@ + ": "@ + rule.wire() + " — "@
                        + withheld.reason_text(observed, required),
                    None => self.process@ + ": "@ + rule.wire() + " proposed no action"@,
                },
            },
        }
    }

    /// A short operator-facing sentence. The scores are printed as for [`Withheld::reason`].
    pub fn summary(&self, observed: &str, required: &str) -> (text: String)
        ensures
            text@ == self.summary_text(observed@, required@),
    {
        let mut text = self.process.clone();
        match self.rule {
            None => {
                text.append(": no rule matched");
            },
            Some(rule) => {
                text.append(": ");
                text.append(rule.as_wire());
                match self.action {
                    Some(action) => {
                        text.append(" would ");
                        text.append(action.as_wire());
                    },
                    None => match &self.withheld {
                        Some(withheld) => {
                            text.append(" — ");
                            text.append(withheld.reason(observed, required).as_str());
                        },
                        None => {
                            text.append(" proposed no action");
                        },
                    },
                }
            },
        }
        text
    }
}

/// Configuration for one evaluation.
#[derive(Debug, Clone, Copy, PartialEq, Eq, Structural)]
pub struct RuleConfig {
    /// Minimum confidence a supporting finding must carry before a rule may propose an action.
    pub min_confidence: Reading,
}

impl Default for RuleConfig {
    fn default() -> (config: Self)
        ensures
            config.min_confidence.bits == DEFAULT_MIN_CONFIDENCE,
    {
        RuleConfig { min_confidence: Reading { bits: DEFAULT_MIN_CONFIDENCE } }
    }
}

impl RuleConfig {
    /// Applies a configured minimum confidence, and says whether it could be used. A value that is
    /// not a number between 0 and 1 is replaced by the default, never clamped.
    pub fn with_min_confidence(value: Reading) -> (applied: (Self, bool))
        ensures
            applied.1 == (Reading::of(0).at_most(value) && value.at_most(Reading::of(ONE_BITS))),
            applied.1 ==> applied.0.min_confidence == value,
            !applied.1 ==> applied.0.min_confidence.bits == DEFAULT_MIN_CONFIDENCE,
    {
        let zero = Reading { bits: 0 };
        let one = Reading { bits: ONE_BITS };
        if zero.is_at_most(value) && value.is_at_most(one) {
            (RuleConfig { min_confidence: value }, true)
        } else {
            (RuleConfig::default(), false)
        }
    }
}

/// The declared rules, in evaluation order. The refusals come first, so that a process that must
/// not be touched is never reached by a rule that would touch it.
pub open spec fn declared() -> Seq<RuleId> {
    seq![
        RuleId::DependencyImplicated,
        RuleId::ProcessStopped,
        RuleId::CrashLoopLimitReached,
        RuleId::ResourceLeak,
        RuleId::LevelDeparture,
    ]
}

/// The declared rules, in evaluation order.
pub fn declared_rules() -> (rules: Vec<RuleId>)
    ensures
        rules@ == declared(),
{
    let rules = vec![
        RuleId::DependencyImplicated,
        RuleId::ProcessStopped,
        RuleId::CrashLoopLimitReached,
        RuleId::ResourceLeak,
        RuleId::LevelDeparture,
    ];
    assert(rules@ =~= declared());
    rules
}

/// A finding that a rule may reason about: active, and from a detector this build declares.
pub open spec fn live(finding: Finding) -> bool {
    finding.active() && !(finding.key.detector is Other)
}

/// Whether a finding supports a rule.
pub open spec fn supports(rule: RuleId, finding: Finding) -> bool {
    live(finding) && match rule {
        RuleId::ResourceLeak => finding.key.detector is ResourceLeak,
        RuleId::LevelDeparture => finding.key.detector is LevelDeparture,
        _ => true,
    }
}

/// Whether the facts about the process allow a rule to apply.
pub open spec fn facts_allow(rule: RuleId, facts: ProcessFacts) -> bool {
    match rule {
        RuleId::DependencyImplicated => facts.implicated_dependencies@.len() > 0,
        RuleId::ProcessStopped => facts.desired_stopped,
        RuleId::CrashLoopLimitReached => facts.at_crash_loop_limit,
        _ => true,
    }
}

/// A rule applies when the facts allow it and some finding supports it, so that a rule never
/// decides without evidence to point at.
pub open spec fn applies(rule: RuleId, findings: Seq<Finding>, facts: ProcessFacts) -> bool {
    facts_allow(rule, facts) && exists|i: int|
        0 <= i < findings.len() && supports(rule, #[trigger] findings[i])
}

/// The first of some rules that applies.
pub open spec fn first_applying(
    rules: Seq<RuleId>,
    findings: Seq<Finding>,
    facts: ProcessFacts,
) -> Option<RuleId>
    decreases rules.len(),
{
    if rules.len() == 0 {
        None
    } else if applies(rules[0], findings, facts) {
        Some(rules[0])
    } else {
        first_applying(rules.drop_first(), findings, facts)
    }
}

/// What some keys denote.
pub open spec fn key_views(keys: Seq<FindingKey>) -> Seq<KeyView> {
    keys.map_values(|key: FindingKey| key@)
}

/// The findings supporting a rule, as a predicate.
pub open spec fn supporting(rule: RuleId) -> spec_fn(Finding) -> bool {
    |finding: Finding| supports(rule, finding)
}

/// The key of a finding.
pub open spec fn key_of() -> spec_fn(Finding) -> KeyView {
    |finding: Finding| finding.key@
}

/// The keys of the findings that support a rule, in the order of the findings.
pub open spec fn supporting_keys(findings: Seq<Finding>, rule: RuleId) -> Seq<KeyView> {
    findings.filter(supporting(rule)).map_values(key_of())
}

/// Not after: the order in which a decision lists keys.
pub open spec fn key_order() -> spec_fn(KeyView, KeyView) -> bool {
    |a: KeyView, b: KeyView| a == b || key_before(a, b)
}

/// Whether keys are exactly those of the findings that support a rule, sorted.
pub open spec fn lists_support(
    keys: Seq<FindingKey>,
    findings: Seq<Finding>,
    rule: RuleId,
) -> bool {
    &&& key_views(keys).to_multiset() == supporting_keys(findings, rule).to_multiset()
    &&& sorted_by(key_views(keys), key_order())
}

/// Whether a score is the best among the findings that support a rule. Scores that are not
/// numbers do not count; with none that does, the best is negative infinity.
pub open spec fn is_best_score(findings: Seq<Finding>, rule: RuleId, best: Reading) -> bool {
    &&& !best.nan()
    &&& forall|i: int|
        0 <= i < findings.len() && supports(rule, #[trigger] findings[i])
            && !findings[i].confidence.score.nan() ==> findings[i].confidence.score.rank()
            <= best.rank()
    &&& best.bits == NEGATIVE_INFINITY_BITS || exists|i: int|
        0 <= i < findings.len() && supports(rule, #[trigger] findings[i])
            && findings[i].confidence.score == best
}

/// Why a refusal rule withholds.
pub open spec fn refuses_with(rule: RuleId, facts: ProcessFacts, withheld: Option<Withheld>) -> bool {
    match rule {
        RuleId::DependencyImplicated => withheld matches Some(
            Withheld::DependencyImplicated { dependencies },
        ) && dependencies@ == facts.implicated_dependencies@,
        RuleId::ProcessStopped => withheld == Some(Withheld::ProcessStopped),
        RuleId::CrashLoopLimitReached => withheld == Some(Withheld::CrashLoopLimitReached),
        _ => withheld is None,
    }
}

/// What a gate on the best supporting score leaves of a proposed action.
pub open spec fn gated(
    action: Action,
    best: Reading,
    config: RuleConfig,
) -> (Option<Action>, Option<Withheld>) {
    if best.below(config.min_confidence) {
        (
            None,
            Some(
                Withheld::BelowMinConfidence {
                    observed: if best.finite() {
                        best
                    } else {
                        Reading::of(0)
                    },
                    required: config.min_confidence,
                },
            ),
        )
    } else {
        (Some(action), None)
    }
}

/// Whether a decision is the one the rules prescribe.
pub open spec fn decides(
    process: Seq<char>,
    findings: Seq<Finding>,
    facts: ProcessFacts,
    config: RuleConfig,
    at_unix: u64,
    decision: Decision,
) -> bool {
    &&& decision.process@ == process
    &&& decision.at_unix == at_unix
    &&& decision.rule == first_applying(declared(), findings, facts)
    &&& match decision.rule {
        None => decision.action is None && decision.withheld is None && decision.findings@.len()
            == 0,
        Some(rule) => {
            &&& lists_support(decision.findings@, findings, rule)
            &&& match rule.proposal() {
                None => decision.action is None && refuses_with(rule, facts, decision.withheld),
                Some(action) => exists|best: Reading|
                    #![trigger is_best_score(findings, rule, best)]
                    is_best_score(findings, rule, best) && (decision.action, decision.withheld)
                        == gated(action, best, config),
            }
        },
    }
}

/// The findings a slice of references refers to.
pub open spec fn referred(findings: Seq<&Finding>) -> Seq<Finding> {
    findings.map_values(|finding: &Finding| *finding)
}

fn finding_supports(rule: RuleId, finding: &Finding) -> (yes: bool)
    ensures
        yes == supports(rule, *finding),
{
    if !finding.is_active() || !finding.key.detector.is_known() {
        return false;
    }
    match rule {
        RuleId::ResourceLeak => match finding.key.detector {
            Detector::ResourceLeak => true,
            _ => false,
        },
        RuleId::LevelDeparture => match finding.key.detector {
            Detector::LevelDeparture => true,
            _ => false,
        },
        _ => true,
    }
}

/// Puts a key into sorted keys at its place.
fn insert_key(keys: &mut Vec<FindingKey>, key: FindingKey)
    requires
        sorted_by(key_views(old(keys)@), key_order()),
    ensures
        sorted_by(key_views(final(keys)@), key_order()),
        key_views(final(keys)@).to_multiset() == key_views(old(keys)@).to_multiset().insert(key@),
{
    broadcast use vstd::seq_lib::group_to_multiset_ensures;

    let mut at: usize = keys.len();
    let ghost views = key_views(keys@);
    while at > 0
        invariant_except_break
            at <= keys.len(),
            *keys == *old(keys),
            views == key_views(keys@),
            sorted_by(views, key_order()),
            forall|i: int| at <= i < views.len() ==> key_before(key@, #[trigger] views[i]),
        ensures
            at <= keys.len(),
            *keys == *old(keys),
            forall|i: int| at <= i < views.len() ==> key_before(key@, #[trigger] views[i]),
            forall|i: int| 0 <= i < at ==> key_order()(#[trigger] views[i], key@),
        decreases at,
    {
        match key.rank_against(&keys[at - 1]) {
            Rank::Before => {
                at = at - 1;
            },
            _ => {
                proof {
                    let last = views[at - 1];
                    assert forall|i: int| 0 <= i < at implies key_order()(
                        #[trigger] views[i],
                        key@,
                    ) by {
                        if i < at - 1 {
                            assert(key_order()(views[i], last));
                        }
                        FindingKey::order_laws(views[i], last, key@);
                    }
                }
                break;
            },
        }
    }
    keys.insert(at, key);
    proof {
        let after = key_views(keys@);
        assert(after =~= views.insert(at as int, key@));
        assert forall|i: int, j: int| 0 <= i < j < after.len() implies #[trigger] key_order()(
            after[i],
            after[j],
        ) by {
            let p = if i < at { i } else { i - 1 };
            let q = if j < at { j } else { j - 1 };
            if i != at && j != at {
                assert(key_order()(views[p], views[q]));
            } else if i == at {
                assert(key_before(key@, views[q]));
            } else {
                assert(key_order()(views[p], key@));
            }
        }
    }
}

/// The keys of the findings that support a rule, sorted.
fn select(rule: RuleId, findings: &[&Finding]) -> (keys: Vec<FindingKey>)
    ensures
        lists_support(keys@, referred(findings@), rule),
{
    broadcast use vstd::seq_lib::group_to_multiset_ensures;

    let mut keys: Vec<FindingKey> = Vec::new();
    let mut i: usize = 0;
    let ghost all = referred(findings@);
    proof {
        lemma_filter_ends(all, supporting(rule));
        assert(key_views(keys@) =~= supporting_keys(all.take(0), rule));
    }
    while i < findings.len()
        invariant
            i <= findings.len(),
            all == referred(findings@),
            lists_support(keys@, all.take(i as int), rule),
        decreases findings.len() - i,
    {
        proof {
            lemma_filter_step(all, i as int, supporting(rule));
            if supports(rule, all[i as int]) {
                assert(supporting_keys(all.take(i + 1), rule) =~= supporting_keys(
                    all.take(i as int),
                    rule,
                ).push(all[i as int].key@));
                vstd::seq_lib::to_multiset_build(
                    supporting_keys(all.take(i as int), rule),
                    all[i as int].key@,
                );
            }
        }
        if finding_supports(rule, findings[i]) {
            insert_key(&mut keys, findings[i].key.clone());
        }
        i = i + 1;
    }
    keys
}

/// The best score among the findings that support a rule.
fn best_score(rule: RuleId, findings: &[&Finding]) -> (best: Reading)
    ensures
        is_best_score(referred(findings@), rule, best),
{
    let mut best = Reading { bits: NEGATIVE_INFINITY_BITS };
    let mut i: usize = 0;
    let ghost all = referred(findings@);
    while i < findings.len()
        invariant
            i <= findings.len(),
            all == referred(findings@),
            is_best_score(all.take(i as int), rule, best),
        decreases findings.len() - i,
    {
        let ghost earlier = best;
        let score = findings[i].confidence.score;
        if finding_supports(rule, findings[i]) && !score.is_nan() && best.ranks_before(score) {
            best = score;
        }
        proof {
            let now = all.take(i + 1);
            let then = all.take(i as int);
            assert forall|j: int|
                0 <= j < now.len() && supports(rule, #[trigger] now[j])
                    && !now[j].confidence.score.nan() implies now[j].confidence.score.rank()
                <= best.rank() by {
                if j < i {
                    assert(then[j] == now[j]);
                }
            }
            if best.bits != NEGATIVE_INFINITY_BITS {
                if best == earlier {
                    let j = choose|j: int|
                        0 <= j < then.len() && supports(rule, #[trigger] then[j])
                            && then[j].confidence.score == best;
                    assert(now[j] == then[j]);
                } else {
                    assert(now[i as int] == all[i as int]);
                }
            }
        }
        i = i + 1;
    }
    assert(all.take(i as int) =~= all);
    best
}

/// Why a refusal rule withholds.
fn refusal(rule: RuleId, facts: &ProcessFacts) -> (withheld: Option<Withheld>)
    ensures
        refuses_with(rule, *facts, withheld),
{
    match rule {
        RuleId::DependencyImplicated => Some(
            Withheld::DependencyImplicated {
                dependencies: copy_texts(facts.implicated_dependencies.as_slice()),
            },
        ),
        RuleId::ProcessStopped => Some(Withheld::ProcessStopped),
        RuleId::CrashLoopLimitReached => Some(Withheld::CrashLoopLimitReached),
        _ => None,
    }
}

fn facts_permit(rule: RuleId, facts: &ProcessFacts) -> (allowed: bool)
    ensures
        allowed == facts_allow(rule, *facts),
{
    match rule {
        RuleId::DependencyImplicated => facts.implicated_dependencies.len() > 0,
        RuleId::ProcessStopped => facts.desired_stopped,
        RuleId::CrashLoopLimitReached => facts.at_crash_loop_limit,
        _ => true,
    }
}

/// A rule has support exactly when its list of supporting keys is not empty.
proof fn lemma_support_is_listed(keys: Seq<FindingKey>, findings: Seq<Finding>, rule: RuleId)
    requires
        lists_support(keys, findings, rule),
    ensures
        keys.len() > 0 <==> exists|i: int|
            0 <= i < findings.len() && supports(rule, #[trigger] findings[i]),
{
    broadcast use vstd::seq_lib::group_to_multiset_ensures;
    broadcast use vstd::seq_lib::group_filter_ensures;

    let kept = findings.filter(supporting(rule));
    assert(key_views(keys).len() == key_views(keys).to_multiset().len());
    assert(supporting_keys(findings, rule).len() == supporting_keys(
        findings,
        rule,
    ).to_multiset().len());
    assert(kept.len() == keys.len());
    if keys.len() > 0 {
        assert(supporting(rule)(kept[0]));
        assert(findings.contains(kept[0])) by {
            lemma_filter_element(findings, supporting(rule), 0);
        }
        let i = choose|i: int| 0 <= i < findings.len() && findings[i] == kept[0];
        assert(supports(rule, findings[i]));
    }
    if exists|i: int| 0 <= i < findings.len() && supports(rule, #[trigger] findings[i]) {
        let i = choose|i: int| 0 <= i < findings.len() && supports(rule, #[trigger] findings[i]);
        assert(supporting(rule)(findings[i]));
        assert(kept.contains(findings[i]));
    }
}

/// Evaluates the rule set for one process.
pub fn decide(
    process: &str,
    findings: &[&Finding],
    facts: &ProcessFacts,
    config: &RuleConfig,
    at_unix: u64,
) -> (decision: Decision)
    ensures
        decides(process@, referred(findings@), *facts, *config, at_unix, decision),
{
    let rules = declared_rules();
    let ghost all = referred(findings@);
    let mut i: usize = 0;
    assert(declared().subrange(0, declared().len() as int) =~= declared());
    while i < rules.len()
        invariant
            i <= rules.len(),
            rules@ == declared(),
            all == referred(findings@),
            first_applying(declared(), all, *facts) == first_applying(
                declared().subrange(i as int, declared().len() as int),
                all,
                *facts,
            ),
        decreases rules.len() - i,
    {
        let rule = rules[i];
        let ghost remaining = declared().subrange(i as int, declared().len() as int);
        assert(remaining.drop_first() =~= declared().subrange(i + 1, declared().len() as int));
        if facts_permit(rule, facts) {
            let keys = select(rule, findings);
            proof {
                lemma_support_is_listed(keys@, all, rule);
            }
            if keys.len() > 0 {
                assert(applies(rule, all, *facts));
                let (action, withheld) = match rule.proposes() {
                    None => (None, refusal(rule, facts)),
                    Some(action) => {
                        let best = best_score(rule, findings);
                        if best.is_below(config.min_confidence) {
                            let observed = if best.is_finite() {
                                best
                            } else {
                                Reading { bits: 0 }
                            };
                            (
                                None,
                                Some(
                                    Withheld::BelowMinConfidence {
                                        observed,
                                        required: config.min_confidence,
                                    },
                                ),
                            )
                        } else {
                            (Some(action), None)
                        }
                    },
                };
                return Decision {
                    process: process.to_owned(),
                    at_unix,
                    rule: Some(rule),
                    action,
                    withheld,
                    findings: keys,
                };
            }
        }
        i = i + 1;
    }
    Decision::no_match(process.to_owned(), at_unix)
}

/// Whether two reasons for withholding say the same.
pub open spec fn same_withheld(a: Option<Withheld>, b: Option<Withheld>) -> bool {
    match (a, b) {
        (
            Some(Withheld::DependencyImplicated { dependencies: x }),
            Some(Withheld::DependencyImplicated { dependencies: y }),
        ) => x@ == y@,
        _ => a == b,
    }
}

/// The supporting findings with a given key, as a predicate.
spec fn supporting_with_key(rule: RuleId, key: KeyView) -> spec_fn(Finding) -> bool {
    |finding: Finding| supports(rule, finding) && finding.key@ == key
}

/// How often a key is listed depends only on which findings there are, not on their order.
proof fn lemma_support_counts(findings: Seq<Finding>, rule: RuleId, key: KeyView)
    ensures
        supporting_keys(findings, rule).to_multiset().count(key)
            == findings.to_multiset().filter(supporting_with_key(rule, key)).len(),
    decreases findings.len(),
{
    broadcast use vstd::multiset::group_multiset_axioms;
    broadcast use vstd::seq_lib::group_to_multiset_ensures;

    reveal(Seq::filter);
    let wanted = supporting_with_key(rule, key);
    if findings.len() == 0 {
        assert(findings =~= Seq::<Finding>::empty());
        assert(supporting_keys(findings, rule) =~= Seq::<KeyView>::empty());
        assert(findings.to_multiset().filter(wanted) =~= Multiset::<Finding>::empty());
    } else {
        let rest = findings.drop_last();
        let last = findings.last();
        lemma_support_counts(rest, rule, key);
        assert(findings =~= rest.push(last));
        vstd::seq_lib::to_multiset_build(rest, last);
        if supports(rule, last) {
            assert(supporting_keys(findings, rule) =~= supporting_keys(rest, rule).push(last.key@));
            vstd::seq_lib::to_multiset_build(supporting_keys(rest, rule), last.key@);
        } else {
            assert(supporting_keys(findings, rule) =~= supporting_keys(rest, rule));
        }
        if wanted(last) {
            assert(rest.to_multiset().insert(last).filter(wanted) =~= rest.to_multiset().filter(
                wanted,
            ).insert(last));
        } else {
            assert(rest.to_multiset().insert(last).filter(wanted) =~= rest.to_multiset().filter(
                wanted,
            ));
        }
    }
}

proof fn lemma_key_order_is_total()
    ensures
        total_ordering(key_order()),
{
    let order = key_order();
    assert forall|a: KeyView, b: KeyView, c: KeyView|
        #[trigger] order(a, b) && #[trigger] order(b, c) implies order(a, c) by {
        FindingKey::order_laws(a, b, c);
    }
    assert forall|a: KeyView, b: KeyView|
        #[trigger] order(a, b) && #[trigger] order(b, a) implies a == b by {
        FindingKey::order_laws(a, b, a);
    }
    assert forall|a: KeyView, b: KeyView| #[trigger] order(a, b) || #[trigger] order(b, a) by {
        FindingKey::order_laws(a, b, a);
    }
}

/// Applicability of a rule depends only on which findings there are.
proof fn lemma_applies_ignores_order(
    a: Seq<Finding>,
    b: Seq<Finding>,
    rule: RuleId,
    facts: ProcessFacts,
)
    requires
        a.to_multiset() == b.to_multiset(),
        applies(rule, a, facts),
    ensures
        applies(rule, b, facts),
{
    broadcast use vstd::seq_lib::group_to_multiset_ensures;

    let i = choose|i: int| 0 <= i < a.len() && supports(rule, #[trigger] a[i]);
    assert(a.contains(a[i]));
    assert(a.to_multiset().count(a[i]) > 0);
    assert(b.contains(a[i]));
    let j = choose|j: int| 0 <= j < b.len() && b[j] == a[i];
    assert(supports(rule, b[j]));
}

proof fn lemma_first_applying_ignores_order(
    rules: Seq<RuleId>,
    a: Seq<Finding>,
    b: Seq<Finding>,
    facts: ProcessFacts,
)
    requires
        a.to_multiset() == b.to_multiset(),
    ensures
        first_applying(rules, a, facts) == first_applying(rules, b, facts),
    decreases rules.len(),
{
    if rules.len() > 0 {
        if applies(rules[0], a, facts) {
            lemma_applies_ignores_order(a, b, rules[0], facts);
        }
        if applies(rules[0], b, facts) {
            lemma_applies_ignores_order(b, a, rules[0], facts);
        }
        lemma_first_applying_ignores_order(rules.drop_first(), a, b, facts);
    }
}

proof fn lemma_best_score_not_above(
    a: Seq<Finding>,
    b: Seq<Finding>,
    rule: RuleId,
    x: Reading,
    y: Reading,
)
    requires
        a.to_multiset() == b.to_multiset(),
        is_best_score(a, rule, x),
        is_best_score(b, rule, y),
    ensures
        x.rank() <= y.rank(),
{
    broadcast use vstd::seq_lib::group_to_multiset_ensures;

    if x.bits != NEGATIVE_INFINITY_BITS {
        let i = choose|i: int|
            0 <= i < a.len() && supports(rule, #[trigger] a[i]) && a[i].confidence.score == x;
        assert(a.contains(a[i]));
        assert(a.to_multiset().count(a[i]) > 0);
        assert(b.contains(a[i]));
        let j = choose|j: int| 0 <= j < b.len() && b[j] == a[i];
        assert(supports(rule, b[j]));
    }
}

/// Two evaluations of the same findings, however ordered, give the same decision: the same rule,
/// action and reason, and the same list of findings in the same order.
pub proof fn decisions_ignore_the_order_of_findings(
    process: Seq<char>,
    a: Seq<Finding>,
    b: Seq<Finding>,
    facts: ProcessFacts,
    config: RuleConfig,
    at_unix: u64,
    first: Decision,
    second: Decision,
)
    requires
        a.to_multiset() == b.to_multiset(),
        decides(process, a, facts, config, at_unix, first),
        decides(process, b, facts, config, at_unix, second),
    ensures
        first.process@ == second.process@,
        first.at_unix == second.at_unix,
        first.rule == second.rule,
        first.action == second.action,
        same_withheld(first.withheld, second.withheld),
        key_views(first.findings@) == key_views(second.findings@),
{
    lemma_first_applying_ignores_order(declared(), a, b, facts);
    match first.rule {
        None => {
            assert(key_views(first.findings@) =~= key_views(second.findings@));
        },
        Some(rule) => {
            let x = supporting_keys(a, rule).to_multiset();
            let y = supporting_keys(b, rule).to_multiset();
            assert forall|key: KeyView| x.count(key) == y.count(key) by {
                lemma_support_counts(a, rule, key);
                lemma_support_counts(b, rule, key);
            }
            assert(x =~= y);
            lemma_key_order_is_total();
            vstd::seq_lib::lemma_sorted_unique(
                key_views(first.findings@),
                key_views(second.findings@),
                key_order(),
            );
            if rule.proposal() is Some {
                let p = choose|best: Reading|
                    #![trigger is_best_score(a, rule, best)]
                    is_best_score(a, rule, best) && (first.action, first.withheld) == gated(
                        rule.proposal()->0,
                        best,
                        config,
                    );
                let q = choose|best: Reading|
                    #![trigger is_best_score(b, rule, best)]
                    is_best_score(b, rule, best) && (second.action, second.withheld) == gated(
                        rule.proposal()->0,
                        best,
                        config,
                    );
                lemma_best_score_not_above(a, b, rule, p, q);
                lemma_best_score_not_above(b, a, rule, q, p);
            }
        },
    }
}

/// The first refusals whose facts hold stand before every acting rule: a process that is stopped,
/// at its crash-restart limit, or correlated with a failing dependency is never acted upon.
pub proof fn refusals_prevent_action(
    process: Seq<char>,
    findings: Seq<Finding>,
    facts: ProcessFacts,
    config: RuleConfig,
    at_unix: u64,
    decision: Decision,
)
    requires
        decides(process, findings, facts, config, at_unix, decision),
        facts.desired_stopped || facts.at_crash_loop_limit || facts.implicated_dependencies@.len()
            > 0,
    ensures
        decision.action is None,
{
    reveal_with_fuel(first_applying, 6);
    let rules = declared();
    let r1 = rules.drop_first();
    let r2 = r1.drop_first();
    let r3 = r2.drop_first();
    let r4 = r3.drop_first();
    let r5 = r4.drop_first();
    assert(rules[0] == RuleId::DependencyImplicated && r1[0] == RuleId::ProcessStopped && r2[0]
        == RuleId::CrashLoopLimitReached && r3[0] == RuleId::ResourceLeak && r4[0]
        == RuleId::LevelDeparture);
    if decision.action is Some {
        let rule = decision.rule->0;
        assert(applies(rule, findings, facts));
        let i = choose|i: int|
            0 <= i < findings.len() && supports(rule, #[trigger] findings[i]);
        assert(supports(RuleId::DependencyImplicated, findings[i]));
        assert(supports(RuleId::ProcessStopped, findings[i]));
        assert(supports(RuleId::CrashLoopLimitReached, findings[i]));
    }
}

/// Findings of undeclared detectors, and findings that have cleared, never lead to a decision.
pub proof fn unknown_and_cleared_findings_decide_nothing(
    process: Seq<char>,
    findings: Seq<Finding>,
    facts: ProcessFacts,
    config: RuleConfig,
    at_unix: u64,
    decision: Decision,
)
    requires
        decides(process, findings, facts, config, at_unix, decision),
        forall|i: int| 0 <= i < findings.len() ==> !live(#[trigger] findings[i]),
    ensures
        decision.rule is None,
        decision.action is None,
        decision.findings@.len() == 0,
{
    lemma_nothing_applies(declared(), findings, facts);
}

proof fn lemma_nothing_applies(rules: Seq<RuleId>, findings: Seq<Finding>, facts: ProcessFacts)
    requires
        forall|i: int| 0 <= i < findings.len() ==> !live(#[trigger] findings[i]),
    ensures
        first_applying(rules, findings, facts) is None,
    decreases rules.len(),
{
    if rules.len() > 0 {
        lemma_nothing_applies(rules.drop_first(), findings, facts);
    }
}

/// A decision that matched a rule names at least one finding as its evidence.
pub proof fn a_match_names_its_evidence(
    process: Seq<char>,
    findings: Seq<Finding>,
    facts: ProcessFacts,
    config: RuleConfig,
    at_unix: u64,
    decision: Decision,
)
    requires
        decides(process, findings, facts, config, at_unix, decision),
        decision.rule is Some,
    ensures
        decision.findings@.len() > 0,
{
    lemma_first_applies(declared(), findings, facts);
    lemma_support_is_listed(decision.findings@, findings, decision.rule->0);
}

proof fn lemma_first_applies(rules: Seq<RuleId>, findings: Seq<Finding>, facts: ProcessFacts)
    ensures
        first_applying(rules, findings, facts) matches Some(rule) ==> applies(
            rule,
            findings,
            facts,
        ),
    decreases rules.len(),
{
    if rules.len() > 0 {
        lemma_first_applies(rules.drop_first(), findings, facts);
    }
}

/// Bounded record of recent decisions, oldest evicted first.
#[derive(Debug)]
pub struct DecisionLog {
    capacity: usize,
    entries: VecDeque<Decision>,
}

/// Decisions about one process, as a predicate.
pub open spec fn about(process: Seq<char>) -> spec_fn(Decision) -> bool {
    |decision: Decision| decision.process@ == process
}

/// Decisions about any other process, as a predicate.
pub open spec fn not_about(process: Seq<char>) -> spec_fn(Decision) -> bool {
    |decision: Decision| decision.process@ != process
}

/// Whether every reference is to the decision at the same place of a sequence.
pub open spec fn refer_to_decisions(found: Seq<&Decision>, listed: Seq<Decision>) -> bool {
    &&& found.len() == listed.len()
    &&& forall|i: int| 0 <= i < found.len() ==> *(#[trigger] found[i]) == listed[i]
}

impl Default for DecisionLog {
    fn default() -> (log: Self)
        ensures
            log.wf(),
            log.limit() == DEFAULT_DECISION_CAPACITY,
            log.retained() == Seq::<Decision>::empty(),
    {
        DecisionLog::new(DEFAULT_DECISION_CAPACITY)
    }
}

impl DecisionLog {
    /// The retained decisions, oldest first.
    pub closed spec fn retained(&self) -> Seq<Decision> {
        self.entries@
    }

    /// How many decisions are retained at most.
    pub closed spec fn limit(&self) -> usize {
        self.capacity
    }

    /// The log never holds more than its capacity, which is at least one.
    pub open spec fn wf(&self) -> bool {
        self.limit() >= 1 && self.retained().len() <= self.limit()
    }

    /// An empty log. A capacity of zero is treated as one.
    pub fn new(capacity: usize) -> (log: Self)
        ensures
            log.wf(),
            log.limit() == (if capacity == 0 {
                1
            } else {
                capacity
            }),
            log.retained() == Seq::<Decision>::empty(),
    {
        DecisionLog {
            capacity: if capacity == 0 {
                1
            } else {
                capacity
            },
            entries: VecDeque::new(),
        }
    }

    /// Records a decision, evicting the oldest if full.
    pub fn record(&mut self, decision: Decision)
        requires
            old(self).wf(),
        ensures
            final(self).wf(),
            final(self).retained().last() == decision,
            old(self).retained().len() < old(self).limit() ==> final(self).retained()
                == old(self).retained().push(decision),
            final(self).limit() == old(self).limit(),
            final(self).retained() == newest(old(self).retained(), old(self).limit() - 1).push(
                decision,
            ),
    {
        while self.entries.len() >= self.capacity
            invariant
                self.capacity >= 1,
                self.capacity == old(self).capacity,
                old(self).wf(),
                self.entries@ == old(self).entries@ || self.entries@ == newest(
                    old(self).entries@,
                    old(self).capacity - 1,
                ),
                self.entries@.len() <= old(self).entries@.len(),
            decreases self.entries@.len(),
        {
            let _ = self.entries.pop_front();
        }
        self.entries.push_back(decision);
    }

    /// Every retained decision, oldest first.
    pub fn all(&self) -> (found: Vec<&Decision>)
        ensures
            refer_to_decisions(found@, self.retained()),
    {
        let mut found: Vec<&Decision> = Vec::new();
        let mut i: usize = 0;
        while i < self.entries.len()
            invariant
                i <= self.entries@.len(),
                refer_to_decisions(found@, self.entries@.take(i as int)),
            decreases self.entries@.len() - i,
        {
            assert(self.entries@.take(i + 1) =~= self.entries@.take(i as int).push(
                self.entries@[i as int],
            ));
            found.push(&self.entries[i]);
            i = i + 1;
        }
        assert(self.entries@.take(i as int) =~= self.entries@);
        found
    }

    /// Drops the decisions of a process, and says how many there were.
    pub fn forget(&mut self, process: &str) -> (dropped: usize)
        requires
            old(self).wf(),
        ensures
            final(self).wf(),
            final(self).limit() == old(self).limit(),
            final(self).retained() == old(self).retained().filter(not_about(process@)),
            dropped == old(self).retained().len() - final(self).retained().len(),
    {
        let count: usize = self.entries.len();
        let ghost before = self.entries@;
        let ghost keep = not_about(process@);
        let mut kept: VecDeque<Decision> = VecDeque::new();
        let mut i: usize = 0;
        proof {
            lemma_filter_ends(before, keep);
        }
        while i < count
            invariant
                i <= count,
                before == old(self).entries@,
                count == before.len(),
                keep == not_about(process@),
                self.capacity == old(self).capacity,
                self.entries@ == before.subrange(i as int, count as int),
                kept@ == before.take(i as int).filter(keep),
                kept@.len() <= i,
            decreases count - i,
        {
            proof {
                lemma_filter_step(before, i as int, keep);
            }
            let next = self.entries.pop_front();
            if let Some(decision) = next {
                if !same_text(decision.process.as_str(), process) {
                    kept.push_back(decision);
                }
            }
            i = i + 1;
        }
        self.entries = kept;
        count - self.entries.len()
    }

    /// How many decisions are retained at most.
    pub fn capacity(&self) -> (capacity: usize)
        ensures
            capacity == self.limit(),
    {
        self.capacity
    }

    /// How many decisions are retained.
    pub fn len(&self) -> (count: usize)
        ensures
            count == self.retained().len(),
    {
        self.entries.len()
    }

    /// Whether no decision is retained.
    pub fn is_empty(&self) -> (empty: bool)
        ensures
            empty == (self.retained().len() == 0),
    {
        self.entries.len() == 0
    }

    /// Retained decisions for one process, oldest first.
    pub fn for_process(&self, process: &str) -> (found: Vec<&Decision>)
        ensures
            refer_to_decisions(found@, self.retained().filter(about(process@))),
    {
        let mut found: Vec<&Decision> = Vec::new();
        let mut i: usize = 0;
        proof {
            lemma_filter_ends(self.entries@, about(process@));
        }
        while i < self.entries.len()
            invariant
                i <= self.entries@.len(),
                refer_to_decisions(found@, self.entries@.take(i as int).filter(about(process@))),
            decreases self.entries@.len() - i,
        {
            proof {
                lemma_filter_step(self.entries@, i as int, about(process@));
            }
            let decision = &self.entries[i];
            if same_text(decision.process.as_str(), process) {
                found.push(decision);
            }
            i = i + 1;
        }
        found
    }
}

/// Whether some finding that holds comes from a detector that is known.
pub open spec fn has_evidence(findings: Seq<Finding>) -> bool {
    exists|i: int|
        0 <= i < findings.len() && (#[trigger] findings[i]).status is Active
            && !(findings[i].key.detector is Other)
}

/// Whether a leak holds.
pub open spec fn has_leak(findings: Seq<Finding>) -> bool {
    exists|i: int|
        0 <= i < findings.len() && (#[trigger] findings[i]).status is Active
            && findings[i].key.detector is ResourceLeak
}

/// Whether a departure from the usual level holds.
pub open spec fn has_departure(findings: Seq<Finding>) -> bool {
    exists|i: int|
        0 <= i < findings.len() && (#[trigger] findings[i]).status is Active
            && findings[i].key.detector is LevelDeparture
}

proof fn lemma_kinds_of_support(findings: Seq<Finding>, facts: ProcessFacts)
    ensures
        applies(RuleId::DependencyImplicated, findings, facts) <==> has_evidence(findings)
            && facts.implicated_dependencies@.len() > 0,
        applies(RuleId::ProcessStopped, findings, facts) <==> has_evidence(findings)
            && facts.desired_stopped,
        applies(RuleId::CrashLoopLimitReached, findings, facts) <==> has_evidence(findings)
            && facts.at_crash_loop_limit,
        applies(RuleId::ResourceLeak, findings, facts) <==> has_leak(findings),
        applies(RuleId::LevelDeparture, findings, facts) <==> has_departure(findings),
        has_leak(findings) || has_departure(findings) ==> has_evidence(findings),
        first_applying(declared(), findings, facts) == (if applies(
            RuleId::DependencyImplicated,
            findings,
            facts,
        ) {
            Some(RuleId::DependencyImplicated)
        } else if applies(RuleId::ProcessStopped, findings, facts) {
            Some(RuleId::ProcessStopped)
        } else if applies(RuleId::CrashLoopLimitReached, findings, facts) {
            Some(RuleId::CrashLoopLimitReached)
        } else if applies(RuleId::ResourceLeak, findings, facts) {
            Some(RuleId::ResourceLeak)
        } else if applies(RuleId::LevelDeparture, findings, facts) {
            Some(RuleId::LevelDeparture)
        } else {
            None
        }),
{
    reveal_with_fuel(first_applying, 6);
    let rules = declared();
    let r1 = rules.drop_first();
    let r2 = r1.drop_first();
    let r3 = r2.drop_first();
    let r4 = r3.drop_first();
    let r5 = r4.drop_first();
    assert(rules[0] == RuleId::DependencyImplicated && r1[0] == RuleId::ProcessStopped && r2[0]
        == RuleId::CrashLoopLimitReached && r3[0] == RuleId::ResourceLeak && r4[0]
        == RuleId::LevelDeparture);
    if has_evidence(findings) {
        let i = choose|i: int|
            0 <= i < findings.len() && (#[trigger] findings[i]).status is Active
                && !(findings[i].key.detector is Other);
        assert(supports(RuleId::DependencyImplicated, findings[i]));
        assert(supports(RuleId::ProcessStopped, findings[i]));
        assert(supports(RuleId::CrashLoopLimitReached, findings[i]));
    }
    if has_leak(findings) {
        let i = choose|i: int|
            0 <= i < findings.len() && (#[trigger] findings[i]).status is Active
                && findings[i].key.detector is ResourceLeak;
        assert(supports(RuleId::ResourceLeak, findings[i]));
    }
    if has_departure(findings) {
        let i = choose|i: int|
            0 <= i < findings.len() && (#[trigger] findings[i]).status is Active
                && findings[i].key.detector is LevelDeparture;
        assert(supports(RuleId::LevelDeparture, findings[i]));
    }
}

/// Which rule decides: without evidence none does; an implicated dependency comes before operator
/// intent, that before the crash-restart limit, and each of these before a leak, which comes
/// before a departure.
pub proof fn the_first_rule_in_order_decides(
    process: Seq<char>,
    findings: Seq<Finding>,
    facts: ProcessFacts,
    config: RuleConfig,
    at_unix: u64,
    decision: Decision,
)
    requires
        decides(process, findings, facts, config, at_unix, decision),
    ensures
        decision.process@ == process,
        decision.at_unix == at_unix,
        decision.rule == Some(RuleId::DependencyImplicated) <==> has_evidence(findings)
            && facts.implicated_dependencies@.len() > 0,
        decision.rule == Some(RuleId::ProcessStopped) <==> has_evidence(findings)
            && facts.implicated_dependencies@.len() == 0 && facts.desired_stopped,
        decision.rule == Some(RuleId::CrashLoopLimitReached) <==> has_evidence(findings)
            && facts.implicated_dependencies@.len() == 0 && !facts.desired_stopped
            && facts.at_crash_loop_limit,
        decision.rule == Some(RuleId::ResourceLeak) <==> has_leak(findings)
            && facts.implicated_dependencies@.len() == 0 && !facts.desired_stopped
            && !facts.at_crash_loop_limit,
        decision.rule == Some(RuleId::LevelDeparture) <==> has_departure(findings) && !has_leak(
            findings,
        ) && facts.implicated_dependencies@.len() == 0 && !facts.desired_stopped
            && !facts.at_crash_loop_limit,
{
    lemma_kinds_of_support(findings, facts);
}

/// A refusal says why: it names the implicated dependencies in their order, the operator's intent,
/// or the crash-restart limit. A decision that no rule made withholds nothing.
pub proof fn a_refusal_says_why(
    process: Seq<char>,
    findings: Seq<Finding>,
    facts: ProcessFacts,
    config: RuleConfig,
    at_unix: u64,
    decision: Decision,
)
    requires
        decides(process, findings, facts, config, at_unix, decision),
    ensures
        decision.rule == Some(RuleId::DependencyImplicated) ==> (decision.withheld matches Some(
            Withheld::DependencyImplicated { dependencies },
        ) && dependencies@ == facts.implicated_dependencies@),
        decision.rule == Some(RuleId::ProcessStopped) ==> decision.withheld == Some(
            Withheld::ProcessStopped,
        ),
        decision.rule == Some(RuleId::CrashLoopLimitReached) ==> decision.withheld == Some(
            Withheld::CrashLoopLimitReached,
        ),
        decision.withheld is Some && (decision.rule == Some(RuleId::ResourceLeak)
            || decision.rule == Some(RuleId::LevelDeparture)) ==> decision.withheld->0
            is BelowMinConfidence,
        decision.rule is None ==> decision.withheld is None && decision.action is None,
        decision.rule is Some ==> (decision.action is Some <==> decision.withheld is None),
{
}

/// A restart is proposed for a leak and for nothing else, and a departure is told to the operator
/// and never acted upon.
pub proof fn only_a_leak_is_restarted(
    process: Seq<char>,
    findings: Seq<Finding>,
    facts: ProcessFacts,
    config: RuleConfig,
    at_unix: u64,
    decision: Decision,
)
    requires
        decides(process, findings, facts, config, at_unix, decision),
    ensures
        decision.action == Some(Action::Restart) ==> decision.rule == Some(RuleId::ResourceLeak)
            && has_leak(findings),
        decision.action == Some(Action::Notify) ==> decision.rule == Some(RuleId::LevelDeparture)
            && has_departure(findings) && !has_leak(findings),
        decision.rule == Some(RuleId::LevelDeparture) && decision.action is Some
            ==> decision.action == Some(Action::Notify),
        decision.rule == Some(RuleId::ResourceLeak) && decision.action is Some ==> decision.action
            == Some(Action::Restart),
{
    lemma_kinds_of_support(findings, facts);
}

/// A leak or a departure whose best supporting score reaches the minimum confidence is acted on:
/// one supporting finding with such a score is enough.
pub proof fn a_confident_finding_is_acted_on(
    process: Seq<char>,
    findings: Seq<Finding>,
    facts: ProcessFacts,
    config: RuleConfig,
    at_unix: u64,
    decision: Decision,
    at: int,
)
    requires
        decides(process, findings, facts, config, at_unix, decision),
        0 <= at < findings.len(),
        findings[at].status is Active,
        config.min_confidence.at_most(findings[at].confidence.score),
    ensures
        decision.rule == Some(RuleId::LevelDeparture) && findings[at].key.detector
            is LevelDeparture ==> decision.action == Some(Action::Notify) && decision.withheld
            is None,
        decision.rule == Some(RuleId::ResourceLeak) && findings[at].key.detector is ResourceLeak
            ==> decision.action == Some(Action::Restart) && decision.withheld is None,
{
    if decision.rule is Some {
        let rule = decision.rule->0;
        if rule.proposal() is Some && supports(rule, findings[at]) {
            let best = choose|best: Reading|
                #![trigger is_best_score(findings, rule, best)]
                is_best_score(findings, rule, best) && (decision.action, decision.withheld)
                    == gated(rule.proposal()->0, best, config);
            crate::reading::numeric_order_is_refined_by_rank(best, findings[at].confidence.score);
            assert(findings[at].confidence.score.rank() <= best.rank());
            assert(!best.below(config.min_confidence));
        }
        assert(rule == RuleId::LevelDeparture && findings[at].key.detector is LevelDeparture
            ==> supports(rule, findings[at]));
        assert(rule == RuleId::ResourceLeak && findings[at].key.detector is ResourceLeak
            ==> supports(rule, findings[at]));
    }
}

/// Whether a finding is what an acting rule goes by.
pub open spec fn backs(finding: Finding, rule: RuleId) -> bool {
    &&& finding.status is Active
    &&& finding.key.detector is ResourceLeak ==> rule == RuleId::ResourceLeak
    &&& finding.key.detector is LevelDeparture ==> rule == RuleId::LevelDeparture
    &&& finding.key.detector is ResourceLeak || finding.key.detector is LevelDeparture
}

/// A leak or a departure none of whose findings reaches the minimum confidence is withheld, with
/// that minimum and with the score of a supporting finding that no other exceeds. A score that is
/// not a number reaches nothing.
pub proof fn doubtful_findings_are_withheld(
    process: Seq<char>,
    findings: Seq<Finding>,
    facts: ProcessFacts,
    config: RuleConfig,
    at_unix: u64,
    decision: Decision,
    rule: RuleId,
)
    requires
        decides(process, findings, facts, config, at_unix, decision),
        decision.rule == Some(rule),
        rule == RuleId::ResourceLeak || rule == RuleId::LevelDeparture,
        config.min_confidence.finite(),
        forall|i: int|
            0 <= i < findings.len() && backs(#[trigger] findings[i], rule)
                ==> findings[i].confidence.score.below(config.min_confidence)
                || findings[i].confidence.score.nan(),
    ensures
        decision.action is None,
        withheld_for_doubt(decision, findings, config, rule),
{
    lemma_kinds_of_support(findings, facts);
    let best = choose|best: Reading|
        #![trigger is_best_score(findings, rule, best)]
        is_best_score(findings, rule, best) && (decision.action, decision.withheld) == gated(
            rule.proposal()->0,
            best,
            config,
        );
    assert forall|i: int| 0 <= i < findings.len() implies supports(rule, #[trigger] findings[i])
        == backs(findings[i], rule) by {}
    assert(best.below(config.min_confidence));
    assert(decision.withheld is Some);
}

/// Whether a decision withholds for the sake of confidence: the score it gives belongs to a
/// finding of the rule, and none of these has a larger finite one; zero stands for no score.
pub open spec fn withheld_for_doubt(
    decision: Decision,
    findings: Seq<Finding>,
    config: RuleConfig,
    rule: RuleId,
) -> bool {
    decision.withheld matches Some(Withheld::BelowMinConfidence { observed, required }) && {
        &&& required == config.min_confidence
        &&& observed.bits == 0 || exists|i: int|
            0 <= i < findings.len() && backs(#[trigger] findings[i], rule)
                && findings[i].confidence.score == observed
        &&& forall|i: int|
            0 <= i < findings.len() && backs(#[trigger] findings[i], rule)
                && findings[i].confidence.score.finite() ==> !observed.below(
                findings[i].confidence.score,
            )
    }
}

/// The findings a decision lists are those its rule goes by, each with its key: under a rule that
/// acts the findings of its own detector, under a refusal every finding of a known one. They are
/// listed in key order.
pub proof fn a_decision_lists_what_it_went_by(
    process: Seq<char>,
    findings: Seq<Finding>,
    facts: ProcessFacts,
    config: RuleConfig,
    at_unix: u64,
    decision: Decision,
    rule: RuleId,
    at: int,
    place: int,
)
    requires
        decides(process, findings, facts, config, at_unix, decision),
        decision.rule == Some(rule),
        0 <= at < findings.len(),
        0 <= place < decision.findings@.len(),
    ensures
        findings[at].status is Active && !(findings[at].key.detector is Other) && (rule
            == RuleId::ResourceLeak ==> findings[at].key.detector is ResourceLeak) && (rule
            == RuleId::LevelDeparture ==> findings[at].key.detector is LevelDeparture)
            ==> key_views(decision.findings@).contains(findings[at].key@),
        exists|i: int|
            0 <= i < findings.len() && (#[trigger] findings[i]).key@
                == decision.findings@[place]@ && findings[i].status is Active && !(
            findings[i].key.detector is Other) && (rule == RuleId::ResourceLeak
                ==> findings[i].key.detector is ResourceLeak) && (rule == RuleId::LevelDeparture
                ==> findings[i].key.detector is LevelDeparture),
        place > 0 ==> decision.findings@[place - 1]@ == decision.findings@[place]@ || key_before(
            decision.findings@[place - 1]@,
            decision.findings@[place]@,
        ),
{
    broadcast use vstd::seq_lib::group_to_multiset_ensures;
    broadcast use vstd::seq_lib::group_filter_ensures;

    let keys = key_views(decision.findings@);
    let kept = findings.filter(supporting(rule));
    let wanted = supporting_keys(findings, rule);
    assert(keys[place] == decision.findings@[place]@);
    assert(keys.contains(keys[place]));
    assert(keys.to_multiset().count(keys[place]) > 0);
    assert(wanted.to_multiset().count(keys[place]) > 0);
    assert(wanted.contains(keys[place]));
    let j = choose|j: int| 0 <= j < wanted.len() && wanted[j] == keys[place];
    lemma_filter_element(findings, supporting(rule), j);
    let i = choose|i: int| 0 <= i < findings.len() && findings[i] == kept[j];
    assert(findings[i].key@ == decision.findings@[place]@);
    if supports(rule, findings[at]) {
        assert(supporting(rule)(findings[at]));
        assert(findings.contains(findings[at]));
        assert(kept.contains(findings[at]));
        let m = choose|m: int| 0 <= m < kept.len() && kept[m] == findings[at];
        assert(wanted[m] == findings[at].key@);
        assert(wanted.contains(findings[at].key@));
        assert(wanted.to_multiset().count(findings[at].key@) > 0);
        assert(keys.to_multiset().count(findings[at].key@) > 0);
    }
    if place > 0 {
        assert(key_order()(keys[place - 1], keys[place]));
    }
}

/// Names tell rules apart, and actions.
pub proof fn names_tell_rules_apart(a: RuleId, b: RuleId, x: Action, y: Action)
    ensures
        a.wire() == b.wire() <==> a == b,
        x.wire() == y.wire() <==> x == y,
        RuleId::ResourceLeak.wire() == "resource_leak"@,
        RuleId::LevelDeparture.wire() == "level_departure"@,
        Action::Restart.wire() == "restart"@,
        Action::Notify.wire() == "notify"@,
{
    reveal_strlit("dependency_implicated");
    reveal_strlit("process_stopped");
    reveal_strlit("crash_loop_limit_reached");
    reveal_strlit("resource_leak");
    reveal_strlit("level_departure");
    reveal_strlit("restart");
    reveal_strlit("notify");
    assert("process_stopped"@[0] == 'p');
    assert("level_departure"@[0] == 'l');
    assert("dependency_implicated"@[0] == 'd');
    assert("crash_loop_limit_reached"@[0] == 'c');
    assert("resource_leak"@[0] == 'r');
    assert("restart"@[0] == 'r');
    assert("notify"@[0] == 'n');
}

/// Recording adds the decision behind the others; only the oldest make room for it, and only when
/// the log is full.
pub proof fn recording_evicts_only_the_oldest(
    before: &DecisionLog,
    after: &DecisionLog,
    decision: Decision,
)
    requires
        before.wf(),
        after.retained() == newest(before.retained(), before.limit() - 1).push(decision),
    ensures
        after.retained().len() >= 1,
        after.retained().last() == decision,
        before.retained().len() < before.limit() ==> after.retained() == before.retained().push(
            decision,
        ),
        before.retained().len() == before.limit() ==> after.retained()
            == before.retained().drop_first().push(decision),
{
    if before.retained().len() == before.limit() {
        assert(newest(before.retained(), before.limit() - 1)
            =~= before.retained().drop_first());
    }
}

/// Forgetting a process drops every decision about it and none about another.
pub proof fn forgetting_decisions_is_scoped(
    before: &DecisionLog,
    after: &DecisionLog,
    process: Seq<char>,
    other: Seq<char>,
)
    requires
        after.retained() == before.retained().filter(not_about(process)),
        other != process,
    ensures
        forall|i: int|
            0 <= i < after.retained().len() ==> (#[trigger] after.retained()[i]).process@
                != process,
        forall|i: int|
            0 <= i < before.retained().len() && (#[trigger] before.retained()[i]).process@
                != process ==> after.retained().contains(before.retained()[i]),
        after.retained().filter(about(other)) == before.retained().filter(about(other)),
        after.retained().filter(about(process)) == Seq::<Decision>::empty(),
{
    broadcast use vstd::seq_lib::group_filter_ensures;

    let all = before.retained();
    let kept = after.retained();
    assert forall|i: int| 0 <= i < kept.len() implies (#[trigger] kept[i]).process@ != process by {
        lemma_filter_element(all, not_about(process), i);
    }
    assert forall|i: int|
        0 <= i < all.len() && (#[trigger] all[i]).process@ != process implies kept.contains(
        all[i],
    ) by {
        assert(not_about(process)(all[i]));
        assert(all.contains(all[i]));
    }
    crate::sequences::lemma_filter_twice(all, not_about(process), about(other));
    crate::sequences::lemma_filter_none(kept, about(process));
}

/// A configured minimum confidence from zero to one is applied as it is; any other is refused and
/// the default of six tenths applied, never a bound of the range.
pub proof fn a_minimum_outside_the_range_is_not_clamped(
    value: Reading,
    applied: (RuleConfig, bool),
)
    requires
        call_ensures(RuleConfig::with_min_confidence, (value,), applied),
    ensures
        value.bits <= 0x3ff0_0000_0000_0000 ==> applied.1 && applied.0.min_confidence == value,
        0x3ff0_0000_0000_0000 < value.bits < 0x8000_0000_0000_0000 ==> !applied.1,
        value.bits > 0x8000_0000_0000_0000 ==> !applied.1,
        !applied.1 ==> applied.0.min_confidence.bits == 0x3fe3_3333_3333_3333,
{
}

/// A decision that no rule made proposes nothing, withholds nothing and rests on nothing.
pub proof fn no_match_proposes_nothing(
    process: String,
    at_unix: u64,
    decision: Decision,
    proposes: bool,
)
    requires
        call_ensures(Decision::no_match, (process, at_unix), decision),
        call_ensures(Decision::proposes_action, (&decision,), proposes),
    ensures
        !proposes,
        decision.process == process && decision.at_unix == at_unix,
        decision.rule is None && decision.action is None && decision.withheld is None,
        decision.findings@.len() == 0,
{
}

/// The decisions about a process are those retained about it, oldest first.
pub proof fn decisions_are_listed_oldest_first(
    log: &DecisionLog,
    process: &str,
    all: Vec<&Decision>,
    found: Vec<&Decision>,
    i: int,
)
    requires
        call_ensures(DecisionLog::all, (log,), all),
        call_ensures(DecisionLog::for_process, (log, process), found),
    ensures
        all@.len() == log.retained().len(),
        0 <= i < all@.len() ==> *all@[i] == log.retained()[i],
        0 <= i < found@.len() ==> found@[i].process@ == process@ && log.retained().contains(
            *found@[i],
        ),
        0 <= i < log.retained().len() && log.retained()[i].process@ == process@ ==> exists|j: int|
            0 <= j < found@.len() && *(#[trigger] found@[j]) == log.retained()[i],
{
    broadcast use vstd::seq_lib::group_filter_ensures;

    let kept = log.retained().filter(about(process@));
    if 0 <= i < found@.len() {
        lemma_filter_element(log.retained(), about(process@), i);
        assert(*found@[i] == kept[i]);
    }
    if 0 <= i < log.retained().len() && log.retained()[i].process@ == process@ {
        assert(about(process@)(log.retained()[i]));
        assert(log.retained().contains(log.retained()[i]));
        assert(kept.contains(log.retained()[i]));
        let j = choose|j: int| 0 <= j < kept.len() && kept[j] == log.retained()[i];
        assert(*found@[j] == kept[j]);
    }
}

/// Each rule gives its own reason for being there: a refusal what it defers to, a proposal why it
/// is made.
pub proof fn each_rule_gives_its_own_reason(rule: RuleId)
    ensures
        rule is DependencyImplicated ==> rule.rationale_text()
            == "a declared dependency is implicated; acting on the symptom would not address the cause"@,
        rule is ProcessStopped ==> rule.rationale_text()
            == "the process is stopped by operator intent"@,
        rule is CrashLoopLimitReached ==> rule.rationale_text()
            == "the process is at its crash-restart limit, where existing supervision is authoritative"@,
        rule is ResourceLeak ==> rule.rationale_text()
            == "sustained resource growth will not resolve without intervention"@,
        rule is LevelDeparture ==> rule.rationale_text()
            == "the metric is far from its baseline, which an operator should see"@,
{
}

/// A reason for withholding names what it rests on: the dependencies in their order, or the score
/// that was observed before the one that is required.
pub proof fn a_reason_names_what_it_rests_on(
    dependencies: Vec<String>,
    score: Reading,
    least: Reading,
    observed: Seq<char>,
    required: Seq<char>,
)
    ensures
        (Withheld::BelowMinConfidence { observed: score, required: least }).reason_text(
            observed,
            required,
        ) == "withheld: confidence "@ + observed + " is below the required "@ + required,
        dependencies@.len() == 1 ==> (Withheld::DependencyImplicated { dependencies }).reason_text(
            observed,
            required,
        ) == "withheld: dependency implicated ("@ + dependencies@[0]@ + ")"@,
        dependencies@.len() == 2 ==> (Withheld::DependencyImplicated { dependencies }).reason_text(
            observed,
            required,
        ) == "withheld: dependency implicated ("@ + (dependencies@[0]@ + ", "@
            + dependencies@[1]@) + ")"@,
        Withheld::ProcessStopped.reason_text(observed, required)
            == "withheld: process is stopped by operator intent"@,
        Withheld::CrashLoopLimitReached.reason_text(observed, required)
            == "withheld: process is at its crash-restart limit"@,
{
    let names = texts(dependencies@);
    if dependencies@.len() == 2 {
        assert(names.drop_last() =~= seq![dependencies@[0]@]);
        assert(joined(names.drop_last(), ", "@) == dependencies@[0]@);
        assert(names.last() == dependencies@[1]@);
    }
}

/// A summary says what was decided: that nothing matched, what would be done, or why it is withheld.
pub proof fn a_summary_says_what_was_decided(
    decision: Decision,
    observed: Seq<char>,
    required: Seq<char>,
)
    ensures
        decision.rule is None ==> decision.summary_text(observed, required) == decision.process@
            + ": no rule matched"@,
        decision.rule is Some && decision.action is Some ==> decision.summary_text(
            observed,
            required,
        ) == decision.process@ + ": "@ + (decision.rule->0).wire() + " would "@ + (
        decision.action->0).wire(),
        decision.rule is Some && decision.action is None && decision.withheld is Some
            ==> decision.summary_text(observed, required) == decision.process@ + ": "@ + (
        decision.rule->0).wire() + " — "@ + (decision.withheld->0).reason_text(observed, required),
        decision.rule is Some && decision.action is None && decision.withheld is None
            ==> decision.summary_text(observed, required) == decision.process@ + ": "@ + (
        decision.rule->0).wire() + " proposed no action"@,
{
}

} // verus!
