//! Process actions requested over HTTP: what the manager is asked for, and what is answered.
//!
//! A command is carried out in steps. Each step is either a call for the manager to make, whose
//! outcome leads to the next step, or the reply. A pull in particular reaches the manager only
//! after the webhook secret has been verified.

use crate::http::reply::{Message, Reply, ReplyView};
use crate::text::{decimal, push_decimal, same_text};
use vstd::prelude::*;

verus! {

/// A command received over HTTP.
#[derive(Debug, PartialEq, Eq)]
pub enum HttpCommand {
    Stop { target: String },
    Restart { target: String },
    Reload { target: String },
    Dismiss { target: String, rule: String },
    Restore { target: String, rule: String },
    Pull { target: String, secret: Option<String> },
}

/// A call for the manager to make, with what it is made with.
#[derive(Debug, PartialEq, Eq)]
pub enum ApiCall {
    StopAll,
    Stop { target: String },
    RestartAll,
    Restart { target: String },
    Reload { target: String },
    Dismiss { target: String, rule: String },
    Restore { target: String, rule: String },
    /// Look the target up.
    Find { target: String },
    /// Compare the given secret with the configured one.
    VerifySecret { target: String, secret: String },
    Pull { target: String },
}

/// What a call came to.
#[derive(Debug, PartialEq, Eq)]
pub enum ApiOutcome {
    /// Carried out on this many processes.
    Done { count: usize },
    /// Changed something, or found it already so.
    Changed { changed: bool },
    /// Carried out, with a report.
    Report { message: String },
    /// Refused for a reason of the domain, such as an unknown process.
    Refused { message: String },
    /// Failed for any other reason.
    Failed { message: String },
}

/// The next step of a command.
#[derive(Debug, PartialEq, Eq)]
pub enum ApiStep {
    Call(ApiCall),
    Reply(Message),
}

impl ApiStep {
    /// Whether the step is the given reply.
    pub open spec fn replies(self, status: u16, ok: bool, message: Seq<char>) -> bool {
        self matches ApiStep::Reply(reply) && reply.says(status, ok, message)
    }
}

/// Whether a step is the first one of a command. A call is made with what the command carries.
pub open spec fn begins(command: HttpCommand, step: ApiStep) -> bool {
    match command {
        HttpCommand::Stop { target } => step == ApiStep::Call(
            if target@ == "all"@ {
                ApiCall::StopAll
            } else {
                ApiCall::Stop { target }
            },
        ),
        HttpCommand::Restart { target } => step == ApiStep::Call(
            if target@ == "all"@ {
                ApiCall::RestartAll
            } else {
                ApiCall::Restart { target }
            },
        ),
        HttpCommand::Reload { target } => if target@ == "all"@ {
            step.replies(400, false, "reload all is not supported"@)
        } else {
            step == ApiStep::Call(ApiCall::Reload { target })
        },
        HttpCommand::Dismiss { target, rule } => advisory_begins(
            target@,
            rule@,
            ApiCall::Dismiss { target, rule },
            step,
        ),
        HttpCommand::Restore { target, rule } => advisory_begins(
            target@,
            rule@,
            ApiCall::Restore { target, rule },
            step,
        ),
        HttpCommand::Pull { target, secret } => step == ApiStep::Call(ApiCall::Find { target }),
    }
}

/// The first step of an advisory command: it needs a rule and a process of its own.
pub open spec fn advisory_begins(
    target: Seq<char>,
    rule: Seq<char>,
    call: ApiCall,
    step: ApiStep,
) -> bool {
    if rule.len() == 0 {
        step.replies(400, false, "advisory rule id is required"@)
    } else if target == "all"@ {
        step.replies(400, false, "dismissal is per process: name the process explicitly"@)
    } else {
        step == ApiStep::Call(call)
    }
}

fn refuse(status: u16, message: &str) -> (step: ApiStep)
    ensures
        step.replies(status, false, message@),
{
    ApiStep::Reply(Message::refusal(status, message))
}

fn begin_advisory(target: &str, rule: &str, call: ApiCall) -> (step: ApiStep)
    ensures
        advisory_begins(target@, rule@, call, step),
{
    if rule.is_empty() {
        refuse(400, "advisory rule id is required")
    } else if same_text(target, "all") {
        refuse(400, "dismissal is per process: name the process explicitly")
    } else {
        ApiStep::Call(call)
    }
}

/// The first step of a command.
pub fn begin_api_request(command: &HttpCommand) -> (step: ApiStep)
    ensures
        begins(*command, step),
{
    match command {
        HttpCommand::Stop { target } => if same_text(target.as_str(), "all") {
            ApiStep::Call(ApiCall::StopAll)
        } else {
            ApiStep::Call(ApiCall::Stop { target: target.clone() })
        },
        HttpCommand::Restart { target } => if same_text(target.as_str(), "all") {
            ApiStep::Call(ApiCall::RestartAll)
        } else {
            ApiStep::Call(ApiCall::Restart { target: target.clone() })
        },
        HttpCommand::Reload { target } => if same_text(target.as_str(), "all") {
            refuse(400, "reload all is not supported")
        } else {
            ApiStep::Call(ApiCall::Reload { target: target.clone() })
        },
        HttpCommand::Dismiss { target, rule } => begin_advisory(
            target.as_str(),
            rule.as_str(),
            ApiCall::Dismiss { target: target.clone(), rule: rule.clone() },
        ),
        HttpCommand::Restore { target, rule } => begin_advisory(
            target.as_str(),
            rule.as_str(),
            ApiCall::Restore { target: target.clone(), rule: rule.clone() },
        ),
        HttpCommand::Pull { target, secret: _ } => ApiStep::Call(
            ApiCall::Find { target: target.clone() },
        ),
    }
}

/// The message of an outcome that is an error.
pub open spec fn error_of(outcome: ApiOutcome) -> Seq<char> {
    match outcome {
        ApiOutcome::Refused { message } => message@,
        ApiOutcome::Failed { message } => message@,
        _ => Seq::empty(),
    }
}

/// The answer to an action: how many processes it was carried out on, not found for a reason of
/// the domain, or a failure.
pub open spec fn action_reply(action: Seq<char>, outcome: ApiOutcome, step: ApiStep) -> bool {
    match outcome {
        ApiOutcome::Done { count } => step.replies(
            200,
            true,
            action + " "@ + decimal(count as nat) + " process(es)"@,
        ),
        ApiOutcome::Refused { message } => step.replies(404, false, message@),
        _ => step.replies(500, false, error_of(outcome)),
    }
}

/// The answer to an advisory command.
pub open spec fn advisory_reply(
    verb: Seq<char>,
    already: Seq<char>,
    target: Seq<char>,
    rule: Seq<char>,
    outcome: ApiOutcome,
    step: ApiStep,
) -> bool {
    match outcome {
        ApiOutcome::Changed { changed } => if changed {
            step.replies(200, true, verb + " "@ + rule + " for "@ + target)
        } else {
            step.replies(200, true, rule + " was already "@ + already + " for "@ + target)
        },
        _ => step.replies(400, false, error_of(outcome)),
    }
}

/// Whether a step is the one that follows a call and its outcome.
pub open spec fn continues(
    command: HttpCommand,
    call: ApiCall,
    outcome: ApiOutcome,
    step: ApiStep,
) -> bool {
    match command {
        HttpCommand::Stop { target } => action_reply("stop"@, outcome, step),
        HttpCommand::Restart { target } => action_reply("restart"@, outcome, step),
        HttpCommand::Reload { target } => action_reply("reload"@, outcome, step),
        HttpCommand::Dismiss { target, rule } => advisory_reply(
            "dismiss"@,
            "dismissed"@,
            target@,
            rule@,
            outcome,
            step,
        ),
        HttpCommand::Restore { target, rule } => advisory_reply(
            "restore"@,
            "restored"@,
            target@,
            rule@,
            outcome,
            step,
        ),
        HttpCommand::Pull { target, secret } => pull_continues(
            target,
            secret,
            call,
            outcome,
            step,
        ),
    }
}

/// How a pull goes on: the target has to be known, a secret given, and the secret right.
pub open spec fn pull_continues(
    target: String,
    secret: Option<String>,
    call: ApiCall,
    outcome: ApiOutcome,
    step: ApiStep,
) -> bool {
    let failed = outcome is Refused || outcome is Failed;
    match call {
        ApiCall::Find { .. } => if failed {
            step.replies(404, false, "service not found"@)
        } else {
            match secret {
                None => step.replies(401, false, "missing webhook secret"@),
                Some(secret) => step == ApiStep::Call(ApiCall::VerifySecret { target, secret }),
            }
        },
        ApiCall::VerifySecret { .. } => if failed {
            step.replies(401, false, "invalid webhook secret"@)
        } else {
            step == ApiStep::Call(ApiCall::Pull { target })
        },
        _ => match outcome {
            ApiOutcome::Report { message } => step.replies(200, true, message@),
            _ => step.replies(500, false, error_of(outcome)),
        },
    }
}

fn error_text(outcome: &ApiOutcome) -> (text: String)
    ensures
        text@ == error_of(*outcome),
{
    match outcome {
        ApiOutcome::Refused { message } => message.clone(),
        ApiOutcome::Failed { message } => message.clone(),
        _ => String::new(),
    }
}

/// The answer to an action.
pub fn handle_action_result(action: &str, outcome: &ApiOutcome) -> (step: ApiStep)
    ensures
        action_reply(action@, *outcome, step),
{
    match outcome {
        ApiOutcome::Done { count } => {
            let mut text = action.to_owned();
            text.append(" ");
            push_decimal(&mut text, *count as u64);
            text.append(" process(es)");
            ApiStep::Reply(Message { status: 200, ok: true, message: text })
        },
        ApiOutcome::Refused { message } => refuse(404, message.as_str()),
        _ => refuse(500, error_text(outcome).as_str()),
    }
}

fn handle_advisory_result(
    verb: &str,
    already: &str,
    target: &str,
    rule: &str,
    outcome: &ApiOutcome,
) -> (step: ApiStep)
    ensures
        advisory_reply(verb@, already@, target@, rule@, *outcome, step),
{
    match outcome {
        ApiOutcome::Changed { changed } => {
            let mut text = String::new();
            if *changed {
                text.append(verb);
                assert(text@ =~= verb@);
                text.append(" ");
                text.append(rule);
            } else {
                text.append(rule);
                assert(text@ =~= rule@);
                text.append(" was already ");
                text.append(already);
            }
            text.append(" for ");
            text.append(target);
            ApiStep::Reply(Message { status: 200, ok: true, message: text })
        },
        _ => refuse(400, error_text(outcome).as_str()),
    }
}

/// The step that follows a call and its outcome.
pub fn execute_api_request(
    command: &HttpCommand,
    call: &ApiCall,
    outcome: &ApiOutcome,
) -> (step: ApiStep)
    ensures
        continues(*command, *call, *outcome, step),
{
    match command {
        HttpCommand::Stop { target: _ } => handle_action_result("stop", outcome),
        HttpCommand::Restart { target: _ } => handle_action_result("restart", outcome),
        HttpCommand::Reload { target: _ } => handle_action_result("reload", outcome),
        HttpCommand::Dismiss { target, rule } => handle_advisory_result(
            "dismiss",
            "dismissed",
            target.as_str(),
            rule.as_str(),
            outcome,
        ),
        HttpCommand::Restore { target, rule } => handle_advisory_result(
            "restore",
            "restored",
            target.as_str(),
            rule.as_str(),
            outcome,
        ),
        HttpCommand::Pull { target, secret } => {
            let failed: bool = match outcome {
                ApiOutcome::Refused { .. } => true,
                ApiOutcome::Failed { .. } => true,
                _ => false,
            };
            match call {
                ApiCall::Find { .. } => if failed {
                    refuse(404, "service not found")
                } else {
                    match secret {
                        None => refuse(401, "missing webhook secret"),
                        Some(secret) => ApiStep::Call(
                            ApiCall::VerifySecret {
                                target: target.clone(),
                                secret: secret.clone(),
                            },
                        ),
                    }
                },
                ApiCall::VerifySecret { .. } => if failed {
                    refuse(401, "invalid webhook secret")
                } else {
                    ApiStep::Call(ApiCall::Pull { target: target.clone() })
                },
                _ => match outcome {
                    ApiOutcome::Report { message } => ApiStep::Reply(
                        Message { status: 200, ok: true, message: message.clone() },
                    ),
                    _ => refuse(500, error_text(outcome).as_str()),
                },
            }
        },
    }
}

/// Whether a call is made with what a command carries: its target, its rule and its secret.
pub open spec fn call_of(command: HttpCommand, call: ApiCall) -> bool {
    match call {
        ApiCall::StopAll => command matches HttpCommand::Stop { target } && target@ == "all"@,
        ApiCall::Stop { target } => command == HttpCommand::Stop { target },
        ApiCall::RestartAll => command matches HttpCommand::Restart { target } && target@
            == "all"@,
        ApiCall::Restart { target } => command == HttpCommand::Restart { target },
        ApiCall::Reload { target } => command == HttpCommand::Reload { target },
        ApiCall::Dismiss { target, rule } => command == HttpCommand::Dismiss { target, rule },
        ApiCall::Restore { target, rule } => command == HttpCommand::Restore { target, rule },
        ApiCall::Find { target } => command matches HttpCommand::Pull { target: named, .. } && named
            == target,
        ApiCall::VerifySecret { target, secret } => command == HttpCommand::Pull {
            target,
            secret: Some(secret),
        },
        ApiCall::Pull { target } => command matches HttpCommand::Pull { target: named, secret }
            && named == target && secret is Some,
    }
}

/// Whatever the manager answers, it is only ever called for what a command asks, on the process
/// that the command names.
pub proof fn a_call_carries_what_its_command_asks(
    command: HttpCommand,
    call: ApiCall,
    outcome: ApiOutcome,
    first: ApiStep,
    next: ApiStep,
)
    requires
        begins(command, first),
        call_of(command, call),
        continues(command, call, outcome, next),
    ensures
        first matches ApiStep::Call(made) ==> call_of(command, made),
        next matches ApiStep::Call(made) ==> call_of(command, made),
{
}

/// Whether a step asks for a pull.
pub open spec fn asks_for_pull(step: ApiStep) -> bool {
    step matches ApiStep::Call(call) && call is Pull
}

/// Whether a call and its outcome say that the secret of a command was found right for its target.
pub open spec fn secret_verified(command: HttpCommand, call: ApiCall, outcome: ApiOutcome) -> bool {
    &&& call is VerifySecret
    &&& command == (HttpCommand::Pull {
        target: call->VerifySecret_target,
        secret: Some(call->secret),
    })
    &&& !(outcome is Refused)
    &&& !(outcome is Failed)
}

/// A pull is asked of the manager only right after the secret that came with the command was
/// verified for the command's target, and no command begins with one.
pub proof fn a_pull_follows_a_verified_secret(
    command: HttpCommand,
    call: ApiCall,
    outcome: ApiOutcome,
    first: ApiStep,
    next: ApiStep,
)
    requires
        begins(command, first),
        call_of(command, call),
        continues(command, call, outcome, next),
    ensures
        !asks_for_pull(first),
        asks_for_pull(next) ==> secret_verified(command, call, outcome),
        next matches ApiStep::Call(made) && made is VerifySecret ==> call is Find,
{
}

/// Only stopping and restarting reach all processes at once; every other command refuses to.
pub proof fn only_stop_and_restart_reach_all(command: HttpCommand, first: ApiStep)
    requires
        begins(command, first),
        match command {
            HttpCommand::Reload { target } => target@ == "all"@,
            HttpCommand::Dismiss { target, rule } => target@ == "all"@,
            HttpCommand::Restore { target, rule } => target@ == "all"@,
            _ => false,
        },
    ensures
        first matches ApiStep::Reply(reply) && reply.status == 400 && !reply.ok,
{
}

/// How far a call is along the longest command.
pub open spec fn stage(call: ApiCall) -> int {
    match call {
        ApiCall::Find { .. } => 0,
        ApiCall::VerifySecret { .. } => 1,
        _ => 2,
    }
}

/// Every command ends in a reply: a call that follows another stands further along, and nothing
/// follows the last.
pub proof fn a_command_ends_in_a_reply(
    command: HttpCommand,
    call: ApiCall,
    outcome: ApiOutcome,
    next: ApiStep,
)
    requires
        continues(command, call, outcome, next),
    ensures
        next matches ApiStep::Call(later) ==> stage(call) < stage(later) <= 2,
{
}

/// The reply when the manager cannot be reached.
pub fn manager_unavailable(error: &str) -> (reply: Reply)
    ensures
        reply@ == ReplyView::text(500, "daemon manager loop is unavailable: "@ + error@),
{
    let mut text = "daemon manager loop is unavailable: ".to_owned();
    text.append(error);
    Reply::text(500, text.as_str())
}

/// The command for a pull of a target, or the refusal when it is not named.
pub fn post_pull(target: String, secret: Option<String>) -> (command: Result<HttpCommand, Reply>)
    ensures
        if target@.len() == 0 {
            command matches Err(reply) && reply@ == ReplyView::text(404, "not found"@)
        } else {
            command == Ok::<HttpCommand, Reply>(HttpCommand::Pull { target, secret })
        },
{
    if target.as_str().is_empty() {
        Err(Reply::text(404, "not found"))
    } else {
        Ok(HttpCommand::Pull { target, secret })
    }
}

/// An action that was carried out is answered with its own name and the number of processes, one
/// that was refused as not found, and one that failed as a failure, the latter two word for word.
pub proof fn actions_are_answered_by_outcome(
    command: HttpCommand,
    call: ApiCall,
    outcome: ApiOutcome,
    step: ApiStep,
)
    requires
        continues(command, call, outcome, step),
        command is Stop || command is Restart || command is Reload,
    ensures
        outcome matches ApiOutcome::Done { count } ==> (command is Stop ==> step.replies(
            200,
            true,
            "stop "@ + decimal(count as nat) + " process(es)"@,
        )),
        outcome matches ApiOutcome::Done { count } ==> (command is Restart ==> step.replies(
            200,
            true,
            "restart "@ + decimal(count as nat) + " process(es)"@,
        )),
        outcome matches ApiOutcome::Done { count } ==> (command is Reload ==> step.replies(
            200,
            true,
            "reload "@ + decimal(count as nat) + " process(es)"@,
        )),
        outcome matches ApiOutcome::Refused { message } ==> step.replies(404, false, message@),
        outcome matches ApiOutcome::Failed { message } ==> step.replies(500, false, message@),
{
    reveal_strlit("stop");
    reveal_strlit("stop ");
    reveal_strlit("restart");
    reveal_strlit("restart ");
    reveal_strlit("reload");
    reveal_strlit("reload ");
    reveal_strlit(" ");
    assert("stop"@ + " "@ =~= "stop "@);
    assert("restart"@ + " "@ =~= "restart "@);
    assert("reload"@ + " "@ =~= "reload "@);
}

/// An advisory command is answered with what it changed, or with what was already so, naming the
/// rule and the process; one that was refused or failed is a bad request, word for word.
pub proof fn advisories_are_answered_by_outcome(
    target: String,
    rule: String,
    call: ApiCall,
    outcome: ApiOutcome,
    dismissed: ApiStep,
    restored: ApiStep,
)
    requires
        continues(HttpCommand::Dismiss { target, rule }, call, outcome, dismissed),
        continues(HttpCommand::Restore { target, rule }, call, outcome, restored),
    ensures
        outcome == (ApiOutcome::Changed { changed: true }) ==> dismissed.replies(
            200,
            true,
            "dismiss"@ + " "@ + rule@ + " for "@ + target@,
        ) && restored.replies(200, true, "restore"@ + " "@ + rule@ + " for "@ + target@),
        outcome == (ApiOutcome::Changed { changed: false }) ==> dismissed.replies(
            200,
            true,
            rule@ + " was already "@ + "dismissed"@ + " for "@ + target@,
        ) && restored.replies(
            200,
            true,
            rule@ + " was already "@ + "restored"@ + " for "@ + target@,
        ),
        outcome matches ApiOutcome::Refused { message } ==> dismissed.replies(400, false, message@)
            && restored.replies(400, false, message@),
        outcome matches ApiOutcome::Failed { message } ==> dismissed.replies(400, false, message@)
            && restored.replies(400, false, message@),
{
}

/// A pull is refused step by step: as not found where the target is not known, as unauthorized
/// where no secret came with it or the secret is wrong, and the report of one that was carried out
/// is passed on.
pub proof fn a_pull_is_refused_step_by_step(
    target: String,
    secret: Option<String>,
    outcome: ApiOutcome,
    found: ApiStep,
    verified: ApiStep,
    pulled: ApiStep,
    given: String,
)
    requires
        continues(HttpCommand::Pull { target, secret }, ApiCall::Find { target }, outcome, found),
        continues(
            HttpCommand::Pull { target, secret },
            ApiCall::VerifySecret { target, secret: given },
            outcome,
            verified,
        ),
        continues(HttpCommand::Pull { target, secret }, ApiCall::Pull { target }, outcome, pulled),
    ensures
        outcome is Refused || outcome is Failed ==> found.replies(
            404,
            false,
            "service not found"@,
        ) && verified.replies(401, false, "invalid webhook secret"@),
        !(outcome is Refused) && !(outcome is Failed) && secret is None ==> found.replies(
            401,
            false,
            "missing webhook secret"@,
        ),
        !(outcome is Refused) && !(outcome is Failed) && secret is Some ==> found == ApiStep::Call(
            ApiCall::VerifySecret { target, secret: secret->0 },
        ),
        !(outcome is Refused) && !(outcome is Failed) ==> verified == ApiStep::Call(
            ApiCall::Pull { target },
        ),
        outcome matches ApiOutcome::Report { message } ==> pulled.replies(200, true, message@),
        outcome matches ApiOutcome::Failed { message } ==> pulled.replies(500, false, message@),
        outcome matches ApiOutcome::Refused { message } ==> pulled.replies(500, false, message@),
{
}

/// A command begins with the call of its own kind, unless it is refused: an advisory command
/// without a rule is, and one for all processes.
pub proof fn each_command_has_its_own_call(command: HttpCommand, first: ApiStep)
    requires
        begins(command, first),
    ensures
        command matches HttpCommand::Stop { target } ==> (target@ != "all"@ ==> first
            == ApiStep::Call(ApiCall::Stop { target })),
        command matches HttpCommand::Restart { target } ==> (target@ != "all"@ ==> first
            == ApiStep::Call(ApiCall::Restart { target })),
        command matches HttpCommand::Reload { target } ==> (target@ != "all"@ ==> first
            == ApiStep::Call(ApiCall::Reload { target })),
        command matches HttpCommand::Stop { target } ==> (target@ == "all"@ ==> first
            == ApiStep::Call(ApiCall::StopAll)),
        command matches HttpCommand::Restart { target } ==> (target@ == "all"@ ==> first
            == ApiStep::Call(ApiCall::RestartAll)),
        command matches HttpCommand::Dismiss { target, rule } ==> (rule@.len() == 0
            ==> first.replies(400, false, "advisory rule id is required"@)),
        command matches HttpCommand::Restore { target, rule } ==> (rule@.len() == 0
            ==> first.replies(400, false, "advisory rule id is required"@)),
        command matches HttpCommand::Dismiss { target, rule } ==> (rule@.len() > 0 && target@
            != "all"@ ==> first == ApiStep::Call(ApiCall::Dismiss { target, rule })),
        command matches HttpCommand::Restore { target, rule } ==> (rule@.len() > 0 && target@
            != "all"@ ==> first == ApiStep::Call(ApiCall::Restore { target, rule })),
        command matches HttpCommand::Pull { target, secret } ==> first == ApiStep::Call(
            ApiCall::Find { target },
        ),
{
}

/// A pull needs a target; what it carries is passed on as it is. A manager that cannot be reached
/// is a failure that says why.
pub proof fn a_pull_needs_a_target(
    target: String,
    secret: Option<String>,
    command: Result<HttpCommand, Reply>,
    error: &str,
    reply: Reply,
)
    requires
        call_ensures(post_pull, (target, secret), command),
        call_ensures(manager_unavailable, (error,), reply),
    ensures
        command is Ok <==> target@.len() > 0,
        command matches Ok(made) ==> made == (HttpCommand::Pull { target, secret }),
        command matches Err(refusal) ==> refusal.status == 404,
        reply.status == 500,
        reply@.body == vstd::utf8::encode_utf8("daemon manager loop is unavailable: "@ + error@),
{
}

} // verus!
