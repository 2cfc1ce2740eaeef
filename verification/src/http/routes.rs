//! The routes of the HTTP surface.
//!
//! Assets are not listed: they are what a path that no route matches falls back to, whatever the
//! verb, so that an unknown path is answered alike for all of them.

use vstd::prelude::*;

verus! {

/// The verb a route answers to.
#[derive(Debug, Clone, Copy, PartialEq, Eq, Structural)]
pub enum Verb {
    Get,
    Post,
}

/// What a route leads to.
#[derive(Debug, Clone, Copy, PartialEq, Eq, Structural)]
pub enum Endpoint {
    Metrics,
    Dashboard,
    Favicon,
    LogViewer,
    Config,
    Advisories,
    Findings,
    Decisions,
    Typical,
    Host,
    HostConsumers,
    Processes,
    Process,
    ProcessFindings,
    ProcessDecisions,
    ProcessLogs,
    ProcessLogFiles,
    ProcessLogDownload,
    Stop,
    Restart,
    Reload,
    Dismiss,
    Restore,
    ProcessesStream,
    EventsStream,
    HostStream,
    UnifiedStream,
    LogStream,
    Pull,
}

/// A route: a verb, a pattern whose braces stand for one segment, and where it leads.
#[derive(Debug, Clone, Copy, PartialEq, Eq)]
pub struct Route {
    pub verb: Verb,
    pub pattern: &'static str,
    pub endpoint: Endpoint,
}

/// What routes say.
pub open spec fn route_views(routes: Seq<Route>) -> Seq<(Verb, Seq<char>, Endpoint)> {
    routes.map_values(|route: Route| (route.verb, route.pattern@, route.endpoint))
}

/// Every route.
pub open spec fn route_table() -> Seq<(Verb, Seq<char>, Endpoint)> {
    seq![
        (Verb::Get, "/metrics"@, Endpoint::Metrics),
        (Verb::Get, "/"@, Endpoint::Dashboard),
        (Verb::Get, "/favicon.ico"@, Endpoint::Favicon),
        (Verb::Get, "/logs/{name}"@, Endpoint::LogViewer),
        (Verb::Get, "/api/config"@, Endpoint::Config),
        (Verb::Get, "/api/advisories"@, Endpoint::Advisories),
        (Verb::Get, "/api/findings"@, Endpoint::Findings),
        (Verb::Get, "/api/decisions"@, Endpoint::Decisions),
        (Verb::Get, "/api/typical"@, Endpoint::Typical),
        (Verb::Get, "/api/host"@, Endpoint::Host),
        (Verb::Get, "/api/host/consumers"@, Endpoint::HostConsumers),
        (Verb::Get, "/api/processes"@, Endpoint::Processes),
        (Verb::Get, "/api/processes/{name}"@, Endpoint::Process),
        (Verb::Get, "/api/processes/{name}/findings"@, Endpoint::ProcessFindings),
        (Verb::Get, "/api/processes/{name}/decisions"@, Endpoint::ProcessDecisions),
        (Verb::Get, "/api/processes/{name}/logs"@, Endpoint::ProcessLogs),
        (Verb::Get, "/api/processes/{name}/logs/files"@, Endpoint::ProcessLogFiles),
        (Verb::Get, "/api/processes/{name}/logs/download"@, Endpoint::ProcessLogDownload),
        (Verb::Post, "/api/processes/{name}/stop"@, Endpoint::Stop),
        (Verb::Post, "/api/processes/{name}/restart"@, Endpoint::Restart),
        (Verb::Post, "/api/processes/{name}/reload"@, Endpoint::Reload),
        (Verb::Post, "/api/processes/{name}/dismiss/{rule}"@, Endpoint::Dismiss),
        (Verb::Post, "/api/processes/{name}/restore/{rule}"@, Endpoint::Restore),
        (Verb::Get, "/api/processes/stream"@, Endpoint::ProcessesStream),
        (Verb::Get, "/api/events/stream"@, Endpoint::EventsStream),
        (Verb::Get, "/api/host/stream"@, Endpoint::HostStream),
        (Verb::Get, "/api/stream"@, Endpoint::UnifiedStream),
        (Verb::Get, "/api/processes/{name}/logs/stream"@, Endpoint::LogStream),
        (Verb::Post, "/pull/{target}"@, Endpoint::Pull),
        (Verb::Get, "/favicon.svg"@, Endpoint::Favicon),
    ]
}

fn get(pattern: &'static str, endpoint: Endpoint) -> (route: Route)
    ensures
        route == (Route { verb: Verb::Get, pattern, endpoint }),
{
    Route { verb: Verb::Get, pattern, endpoint }
}

fn post(pattern: &'static str, endpoint: Endpoint) -> (route: Route)
    ensures
        route == (Route { verb: Verb::Post, pattern, endpoint }),
{
    Route { verb: Verb::Post, pattern, endpoint }
}

/// Every route, in the order in which they are registered.
pub fn create_router() -> (routes: Vec<Route>)
    ensures
        route_views(routes@) == route_table(),
{
    let routes: Vec<Route> = vec![
        get("/metrics", Endpoint::Metrics),
        get("/", Endpoint::Dashboard),
        get("/favicon.ico", Endpoint::Favicon),
        get("/logs/{name}", Endpoint::LogViewer),
        get("/api/config", Endpoint::Config),
        get("/api/advisories", Endpoint::Advisories),
        get("/api/findings", Endpoint::Findings),
        get("/api/decisions", Endpoint::Decisions),
        get("/api/typical", Endpoint::Typical),
        get("/api/host", Endpoint::Host),
        get("/api/host/consumers", Endpoint::HostConsumers),
        get("/api/processes", Endpoint::Processes),
        get("/api/processes/{name}", Endpoint::Process),
        get("/api/processes/{name}/findings", Endpoint::ProcessFindings),
        get("/api/processes/{name}/decisions", Endpoint::ProcessDecisions),
        get("/api/processes/{name}/logs", Endpoint::ProcessLogs),
        get("/api/processes/{name}/logs/files", Endpoint::ProcessLogFiles),
        get("/api/processes/{name}/logs/download", Endpoint::ProcessLogDownload),
        post("/api/processes/{name}/stop", Endpoint::Stop),
        post("/api/processes/{name}/restart", Endpoint::Restart),
        post("/api/processes/{name}/reload", Endpoint::Reload),
        post("/api/processes/{name}/dismiss/{rule}", Endpoint::Dismiss),
        post("/api/processes/{name}/restore/{rule}", Endpoint::Restore),
        get("/api/processes/stream", Endpoint::ProcessesStream),
        get("/api/events/stream", Endpoint::EventsStream),
        get("/api/host/stream", Endpoint::HostStream),
        get("/api/stream", Endpoint::UnifiedStream),
        get("/api/processes/{name}/logs/stream", Endpoint::LogStream),
        post("/pull/{target}", Endpoint::Pull),
        get("/favicon.svg", Endpoint::Favicon),
    ];
    assert(route_views(routes@) =~= route_table());
    routes
}

/// Nothing is changed by reading: what a `GET` leads to is never an action, and every action is a
/// `POST`.
pub proof fn reading_never_acts(at: int)
    requires
        0 <= at < route_table().len(),
    ensures
        (route_table()[at].0 == Verb::Post) == acts(route_table()[at].2),
{
}

/// Whether an endpoint asks the manager to do something.
pub open spec fn acts(endpoint: Endpoint) -> bool {
    match endpoint {
        Endpoint::Stop
        | Endpoint::Restart
        | Endpoint::Reload
        | Endpoint::Dismiss
        | Endpoint::Restore
        | Endpoint::Pull => true,
        _ => false,
    }
}

/// Whether a path, asked with a verb, leads to an endpoint.
pub open spec fn leads(verb: Verb, pattern: Seq<char>, endpoint: Endpoint) -> bool {
    route_table().contains((verb, pattern, endpoint))
}

/// The pages and the metrics are where their paths say.
pub proof fn pages_lead_to_what_they_name()
    ensures
        leads(Verb::Get, "/metrics"@, Endpoint::Metrics),
        leads(Verb::Get, "/"@, Endpoint::Dashboard),
        leads(Verb::Get, "/favicon.ico"@, Endpoint::Favicon),
        leads(Verb::Get, "/logs/{name}"@, Endpoint::LogViewer),
        leads(Verb::Get, "/favicon.svg"@, Endpoint::Favicon),
{
    let table = route_table();
    assert(table[0] == (Verb::Get, "/metrics"@, Endpoint::Metrics));
    assert(table[1] == (Verb::Get, "/"@, Endpoint::Dashboard));
    assert(table[2] == (Verb::Get, "/favicon.ico"@, Endpoint::Favicon));
    assert(table[3] == (Verb::Get, "/logs/{name}"@, Endpoint::LogViewer));
    assert(table[29] == (Verb::Get, "/favicon.svg"@, Endpoint::Favicon));
}

/// Each part of the API that is read is under the path that names it.
pub proof fn the_api_is_read_where_its_paths_say()
    ensures
        leads(Verb::Get, "/api/config"@, Endpoint::Config),
        leads(Verb::Get, "/api/advisories"@, Endpoint::Advisories),
        leads(Verb::Get, "/api/findings"@, Endpoint::Findings),
        leads(Verb::Get, "/api/decisions"@, Endpoint::Decisions),
        leads(Verb::Get, "/api/typical"@, Endpoint::Typical),
        leads(Verb::Get, "/api/host"@, Endpoint::Host),
        leads(Verb::Get, "/api/host/consumers"@, Endpoint::HostConsumers),
        leads(Verb::Get, "/api/processes"@, Endpoint::Processes),
        leads(Verb::Get, "/api/processes/{name}"@, Endpoint::Process),
        leads(Verb::Get, "/api/processes/{name}/findings"@, Endpoint::ProcessFindings),
        leads(Verb::Get, "/api/processes/{name}/decisions"@, Endpoint::ProcessDecisions),
        leads(Verb::Get, "/api/processes/{name}/logs"@, Endpoint::ProcessLogs),
        leads(Verb::Get, "/api/processes/{name}/logs/files"@, Endpoint::ProcessLogFiles),
        leads(Verb::Get, "/api/processes/{name}/logs/download"@, Endpoint::ProcessLogDownload),
        leads(Verb::Get, "/api/processes/stream"@, Endpoint::ProcessesStream),
        leads(Verb::Get, "/api/events/stream"@, Endpoint::EventsStream),
        leads(Verb::Get, "/api/host/stream"@, Endpoint::HostStream),
        leads(Verb::Get, "/api/stream"@, Endpoint::UnifiedStream),
        leads(Verb::Get, "/api/processes/{name}/logs/stream"@, Endpoint::LogStream),
{
    let table = route_table();
    assert(table[4] == (Verb::Get, "/api/config"@, Endpoint::Config));
    assert(table[5] == (Verb::Get, "/api/advisories"@, Endpoint::Advisories));
    assert(table[6] == (Verb::Get, "/api/findings"@, Endpoint::Findings));
    assert(table[7] == (Verb::Get, "/api/decisions"@, Endpoint::Decisions));
    assert(table[8] == (Verb::Get, "/api/typical"@, Endpoint::Typical));
    assert(table[9] == (Verb::Get, "/api/host"@, Endpoint::Host));
    assert(table[10] == (Verb::Get, "/api/host/consumers"@, Endpoint::HostConsumers));
    assert(table[11] == (Verb::Get, "/api/processes"@, Endpoint::Processes));
    assert(table[12] == (Verb::Get, "/api/processes/{name}"@, Endpoint::Process));
    assert(table[13] == (Verb::Get, "/api/processes/{name}/findings"@, Endpoint::ProcessFindings));
    assert(table[14] == (Verb::Get, "/api/processes/{name}/decisions"@, Endpoint::ProcessDecisions));
    assert(table[15] == (Verb::Get, "/api/processes/{name}/logs"@, Endpoint::ProcessLogs));
    assert(table[16] == (Verb::Get, "/api/processes/{name}/logs/files"@, Endpoint::ProcessLogFiles));
    assert(table[17] == (Verb::Get, "/api/processes/{name}/logs/download"@, Endpoint::ProcessLogDownload));
    assert(table[23] == (Verb::Get, "/api/processes/stream"@, Endpoint::ProcessesStream));
    assert(table[24] == (Verb::Get, "/api/events/stream"@, Endpoint::EventsStream));
    assert(table[25] == (Verb::Get, "/api/host/stream"@, Endpoint::HostStream));
    assert(table[26] == (Verb::Get, "/api/stream"@, Endpoint::UnifiedStream));
    assert(table[27] == (Verb::Get, "/api/processes/{name}/logs/stream"@, Endpoint::LogStream));
}

/// Each action is asked for under the path that names it.
pub proof fn actions_are_asked_for_where_they_are_named()
    ensures
        leads(Verb::Post, "/api/processes/{name}/stop"@, Endpoint::Stop),
        leads(Verb::Post, "/api/processes/{name}/restart"@, Endpoint::Restart),
        leads(Verb::Post, "/api/processes/{name}/reload"@, Endpoint::Reload),
        leads(Verb::Post, "/api/processes/{name}/dismiss/{rule}"@, Endpoint::Dismiss),
        leads(Verb::Post, "/api/processes/{name}/restore/{rule}"@, Endpoint::Restore),
        leads(Verb::Post, "/pull/{target}"@, Endpoint::Pull),
{
    let table = route_table();
    assert(table[18] == (Verb::Post, "/api/processes/{name}/stop"@, Endpoint::Stop));
    assert(table[19] == (Verb::Post, "/api/processes/{name}/restart"@, Endpoint::Restart));
    assert(table[20] == (Verb::Post, "/api/processes/{name}/reload"@, Endpoint::Reload));
    assert(table[21] == (Verb::Post, "/api/processes/{name}/dismiss/{rule}"@, Endpoint::Dismiss));
    assert(table[22] == (Verb::Post, "/api/processes/{name}/restore/{rule}"@, Endpoint::Restore));
    assert(table[28] == (Verb::Post, "/pull/{target}"@, Endpoint::Pull));
}

} // verus!
