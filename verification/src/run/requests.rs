//! What a deployment asks for, from what its rows, its settings and the replies say.

use vstd::prelude::*;
use crate::command::{
    announcement_of, build_call, clone_call, connect_call, create_database_call, find_any_call,
    find_running_call, is_supported_engine, launch_call, list_call, migrate_call, remove_call,
    start_call, CommandView,
};
use crate::config::ConfigView;
use crate::effect::{EffectView, Method, ReplyView, Template};
use crate::naming::{app_container, host, image_tag, project_tag, site, workspace_path};
use crate::proxy::{insert_location, project_route, route_location};
use crate::run::{turn_at, LiveView, PointView, ProgressView, RunView, TargetView, TurnView};
use crate::run::cutover::{live_record, CutoverPointView};
use crate::run::database::{DatabasePointView, ProvisionView};
use crate::run::launch::LaunchPointView;
use crate::run::laws::after;
use crate::run::route::{update_request, RoutePointView};
use crate::run::source::SourcePointView;
use crate::store::{completion_record, DatabaseConfigView, DeploymentJobView, StatementView};
use crate::text::path_in;

verus! {

// ---------------------------------------------------------------------------
// What is right to ask for
// ---------------------------------------------------------------------------

/// The directory that a job is built in.
pub open spec fn built_in(config: ConfigView, job: DeploymentJobView) -> Seq<char> {
    workspace_path(config.workspace_dir, job.deployment_id as int)
}

pub open spec fn is_laravel(target: TargetView) -> bool {
    target.context.app_type == "laravel"@
}

/// Only a Laravel project that has a database has tables to bring up to date.
pub open spec fn is_migrated(target: TargetView) -> bool {
    is_laravel(target) && target.database is Some
}

/// The file of the workspace that a template is written to.
pub open spec fn written_to(
    config: ConfigView,
    job: DeploymentJobView,
    template: Template,
) -> Seq<char> {
    path_in(
        path_in(built_in(config, job), ".deploynest"@),
        match template {
            Template::LaravelDockerfile => "Dockerfile.laravel"@,
            Template::LaravelEntrypoint => "laravel-entrypoint.sh"@,
        },
    )
}

/// The build of the deployment's image: by the project's own Dockerfile, or, for a Laravel
/// project, by the one that was written.
pub open spec fn is_build(
    config: ConfigView,
    job: DeploymentJobView,
    target: TargetView,
    command: CommandView,
) -> bool {
    let tag = image_tag(target.context.project_id as int, job.deployment_id as int);
    let ws = built_in(config, job);
    ||| target.context.app_type == "dockerfile"@ && command == build_call(tag, None, ws)
    ||| is_laravel(target) && command == build_call(
        tag,
        Some(written_to(config, job, Template::LaravelDockerfile)),
        ws,
    )
}

/// The start of the deployment's container on a port of the configured range.
pub open spec fn is_launch(
    config: ConfigView,
    job: DeploymentJobView,
    target: TargetView,
    command: CommandView,
    port: u16,
) -> bool {
    &&& config.port_start <= port <= config.port_end
    &&& command == launch_call(
        target.context.project_id,
        job.deployment_id,
        port,
        config.container_port,
        target.database,
    )
}

/// The commands whose lines a deployment's log shows.
pub open spec fn is_logged(
    config: ConfigView,
    job: DeploymentJobView,
    target: TargetView,
    command: CommandView,
) -> bool {
    ||| command == clone_call(
        target.context.branch,
        target.context.repo_url,
        built_in(config, job),
    )
    ||| is_build(config, job, target, command)
    ||| exists|port: u16| is_launch(config, job, target, command, port)
    ||| target.database matches Some(db) && is_supported_engine(db.engine) && command
        == create_database_call(db)
}

/// The commands whose output decides how a deployment goes on.
pub open spec fn is_read(
    job: DeploymentJobView,
    target: TargetView,
    command: CommandView,
) -> bool {
    let project_id = target.context.project_id as int;
    ||| command == list_call(project_tag(project_id))
    ||| is_migrated(target) && command == migrate_call(
        app_container(project_id, job.deployment_id as int),
    )
    ||| target.database matches Some(db) && {
        ||| command == find_running_call(db.container_name)
        ||| command == find_any_call(db.container_name)
        ||| command == connect_call(db.container_name)
    }
}

/// Some captured command printed this.
pub open spec fn was_printed(replies: Seq<ReplyView>, text: Seq<char>) -> bool {
    exists|k: int|
        0 <= k < replies.len() && (#[trigger] replies[k] matches ReplyView::Captured {
            stdout,
            stderr,
            ..
        } && (text == stdout || text == stderr))
}

/// What the log says of the database while it is looked after.
pub open spec fn is_said_of(database: DatabaseConfigView, message: Seq<char>) -> bool {
    let (engine, name) = (database.engine, database.container_name);
    ||| message == "[DATABASE] Ensuring "@ + engine + " container '"@ + name + "' is running..."@
    ||| message == "[DATABASE] Container '"@ + name + "' is already running"@
    ||| message == "[DATABASE] Starting existing container '"@ + name + "'..."@
    ||| message == "[DATABASE] Creating new "@ + engine + " container '"@ + name + "'..."@
    ||| message == "[DATABASE] "@ + engine + " container '"@ + name + "' started successfully"@
}

/// What the log says of the migrations, besides what they print.
pub open spec fn is_said_of_migrations(message: Seq<char>) -> bool {
    ||| message == "[DATABASE] Waiting for database to be ready..."@
    ||| message == "[DATABASE] Running Laravel migrations..."@
    ||| message == "[DATABASE] Migrations completed successfully"@
    ||| message == "[DATABASE] Migration failed (non-fatal, app container still running)"@
}

/// A line for the deployment's log: it announces a logged command, or tells of the database, or
/// of migrations and what they printed.
pub open spec fn is_note(
    config: ConfigView,
    job: DeploymentJobView,
    replies: Seq<ReplyView>,
    target: TargetView,
    message: Seq<char>,
) -> bool {
    ||| exists|command: CommandView| #[trigger]
        is_logged(config, job, target, command) && message == announcement_of(command)
    ||| target.database matches Some(db) && is_said_of(db, message)
    ||| is_migrated(target) && (is_said_of_migrations(message) || was_printed(replies, message))
}

/// The host that a project is served under.
pub open spec fn served_as(config: ConfigView, target: TargetView) -> Seq<char> {
    host(target.context.project_name, target.context.project_id as int, config.base_domain)
}

/// The request that points the proxy at a port: in place of the project's route if it has one,
/// else as a new route of the configured server.
pub open spec fn is_routing(
    config: ConfigView,
    target: TargetView,
    effect: EffectView,
    port: u16,
) -> bool {
    let project_id = target.context.project_id as int;
    let body = Some(
        project_route(
            project_id,
            served_as(config, target),
            config.caddy_upstream_host,
            port as int,
        ),
    );
    ||| effect == EffectView::Request {
        method: Method::Patch,
        url: route_location(config.caddy_admin_url, project_id),
        body,
    }
    ||| effect == EffectView::Request {
        method: Method::Put,
        url: insert_location(config.caddy_admin_url, config.caddy_server),
        body,
    }
}

/// The look for the project's route.
pub open spec fn lookup_of(config: ConfigView, target: TargetView) -> EffectView {
    EffectView::Request {
        method: Method::Get,
        url: route_location(config.caddy_admin_url, target.context.project_id as int),
        body: None,
    }
}

/// The record that a deployment is served by a container on a port, at the address of its host
/// under the configured scheme.
pub open spec fn record_of(
    config: ConfigView,
    job: DeploymentJobView,
    live: LiveView,
) -> EffectView {
    EffectView::Commit(
        completion_record(
            job,
            live.container_id,
            live.port,
            site(config.public_scheme, served_as(config, live.target)),
        ),
    )
}

/// What a deployment may ask for once it knows its project and the project's database.
pub open spec fn is_request(
    config: ConfigView,
    job: DeploymentJobView,
    replies: Seq<ReplyView>,
    target: TargetView,
    effect: EffectView,
) -> bool {
    let ws = built_in(config, job);
    match effect {
        EffectView::FindContext(_) => false,
        EffectView::FindDatabase(_) => false,
        EffectView::Execute(statement) => match statement {
            StatementView::InsertLog { deployment_id, message } => deployment_id
                == job.deployment_id && is_note(config, job, replies, target, message),
            StatementView::DatabaseStatus { project_id, status } => project_id
                == target.context.project_id && status == "running"@ && target.database is Some,
            _ => false,
        },
        EffectView::Commit(_) => exists|live: LiveView|
            live.target == target && config.port_start <= live.port <= config.port_end && effect
                == #[trigger] record_of(config, job, live),
        EffectView::PathExists(path) => path == ws || is_laravel(target) && (path == path_in(
            ws,
            "artisan"@,
        ) || path == path_in(ws, "composer.json"@)),
        EffectView::RemoveTree(path) => path == ws,
        EffectView::CreateDir(path) => is_laravel(target) && path == path_in(ws, ".deploynest"@),
        EffectView::WriteTemplate(path, template) => is_laravel(target) && path == written_to(
            config,
            job,
            template,
        ),
        EffectView::RunLogged(deployment_id, command) => deployment_id == job.deployment_id
            && is_logged(config, job, target, command),
        EffectView::RunCaptured(command) => is_read(job, target, command),
        EffectView::RunWatched(command) => {
            ||| exists|container: Seq<char>| command == #[trigger] remove_call(container)
            ||| target.database matches Some(db) && command == start_call(db.container_name)
        },
        EffectView::ProbePort(port) => config.port_start <= port <= config.port_end,
        EffectView::Sleep(seconds) => is_migrated(target) && seconds == 10,
        EffectView::Request { .. } => {
            ||| effect == lookup_of(config, target)
            ||| exists|port: u16|
                config.port_start <= port <= config.port_end && #[trigger] is_routing(
                    config,
                    target,
                    effect,
                    port,
                )
        },
        EffectView::ReadBody => true,
    }
}

/// What the first two replies of a deployment say that it is about.
pub open spec fn told(replies: Seq<ReplyView>) -> TargetView {
    TargetView { context: replies[0]->Context_0, database: replies[1]->Database_0 }
}

// ---------------------------------------------------------------------------
// What a run knows and waits for at each point
// ---------------------------------------------------------------------------

/// The deployment that a point is about, if it still needs to know.
pub open spec fn about(point: PointView) -> Option<TargetView> {
    match point {
        PointView::Source(at) => match at {
            SourcePointView::Context => None,
            SourcePointView::Database(_) => None,
            SourcePointView::Workspace(target) => Some(target),
            SourcePointView::Clone(target) => Some(target),
            SourcePointView::Artisan(target) => Some(target),
            SourcePointView::Composer(target) => Some(target),
            SourcePointView::Build(target) => Some(target),
        },
        PointView::Database(at) => Some(provision_at(at).target()),
        PointView::Launch(at) => match at {
            LaunchPointView::Probe(target, _) => Some(target),
            LaunchPointView::Start(target, _) => Some(target),
            LaunchPointView::Migrate(live) => Some(live.target),
            LaunchPointView::Migrated(live) => Some(live.target),
        },
        PointView::Route(at) => Some(live_of(at).target),
        PointView::Cutover(at) => match at {
            CutoverPointView::Complete(live) => Some(live.target),
            CutoverPointView::List(live) => Some(live.target),
            CutoverPointView::Remove(live, _, _) => Some(live.target),
            CutoverPointView::Cleanup => None,
        },
        PointView::Deletion(_) => None,
    }
}

pub open spec fn provision_at(at: DatabasePointView) -> ProvisionView {
    match at {
        DatabasePointView::Running(p) => p,
        DatabasePointView::Found(p) => p,
        DatabasePointView::Connect(p) => p,
        DatabasePointView::Stopped(p) => p,
        DatabasePointView::Start(p) => p,
        DatabasePointView::Missing(p) => p,
        DatabasePointView::Create(p) => p,
        DatabasePointView::Status(p) => p,
    }
}

pub open spec fn live_of(at: RoutePointView) -> LiveView {
    match at {
        RoutePointView::Lookup(live) => live,
        RoutePointView::LookupRejected(live) => live,
        RoutePointView::Update(live) => live,
        RoutePointView::UpdateRejected(live) => live,
        RoutePointView::Discard(live, _) => live,
    }
}

pub open spec fn is_in_range(config: ConfigView, port: u16) -> bool {
    config.port_start <= port <= config.port_end
}

/// What the script at a point ends with, and what else is known there.
pub open spec fn awaits(
    config: ConfigView,
    job: DeploymentJobView,
    point: PointView,
    last: EffectView,
) -> bool {
    let ws = built_in(config, job);
    match point {
        PointView::Source(at) => match at {
            SourcePointView::Context => last == EffectView::FindContext(job.deployment_id),
            SourcePointView::Database(context) => last == EffectView::FindDatabase(
                context.project_id,
            ),
            SourcePointView::Workspace(_) => last == EffectView::PathExists(ws),
            SourcePointView::Clone(target) => last == EffectView::RunLogged(
                job.deployment_id,
                clone_call(target.context.branch, target.context.repo_url, ws),
            ),
            SourcePointView::Artisan(target) => is_laravel(target) && last
                == EffectView::PathExists(path_in(ws, "artisan"@)),
            SourcePointView::Composer(target) => is_laravel(target) && last
                == EffectView::PathExists(path_in(ws, "composer.json"@)),
            SourcePointView::Build(target) => last matches EffectView::RunLogged(id, command) && id
                == job.deployment_id && is_build(config, job, target, command),
        },
        PointView::Database(at) => {
            let p = provision_at(at);
            let name = p.database.container_name;
            match at {
                DatabasePointView::Running(_) => last == EffectView::RunCaptured(
                    find_running_call(name),
                ),
                DatabasePointView::Found(_) => last is Execute,
                DatabasePointView::Connect(_) => last == EffectView::RunCaptured(
                    connect_call(name),
                ),
                DatabasePointView::Stopped(_) => last == EffectView::RunCaptured(
                    find_any_call(name),
                ),
                DatabasePointView::Start(_) => last == EffectView::RunWatched(start_call(name)),
                DatabasePointView::Missing(_) => last matches EffectView::Execute(statement)
                    && statement is InsertLog,
                DatabasePointView::Create(_) => is_supported_engine(p.database.engine) && last
                    == EffectView::RunLogged(job.deployment_id, create_database_call(p.database)),
                DatabasePointView::Status(_) => last == EffectView::Execute(
                    StatementView::DatabaseStatus {
                        project_id: p.context.project_id,
                        status: "running"@,
                    },
                ),
            }
        },
        PointView::Launch(at) => match at {
            LaunchPointView::Probe(_, port) => is_in_range(config, port) && last
                == EffectView::ProbePort(port),
            LaunchPointView::Start(target, port) => last matches EffectView::RunLogged(id, command)
                && id == job.deployment_id && is_launch(config, job, target, command, port),
            LaunchPointView::Migrate(live) => is_in_range(config, live.port) && is_migrated(
                live.target,
            ) && last == EffectView::RunCaptured(
                migrate_call(
                    app_container(
                        live.target.context.project_id as int,
                        job.deployment_id as int,
                    ),
                ),
            ),
            LaunchPointView::Migrated(live) => is_in_range(config, live.port) && is_migrated(
                live.target,
            ) && last is Execute,
        },
        PointView::Route(at) => {
            let live = live_of(at);
            &&& is_in_range(config, live.port)
            &&& match at {
                RoutePointView::Lookup(_) => last == lookup_of(config, live.target),
                RoutePointView::LookupRejected(_) => last is ReadBody,
                RoutePointView::Update(_) => is_routing(config, live.target, last, live.port),
                RoutePointView::UpdateRejected(_) => last is ReadBody,
                RoutePointView::Discard(_, _) => last == EffectView::RunWatched(
                    remove_call(live.container_id),
                ),
            }
        },
        PointView::Cutover(at) => match at {
            CutoverPointView::Complete(live) => is_in_range(config, live.port) && last == record_of(
                config,
                job,
                live,
            ),
            CutoverPointView::List(live) => last == EffectView::RunCaptured(
                list_call(project_tag(live.target.context.project_id as int)),
            ),
            CutoverPointView::Remove(_, container, _) => last == EffectView::RunWatched(
                remove_call(container),
            ),
            CutoverPointView::Cleanup => last == EffectView::RemoveTree(ws),
        },
        PointView::Deletion(_) => false,
    }
}

pub open spec fn last_of(first: EffectView, rest: Seq<EffectView>) -> EffectView {
    if rest.len() > 0 {
        rest.last()
    } else {
        first
    }
}

/// A script of right requests that leads to a point.
pub open spec fn is_script(
    config: ConfigView,
    job: DeploymentJobView,
    replies: Seq<ReplyView>,
    target: TargetView,
    point: PointView,
    first: EffectView,
    rest: Seq<EffectView>,
) -> bool {
    &&& about(point) matches Some(t) ==> t == target
    &&& awaits(config, job, point, last_of(first, rest))
    &&& is_request(config, job, replies, target, first)
    &&& forall|i: int|
        0 <= i < rest.len() ==> is_request(config, job, replies, target, #[trigger] rest[i])
}

/// A turn that goes on with right requests, if it goes on.
spec fn is_right(
    config: ConfigView,
    job: DeploymentJobView,
    replies: Seq<ReplyView>,
    target: TargetView,
    turn: TurnView,
) -> bool {
    turn matches TurnView::Go(point, first, rest) ==> is_script(
        config,
        job,
        replies,
        target,
        point,
        first,
        rest,
    )
}

#[verifier::rlimit(30)]
proof fn lemma_source_is_right(
    config: ConfigView,
    job: DeploymentJobView,
    replies: Seq<ReplyView>,
    target: TargetView,
    point: PointView,
    last: EffectView,
    reply: ReplyView,
)
    requires
        point is Source,
        about(point) == Some(target),
        awaits(config, job, point, last),
    ensures
        is_right(config, job, replies, target, turn_at(config, job, point, reply)),
{
    reveal(turn_at);
    let ws = built_in(config, job);
    let tag = image_tag(target.context.project_id as int, job.deployment_id as int);
    let clone = clone_call(target.context.branch, target.context.repo_url, ws);
    let own = build_call(tag, None, ws);
    let added = build_call(
        tag,
        Some(written_to(config, job, Template::LaravelDockerfile)),
        ws,
    );
    assert(is_logged(config, job, target, clone));
    if target.context.app_type == "dockerfile"@ {
        assert(is_logged(config, job, target, own));
    }
    if is_laravel(target) {
        assert(is_logged(config, job, target, added));
    }
    if let Some(db) = target.database {
        assert(ProvisionView { context: target.context, database: db }.target() == target);
    }
}

#[verifier::rlimit(30)]
proof fn lemma_database_is_right(
    config: ConfigView,
    job: DeploymentJobView,
    replies: Seq<ReplyView>,
    target: TargetView,
    point: PointView,
    last: EffectView,
    reply: ReplyView,
)
    requires
        point is Database,
        about(point) == Some(target),
        awaits(config, job, point, last),
    ensures
        is_right(config, job, replies, target, turn_at(config, job, point, reply)),
{
    reveal(turn_at);
    let p = provision_at(point->Database_0);
    assert(target.database == Some(p.database) && target.context == p.context);
    if is_supported_engine(p.database.engine) {
        assert(is_logged(config, job, target, create_database_call(p.database)));
    }
}

#[verifier::rlimit(30)]
proof fn lemma_launch_is_right(
    config: ConfigView,
    job: DeploymentJobView,
    replies: Seq<ReplyView>,
    target: TargetView,
    point: PointView,
    last: EffectView,
    reply: ReplyView,
)
    requires
        point is Launch,
        about(point) == Some(target),
        awaits(config, job, point, last),
        replies.len() > 0,
        replies.last() == reply,
    ensures
        is_right(config, job, replies, target, turn_at(config, job, point, reply)),
{
    reveal(turn_at);
    match point {
        PointView::Launch(LaunchPointView::Probe(_, port)) => {
            let start = launch_call(
                target.context.project_id,
                job.deployment_id,
                port,
                config.container_port,
                target.database,
            );
            assert(is_launch(config, job, target, start, port));
            assert(is_logged(config, job, target, start));
        },
        PointView::Launch(LaunchPointView::Migrate(live)) => {
            if let ReplyView::Captured { stdout, stderr, .. } = reply {
                assert(replies[replies.len() - 1] == reply);
                assert(was_printed(replies, stdout));
                assert(was_printed(replies, stderr));
            }
        },
        _ => {},
    }
}

#[verifier::rlimit(30)]
proof fn lemma_route_is_right(
    config: ConfigView,
    job: DeploymentJobView,
    replies: Seq<ReplyView>,
    target: TargetView,
    point: PointView,
    last: EffectView,
    reply: ReplyView,
)
    requires
        point is Route,
        about(point) == Some(target),
        awaits(config, job, point, last),
    ensures
        is_right(config, job, replies, target, turn_at(config, job, point, reply)),
{
    reveal(turn_at);
    let at = point->Route_0;
    let live = live_of(at);
    match at {
        RoutePointView::Lookup(_) => {
            assert(is_routing(config, target, update_request(config, live, true), live.port));
            assert(is_routing(config, target, update_request(config, live, false), live.port));
        },
        RoutePointView::Update(_) => {
            assert(live_record(config, job, live) == record_of(config, job, live));
        },
        _ => {},
    }
}

#[verifier::rlimit(30)]
proof fn lemma_cutover_is_right(
    config: ConfigView,
    job: DeploymentJobView,
    replies: Seq<ReplyView>,
    target: TargetView,
    point: PointView,
    last: EffectView,
    reply: ReplyView,
)
    requires
        point is Cutover,
        about(point) matches Some(t) ==> t == target,
        awaits(config, job, point, last),
    ensures
        is_right(config, job, replies, target, turn_at(config, job, point, reply)),
{
    reveal(turn_at);
}

proof fn lemma_turn_is_right(
    config: ConfigView,
    job: DeploymentJobView,
    replies: Seq<ReplyView>,
    target: TargetView,
    point: PointView,
    last: EffectView,
)
    requires
        replies.len() > 0,
        about(point) == Some(target) || point == PointView::Cutover(CutoverPointView::Cleanup),
        awaits(config, job, point, last),
    ensures
        is_right(config, job, replies, target, turn_at(config, job, point, replies.last())),
{
    let reply = replies.last();
    match point {
        PointView::Source(_) => {
            lemma_source_is_right(config, job, replies, target, point, last, reply)
        },
        PointView::Database(_) => {
            lemma_database_is_right(config, job, replies, target, point, last, reply)
        },
        PointView::Launch(_) => {
            lemma_launch_is_right(config, job, replies, target, point, last, reply)
        },
        PointView::Route(_) => {
            lemma_route_is_right(config, job, replies, target, point, last, reply)
        },
        PointView::Cutover(_) => {
            lemma_cutover_is_right(config, job, replies, target, point, last, reply)
        },
        PointView::Deletion(_) => {},
    }
}

proof fn lemma_request_stays(
    config: ConfigView,
    job: DeploymentJobView,
    replies: Seq<ReplyView>,
    target: TargetView,
    effect: EffectView,
)
    requires
        replies.len() > 0,
        is_request(config, job, replies.drop_last(), target, effect),
    ensures
        is_request(config, job, replies, target, effect),
{
    if let EffectView::Execute(StatementView::InsertLog { message, .. }) = effect {
        let before = replies.drop_last();
        if was_printed(before, message) {
            let k = choose|k: int|
                0 <= k < before.len() && (#[trigger] before[k] matches ReplyView::Captured {
                    stdout,
                    stderr,
                    ..
                } && (message == stdout || message == stderr));
            assert(replies[k] == before[k]);
        }
    }
}

/// What a deployment knows and asks for after a number of replies.
pub open spec fn is_tracked(
    config: ConfigView,
    job: DeploymentJobView,
    replies: Seq<ReplyView>,
    run: RunView,
    effect: EffectView,
) -> bool {
    &&& run.config == config
    &&& run.job == job
    &&& awaits(config, job, run.point, last_of(effect, run.rest))
    &&& if replies.len() == 0 {
        run.point == PointView::Source(SourcePointView::Context) && run.rest.len() == 0
    } else if replies.len() == 1 {
        &&& replies[0] matches ReplyView::Context(context)
        &&& run.point == PointView::Source(SourcePointView::Database(context))
        &&& run.rest.len() == 0
    } else {
        &&& replies[0] is Context
        &&& replies[1] is Database
        &&& about(run.point) is Some || run.point == PointView::Cutover(CutoverPointView::Cleanup)
        &&& is_script(config, job, replies, told(replies), run.point, effect, run.rest)
    }
}

#[verifier::rlimit(30)]
proof fn lemma_step_is_tracked(
    config: ConfigView,
    job: DeploymentJobView,
    replies: Seq<ReplyView>,
    run: RunView,
    effect: EffectView,
)
    requires
        replies.len() > 0,
        is_tracked(config, job, replies.drop_last(), run, effect),
    ensures
        run.stepped(replies.last()) matches ProgressView::Pending(next, e) ==> is_tracked(
            config,
            job,
            replies,
            next,
            e,
        ),
{
    let before = replies.drop_last();
    if let ProgressView::Pending(next, e) = run.stepped(replies.last()) {
        if before.len() == 0 {
            reveal(turn_at);
        } else if before.len() == 1 {
            reveal(turn_at);
            assert(before[0] == replies[0]);
        } else {
            assert(before[0] == replies[0] && before[1] == replies[1]);
            let target = told(replies);
            if run.rest.len() > 0 {
                lemma_request_stays(config, job, replies, target, e);
                assert forall|i: int| 0 <= i < next.rest.len() implies is_request(
                    config,
                    job,
                    replies,
                    target,
                    #[trigger] next.rest[i],
                ) by {
                    assert(next.rest[i] == run.rest[i + 1]);
                    lemma_request_stays(config, job, replies, target, next.rest[i]);
                }
            } else {
                lemma_turn_is_right(config, job, replies, target, run.point, effect);
                lemma_stays_about(config, job, run.point, effect, replies.last());
            }
        }
    }
}

#[verifier::rlimit(30)]
proof fn lemma_stays_about(
    config: ConfigView,
    job: DeploymentJobView,
    point: PointView,
    last: EffectView,
    reply: ReplyView,
)
    requires
        awaits(config, job, point, last),
        about(point) is Some || point == PointView::Cutover(CutoverPointView::Cleanup),
    ensures
        turn_at(config, job, point, reply) matches TurnView::Go(next, _, _) ==> about(next) is Some
            || next == PointView::Cutover(CutoverPointView::Cleanup),
{
    reveal(turn_at);
}

pub(crate) proof fn lemma_tracked(config: ConfigView, job: DeploymentJobView, replies: Seq<ReplyView>)
    requires
        job.job_type == "deploy"@,
    ensures
        after(config, job, replies) matches ProgressView::Pending(run, effect) ==> is_tracked(
            config,
            job,
            replies,
            run,
            effect,
        ),
    decreases replies.len(),
{
    if replies.len() > 0 {
        lemma_tracked(config, job, replies.drop_last());
        if let ProgressView::Pending(run, effect) = after(config, job, replies.drop_last()) {
            lemma_step_is_tracked(config, job, replies, run, effect);
        }
    }
}

// ---------------------------------------------------------------------------
// Laws
// ---------------------------------------------------------------------------

/// A deployment first asks for the project of its row, then for the database of that project.
/// Whatever it asks for after that is right for what these two replies said and for the
/// settings.
pub proof fn law_deployments_ask_for_what_is_right(
    config: ConfigView,
    job: DeploymentJobView,
    replies: Seq<ReplyView>,
)
    requires
        job.job_type == "deploy"@,
        after(config, job, replies) is Pending,
    ensures
        ({
            let effect = after(config, job, replies)->Pending_1;
            &&& replies.len() == 0 ==> effect == EffectView::FindContext(job.deployment_id)
            &&& replies.len() >= 1 ==> replies[0] is Context
            &&& replies.len() == 1 ==> effect == EffectView::FindDatabase(
                replies[0]->Context_0.project_id,
            )
            &&& replies.len() >= 2 ==> replies[1] is Database && is_request(
                config,
                job,
                replies,
                told(replies),
                effect,
            )
        }),
{
    lemma_tracked(config, job, replies);
}

} // verus!
