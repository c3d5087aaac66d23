//! What holds of every run, whatever the outside world replies.

use vstd::prelude::*;
use crate::command::{
    find_any_call, find_running_call, is_superseded, remove_call, superseded_in, CommandView,
};
use crate::config::ConfigView;
use crate::effect::{EffectView, ReplyView};
use crate::fault::FaultView;
use crate::naming::route_key;
use crate::run::{
    begun, failed, printed_by, turn_at, LiveView, PointView, ProgressView, RunView, TargetView,
    TurnView,
};
use crate::run::cutover::{live_record, CutoverPointView};
use crate::run::database::{DatabasePointView, ProvisionView};
use crate::run::deletion::DeletionPointView;
use crate::run::launch::{no_port, probe_turn, LaunchPointView};
use crate::run::route::{lookup_turn, RoutePointView};
use crate::run::source::{job_workspace, SourcePointView};
use crate::store::{deletion_record, failure_record, DeploymentJobView, StatementView};
use crate::text::{decimal, is_blank, is_inside, lemma_decimal, lines_of, path_in, trimmed};

verus! {

/// How far a job has come after a number of replies.
pub open spec fn after(
    config: ConfigView,
    job: DeploymentJobView,
    replies: Seq<ReplyView>,
) -> ProgressView
    decreases replies.len(),
{
    if replies.len() == 0 {
        begun(config, job)
    } else {
        match after(config, job, replies.drop_last()) {
            ProgressView::Pending(run, _) => run.stepped(replies.last()),
            ended => ended,
        }
    }
}

// ---------------------------------------------------------------------------
// Every run ends
// ---------------------------------------------------------------------------

/// How many points lie ahead at most.
pub open spec fn distance(point: PointView) -> nat {
    match point {
        PointView::Source(at) => match at {
            SourcePointView::Context => 40,
            SourcePointView::Database(_) => 39,
            SourcePointView::Workspace(_) => 38,
            SourcePointView::Clone(_) => 37,
            SourcePointView::Artisan(_) => 36,
            SourcePointView::Composer(_) => 35,
            SourcePointView::Build(_) => 34,
        },
        PointView::Database(at) => match at {
            DatabasePointView::Running(_) => 33,
            DatabasePointView::Found(_) => 32,
            DatabasePointView::Connect(_) => 31,
            DatabasePointView::Stopped(_) => 30,
            DatabasePointView::Start(_) => 29,
            DatabasePointView::Missing(_) => 28,
            DatabasePointView::Create(_) => 27,
            DatabasePointView::Status(_) => 26,
        },
        PointView::Launch(at) => match at {
            LaunchPointView::Probe(_, _) => 25,
            LaunchPointView::Start(_, _) => 24,
            LaunchPointView::Migrate(_) => 23,
            LaunchPointView::Migrated(_) => 22,
        },
        PointView::Route(at) => match at {
            RoutePointView::Lookup(_) => 21,
            RoutePointView::LookupRejected(_) => 20,
            RoutePointView::Update(_) => 19,
            RoutePointView::UpdateRejected(_) => 18,
            RoutePointView::Discard(_, _) => 17,
        },
        PointView::Cutover(at) => match at {
            CutoverPointView::Complete(_) => 16,
            CutoverPointView::List(_) => 15,
            CutoverPointView::Remove(_, _, _) => 14,
            CutoverPointView::Cleanup => 13,
        },
        PointView::Deletion(at) => match at {
            DeletionPointView::Context => 12,
            DeletionPointView::Container => 11,
            DeletionPointView::Rows => 10,
        },
    }
}

/// How often a run can still come back to the point it waits at.
pub open spec fn visits(config: ConfigView, point: PointView) -> nat {
    match point {
        PointView::Launch(LaunchPointView::Probe(_, port)) => if port <= config.port_end {
            (config.port_end - port) as nat
        } else {
            0
        },
        PointView::Cutover(CutoverPointView::Remove(_, _, others)) => others.len(),
        _ => 0,
    }
}

/// A run is nearer to its end than another one of the same job.
pub open spec fn nearer(next: RunView, run: RunView) -> bool {
    ||| distance(next.point) < distance(run.point)
    ||| distance(next.point) == distance(run.point) && visits(next.config, next.point) < visits(
        run.config,
        run.point,
    )
    ||| next.point == run.point && next.config == run.config && next.rest.len() < run.rest.len()
}

/// Every reply brings a run nearer to its end.
#[verifier::rlimit(30)]
proof fn lemma_step_is_nearer(run: RunView, reply: ReplyView)
    ensures
        run.stepped(reply) matches ProgressView::Pending(next, _) ==> nearer(next, run)
            && next.config == run.config && next.job == run.job,
{
    reveal(turn_at);
}

proof fn lemma_ends_after(
    config: ConfigView,
    job: DeploymentJobView,
    replies: spec_fn(nat) -> ReplyView,
    k: nat,
    run: RunView,
) -> (n: nat)
    requires
        after(config, job, heard(replies, k)) matches ProgressView::Pending(r, _) && r == run,
    ensures
        after(config, job, heard(replies, n)) !is Pending,
    decreases distance(run.point), visits(run.config, run.point), run.rest.len(),
{
    let more = heard(replies, k + 1);
    assert(more.drop_last() =~= heard(replies, k));
    lemma_step_is_nearer(run, more.last());
    match after(config, job, more) {
        ProgressView::Pending(next, _) => lemma_ends_after(config, job, replies, k + 1, next),
        _ => k + 1,
    }
}

/// The first `n` of an endless row of replies.
pub open spec fn heard(replies: spec_fn(nat) -> ReplyView, n: nat) -> Seq<ReplyView> {
    Seq::new(n, |i: int| replies(i as nat))
}

/// Every run ends, whatever it hears.
pub proof fn law_every_run_ends(
    config: ConfigView,
    job: DeploymentJobView,
    replies: spec_fn(nat) -> ReplyView,
) -> (n: nat)
    ensures
        after(config, job, heard(replies, n)) !is Pending,
{
    assert(heard(replies, 0) =~= seq![]);
    match begun(config, job) {
        ProgressView::Pending(run, _) => lemma_ends_after(config, job, replies, 0, run),
        _ => 0,
    }
}

// ---------------------------------------------------------------------------
// Every run keeps to its own
// ---------------------------------------------------------------------------

/// The project that a run works for, once it knows it and as long as it needs it.
pub open spec fn project_of(point: PointView) -> Option<i32> {
    match point {
        PointView::Source(at) => match at {
            SourcePointView::Context => None,
            SourcePointView::Database(context) => Some(context.project_id),
            SourcePointView::Workspace(target) => Some(target.context.project_id),
            SourcePointView::Clone(target) => Some(target.context.project_id),
            SourcePointView::Artisan(target) => Some(target.context.project_id),
            SourcePointView::Composer(target) => Some(target.context.project_id),
            SourcePointView::Build(target) => Some(target.context.project_id),
        },
        PointView::Database(at) => match at {
            DatabasePointView::Running(p) => Some(p.context.project_id),
            DatabasePointView::Found(p) => Some(p.context.project_id),
            DatabasePointView::Connect(p) => Some(p.context.project_id),
            DatabasePointView::Stopped(p) => Some(p.context.project_id),
            DatabasePointView::Start(p) => Some(p.context.project_id),
            DatabasePointView::Missing(p) => Some(p.context.project_id),
            DatabasePointView::Create(p) => Some(p.context.project_id),
            DatabasePointView::Status(p) => Some(p.context.project_id),
        },
        PointView::Launch(at) => match at {
            LaunchPointView::Probe(target, _) => Some(target.context.project_id),
            LaunchPointView::Start(target, _) => Some(target.context.project_id),
            LaunchPointView::Migrate(live) => Some(live.target.context.project_id),
            LaunchPointView::Migrated(live) => Some(live.target.context.project_id),
        },
        PointView::Route(at) => match at {
            RoutePointView::Lookup(live) => Some(live.target.context.project_id),
            RoutePointView::LookupRejected(live) => Some(live.target.context.project_id),
            RoutePointView::Update(live) => Some(live.target.context.project_id),
            RoutePointView::UpdateRejected(live) => Some(live.target.context.project_id),
            RoutePointView::Discard(live, _) => Some(live.target.context.project_id),
        },
        PointView::Cutover(at) => match at {
            CutoverPointView::Complete(live) => Some(live.target.context.project_id),
            CutoverPointView::List(live) => Some(live.target.context.project_id),
            CutoverPointView::Remove(live, _, _) => Some(live.target.context.project_id),
            CutoverPointView::Cleanup => None,
        },
        PointView::Deletion(_) => None,
    }
}

/// A statement changes nothing but rows of the job, of its deployment, or of the
/// project's database.
pub open spec fn is_own_statement(
    job: DeploymentJobView,
    project: Option<i32>,
    statement: StatementView,
) -> bool {
    match statement {
        StatementView::InsertLog { deployment_id, .. } => deployment_id == job.deployment_id,
        StatementView::DeploymentRunning { deployment_id } => deployment_id == job.deployment_id,
        StatementView::JobCompleted { job_id } => job_id == job.id,
        StatementView::DeploymentSucceeded { deployment_id, .. } => deployment_id
            == job.deployment_id,
        StatementView::JobFailed { job_id } => job_id == job.id,
        StatementView::DeploymentFailed { deployment_id } => deployment_id == job.deployment_id,
        StatementView::DeleteLogs { deployment_id } => deployment_id == job.deployment_id,
        StatementView::DeleteJobs { deployment_id } => deployment_id == job.deployment_id,
        StatementView::DeleteDeployment { deployment_id } => deployment_id == job.deployment_id,
        StatementView::DatabaseStatus { project_id, .. } => project == Some(project_id),
    }
}

/// A command of one of the two programs that a run may call.
pub open spec fn is_tool(command: CommandView) -> bool {
    command.program == "git"@ || command.program == "docker"@
}

/// A piece of outside work is a command of `git` or `docker`, logged to no deployment but
/// the job's, or it touches no files but those in the job's workspace, no rows but its own,
/// no ports out of the configured range and no address but the proxy's.
pub open spec fn is_own(
    config: ConfigView,
    job: DeploymentJobView,
    project: Option<i32>,
    effect: EffectView,
) -> bool {
    match effect {
        EffectView::FindContext(deployment_id) => deployment_id == job.deployment_id,
        EffectView::FindDatabase(project_id) => project == Some(project_id),
        EffectView::Execute(statement) => is_own_statement(job, project, statement),
        EffectView::Commit(record) => forall|i: int|
            0 <= i < record.len() ==> is_own_statement(job, project, #[trigger] record[i]),
        EffectView::PathExists(path) => is_inside(job_workspace(config, job), path),
        EffectView::RemoveTree(path) => is_inside(job_workspace(config, job), path),
        EffectView::CreateDir(path) => is_inside(job_workspace(config, job), path),
        EffectView::WriteTemplate(path, _) => is_inside(job_workspace(config, job), path),
        EffectView::ProbePort(port) => config.port_start <= port <= config.port_end,
        EffectView::Request { url, .. } => config.caddy_admin_url.is_prefix_of(url),
        EffectView::RunLogged(deployment_id, command) => deployment_id == job.deployment_id
            && is_tool(command),
        EffectView::RunCaptured(command) => is_tool(command),
        EffectView::RunWatched(command) => is_tool(command),
        EffectView::Sleep(_) => true,
        EffectView::ReadBody => true,
    }
}

/// A container on one of the configured ports.
pub open spec fn is_sound(config: ConfigView, live: LiveView) -> bool {
    live.container_id.len() > 0 && config.port_start <= live.port <= config.port_end
}

/// A request to remove some container.
pub open spec fn removes(effect: EffectView) -> bool {
    effect matches EffectView::RunWatched(command) && command.args.len() == 3 && command.args[0]
        == "rm"@
}

/// What ties a run to the effect it waits for.
pub open spec fn is_coherent(run: RunView, effect: EffectView) -> bool {
    let (config, job) = (run.config, run.job);
    let project = project_of(run.point);
    &&& is_own(config, job, project, effect)
    &&& forall|i: int|
        0 <= i < run.rest.len() ==> is_own(config, job, project, #[trigger] run.rest[i])
    &&& match run.point {
        PointView::Source(SourcePointView::Workspace(_)) => run.rest.len() == 0 && effect
            == EffectView::PathExists(job_workspace(config, job)),
        PointView::Source(SourcePointView::Clone(_)) => (effect is RemoveTree ==> effect
            == EffectView::RemoveTree(job_workspace(config, job))) && forall|i: int|
            0 <= i < run.rest.len() ==> #[trigger] run.rest[i] !is RemoveTree,
        PointView::Database(DatabasePointView::Running(p)) => {
            let find = EffectView::RunCaptured(find_running_call(p.database.container_name));
            run.rest.len() == 0 && effect == find || run.rest == seq![find]
        },
        PointView::Database(DatabasePointView::Stopped(p)) => run.rest.len() == 0 && effect
            == EffectView::RunCaptured(find_any_call(p.database.container_name)),
        PointView::Database(DatabasePointView::Missing(_)) => run.rest.len() == 0,
        PointView::Launch(LaunchPointView::Probe(_, port)) => config.port_start <= port
            <= config.port_end && effect == EffectView::ProbePort(port) && run.rest.len() == 0,
        PointView::Launch(LaunchPointView::Start(_, port)) => config.port_start <= port
            <= config.port_end,
        PointView::Launch(LaunchPointView::Migrate(live)) => is_sound(config, live),
        PointView::Launch(LaunchPointView::Migrated(live)) => is_sound(config, live),
        PointView::Route(RoutePointView::Discard(live, _)) => run.rest.len() == 0 && effect
            == EffectView::RunWatched(remove_call(live.container_id)) && is_sound(config, live),
        PointView::Route(RoutePointView::Lookup(live)) => run.rest.len() == 0 && is_sound(
            config,
            live,
        ),
        PointView::Route(RoutePointView::LookupRejected(live)) => run.rest.len() == 0 && is_sound(
            config,
            live,
        ),
        PointView::Route(RoutePointView::Update(live)) => run.rest.len() == 0 && is_sound(
            config,
            live,
        ),
        PointView::Route(RoutePointView::UpdateRejected(live)) => run.rest.len() == 0 && is_sound(
            config,
            live,
        ),
        PointView::Cutover(CutoverPointView::Complete(live)) => run.rest.len() == 0 && effect
            == live_record(config, job, live) && is_sound(config, live),
        PointView::Cutover(CutoverPointView::List(live)) => run.rest.len() == 0 && is_sound(
            config,
            live,
        ),
        PointView::Cutover(CutoverPointView::Remove(live, container, others)) => run.rest.len()
            == 0 && effect == EffectView::RunWatched(remove_call(container)) && is_sound(
            config,
            live,
        ) && is_superseded(container, live.container_id) && forall|i: int|
            0 <= i < others.len() ==> is_superseded(#[trigger] others[i], live.container_id),
        PointView::Cutover(CutoverPointView::Cleanup) => run.rest.len() == 0,
        PointView::Deletion(at) => run.rest.len() == 0 && (at is Rows ==> effect
            == EffectView::Commit(deletion_record(job.deployment_id))),
        _ => true,
    }
    &&& (run.point is Source || run.point is Database || run.point is Launch) ==> {
        &&& !removes(effect) && effect !is Commit
        &&& forall|i: int|
            0 <= i < run.rest.len() ==> !removes(#[trigger] run.rest[i]) && run.rest[i] !is Commit
    }
    &&& run.point is Route ==> effect !is Commit
    &&& removes(effect) ==> {
        ||| run.point matches PointView::Route(RoutePointView::Discard(_, _))
        ||| run.point matches PointView::Cutover(CutoverPointView::Remove(_, _, _))
        ||| run.point is Deletion
    }
    &&& (run.point is Deletion ==> job.job_type == "delete"@)
    &&& (run.point !is Deletion ==> job.job_type == "deploy"@)
}

proof fn lemma_workspace(config: ConfigView, job: DeploymentJobView, name: Seq<char>)
    ensures
        ({
            let ws = job_workspace(config, job);
            &&& ws.len() > 0
            &&& ws.last() != '/'
            &&& is_inside(ws, path_in(ws, name))
        }),
{
    let ws = job_workspace(config, job);
    lemma_decimal(job.deployment_id as int);
    assert(ws.last() == decimal(job.deployment_id as int).last());
    let dir = ws + seq!['/'];
    assert(path_in(ws, name).subrange(0, dir.len() as int) =~= dir);
}

pub(crate) proof fn lemma_kinds_differ()
    ensures
        "deploy"@ != "delete"@,
{
    reveal_strlit("deploy");
    reveal_strlit("delete");
    assert("deploy"@[2] != "delete"@[2]);
}

pub(crate) proof fn lemma_removed_container(a: Seq<char>, b: Seq<char>)
    requires
        remove_call(a) == remove_call(b),
    ensures
        a == b,
{
    assert(remove_call(a).args[2] == a);
    assert(remove_call(b).args[2] == b);
}

proof fn lemma_begun_is_coherent(config: ConfigView, job: DeploymentJobView)
    ensures
        begun(config, job) matches ProgressView::Pending(run, effect) ==> is_coherent(run, effect)
            && run.config == config && run.job == job,
{
}

proof fn lemma_prefix(base: Seq<char>, a: Seq<char>, b: Seq<char>, c: Seq<char>)
    ensures
        base.is_prefix_of(base + a + b),
        base.is_prefix_of(base + a + b + c),
{
    assert((base + a + b).subrange(0, base.len() as int) =~= base);
    assert((base + a + b + c).subrange(0, base.len() as int) =~= base);
}

#[verifier::rlimit(30)]
proof fn lemma_source_is_coherent(run: RunView, effect: EffectView, reply: ReplyView)
    requires
        is_coherent(run, effect),
        run.point is Source,
    ensures
        run.stepped(reply) matches ProgressView::Pending(next, asked) ==> is_coherent(next, asked),
{
    reveal(turn_at);
    let (config, job) = (run.config, run.job);
    lemma_workspace(config, job, "artisan"@);
    lemma_workspace(config, job, "composer.json"@);
    lemma_workspace(config, job, ".deploynest"@);
}

proof fn lemma_probe_is_coherent(config: ConfigView, job: DeploymentJobView, target: TargetView)
    requires
        job.job_type == "deploy"@,
    ensures
        probe_turn(config, target) matches TurnView::Go(point, first, rest) ==> is_coherent(
            RunView { config, job, point, rest },
            first,
        ),
{
}

proof fn lemma_lookup_is_coherent(config: ConfigView, job: DeploymentJobView, live: LiveView)
    requires
        is_sound(config, live),
        job.job_type == "deploy"@,
    ensures
        lookup_turn(config, live) matches TurnView::Go(point, first, rest) ==> is_coherent(
            RunView { config, job, point, rest },
            first,
        ),
{
    lemma_prefix(
        config.caddy_admin_url,
        "/id/"@,
        route_key(live.target.context.project_id as int),
        seq![],
    );
}

#[verifier::rlimit(30)]
proof fn lemma_database_is_coherent(run: RunView, effect: EffectView, reply: ReplyView)
    requires
        is_coherent(run, effect),
        run.point is Database,
    ensures
        run.stepped(reply) matches ProgressView::Pending(next, asked) ==> is_coherent(next, asked),
{
    reveal(turn_at);
    if let PointView::Database(DatabasePointView::Status(p)) = run.point {
        lemma_probe_is_coherent(run.config, run.job, p.target());
    }
}

#[verifier::rlimit(30)]
proof fn lemma_launch_is_coherent(run: RunView, effect: EffectView, reply: ReplyView)
    requires
        is_coherent(run, effect),
        run.point is Launch,
    ensures
        run.stepped(reply) matches ProgressView::Pending(next, asked) ==> is_coherent(next, asked),
{
    reveal(turn_at);
    let (config, job) = (run.config, run.job);
    match run.point {
        PointView::Launch(LaunchPointView::Start(target, port)) => {
            if let Ok(text) = printed_by("docker"@, reply) {
                if !is_blank(text) {
                    lemma_lookup_is_coherent(
                        config,
                        job,
                        LiveView { target, port, container_id: trimmed(text) },
                    );
                }
            }
        },
        PointView::Launch(LaunchPointView::Migrated(live)) => {
            lemma_lookup_is_coherent(config, job, live);
        },
        _ => {},
    }
}

#[verifier::rlimit(30)]
proof fn lemma_route_is_coherent(run: RunView, effect: EffectView, reply: ReplyView)
    requires
        is_coherent(run, effect),
        run.point is Route,
    ensures
        run.stepped(reply) matches ProgressView::Pending(next, asked) ==> is_coherent(next, asked),
{
    reveal(turn_at);
    let (config, job) = (run.config, run.job);
    if let PointView::Route(RoutePointView::Lookup(live)) = run.point {
        lemma_prefix(
            config.caddy_admin_url,
            "/id/"@,
            route_key(live.target.context.project_id as int),
            seq![],
        );
        lemma_prefix(
            config.caddy_admin_url,
            "/config/apps/http/servers/"@,
            config.caddy_server,
            "/routes/0"@,
        );
    }
}

#[verifier::rlimit(30)]
proof fn lemma_cutover_is_coherent(run: RunView, effect: EffectView, reply: ReplyView)
    requires
        is_coherent(run, effect),
        run.point is Cutover,
    ensures
        run.stepped(reply) matches ProgressView::Pending(next, asked) ==> is_coherent(next, asked),
{
    reveal(turn_at);
    if let PointView::Cutover(CutoverPointView::List(live)) = run.point {
        if let ReplyView::Captured { stdout, .. } = reply {
            let p = |container: Seq<char>| is_superseded(container, live.container_id);
            let list = superseded_in(stdout, live.container_id);
            assert forall|i: int| 0 <= i < list.len() implies is_superseded(
                #[trigger] list[i],
                live.container_id,
            ) by {
                lines_of(stdout).lemma_filter_pred(p, i);
            }
        }
    }
}

proof fn lemma_step_is_coherent(run: RunView, effect: EffectView, reply: ReplyView)
    requires
        is_coherent(run, effect),
    ensures
        run.stepped(reply) matches ProgressView::Pending(next, asked) ==> is_coherent(next, asked)
            && next.config == run.config && next.job == run.job,
{
    reveal(turn_at);
    match run.point {
        PointView::Source(_) => lemma_source_is_coherent(run, effect, reply),
        PointView::Database(_) => lemma_database_is_coherent(run, effect, reply),
        PointView::Launch(_) => lemma_launch_is_coherent(run, effect, reply),
        PointView::Route(_) => lemma_route_is_coherent(run, effect, reply),
        PointView::Cutover(_) => lemma_cutover_is_coherent(run, effect, reply),
        PointView::Deletion(_) => {},
    }
}

pub(crate) proof fn lemma_coherent(
    config: ConfigView,
    job: DeploymentJobView,
    replies: Seq<ReplyView>,
)
    ensures
        after(config, job, replies) matches ProgressView::Pending(run, effect) ==> is_coherent(
            run,
            effect,
        ) && run.config == config && run.job == job,
    decreases replies.len(),
{
    if replies.len() == 0 {
        lemma_begun_is_coherent(config, job);
    } else {
        lemma_coherent(config, job, replies.drop_last());
        if let ProgressView::Pending(run, effect) = after(config, job, replies.drop_last()) {
            lemma_step_is_coherent(run, effect, replies.last());
        }
    }
}

/// Whatever a run hears, it runs no commands but those of `git` and `docker`, their lines go
/// to no log but that of its deployment, and what else it asks for touches no files but
/// those in the workspace of its deployment, no rows but its own, no ports out of the
/// configured range and no address but the proxy's.
pub proof fn law_runs_keep_to_their_own(
    config: ConfigView,
    job: DeploymentJobView,
    replies: Seq<ReplyView>,
)
    ensures
        after(config, job, replies) matches ProgressView::Pending(run, effect) ==> is_own(
            config,
            job,
            project_of(run.point),
            effect,
        ),
{
    lemma_coherent(config, job, replies);
}

/// A job that fails is recorded as failed, with the message of its fault.
pub proof fn law_failure_is_recorded(
    config: ConfigView,
    job: DeploymentJobView,
    replies: Seq<ReplyView>,
)
    ensures
        after(config, job, replies) matches ProgressView::Failed(fault, record) ==> record
            == failure_record(job, fault.message),
    decreases replies.len(),
{
    if replies.len() > 0 {
        law_failure_is_recorded(config, job, replies.drop_last());
        lemma_coherent(config, job, replies.drop_last());
    }
}

// ---------------------------------------------------------------------------
// When a deployment counts as served
// ---------------------------------------------------------------------------

/// What a run asked for after the first `k` of the replies.
pub open spec fn asked(
    config: ConfigView,
    job: DeploymentJobView,
    replies: Seq<ReplyView>,
    k: int,
) -> Option<EffectView> {
    match after(config, job, replies.take(k)) {
        ProgressView::Pending(_, effect) => Some(effect),
        _ => None,
    }
}

/// An effect was asked for and among the replies is one to it that satisfies `p`.
pub open spec fn was_answered(
    config: ConfigView,
    job: DeploymentJobView,
    replies: Seq<ReplyView>,
    effect: EffectView,
    p: spec_fn(ReplyView) -> bool,
) -> bool {
    exists|k: int|
        0 <= k < replies.len() && #[trigger] asked(config, job, replies, k) == Some(effect) && p(
            replies[k],
        )
}

/// An effect was asked for and is done.
pub open spec fn was_done(
    config: ConfigView,
    job: DeploymentJobView,
    replies: Seq<ReplyView>,
    effect: EffectView,
) -> bool {
    was_answered(config, job, replies, effect, |reply: ReplyView| reply == ReplyView::Ready)
}

/// The deployment was recorded as served by this container.
pub open spec fn was_recorded(
    config: ConfigView,
    job: DeploymentJobView,
    replies: Seq<ReplyView>,
    live: LiveView,
) -> bool {
    is_sound(config, live) && was_done(config, job, replies, live_record(config, job, live))
}

pub(crate) proof fn lemma_asked_before(
    config: ConfigView,
    job: DeploymentJobView,
    replies: Seq<ReplyView>,
    k: int,
)
    requires
        0 <= k < replies.len(),
    ensures
        k < replies.len() - 1 ==> asked(config, job, replies, k) == asked(
            config,
            job,
            replies.drop_last(),
            k,
        ),
        k < replies.len() - 1 ==> replies.take(k) == replies.drop_last().take(k),
        replies.take(replies.len() - 1) == replies.drop_last(),
{
    if k < replies.len() - 1 {
        assert(replies.take(k) =~= replies.drop_last().take(k));
    }
    assert(replies.take(replies.len() - 1) =~= replies.drop_last());
}

pub(crate) proof fn lemma_answer_stays(
    config: ConfigView,
    job: DeploymentJobView,
    replies: Seq<ReplyView>,
    effect: EffectView,
    p: spec_fn(ReplyView) -> bool,
)
    requires
        replies.len() > 0,
        was_answered(config, job, replies.drop_last(), effect, p),
    ensures
        was_answered(config, job, replies, effect, p),
{
    let before = replies.drop_last();
    let k = choose|k: int|
        0 <= k < before.len() && #[trigger] asked(config, job, before, k) == Some(effect) && p(
            before[k],
        );
    assert(before.take(k) =~= replies.take(k));
    assert(asked(config, job, replies, k) == Some(effect));
}

pub(crate) proof fn lemma_answer_now(
    config: ConfigView,
    job: DeploymentJobView,
    replies: Seq<ReplyView>,
    effect: EffectView,
    p: spec_fn(ReplyView) -> bool,
)
    requires
        replies.len() > 0,
        after(config, job, replies.drop_last()) matches ProgressView::Pending(_, e) && e == effect,
        p(replies.last()),
    ensures
        was_answered(config, job, replies, effect, p),
{
    let k = replies.len() - 1;
    assert(replies.take(k) =~= replies.drop_last());
    assert(asked(config, job, replies, k) == Some(effect));
}

/// The only ways into the points that follow the record, and into success.
#[verifier::rlimit(30)]
proof fn lemma_into_cutover(run: RunView, effect: EffectView, reply: ReplyView)
    requires
        is_coherent(run, effect),
    ensures
        match run.stepped(reply) {
            ProgressView::Pending(next, _) => match next.point {
                PointView::Cutover(CutoverPointView::List(live)) => run.point
                    == PointView::Cutover(CutoverPointView::Complete(live)) && reply
                    == ReplyView::Ready && effect == live_record(run.config, run.job, live)
                    && is_sound(run.config, live),
                PointView::Cutover(CutoverPointView::Remove(live, _, _)) => holds_live(
                    run.point,
                    live,
                ),
                PointView::Cutover(CutoverPointView::Cleanup) => exists|live: LiveView|
                    holds_live(run.point, live),
                _ => true,
            },
            ProgressView::Succeeded => run.point == PointView::Cutover(CutoverPointView::Cleanup)
                || run.point == PointView::Deletion(DeletionPointView::Rows) && reply
                == ReplyView::Ready && effect == EffectView::Commit(
                deletion_record(run.job.deployment_id),
            ),
            ProgressView::Failed(_, _) => true,
        },
{
    reveal(turn_at);
    match run.point {
        PointView::Cutover(CutoverPointView::List(live)) => {
            assert(holds_live(run.point, live));
        },
        PointView::Cutover(CutoverPointView::Remove(live, _, _)) => {
            assert(holds_live(run.point, live));
        },
        _ => {},
    }
}

/// A point after the record of this container, before the workspace is removed.
spec fn holds_live(point: PointView, live: LiveView) -> bool {
    match point {
        PointView::Cutover(CutoverPointView::List(l)) => l == live,
        PointView::Cutover(CutoverPointView::Remove(l, _, _)) => l == live,
        _ => false,
    }
}

proof fn lemma_recorded(config: ConfigView, job: DeploymentJobView, replies: Seq<ReplyView>)
    ensures
        match after(config, job, replies) {
            ProgressView::Pending(run, _) => match run.point {
                PointView::Cutover(CutoverPointView::List(live)) => was_recorded(
                    config,
                    job,
                    replies,
                    live,
                ),
                PointView::Cutover(CutoverPointView::Remove(live, _, _)) => was_recorded(
                    config,
                    job,
                    replies,
                    live,
                ),
                PointView::Cutover(CutoverPointView::Cleanup) => exists|live: LiveView|
                    was_recorded(config, job, replies, live),
                _ => true,
            },
            ProgressView::Succeeded => if job.job_type == "deploy"@ {
                exists|live: LiveView| was_recorded(config, job, replies, live)
            } else {
                was_done(
                    config,
                    job,
                    replies,
                    EffectView::Commit(deletion_record(job.deployment_id)),
                )
            },
            ProgressView::Failed(_, _) => true,
        },
    decreases replies.len(),
{
    lemma_kinds_differ();
    let ready = |reply: ReplyView| reply == ReplyView::Ready;
    if replies.len() > 0 {
        let before = replies.drop_last();
        lemma_recorded(config, job, before);
        lemma_coherent(config, job, before);
        match after(config, job, before) {
            ProgressView::Pending(run, effect) => {
                lemma_into_cutover(run, effect, replies.last());
                if replies.last() == ReplyView::Ready {
                    lemma_answer_now(config, job, replies, effect, ready);
                }
                assert forall|live: LiveView| was_recorded(config, job, before, live) implies
                    was_recorded(config, job, replies, live) by {
                    lemma_answer_stays(config, job, replies, live_record(config, job, live), ready);
                }
            },
            ProgressView::Succeeded => {
                if job.job_type == "deploy"@ {
                    let live = choose|live: LiveView| was_recorded(config, job, before, live);
                    lemma_answer_stays(config, job, replies, live_record(config, job, live), ready);
                    assert(was_recorded(config, job, replies, live));
                } else {
                    lemma_answer_stays(
                        config,
                        job,
                        replies,
                        EffectView::Commit(deletion_record(job.deployment_id)),
                        ready,
                    );
                }
            },
            ProgressView::Failed(_, _) => {},
        }
    }
}

/// A deployment succeeds only after it was recorded as served, by a container that
/// Docker named, on a port of the configured range.
pub proof fn law_success_is_recorded(
    config: ConfigView,
    job: DeploymentJobView,
    replies: Seq<ReplyView>,
)
    requires
        job.job_type == "deploy"@,
        after(config, job, replies) is Succeeded,
    ensures
        exists|live: LiveView| was_recorded(config, job, replies, live),
{
    lemma_recorded(config, job, replies);
}

/// A removal succeeds only after every row of the deployment is gone.
pub proof fn law_removal_is_recorded(
    config: ConfigView,
    job: DeploymentJobView,
    replies: Seq<ReplyView>,
)
    requires
        job.job_type == "delete"@,
        after(config, job, replies) is Succeeded,
    ensures
        was_done(config, job, replies, EffectView::Commit(deletion_record(job.deployment_id))),
{
    lemma_kinds_differ();
    lemma_recorded(config, job, replies);
}

proof fn lemma_nothing_committed(
    config: ConfigView,
    job: DeploymentJobView,
    replies: Seq<ReplyView>,
)
    requires
        job.job_type == "deploy"@,
        after(config, job, replies) matches ProgressView::Pending(run, _) && run.point !is Cutover,
    ensures
        forall|k: int|
            0 <= k < replies.len() ==> !(#[trigger] asked(config, job, replies, k) matches Some(
                EffectView::Commit(_),
            )),
    decreases replies.len(),
{
    reveal(turn_at);
    lemma_kinds_differ();
    if replies.len() > 0 {
        let before = replies.drop_last();
        lemma_coherent(config, job, before);
        let run = after(config, job, before)->Pending_0;
        assert(run.point !is Cutover);
        lemma_nothing_committed(config, job, before);
        assert forall|k: int| 0 <= k < replies.len() implies !(#[trigger] asked(
            config,
            job,
            replies,
            k,
        ) matches Some(EffectView::Commit(_))) by {
            if k < before.len() {
                assert(before.take(k) =~= replies.take(k));
                assert(asked(config, job, before, k) == asked(config, job, replies, k));
            } else {
                assert(replies.take(k) =~= before);
            }
        }
    }
}

/// Until the proxy has been pointed at its container, a deployment is not recorded as
/// served, nor is anything else committed for it.
pub proof fn law_nothing_is_recorded_unserved(
    config: ConfigView,
    job: DeploymentJobView,
    replies: Seq<ReplyView>,
)
    requires
        job.job_type == "deploy"@,
        after(config, job, replies) matches ProgressView::Pending(run, _) && run.point !is Cutover,
    ensures
        forall|k: int|
            0 <= k < replies.len() ==> !(#[trigger] asked(config, job, replies, k) matches Some(
                EffectView::Commit(_),
            )),
{
    lemma_nothing_committed(config, job, replies);
}

// ---------------------------------------------------------------------------
// What a run makes sure of before it goes on
// ---------------------------------------------------------------------------

/// The workspace was reported missing or has been removed.
pub open spec fn is_fresh(
    config: ConfigView,
    job: DeploymentJobView,
    replies: Seq<ReplyView>,
) -> bool {
    let ws = job_workspace(config, job);
    ||| was_answered(
        config,
        job,
        replies,
        EffectView::PathExists(ws),
        |reply: ReplyView| reply == ReplyView::Exists(false),
    )
    ||| was_done(config, job, replies, EffectView::RemoveTree(ws))
}

/// A captured command printed nothing but white space.
pub open spec fn printed_nothing(reply: ReplyView) -> bool {
    reply matches ReplyView::Captured { stdout, .. } && is_blank(stdout)
}

/// A look for something came back empty.
pub open spec fn found_none(
    config: ConfigView,
    job: DeploymentJobView,
    replies: Seq<ReplyView>,
    look: CommandView,
) -> bool {
    was_answered(
        config,
        job,
        replies,
        EffectView::RunCaptured(look),
        |reply: ReplyView| printed_nothing(reply),
    )
}

/// The only ways to a clone and to the points that follow a look for a database.
#[verifier::rlimit(30)]
proof fn lemma_into_guarded(run: RunView, effect: EffectView, reply: ReplyView)
    requires
        is_coherent(run, effect),
    ensures
        run.stepped(reply) matches ProgressView::Pending(next, asked) ==> match next.point {
            PointView::Source(SourcePointView::Clone(_)) => asked is RemoveTree || (run.point
                matches PointView::Source(SourcePointView::Clone(_)) && (effect !is RemoveTree
                || reply == ReplyView::Ready && effect == EffectView::RemoveTree(
                job_workspace(run.config, run.job),
            ))) || effect == EffectView::PathExists(job_workspace(run.config, run.job)) && reply
                == ReplyView::Exists(false),
            PointView::Database(DatabasePointView::Stopped(p)) => effect
                == EffectView::RunCaptured(find_running_call(p.database.container_name))
                && printed_nothing(reply),
            PointView::Database(DatabasePointView::Missing(p)) => run.point
                == PointView::Database(DatabasePointView::Stopped(p)) && effect
                == EffectView::RunCaptured(find_any_call(p.database.container_name))
                && printed_nothing(reply),
            PointView::Database(DatabasePointView::Create(p)) => run.point
                == PointView::Database(DatabasePointView::Missing(p)) || run.point
                == PointView::Database(DatabasePointView::Create(p)),
            _ => true,
        },
{
    reveal(turn_at);
}

proof fn lemma_guarded(config: ConfigView, job: DeploymentJobView, replies: Seq<ReplyView>)
    ensures
        after(config, job, replies) matches ProgressView::Pending(run, effect) ==> match run.point {
            PointView::Source(SourcePointView::Clone(_)) => effect is RemoveTree || is_fresh(
                config,
                job,
                replies,
            ),
            PointView::Database(DatabasePointView::Stopped(p)) => found_none(
                config,
                job,
                replies,
                find_running_call(p.database.container_name),
            ),
            PointView::Database(DatabasePointView::Missing(p)) => found_none(
                config,
                job,
                replies,
                find_running_call(p.database.container_name),
            ) && found_none(config, job, replies, find_any_call(p.database.container_name)),
            PointView::Database(DatabasePointView::Create(p)) => found_none(
                config,
                job,
                replies,
                find_running_call(p.database.container_name),
            ) && found_none(config, job, replies, find_any_call(p.database.container_name)),
            _ => true,
        },
    decreases replies.len(),
{
    if replies.len() > 0 {
        let before = replies.drop_last();
        lemma_guarded(config, job, before);
        lemma_coherent(config, job, before);
        if let ProgressView::Pending(run, effect) = after(config, job, before) {
            let ws = job_workspace(config, job);
            let ready = |reply: ReplyView| reply == ReplyView::Ready;
            let missing = |reply: ReplyView| reply == ReplyView::Exists(false);
            let nothing = |reply: ReplyView| printed_nothing(reply);
            lemma_into_guarded(run, effect, replies.last());
            if ready(replies.last()) {
                lemma_answer_now(config, job, replies, effect, ready);
            }
            if missing(replies.last()) {
                lemma_answer_now(config, job, replies, effect, missing);
            }
            if nothing(replies.last()) {
                lemma_answer_now(config, job, replies, effect, nothing);
            }
            if was_answered(config, job, before, EffectView::PathExists(ws), missing) {
                lemma_answer_stays(config, job, replies, EffectView::PathExists(ws), missing);
            }
            if was_answered(config, job, before, EffectView::RemoveTree(ws), ready) {
                lemma_answer_stays(config, job, replies, EffectView::RemoveTree(ws), ready);
            }
            assert forall|look: CommandView| found_none(config, job, before, look) implies found_none(
                config,
                job,
                replies,
                look,
            ) by {
                lemma_answer_stays(config, job, replies, EffectView::RunCaptured(look), nothing);
            }
        }
    }
}

/// The source is fetched only into a workspace that was missing or has been removed.
pub proof fn law_source_is_fetched_afresh(
    config: ConfigView,
    job: DeploymentJobView,
    replies: Seq<ReplyView>,
)
    requires
        after(config, job, replies) matches ProgressView::Pending(run, effect) && run.point
            matches PointView::Source(SourcePointView::Clone(_)) && effect is RunLogged,
    ensures
        is_fresh(config, job, replies),
{
    lemma_guarded(config, job, replies);
}

/// A database container is created only after two looks, one among the running
/// containers and one among all, found none of its name.
pub proof fn law_database_is_created_only_if_missing(
    config: ConfigView,
    job: DeploymentJobView,
    replies: Seq<ReplyView>,
    p: ProvisionView,
)
    requires
        after(config, job, replies) matches ProgressView::Pending(run, _) && run.point
            == PointView::Database(DatabasePointView::Create(p)),
    ensures
        found_none(config, job, replies, find_running_call(p.database.container_name)),
        found_none(config, job, replies, find_any_call(p.database.container_name)),
{
    lemma_guarded(config, job, replies);
}

// ---------------------------------------------------------------------------
// Single steps
// ---------------------------------------------------------------------------

/// A run that goes on whatever it hears, or that has a container to remove first.
pub open spec fn outlives_faults(run: RunView) -> bool {
    ||| run.point is Route
    ||| run.point matches PointView::Database(DatabasePointView::Connect(_))
    ||| run.point == PointView::Deletion(DeletionPointView::Container)
}

/// Work that cannot be done fails the job at once, with its fault.
pub proof fn law_faults_fail_the_job(run: RunView, fault: FaultView)
    requires
        run.rest.len() > 0 || !outlives_faults(run),
    ensures
        run.stepped(ReplyView::Failed(fault)) == failed(run.job, fault),
{
    reveal(turn_at);
}

/// The container that a run is about to point the proxy at, if it is at that point.
pub open spec fn unserved(run: RunView) -> Option<LiveView> {
    match run.point {
        PointView::Route(RoutePointView::Lookup(live)) => Some(live),
        PointView::Route(RoutePointView::LookupRejected(live)) => Some(live),
        PointView::Route(RoutePointView::Update(live)) => Some(live),
        PointView::Route(RoutePointView::UpdateRejected(live)) => Some(live),
        _ => None,
    }
}

/// A run whose container is up never fails over the proxy without asking for the
/// container to be removed. Once it has asked, it fails with the proxy's fault, whether
/// or not the removal works.
pub proof fn law_unserved_container_is_discarded(run: RunView, reply: ReplyView, reply2: ReplyView)
    requires
        unserved(run) is Some,
        run.rest.len() == 0,
    ensures
        ({
            let live = unserved(run)->0;
            match run.stepped(reply) {
                ProgressView::Pending(next, effect) => match next.point {
                    PointView::Route(RoutePointView::Discard(l, fault)) => l == live && effect
                        == EffectView::RunWatched(remove_call(live.container_id)) && next.stepped(
                        reply2,
                    ) == failed(run.job, fault),
                    PointView::Cutover(CutoverPointView::Complete(l)) => l == live,
                    _ => unserved(next) == Some(live),
                },
                _ => false,
            }
        }),
{
    reveal(turn_at);
}

/// Whether a database container could be joined to the network, and whether the
/// container of a removed deployment could be removed, makes no difference.
pub proof fn law_best_effort_is_ignored(run: RunView, reply: ReplyView, reply2: ReplyView)
    requires
        run.rest.len() == 0,
        run.point matches PointView::Database(DatabasePointView::Connect(_)) || run.point
            == PointView::Deletion(DeletionPointView::Container),
    ensures
        run.stepped(reply) == run.stepped(reply2),
{
    reveal(turn_at);
}

// ---------------------------------------------------------------------------
// Ports
// ---------------------------------------------------------------------------

/// Where the search for a port ends, given which ports are free.
pub open spec fn searched(run: RunView, free: spec_fn(u16) -> bool) -> ProgressView
    decreases visits(run.config, run.point),
{
    match run.point {
        PointView::Launch(LaunchPointView::Probe(_, port)) => match run.stepped(
            ReplyView::Port(free(port)),
        ) {
            ProgressView::Pending(next, effect) => if visits(next.config, next.point) < visits(
                run.config,
                run.point,
            ) && next.point matches PointView::Launch(LaunchPointView::Probe(_, _)) {
                searched(next, free)
            } else {
                ProgressView::Pending(next, effect)
            },
            ended => ended,
        },
        _ => arbitrary(),
    }
}

/// The search ends at the first free port from `port` on, or fails where there is
/// none.
pub open spec fn is_first_free(
    config: ConfigView,
    port: u16,
    free: spec_fn(u16) -> bool,
    found: u16,
) -> bool {
    &&& port <= found <= config.port_end
    &&& free(found)
    &&& forall|p: u16| port <= p < found ==> !#[trigger] free(p)
}

proof fn lemma_probe(run: RunView, target: TargetView, port: u16, free: bool)
    requires
        run.point == PointView::Launch(LaunchPointView::Probe(target, port)),
        run.rest.len() == 0,
    ensures
        match run.stepped(ReplyView::Port(free)) {
            ProgressView::Pending(next, _) => if free {
                next.point == PointView::Launch(LaunchPointView::Start(target, port))
            } else {
                &&& port < run.config.port_end
                &&& next.point == PointView::Launch(
                    LaunchPointView::Probe(target, (port + 1) as u16),
                )
                &&& next.rest.len() == 0
                &&& next.config == run.config
            },
            ProgressView::Failed(fault, _) => !free && port >= run.config.port_end && fault
                == no_port(run.config),
            ProgressView::Succeeded => false,
        },
{
    reveal(turn_at);
}

proof fn lemma_search(run: RunView, target: TargetView, port: u16, free: spec_fn(u16) -> bool)
    requires
        run.point == PointView::Launch(LaunchPointView::Probe(target, port)),
        run.rest.len() == 0,
        port <= run.config.port_end,
    ensures
        match searched(run, free) {
            ProgressView::Pending(next, _) => next.point matches PointView::Launch(
                LaunchPointView::Start(t, found),
            ) && t == target && is_first_free(run.config, port, free, found),
            ProgressView::Failed(fault, _) => fault == no_port(run.config) && forall|p: u16|
                port <= p <= run.config.port_end ==> !#[trigger] free(p),
            ProgressView::Succeeded => false,
        },
    decreases run.config.port_end - port,
{
    lemma_probe(run, target, port, free(port));
    if !free(port) && port < run.config.port_end {
        let next = run.stepped(ReplyView::Port(false))->Pending_0;
        lemma_search(next, target, (port + 1) as u16, free);
    }
}

/// A deployment gets the first free port of the configured range, and fails for want
/// of a port exactly where none of the range is free.
pub proof fn law_first_free_port_is_taken(
    config: ConfigView,
    job: DeploymentJobView,
    target: TargetView,
    free: spec_fn(u16) -> bool,
)
    ensures
        match probe_turn(config, target) {
            TurnView::Go(point, _, rest) => match searched(
                RunView { config, job, point, rest },
                free,
            ) {
                ProgressView::Pending(next, _) => next.point matches PointView::Launch(
                    LaunchPointView::Start(t, found),
                ) && t == target && is_first_free(config, config.port_start, free, found),
                ProgressView::Failed(fault, _) => fault == no_port(config) && forall|p: u16|
                    config.port_start <= p <= config.port_end ==> !#[trigger] free(p),
                ProgressView::Succeeded => false,
            },
            TurnView::Stop(fault) => fault == no_port(config) && config.port_start
                > config.port_end,
            TurnView::Finish => false,
        },
{
    if config.port_start <= config.port_end {
        let point = PointView::Launch(LaunchPointView::Probe(target, config.port_start));
        lemma_search(
            RunView { config, job, point, rest: seq![] },
            target,
            config.port_start,
            free,
        );
    }
}

} // verus!
