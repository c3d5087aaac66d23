//! What has been done by the time a deployment is recorded, replaces another, or succeeds.

use vstd::prelude::*;
use crate::command::{
    build_call, clone_call, create_database_call, find_running_call, is_superseded, launch_call,
    list_call, remove_call, start_call, superseded_in, CommandView,
};
use crate::config::ConfigView;
use crate::effect::{EffectView, ReplyView, Template};
use crate::naming::{image_tag, project_tag};
use crate::proxy::is_success;
use crate::run::{printed_by, turn_at, LiveView, PointView, ProgressView, RunView, TargetView};
use crate::run::cutover::CutoverPointView;
use crate::run::database::{DatabasePointView, ProvisionView};
use crate::run::launch::LaunchPointView;
use crate::run::laws::{
    after, asked, is_sound, lemma_answer_now, lemma_answer_stays, lemma_asked_before,
    lemma_coherent,
    lemma_kinds_differ, lemma_removed_container, removes, was_answered,
};
use crate::run::requests::{built_in, is_routing, record_of, written_to};
use crate::run::route::RoutePointView;
use crate::run::source::SourcePointView;
use crate::store::{DeploymentContextView, DeploymentJobView, StatementView};
use crate::text::{is_blank, trimmed};

verus! {

// ---------------------------------------------------------------------------
// Commands and replies
// ---------------------------------------------------------------------------

/// The command that fetches the source of a project.
pub open spec fn fetch_call(
    config: ConfigView,
    job: DeploymentJobView,
    target: TargetView,
) -> CommandView {
    clone_call(target.context.branch, target.context.repo_url, built_in(config, job))
}

/// The command that builds the image of a deployment, by the project's own Dockerfile
/// or by the one that was added.
pub open spec fn image_call(
    config: ConfigView,
    job: DeploymentJobView,
    target: TargetView,
) -> CommandView {
    let ws = built_in(config, job);
    build_call(
        image_tag(target.context.project_id as int, job.deployment_id as int),
        if target.context.app_type == "dockerfile"@ {
            None
        } else {
            Some(written_to(config, job, Template::LaravelDockerfile))
        },
        ws,
    )
}

/// The command that starts the container of a deployment on a port.
pub open spec fn container_call(
    config: ConfigView,
    job: DeploymentJobView,
    target: TargetView,
    port: u16,
) -> CommandView {
    launch_call(
        target.context.project_id,
        job.deployment_id,
        port,
        config.container_port,
        target.database,
    )
}

/// A command whose lines go to the log of the deployment.
pub open spec fn logged(job: DeploymentJobView, command: CommandView) -> EffectView {
    EffectView::RunLogged(job.deployment_id, command)
}

/// Just this was replied.
pub open spec fn replied(expected: ReplyView) -> spec_fn(ReplyView) -> bool {
    |reply: ReplyView| reply == expected
}

/// A logged command ended well.
pub open spec fn ended_well(program: Seq<char>) -> spec_fn(ReplyView) -> bool {
    |reply: ReplyView| printed_by(program, reply) is Ok
}

/// A logged command ended well and printed this, but for white space around it.
pub open spec fn named(program: Seq<char>, name: Seq<char>) -> spec_fn(ReplyView) -> bool {
    |reply: ReplyView| printed_by(program, reply) matches Ok(text) && trimmed(text) == name
}

/// A captured command printed something.
pub open spec fn listed_some() -> spec_fn(ReplyView) -> bool {
    |reply: ReplyView| reply matches ReplyView::Captured { stdout, .. } && !is_blank(stdout)
}

/// A request was met with success.
pub open spec fn is_accepted(reply: ReplyView) -> bool {
    reply matches ReplyView::Response(status) && is_success(status)
}

/// A request that points the proxy at a container, by a new route or in place of another.
pub open spec fn is_update(config: ConfigView, live: LiveView, effect: EffectView) -> bool {
    is_routing(config, live.target, effect, live.port)
}

/// The statement that marks a project's database as running.
pub open spec fn marking_of(p: ProvisionView) -> EffectView {
    EffectView::Execute(
        StatementView::DatabaseStatus { project_id: p.context.project_id, status: "running"@ },
    )
}

// ---------------------------------------------------------------------------
// Stages
// ---------------------------------------------------------------------------

/// The rows of the job's deployment name this project.
pub open spec fn was_found(
    config: ConfigView,
    job: DeploymentJobView,
    replies: Seq<ReplyView>,
    context: DeploymentContextView,
) -> bool {
    was_answered(
        config,
        job,
        replies,
        EffectView::FindContext(job.deployment_id),
        replied(ReplyView::Context(context)),
    )
}

/// The rows of the project name this database, or none.
pub open spec fn was_asked_for(
    config: ConfigView,
    job: DeploymentJobView,
    replies: Seq<ReplyView>,
    target: TargetView,
) -> bool {
    was_answered(
        config,
        job,
        replies,
        EffectView::FindDatabase(target.context.project_id),
        replied(ReplyView::Database(target.database)),
    )
}

/// The source of the project was fetched.
pub open spec fn was_fetched(
    config: ConfigView,
    job: DeploymentJobView,
    replies: Seq<ReplyView>,
    target: TargetView,
) -> bool {
    was_answered(
        config,
        job,
        replies,
        logged(job, fetch_call(config, job, target)),
        ended_well("git"@),
    )
}

/// The image of the deployment was built.
pub open spec fn was_built(
    config: ConfigView,
    job: DeploymentJobView,
    replies: Seq<ReplyView>,
    target: TargetView,
) -> bool {
    was_answered(
        config,
        job,
        replies,
        logged(job, image_call(config, job, target)),
        ended_well("docker"@),
    )
}

/// The container of the project's database was found running, was started, or was created.
pub open spec fn was_provided(
    config: ConfigView,
    job: DeploymentJobView,
    replies: Seq<ReplyView>,
    p: ProvisionView,
) -> bool {
    let name = p.database.container_name;
    ||| was_answered(
        config,
        job,
        replies,
        EffectView::RunCaptured(find_running_call(name)),
        listed_some(),
    )
    ||| was_answered(
        config,
        job,
        replies,
        EffectView::RunWatched(start_call(name)),
        replied(ReplyView::Watched(true)),
    )
    ||| was_answered(
        config,
        job,
        replies,
        logged(job, create_database_call(p.database)),
        ended_well("docker"@),
    )
}

/// The status of the project's database was set.
pub open spec fn was_marked(
    config: ConfigView,
    job: DeploymentJobView,
    replies: Seq<ReplyView>,
    p: ProvisionView,
) -> bool {
    was_answered(config, job, replies, marking_of(p), replied(ReplyView::Ready))
}

/// The port was reported free.
pub open spec fn was_free(
    config: ConfigView,
    job: DeploymentJobView,
    replies: Seq<ReplyView>,
    port: u16,
) -> bool {
    was_answered(
        config,
        job,
        replies,
        EffectView::ProbePort(port),
        replied(ReplyView::Port(true)),
    )
}

/// A project with its database, if it has one.
pub open spec fn provision_of(target: TargetView) -> Option<ProvisionView> {
    match target.database {
        Some(database) => Some(ProvisionView { context: target.context, database }),
        None => None,
    }
}

/// All that comes before a deployment's container: its rows were found, its source was
/// fetched and its image built, its database, if it has one, is up and marked so, and its
/// port is free.
pub open spec fn was_prepared(
    config: ConfigView,
    job: DeploymentJobView,
    replies: Seq<ReplyView>,
    target: TargetView,
    port: u16,
) -> bool {
    &&& was_found(config, job, replies, target.context)
    &&& was_asked_for(config, job, replies, target)
    &&& was_fetched(config, job, replies, target)
    &&& was_built(config, job, replies, target)
    &&& provision_of(target) matches Some(p) ==> was_provided(config, job, replies, p)
        && was_marked(config, job, replies, p)
    &&& was_free(config, job, replies, port)
}

/// With the reply to the `j`th request, once all was prepared, the container was started on
/// its port, and Docker gave it its name.
pub open spec fn was_started_by(
    config: ConfigView,
    job: DeploymentJobView,
    replies: Seq<ReplyView>,
    live: LiveView,
    j: int,
) -> bool {
    &&& 0 <= j < replies.len()
    &&& asked(config, job, replies, j) == Some(
        logged(job, container_call(config, job, live.target, live.port)),
    )
    &&& named("docker"@, live.container_id)(replies[j])
    &&& was_prepared(config, job, replies.take(j), live.target, live.port)
    &&& is_sound(config, live)
}

/// All was prepared, then the container was started.
pub open spec fn was_started(
    config: ConfigView,
    job: DeploymentJobView,
    replies: Seq<ReplyView>,
    live: LiveView,
) -> bool {
    exists|j: int| was_started_by(config, job, replies, live, j)
}

/// With the reply to the `m`th request, once the container was started, the proxy accepted
/// a route from the project's host to it.
pub open spec fn was_routed_by(
    config: ConfigView,
    job: DeploymentJobView,
    replies: Seq<ReplyView>,
    live: LiveView,
    m: int,
) -> bool {
    &&& 0 <= m < replies.len()
    &&& asked(config, job, replies, m) matches Some(effect) && is_update(config, live, effect)
    &&& is_accepted(replies[m])
    &&& was_started(config, job, replies.take(m), live)
}

/// With the reply to the `k`th request, right after the proxy was pointed at the container,
/// the deployment was recorded as served by it.
pub open spec fn entered_service(
    config: ConfigView,
    job: DeploymentJobView,
    replies: Seq<ReplyView>,
    live: LiveView,
    k: int,
) -> bool {
    &&& 1 <= k < replies.len()
    &&& was_routed_by(config, job, replies, live, k - 1)
    &&& asked(config, job, replies, k) == Some(record_of(config, job, live))
    &&& replies[k] == ReplyView::Ready
}

/// The container was started, the proxy was pointed at it, and the deployment was recorded,
/// in this order.
pub open spec fn is_in_service(
    config: ConfigView,
    job: DeploymentJobView,
    replies: Seq<ReplyView>,
    live: LiveView,
) -> bool {
    exists|k: int| entered_service(config, job, replies, live, k)
}

/// After the `l`th request an effect was asked for, and this was the reply.
pub open spec fn was_replied_after(
    config: ConfigView,
    job: DeploymentJobView,
    replies: Seq<ReplyView>,
    l: int,
    effect: EffectView,
    reply: ReplyView,
) -> bool {
    exists|i: int|
        l < i < replies.len() && #[trigger] asked(config, job, replies, i) == Some(effect)
            && replies[i] == reply
}

/// A container was removed after the `l`th request.
pub open spec fn was_removed_after(
    config: ConfigView,
    job: DeploymentJobView,
    replies: Seq<ReplyView>,
    l: int,
    container: Seq<char>,
) -> bool {
    was_replied_after(
        config,
        job,
        replies,
        l,
        EffectView::RunWatched(remove_call(container)),
        ReplyView::Watched(true),
    )
}

/// With the reply to the `l`th request, right after the record, the containers of the
/// project were listed.
pub open spec fn was_listed_by(
    config: ConfigView,
    job: DeploymentJobView,
    replies: Seq<ReplyView>,
    live: LiveView,
    l: int,
) -> bool {
    &&& 0 <= l < replies.len()
    &&& entered_service(config, job, replies, live, l - 1)
    &&& asked(config, job, replies, l) == Some(
        EffectView::RunCaptured(list_call(project_tag(live.target.context.project_id as int))),
    )
    &&& replies[l] is Captured
}

/// The containers listed with the `l`th reply that the deployment's own replaces.
pub open spec fn replaced(replies: Seq<ReplyView>, live: LiveView, l: int) -> Seq<Seq<char>> {
    superseded_in(replies[l]->stdout, live.container_id)
}

/// All is done: the deployment entered service, the containers of the project were listed,
/// and after that every listed one that it replaces was removed, and the workspace too.
pub open spec fn is_complete(
    config: ConfigView,
    job: DeploymentJobView,
    replies: Seq<ReplyView>,
    live: LiveView,
    l: int,
) -> bool {
    &&& was_listed_by(config, job, replies, live, l)
    &&& forall|container: Seq<char>| #[trigger]
        replaced(replies, live, l).contains(container) ==> was_removed_after(
            config,
            job,
            replies,
            l,
            container,
        )
    &&& was_replied_after(
        config,
        job,
        replies,
        l,
        EffectView::RemoveTree(built_in(config, job)),
        ReplyView::Ready,
    )
}

// ---------------------------------------------------------------------------
// Which stages a point lies behind
// ---------------------------------------------------------------------------

/// The project that is known at a point.
spec fn found_at(point: PointView) -> Option<DeploymentContextView> {
    match point {
        PointView::Source(SourcePointView::Database(context)) => Some(context),
        _ => match target_at(point) {
            Some(target) => Some(target.context),
            None => None,
        },
    }
}

/// The deployment that is known at a point, with its database.
spec fn target_at(point: PointView) -> Option<TargetView> {
    match point {
        PointView::Source(SourcePointView::Workspace(target)) => Some(target),
        PointView::Source(SourcePointView::Clone(target)) => Some(target),
        _ => fetched_at(point),
    }
}

/// The deployment whose source is fetched at a point.
spec fn fetched_at(point: PointView) -> Option<TargetView> {
    match point {
        PointView::Source(SourcePointView::Artisan(target)) => Some(target),
        PointView::Source(SourcePointView::Composer(target)) => Some(target),
        PointView::Source(SourcePointView::Build(target)) => Some(target),
        _ => built_at(point),
    }
}

/// The deployment whose image is built at a point.
spec fn built_at(point: PointView) -> Option<TargetView> {
    match point {
        PointView::Database(at) => match at {
            DatabasePointView::Running(p) => Some(p.target()),
            DatabasePointView::Found(p) => Some(p.target()),
            DatabasePointView::Connect(p) => Some(p.target()),
            DatabasePointView::Stopped(p) => Some(p.target()),
            DatabasePointView::Start(p) => Some(p.target()),
            DatabasePointView::Missing(p) => Some(p.target()),
            DatabasePointView::Create(p) => Some(p.target()),
            DatabasePointView::Status(p) => Some(p.target()),
        },
        _ => launched_at(point),
    }
}

/// The database that is up at a point.
spec fn provided_at(point: PointView) -> Option<ProvisionView> {
    match point {
        PointView::Database(DatabasePointView::Found(p)) => Some(p),
        PointView::Database(DatabasePointView::Connect(p)) => Some(p),
        PointView::Database(DatabasePointView::Status(p)) => Some(p),
        _ => marked_at(point),
    }
}

/// The database that is marked as running at a point.
spec fn marked_at(point: PointView) -> Option<ProvisionView> {
    match launched_at(point) {
        Some(target) => provision_of(target),
        None => None,
    }
}

/// The deployment that is ready for its container at a point, or has it already.
spec fn launched_at(point: PointView) -> Option<TargetView> {
    match point {
        PointView::Launch(LaunchPointView::Probe(target, _)) => Some(target),
        PointView::Launch(LaunchPointView::Start(target, _)) => Some(target),
        _ => match live_at(point) {
            Some(live) => Some(live.target),
            None => None,
        },
    }
}

/// The port that has been chosen at a point.
spec fn port_at(point: PointView) -> Option<u16> {
    match point {
        PointView::Launch(LaunchPointView::Start(_, port)) => Some(port),
        _ => match live_at(point) {
            Some(live) => Some(live.port),
            None => None,
        },
    }
}

/// The container that is up at a point.
spec fn live_at(point: PointView) -> Option<LiveView> {
    match point {
        PointView::Launch(LaunchPointView::Migrate(live)) => Some(live),
        PointView::Launch(LaunchPointView::Migrated(live)) => Some(live),
        PointView::Route(RoutePointView::Lookup(live)) => Some(live),
        PointView::Route(RoutePointView::LookupRejected(live)) => Some(live),
        PointView::Route(RoutePointView::Update(live)) => Some(live),
        PointView::Route(RoutePointView::UpdateRejected(live)) => Some(live),
        PointView::Route(RoutePointView::Discard(live, _)) => Some(live),
        PointView::Cutover(CutoverPointView::Complete(live)) => Some(live),
        _ => recorded_at(point),
    }
}

/// The container whose service is recorded at a point.
spec fn recorded_at(point: PointView) -> Option<LiveView> {
    match point {
        PointView::Cutover(CutoverPointView::List(live)) => Some(live),
        PointView::Cutover(CutoverPointView::Remove(live, _, _)) => Some(live),
        _ => None,
    }
}

/// The last effect of the script that a run is at.
spec fn last_asked(run: RunView, effect: EffectView) -> EffectView {
    if run.rest.len() > 0 {
        run.rest.last()
    } else {
        effect
    }
}

/// What the script at a point ends with, where a stage depends on it.
spec fn is_staged(run: RunView, effect: EffectView) -> bool {
    let (config, job) = (run.config, run.job);
    let last = last_asked(run, effect);
    match run.point {
        PointView::Source(at) => match at {
            SourcePointView::Context => last == EffectView::FindContext(job.deployment_id),
            SourcePointView::Database(context) => last == EffectView::FindDatabase(
                context.project_id,
            ),
            SourcePointView::Workspace(_) => true,
            SourcePointView::Clone(target) => last == logged(job, fetch_call(config, job, target)),
            SourcePointView::Artisan(target) => target.context.app_type != "dockerfile"@,
            SourcePointView::Composer(target) => target.context.app_type != "dockerfile"@,
            SourcePointView::Build(target) => last == logged(job, image_call(config, job, target)),
        },
        PointView::Database(at) => match at {
            DatabasePointView::Running(p) => last == EffectView::RunCaptured(
                find_running_call(p.database.container_name),
            ),
            DatabasePointView::Start(p) => last == EffectView::RunWatched(
                start_call(p.database.container_name),
            ),
            DatabasePointView::Create(p) => last == logged(job, create_database_call(p.database)),
            DatabasePointView::Status(p) => last == marking_of(p),
            _ => true,
        },
        PointView::Launch(LaunchPointView::Probe(_, port)) => last == EffectView::ProbePort(port)
            && config.port_start <= port <= config.port_end,
        PointView::Launch(LaunchPointView::Start(target, port)) => last == logged(
            job,
            container_call(config, job, target, port),
        ) && config.port_start <= port <= config.port_end,
        PointView::Launch(_) => true,
        PointView::Route(RoutePointView::Update(live)) => is_update(config, live, last),
        PointView::Route(_) => true,
        PointView::Cutover(at) => match at {
            CutoverPointView::Complete(live) => run.rest.len() == 0 && last == record_of(
                config,
                job,
                live,
            ),
            _ => run.rest.len() == 0,
        },
        PointView::Deletion(_) => true,
    }
}

#[verifier::rlimit(30)]
proof fn lemma_source_is_staged(run: RunView, effect: EffectView, reply: ReplyView)
    requires
        is_staged(run, effect),
        run.point is Source,
    ensures
        run.stepped(reply) matches ProgressView::Pending(next, asked) ==> is_staged(next, asked)
            && next.point !is Deletion,
{
    reveal(turn_at);
}

#[verifier::rlimit(30)]
proof fn lemma_database_is_staged(run: RunView, effect: EffectView, reply: ReplyView)
    requires
        is_staged(run, effect),
        run.point is Database,
    ensures
        run.stepped(reply) matches ProgressView::Pending(next, asked) ==> is_staged(next, asked)
            && next.point !is Deletion,
{
    reveal(turn_at);
}

#[verifier::rlimit(30)]
proof fn lemma_launch_is_staged(run: RunView, effect: EffectView, reply: ReplyView)
    requires
        is_staged(run, effect),
        run.point is Launch,
    ensures
        run.stepped(reply) matches ProgressView::Pending(next, asked) ==> is_staged(next, asked)
            && next.point !is Deletion,
{
    reveal(turn_at);
}

#[verifier::rlimit(30)]
proof fn lemma_route_is_staged(run: RunView, effect: EffectView, reply: ReplyView)
    requires
        is_staged(run, effect),
        run.point is Route,
    ensures
        run.stepped(reply) matches ProgressView::Pending(next, asked) ==> is_staged(next, asked)
            && next.point !is Deletion,
{
    reveal(turn_at);
}

proof fn lemma_cutover_is_staged(run: RunView, effect: EffectView, reply: ReplyView)
    requires
        is_staged(run, effect),
        run.point is Cutover,
    ensures
        run.stepped(reply) matches ProgressView::Pending(next, asked) ==> is_staged(next, asked)
            && next.point !is Deletion,
{
    reveal(turn_at);
}

proof fn lemma_step_is_staged(run: RunView, effect: EffectView, reply: ReplyView)
    requires
        is_staged(run, effect),
    ensures
        run.stepped(reply) matches ProgressView::Pending(next, asked) ==> is_staged(next, asked)
            && next.config == run.config && next.job == run.job && (next.point is Deletion
            ==> run.point is Deletion),
{
    match run.point {
        PointView::Source(_) => lemma_source_is_staged(run, effect, reply),
        PointView::Database(_) => lemma_database_is_staged(run, effect, reply),
        PointView::Launch(_) => lemma_launch_is_staged(run, effect, reply),
        PointView::Route(_) => lemma_route_is_staged(run, effect, reply),
        PointView::Cutover(_) => lemma_cutover_is_staged(run, effect, reply),
        PointView::Deletion(_) => {
            reveal(turn_at);
        },
    }
}

/// What a run waits for at a point after the record.
spec fn is_tidying(run: RunView, effect: EffectView) -> bool {
    match run.point {
        PointView::Cutover(CutoverPointView::List(live)) => effect == EffectView::RunCaptured(
            list_call(project_tag(live.target.context.project_id as int)),
        ),
        PointView::Cutover(CutoverPointView::Remove(_, container, _)) => effect
            == EffectView::RunWatched(remove_call(container)),
        PointView::Cutover(CutoverPointView::Cleanup) => effect == EffectView::RemoveTree(
            built_in(run.config, run.job),
        ),
        _ => true,
    }
}

proof fn lemma_step_is_tidying(run: RunView, effect: EffectView, reply: ReplyView)
    requires
        is_staged(run, effect),
    ensures
        run.stepped(reply) matches ProgressView::Pending(next, asked) ==> is_tidying(next, asked),
{
    reveal(turn_at);
}

/// The only ways past the stages up to the image.
#[verifier::rlimit(30)]
proof fn lemma_into_image(run: RunView, effect: EffectView, reply: ReplyView)
    requires
        is_staged(run, effect),
    ensures
        run.stepped(reply) matches ProgressView::Pending(next, _) ==> {
            let (config, job) = (run.config, run.job);
            &&& found_at(next.point) matches Some(context) ==> {
                ||| found_at(run.point) == Some(context)
                ||| effect == EffectView::FindContext(job.deployment_id) && replied(
                    ReplyView::Context(context),
                )(reply)
            }
            &&& target_at(next.point) matches Some(target) ==> {
                ||| target_at(run.point) == Some(target)
                ||| effect == EffectView::FindDatabase(target.context.project_id) && replied(
                    ReplyView::Database(target.database),
                )(reply)
            }
            &&& fetched_at(next.point) matches Some(target) ==> {
                ||| fetched_at(run.point) == Some(target)
                ||| effect == logged(job, fetch_call(config, job, target)) && ended_well("git"@)(
                    reply,
                )
            }
            &&& built_at(next.point) matches Some(target) ==> {
                ||| built_at(run.point) == Some(target)
                ||| effect == logged(job, image_call(config, job, target)) && ended_well(
                    "docker"@,
                )(reply)
            }
        },
{
    reveal(turn_at);
}

/// The only ways past the stages of the database.
#[verifier::rlimit(30)]
proof fn lemma_into_database(run: RunView, effect: EffectView, reply: ReplyView)
    requires
        is_staged(run, effect),
    ensures
        run.stepped(reply) matches ProgressView::Pending(next, _) ==> {
            let job = run.job;
            &&& provided_at(next.point) matches Some(p) ==> {
                ||| provided_at(run.point) == Some(p)
                ||| effect == EffectView::RunCaptured(find_running_call(p.database.container_name))
                    && listed_some()(reply)
                ||| effect == EffectView::RunWatched(start_call(p.database.container_name))
                    && replied(ReplyView::Watched(true))(reply)
                ||| effect == logged(job, create_database_call(p.database)) && ended_well(
                    "docker"@,
                )(reply)
            }
            &&& marked_at(next.point) matches Some(p) ==> {
                ||| marked_at(run.point) == Some(p)
                ||| effect == marking_of(p) && replied(ReplyView::Ready)(reply)
            }
        },
{
    reveal(turn_at);
}

/// The only ways past the stages of the container.
#[verifier::rlimit(30)]
proof fn lemma_into_service(run: RunView, effect: EffectView, reply: ReplyView)
    requires
        is_staged(run, effect),
    ensures
        match run.stepped(reply) {
            ProgressView::Pending(next, _) => {
                let (config, job) = (run.config, run.job);
                &&& port_at(next.point) matches Some(port) ==> {
                    ||| port_at(run.point) == Some(port)
                    ||| effect == EffectView::ProbePort(port) && replied(ReplyView::Port(true))(
                        reply,
                    )
                }
                &&& live_at(next.point) matches Some(live) ==> {
                    ||| live_at(run.point) == Some(live)
                    ||| run.point == PointView::Launch(
                        LaunchPointView::Start(live.target, live.port),
                    ) && effect == logged(job, container_call(config, job, live.target, live.port))
                        && named("docker"@, live.container_id)(reply) && is_sound(config, live)
                }
                &&& next.point matches PointView::Cutover(CutoverPointView::Complete(live)) ==> {
                    &&& live_at(run.point) == Some(live)
                    &&& is_update(config, live, effect)
                    &&& is_accepted(reply)
                }
                &&& recorded_at(next.point) matches Some(live) ==> {
                    ||| recorded_at(run.point) == Some(live)
                    ||| run.point == PointView::Cutover(CutoverPointView::Complete(live)) && effect
                        == record_of(config, job, live) && reply == ReplyView::Ready
                }
            },
            _ => true,
        },
{
    reveal(turn_at);
}

/// The containers that are still to be removed at a point after the list.
spec fn left_at(point: PointView) -> Option<(LiveView, Seq<Seq<char>>)> {
    match point {
        PointView::Cutover(CutoverPointView::Remove(live, container, others)) => Some(
            (live, seq![container] + others),
        ),
        _ => None,
    }
}

/// The only ways through the removals.
#[verifier::rlimit(30)]
proof fn lemma_into_removal(run: RunView, effect: EffectView, reply: ReplyView)
    requires
        is_staged(run, effect),
    ensures
        match run.stepped(reply) {
            ProgressView::Pending(next, _) => {
                let cleanup = PointView::Cutover(CutoverPointView::Cleanup);
                &&& left_at(next.point) matches Some((live, left)) ==> {
                    ||| run.point == PointView::Cutover(CutoverPointView::List(live)) && (reply
                        matches ReplyView::Captured { stdout, .. } && superseded_in(
                        stdout,
                        live.container_id,
                    ) == left)
                    ||| run.point matches PointView::Cutover(
                        CutoverPointView::Remove(l, _, others),
                    ) && l == live && others == left && reply == ReplyView::Watched(true)
                }
                &&& next.point == cleanup ==> {
                    ||| run.point matches PointView::Cutover(CutoverPointView::List(live)) && (reply
                        matches ReplyView::Captured { stdout, .. } && superseded_in(
                        stdout,
                        live.container_id,
                    ).len() == 0)
                    ||| run.point matches PointView::Cutover(
                        CutoverPointView::Remove(_, _, others),
                    ) && others.len() == 0 && reply == ReplyView::Watched(true)
                }
                &&& next.point matches PointView::Cutover(CutoverPointView::List(live)) ==> run.point
                    == PointView::Cutover(CutoverPointView::Complete(live)) && effect
                    == record_of(run.config, run.job, live) && reply == ReplyView::Ready
            },
            ProgressView::Succeeded => run.point is Deletion || run.point == PointView::Cutover(
                CutoverPointView::Cleanup,
            ) && reply == ReplyView::Ready,
            ProgressView::Failed(_, _) => true,
        },
{
    reveal(turn_at);
    if let ProgressView::Pending(next, _) = run.stepped(reply) {
        if let Some((live, left)) = left_at(next.point) {
            match run.point {
                PointView::Cutover(CutoverPointView::List(l)) => {
                    let all = superseded_in(reply->stdout, l.container_id);
                    assert(seq![all[0]] + all.skip(1) =~= all);
                },
                PointView::Cutover(CutoverPointView::Remove(_, _, others)) => {
                    assert(seq![others[0]] + others.skip(1) =~= others);
                },
                _ => {},
            }
        }
    }
}

// ---------------------------------------------------------------------------
// What has been done at a point
// ---------------------------------------------------------------------------

/// An answer to this effect or another was given before, or is given now.
proof fn lemma_answer(
    config: ConfigView,
    job: DeploymentJobView,
    replies: Seq<ReplyView>,
    effect: EffectView,
    p: spec_fn(ReplyView) -> bool,
)
    requires
        replies.len() > 0,
        was_answered(config, job, replies.drop_last(), effect, p) || (p(replies.last()) && (after(
            config,
            job,
            replies.drop_last(),
        ) matches ProgressView::Pending(_, e) && e == effect)),
    ensures
        was_answered(config, job, replies, effect, p),
{
    if was_answered(config, job, replies.drop_last(), effect, p) {
        lemma_answer_stays(config, job, replies, effect, p);
    } else {
        lemma_answer_now(config, job, replies, effect, p);
    }
}

proof fn lemma_started_stays(
    config: ConfigView,
    job: DeploymentJobView,
    replies: Seq<ReplyView>,
    live: LiveView,
)
    requires
        replies.len() > 0,
        was_started(config, job, replies.drop_last(), live),
    ensures
        was_started(config, job, replies, live),
{
    let before = replies.drop_last();
    let j = choose|j: int| was_started_by(config, job, before, live, j);
    lemma_asked_before(config, job, replies, j);
    assert(was_started_by(config, job, replies, live, j));
}

proof fn lemma_routed_stays(
    config: ConfigView,
    job: DeploymentJobView,
    replies: Seq<ReplyView>,
    live: LiveView,
    m: int,
)
    requires
        replies.len() > 0,
        was_routed_by(config, job, replies.drop_last(), live, m),
    ensures
        was_routed_by(config, job, replies, live, m),
{
    lemma_asked_before(config, job, replies, m);
}

proof fn lemma_entered_stays(
    config: ConfigView,
    job: DeploymentJobView,
    replies: Seq<ReplyView>,
    live: LiveView,
    k: int,
)
    requires
        replies.len() > 0,
        entered_service(config, job, replies.drop_last(), live, k),
    ensures
        entered_service(config, job, replies, live, k),
{
    lemma_asked_before(config, job, replies, k);
    lemma_routed_stays(config, job, replies, live, k - 1);
}

proof fn lemma_service_stays(
    config: ConfigView,
    job: DeploymentJobView,
    replies: Seq<ReplyView>,
    live: LiveView,
)
    requires
        replies.len() > 0,
        is_in_service(config, job, replies.drop_last(), live),
    ensures
        is_in_service(config, job, replies, live),
{
    let k = choose|k: int| entered_service(config, job, replies.drop_last(), live, k);
    lemma_entered_stays(config, job, replies, live, k);
}

/// What the stages up to the image say of a point behind them.
#[verifier::opaque]
spec fn has_image(
    config: ConfigView,
    job: DeploymentJobView,
    replies: Seq<ReplyView>,
    point: PointView,
) -> bool {
    &&& found_at(point) matches Some(context) ==> was_found(config, job, replies, context)
    &&& target_at(point) matches Some(target) ==> was_asked_for(config, job, replies, target)
    &&& fetched_at(point) matches Some(target) ==> was_fetched(config, job, replies, target)
    &&& built_at(point) matches Some(target) ==> was_built(config, job, replies, target)
}

/// What the stages of the database say of a point behind them.
#[verifier::opaque]
spec fn has_database(
    config: ConfigView,
    job: DeploymentJobView,
    replies: Seq<ReplyView>,
    point: PointView,
) -> bool {
    &&& provided_at(point) matches Some(p) ==> was_provided(config, job, replies, p)
    &&& marked_at(point) matches Some(p) ==> was_marked(config, job, replies, p)
}

/// What the stages of the container say of a point behind them.
#[verifier::opaque]
spec fn has_container(
    config: ConfigView,
    job: DeploymentJobView,
    replies: Seq<ReplyView>,
    point: PointView,
) -> bool {
    &&& port_at(point) matches Some(port) ==> was_free(config, job, replies, port)
    &&& live_at(point) matches Some(live) ==> was_started(config, job, replies, live)
    &&& point matches PointView::Cutover(CutoverPointView::Complete(live)) ==> was_routed_by(
        config,
        job,
        replies,
        live,
        replies.len() - 1,
    )
    &&& recorded_at(point) matches Some(live) ==> is_in_service(config, job, replies, live)
}

/// The containers were listed with the `l`th reply, and all that the deployment's own
/// replaces were removed since, but for these.
spec fn is_clearing(
    config: ConfigView,
    job: DeploymentJobView,
    replies: Seq<ReplyView>,
    live: LiveView,
    left: Seq<Seq<char>>,
    l: int,
) -> bool {
    let all = replaced(replies, live, l);
    &&& was_listed_by(config, job, replies, live, l)
    &&& left.len() <= all.len()
    &&& left == all.skip(all.len() - left.len())
    &&& forall|i: int|
        0 <= i < all.len() - left.len() ==> was_removed_after(
            config,
            job,
            replies,
            l,
            #[trigger] all[i],
        )
}

/// What the removals say of a point behind the record.
#[verifier::opaque]
spec fn has_cleared(
    config: ConfigView,
    job: DeploymentJobView,
    replies: Seq<ReplyView>,
    point: PointView,
) -> bool {
    &&& point matches PointView::Cutover(CutoverPointView::List(live)) ==> entered_service(
        config,
        job,
        replies,
        live,
        replies.len() - 1,
    )
    &&& left_at(point) matches Some((live, left)) ==> exists|l: int|
        is_clearing(config, job, replies, live, left, l)
    &&& point == PointView::Cutover(CutoverPointView::Cleanup) ==> exists|live: LiveView, l: int|
        is_clearing(config, job, replies, live, seq![], l)
}

/// The run that hears the last of the replies, and the effect that it answers.
spec fn hears_last(
    config: ConfigView,
    job: DeploymentJobView,
    replies: Seq<ReplyView>,
    run: RunView,
    effect: EffectView,
) -> bool {
    &&& replies.len() > 0
    &&& after(config, job, replies.drop_last()) == ProgressView::Pending(run, effect)
    &&& run.config == config
    &&& run.job == job
    &&& is_staged(run, effect)
}

proof fn lemma_step_has_image(
    config: ConfigView,
    job: DeploymentJobView,
    replies: Seq<ReplyView>,
    run: RunView,
    effect: EffectView,
    point: PointView,
)
    requires
        hears_last(config, job, replies, run, effect),
        has_image(config, job, replies.drop_last(), run.point),
        run.stepped(replies.last()) matches ProgressView::Pending(next, _) && next.point == point,
    ensures
        has_image(config, job, replies, point),
{
    reveal(has_image);
    lemma_into_image(run, effect, replies.last());
    if let Some(context) = found_at(point) {
        let wanted = EffectView::FindContext(job.deployment_id);
        lemma_answer(config, job, replies, wanted, replied(ReplyView::Context(context)));
    }
    if let Some(target) = target_at(point) {
        let wanted = EffectView::FindDatabase(target.context.project_id);
        lemma_answer(config, job, replies, wanted, replied(ReplyView::Database(target.database)));
    }
    if let Some(target) = fetched_at(point) {
        let wanted = logged(job, fetch_call(config, job, target));
        lemma_answer(config, job, replies, wanted, ended_well("git"@));
    }
    if let Some(target) = built_at(point) {
        let wanted = logged(job, image_call(config, job, target));
        lemma_answer(config, job, replies, wanted, ended_well("docker"@));
    }
}

proof fn lemma_step_has_database(
    config: ConfigView,
    job: DeploymentJobView,
    replies: Seq<ReplyView>,
    run: RunView,
    effect: EffectView,
    point: PointView,
)
    requires
        hears_last(config, job, replies, run, effect),
        has_database(config, job, replies.drop_last(), run.point),
        run.stepped(replies.last()) matches ProgressView::Pending(next, _) && next.point == point,
    ensures
        has_database(config, job, replies, point),
{
    reveal(has_database);
    let (before, reply) = (replies.drop_last(), replies.last());
    lemma_into_database(run, effect, reply);
    if let Some(p) = provided_at(point) {
        let find = EffectView::RunCaptured(find_running_call(p.database.container_name));
        let start = EffectView::RunWatched(start_call(p.database.container_name));
        let create = logged(job, create_database_call(p.database));
        let started = replied(ReplyView::Watched(true));
        if was_answered(config, job, before, find, listed_some()) || effect == find
            && listed_some()(reply) {
            lemma_answer(config, job, replies, find, listed_some());
        } else if was_answered(config, job, before, start, started) || effect == start && started(
            reply,
        ) {
            lemma_answer(config, job, replies, start, started);
        } else {
            lemma_answer(config, job, replies, create, ended_well("docker"@));
        }
    }
    if let Some(p) = marked_at(point) {
        lemma_answer(config, job, replies, marking_of(p), replied(ReplyView::Ready));
    }
}

#[verifier::rlimit(30)]
proof fn lemma_step_has_container(
    config: ConfigView,
    job: DeploymentJobView,
    replies: Seq<ReplyView>,
    run: RunView,
    effect: EffectView,
    point: PointView,
)
    requires
        hears_last(config, job, replies, run, effect),
        has_image(config, job, replies.drop_last(), run.point),
        has_database(config, job, replies.drop_last(), run.point),
        has_container(config, job, replies.drop_last(), run.point),
        run.stepped(replies.last()) matches ProgressView::Pending(next, _) && next.point == point,
    ensures
        has_container(config, job, replies, point),
{
    reveal(has_image);
    reveal(has_database);
    reveal(has_container);
    let before = replies.drop_last();
    let now = replies.len() - 1;
    lemma_into_service(run, effect, replies.last());
    lemma_asked_before(config, job, replies, now);
    assert(asked(config, job, replies, now) == Some(effect));
    if let Some(port) = port_at(point) {
        let wanted = EffectView::ProbePort(port);
        lemma_answer(config, job, replies, wanted, replied(ReplyView::Port(true)));
    }
    if let Some(live) = live_at(point) {
        if live_at(run.point) == Some(live) {
            lemma_started_stays(config, job, replies, live);
        } else {
            assert(was_prepared(config, job, before, live.target, live.port));
            assert(was_started_by(config, job, replies, live, now));
        }
    }
    if let PointView::Cutover(CutoverPointView::Complete(live)) = point {
        assert(was_routed_by(config, job, replies, live, now));
    }
    if let Some(live) = recorded_at(point) {
        if recorded_at(run.point) == Some(live) {
            lemma_service_stays(config, job, replies, live);
        } else {
            lemma_routed_stays(config, job, replies, live, now - 1);
            assert(entered_service(config, job, replies, live, now));
        }
    }
}

proof fn lemma_replied_after_stays(
    config: ConfigView,
    job: DeploymentJobView,
    replies: Seq<ReplyView>,
    l: int,
    effect: EffectView,
    reply: ReplyView,
)
    requires
        replies.len() > 0,
        l >= 0,
        was_replied_after(config, job, replies.drop_last(), l, effect, reply),
    ensures
        was_replied_after(config, job, replies, l, effect, reply),
{
    let before = replies.drop_last();
    let i = choose|i: int|
        l < i < before.len() && #[trigger] asked(config, job, before, i) == Some(effect)
            && before[i] == reply;
    lemma_asked_before(config, job, replies, i);
    assert(asked(config, job, replies, i) == Some(effect));
}

proof fn lemma_listed_stays(
    config: ConfigView,
    job: DeploymentJobView,
    replies: Seq<ReplyView>,
    live: LiveView,
    l: int,
)
    requires
        replies.len() > 0,
        was_listed_by(config, job, replies.drop_last(), live, l),
    ensures
        was_listed_by(config, job, replies, live, l),
        replaced(replies, live, l) == replaced(replies.drop_last(), live, l),
{
    lemma_asked_before(config, job, replies, l);
    lemma_entered_stays(config, job, replies, live, l - 1);
}

proof fn lemma_clearing_stays(
    config: ConfigView,
    job: DeploymentJobView,
    replies: Seq<ReplyView>,
    live: LiveView,
    left: Seq<Seq<char>>,
    l: int,
)
    requires
        replies.len() > 0,
        is_clearing(config, job, replies.drop_last(), live, left, l),
    ensures
        is_clearing(config, job, replies, live, left, l),
{
    lemma_listed_stays(config, job, replies, live, l);
    let all = replaced(replies, live, l);
    assert forall|i: int| 0 <= i < all.len() - left.len() implies was_removed_after(
        config,
        job,
        replies,
        l,
        #[trigger] all[i],
    ) by {
        lemma_replied_after_stays(
            config,
            job,
            replies,
            l,
            EffectView::RunWatched(remove_call(all[i])),
            ReplyView::Watched(true),
        );
    }
}

/// The first of the containers that were left has been removed now.
proof fn lemma_one_less(
    config: ConfigView,
    job: DeploymentJobView,
    replies: Seq<ReplyView>,
    live: LiveView,
    container: Seq<char>,
    others: Seq<Seq<char>>,
    l: int,
)
    requires
        replies.len() > 0,
        is_clearing(config, job, replies.drop_last(), live, seq![container] + others, l),
        after(config, job, replies.drop_last()) matches ProgressView::Pending(_, effect) && effect
            == EffectView::RunWatched(remove_call(container)),
        replies.last() == ReplyView::Watched(true),
    ensures
        is_clearing(config, job, replies, live, others, l),
{
    let left = seq![container] + others;
    lemma_clearing_stays(config, job, replies, live, left, l);
    let now = replies.len() - 1;
    lemma_asked_before(config, job, replies, now);
    let all = replaced(replies, live, l);
    let first = all.len() - left.len();
    assert(left[0] == all[first]);
    assert(asked(config, job, replies, now) == Some(
        EffectView::RunWatched(remove_call(container)),
    ));
    assert(was_removed_after(config, job, replies, l, all[first]));
    assert(others =~= all.skip(all.len() - others.len())) by {
        assert forall|i: int| 0 <= i < others.len() implies others[i] == all.skip(
            all.len() - others.len(),
        )[i] by {
            assert(left[i + 1] == others[i]);
        }
    }
}

/// The containers have been listed now, and all that are replaced are left.
proof fn lemma_listed_now(
    config: ConfigView,
    job: DeploymentJobView,
    replies: Seq<ReplyView>,
    live: LiveView,
)
    requires
        replies.len() > 0,
        entered_service(config, job, replies.drop_last(), live, replies.len() - 2),
        after(config, job, replies.drop_last()) matches ProgressView::Pending(_, effect) && effect
            == EffectView::RunCaptured(
            list_call(project_tag(live.target.context.project_id as int)),
        ),
        replies.last() is Captured,
    ensures
        is_clearing(
            config,
            job,
            replies,
            live,
            replaced(replies, live, replies.len() - 1),
            replies.len() - 1,
        ),
{
    let now = replies.len() - 1;
    lemma_asked_before(config, job, replies, now);
    lemma_entered_stays(config, job, replies, live, now - 1);
    let all = replaced(replies, live, now);
    assert(all.skip(0) =~= all);
}

proof fn lemma_step_has_cleared(
    config: ConfigView,
    job: DeploymentJobView,
    replies: Seq<ReplyView>,
    run: RunView,
    effect: EffectView,
    point: PointView,
)
    requires
        hears_last(config, job, replies, run, effect),
        is_tidying(run, effect),
        has_container(config, job, replies.drop_last(), run.point),
        has_cleared(config, job, replies.drop_last(), run.point),
        run.stepped(replies.last()) matches ProgressView::Pending(next, _) && next.point == point,
    ensures
        has_cleared(config, job, replies, point),
{
    reveal(has_cleared);
    let before = replies.drop_last();
    let now = replies.len() - 1;
    lemma_into_removal(run, effect, replies.last());
    if let PointView::Cutover(CutoverPointView::List(live)) = point {
        reveal(has_container);
        lemma_asked_before(config, job, replies, now);
        lemma_routed_stays(config, job, replies, live, now - 1);
        assert(entered_service(config, job, replies, live, now));
    } else if left_at(point) is Some || point == PointView::Cutover(CutoverPointView::Cleanup) {
        match run.point {
            PointView::Cutover(CutoverPointView::List(live)) => {
                lemma_listed_now(config, job, replies, live);
                let all = replaced(replies, live, now);
                if all.len() == 0 {
                    assert(all =~= seq![]);
                }
            },
            PointView::Cutover(CutoverPointView::Remove(live, container, others)) => {
                let l = choose|l: int|
                    is_clearing(config, job, before, live, seq![container] + others, l);
                lemma_one_less(config, job, replies, live, container, others, l);
                if others.len() == 0 {
                    assert(others =~= seq![]);
                }
            },
            _ => {},
        }
    }
}

proof fn lemma_complete_now(
    config: ConfigView,
    job: DeploymentJobView,
    replies: Seq<ReplyView>,
    live: LiveView,
    l: int,
)
    requires
        replies.len() > 0,
        is_clearing(config, job, replies.drop_last(), live, seq![], l),
        after(config, job, replies.drop_last()) matches ProgressView::Pending(_, effect) && effect
            == EffectView::RemoveTree(built_in(config, job)),
        replies.last() == ReplyView::Ready,
    ensures
        is_complete(config, job, replies, live, l),
{
    let now = replies.len() - 1;
    lemma_clearing_stays(config, job, replies, live, seq![], l);
    lemma_asked_before(config, job, replies, now);
    assert(asked(config, job, replies, now) == Some(
        EffectView::RemoveTree(built_in(config, job)),
    ));
    let all = replaced(replies, live, l);
    assert forall|container: Seq<char>| #[trigger] all.contains(container) implies was_removed_after(
        config,
        job,
        replies,
        l,
        container,
    ) by {
        let i = choose|i: int| 0 <= i < all.len() && all[i] == container;
        assert(was_removed_after(config, job, replies, l, all[i]));
    }
}

proof fn lemma_complete_stays(
    config: ConfigView,
    job: DeploymentJobView,
    replies: Seq<ReplyView>,
    live: LiveView,
    l: int,
)
    requires
        replies.len() > 0,
        is_complete(config, job, replies.drop_last(), live, l),
    ensures
        is_complete(config, job, replies, live, l),
{
    lemma_listed_stays(config, job, replies, live, l);
    assert forall|container: Seq<char>| #[trigger]
        replaced(replies, live, l).contains(container) implies was_removed_after(
        config,
        job,
        replies,
        l,
        container,
    ) by {
        lemma_replied_after_stays(
            config,
            job,
            replies,
            l,
            EffectView::RunWatched(remove_call(container)),
            ReplyView::Watched(true),
        );
    }
    lemma_replied_after_stays(
        config,
        job,
        replies,
        l,
        EffectView::RemoveTree(built_in(config, job)),
        ReplyView::Ready,
    );
}

proof fn lemma_backed(config: ConfigView, job: DeploymentJobView, replies: Seq<ReplyView>)
    ensures
        match after(config, job, replies) {
            ProgressView::Pending(run, effect) => {
                &&& run.config == config && run.job == job
                &&& is_staged(run, effect)
                &&& is_tidying(run, effect)
                &&& has_image(config, job, replies, run.point)
                &&& has_database(config, job, replies, run.point)
                &&& has_container(config, job, replies, run.point)
                &&& has_cleared(config, job, replies, run.point)
                &&& job.job_type == "deploy"@ ==> run.point !is Deletion
            },
            ProgressView::Succeeded => job.job_type == "deploy"@ ==> exists|live: LiveView, l: int|
                is_complete(config, job, replies, live, l),
            ProgressView::Failed(_, _) => true,
        },
    decreases replies.len(),
{
    lemma_kinds_differ();
    if replies.len() == 0 {
        reveal(has_image);
        reveal(has_database);
        reveal(has_container);
        reveal(has_cleared);
    } else {
        let before = replies.drop_last();
        lemma_backed(config, job, before);
        match after(config, job, before) {
            ProgressView::Pending(run, effect) => {
                lemma_step_is_staged(run, effect, replies.last());
                lemma_step_is_tidying(run, effect, replies.last());
                lemma_into_removal(run, effect, replies.last());
                match run.stepped(replies.last()) {
                    ProgressView::Pending(next, _) => {
                        lemma_step_has_image(config, job, replies, run, effect, next.point);
                        lemma_step_has_database(config, job, replies, run, effect, next.point);
                        lemma_step_has_container(config, job, replies, run, effect, next.point);
                        lemma_step_has_cleared(config, job, replies, run, effect, next.point);
                    },
                    ProgressView::Succeeded => {
                        if job.job_type == "deploy"@ {
                            reveal(has_cleared);
                            let (live, l) = choose|live: LiveView, l: int|
                                is_clearing(config, job, before, live, seq![], l);
                            lemma_complete_now(config, job, replies, live, l);
                        }
                    },
                    ProgressView::Failed(_, _) => {},
                }
            },
            ProgressView::Succeeded => {
                if job.job_type == "deploy"@ {
                    let (live, l) = choose|live: LiveView, l: int|
                        is_complete(config, job, before, live, l);
                    lemma_complete_stays(config, job, replies, live, l);
                }
            },
            ProgressView::Failed(_, _) => {},
        }
    }
}

// ---------------------------------------------------------------------------
// Laws
// ---------------------------------------------------------------------------

/// Whatever a deployment commits while it is under way is the record of a container in
/// service, and the reply before is the one by which the proxy accepted that container. By
/// then the container had been started, and before that all had been prepared for it.
pub proof fn law_only_served_deployments_are_recorded(
    config: ConfigView,
    job: DeploymentJobView,
    replies: Seq<ReplyView>,
)
    requires
        job.job_type == "deploy"@,
        after(config, job, replies) matches ProgressView::Pending(_, effect) && effect is Commit,
    ensures
        ({
            let (run, effect) = (
                after(config, job, replies)->Pending_0,
                after(config, job, replies)->Pending_1,
            );
            run.point matches PointView::Cutover(CutoverPointView::Complete(live)) && effect
                == record_of(config, job, live) && was_routed_by(
                config,
                job,
                replies,
                live,
                replies.len() - 1,
            )
        }),
{
    reveal(has_container);
    lemma_coherent(config, job, replies);
    lemma_backed(config, job, replies);
}

/// While a deployment is under way, a container is removed only in two cases. It is the one
/// that the run started and could not point the proxy at. Or it is one that the run's own
/// container replaces, and that one is in service: it was started, the proxy accepted it,
/// and the deployment was recorded as served by it, in this order.
pub proof fn law_containers_are_removed_safely(
    config: ConfigView,
    job: DeploymentJobView,
    replies: Seq<ReplyView>,
    container: Seq<char>,
)
    requires
        job.job_type == "deploy"@,
        after(config, job, replies) matches ProgressView::Pending(_, effect) && effect
            == EffectView::RunWatched(remove_call(container)),
    ensures
        match after(config, job, replies)->Pending_0.point {
            PointView::Route(RoutePointView::Discard(live, _)) => container == live.container_id
                && was_started(config, job, replies, live),
            PointView::Cutover(CutoverPointView::Remove(live, _, _)) => is_superseded(
                container,
                live.container_id,
            ) && exists|k: int| entered_service(config, job, replies, live, k),
            _ => false,
        },
{
    reveal(has_container);
    lemma_kinds_differ();
    lemma_coherent(config, job, replies);
    lemma_backed(config, job, replies);
    assert(removes(after(config, job, replies)->Pending_1));
    match after(config, job, replies)->Pending_0.point {
        PointView::Route(RoutePointView::Discard(live, _)) => {
            lemma_removed_container(container, live.container_id);
        },
        PointView::Cutover(CutoverPointView::Remove(_, other, _)) => {
            lemma_removed_container(container, other);
        },
        _ => {},
    }
}

/// A deployment succeeds only once all is done for it. The project and the database are
/// those that its rows name; the source was fetched, the image built, the database, if there
/// is one, brought up and marked so, and a port found free. After that the container was
/// started on that port; after that the proxy was pointed at it; after that the deployment
/// was recorded; after that the containers of the project were listed; and after that every
/// listed one that the new one replaces was removed, and the workspace too.
pub proof fn law_success_takes_every_stage(
    config: ConfigView,
    job: DeploymentJobView,
    replies: Seq<ReplyView>,
)
    requires
        job.job_type == "deploy"@,
        after(config, job, replies) is Succeeded,
    ensures
        exists|live: LiveView, l: int| is_complete(config, job, replies, live, l),
{
    lemma_backed(config, job, replies);
}

} // verus!
