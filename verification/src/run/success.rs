//! A job succeeds exactly if the outside work that it depends on goes well.

use vstd::prelude::*;
use crate::command::is_supported_engine;
use crate::config::ConfigView;
use crate::effect::{EffectView, Method, ReplyView};
use crate::proxy::is_success;
use crate::run::{turn_at, PointView, ProgressView, RunView};
use crate::run::cutover::CutoverPointView;
use crate::run::database::DatabasePointView;
use crate::run::deletion::DeletionPointView;
use crate::run::launch::LaunchPointView;
use crate::run::laws::{after, heard, law_every_run_ends, lemma_kinds_differ};
use crate::run::route::RoutePointView;
use crate::run::source::SourcePointView;
use crate::store::DeploymentJobView;
use crate::text::{is_blank, newline_terminated};

verus! {

/// The kinds of application that the worker can build.
pub open spec fn is_supported_app(app_type: Seq<char>) -> bool {
    app_type == "dockerfile"@ || app_type == "laravel"@
}

/// A piece of outside work went well.
///
/// The rows were there, and the project of a deployment is of a supported kind. The files
/// of a Laravel project were there; only the workspace may be missing. Logged commands
/// ended well, and the one that starts the deployment's container printed its name.
/// Captured commands could be run, and the engine of a database that was found neither
/// running nor stopped is supported; how the join to the network went does not matter.
/// Watched commands of a deployment ended well; of a removal that does not matter. The last
/// port of the range, if it came to that, was free. The proxy did as it was told. All else
/// was done.
pub open spec fn goes_well(run: RunView, effect: EffectView, reply: ReplyView) -> bool {
    let is_deployment = run.job.job_type == "deploy"@;
    match effect {
        EffectView::FindContext(_) => reply matches ReplyView::Context(context) && (is_deployment
            ==> is_supported_app(context.app_type)),
        EffectView::FindDatabase(_) => reply is Database,
        EffectView::PathExists(_) => reply matches ReplyView::Exists(found) && (found || (
        run.point matches PointView::Source(SourcePointView::Workspace(_)))),
        EffectView::RunLogged(_, _) => reply matches ReplyView::Streamed { success, lines, .. }
            && success && ((run.point matches PointView::Launch(LaunchPointView::Start(_, _)))
            ==> !is_blank(newline_terminated(lines))),
        EffectView::RunCaptured(_) => match run.point {
            PointView::Database(DatabasePointView::Connect(_)) => true,
            PointView::Database(DatabasePointView::Stopped(p)) => reply
                matches ReplyView::Captured { stdout, .. } && (is_blank(stdout)
                ==> is_supported_engine(p.database.engine)),
            _ => reply is Captured,
        },
        EffectView::RunWatched(_) => is_deployment ==> reply == ReplyView::Watched(true),
        EffectView::ProbePort(port) => reply matches ReplyView::Port(free) && (port
            == run.config.port_end ==> free),
        EffectView::Request { method, .. } => reply matches ReplyView::Response(status) && (
        is_success(status) || method == Method::Get && status == 404),
        EffectView::ReadBody => reply is Body,
        _ => reply == ReplyView::Ready,
    }
}

/// Work that has nothing to report.
spec fn is_plain(effect: EffectView) -> bool {
    ||| effect is Execute
    ||| effect is Commit
    ||| effect is RemoveTree
    ||| effect is CreateDir
    ||| effect is WriteTemplate
    ||| effect is Sleep
}

/// The last effect of the script at a point.
spec fn suits(config: ConfigView, point: PointView, effect: EffectView) -> bool {
    match point {
        PointView::Source(at) => match at {
            SourcePointView::Context => effect is FindContext,
            SourcePointView::Database(_) => effect is FindDatabase,
            SourcePointView::Workspace(_) => effect is PathExists,
            SourcePointView::Clone(_) => effect is RunLogged,
            SourcePointView::Artisan(_) => effect is PathExists,
            SourcePointView::Composer(_) => effect is PathExists,
            SourcePointView::Build(_) => effect is RunLogged,
        },
        PointView::Database(at) => match at {
            DatabasePointView::Running(_) => effect is RunCaptured,
            DatabasePointView::Found(_) => effect is Execute,
            DatabasePointView::Connect(_) => effect is RunCaptured,
            DatabasePointView::Stopped(_) => effect is RunCaptured,
            DatabasePointView::Start(_) => effect is RunWatched,
            DatabasePointView::Missing(_) => effect is Execute,
            DatabasePointView::Create(_) => effect is RunLogged,
            DatabasePointView::Status(_) => effect is Execute,
        },
        PointView::Launch(at) => match at {
            LaunchPointView::Probe(_, port) => effect == EffectView::ProbePort(port) && port
                <= config.port_end,
            LaunchPointView::Start(_, _) => effect is RunLogged,
            LaunchPointView::Migrate(_) => effect is RunCaptured,
            LaunchPointView::Migrated(_) => effect is Execute,
        },
        PointView::Route(at) => match at {
            RoutePointView::Lookup(_) => effect matches EffectView::Request { method, .. }
                && method == Method::Get,
            RoutePointView::LookupRejected(_) => effect is ReadBody,
            RoutePointView::Update(_) => effect matches EffectView::Request { method, .. }
                && method != Method::Get,
            RoutePointView::UpdateRejected(_) => effect is ReadBody,
            RoutePointView::Discard(_, _) => effect is RunWatched,
        },
        PointView::Cutover(at) => match at {
            CutoverPointView::Complete(_) => effect is Commit,
            CutoverPointView::List(_) => effect is RunCaptured,
            CutoverPointView::Remove(_, _, _) => effect is RunWatched,
            CutoverPointView::Cleanup => effect is RemoveTree,
        },
        PointView::Deletion(at) => match at {
            DeletionPointView::Context => effect is FindContext,
            DeletionPointView::Container => effect is RunWatched,
            DeletionPointView::Rows => effect is Commit,
        },
    }
}

/// What holds of every run and the effect that it waits for.
spec fn is_shaped(run: RunView, effect: EffectView) -> bool {
    &&& run.point is Deletion <==> run.job.job_type != "deploy"@
    &&& if run.rest.len() == 0 {
        suits(run.config, run.point, effect)
    } else {
        &&& is_plain(effect)
        &&& suits(run.config, run.point, run.rest.last())
        &&& forall|i: int| 0 <= i < run.rest.len() - 1 ==> is_plain(#[trigger] run.rest[i])
    }
}

/// A run that can still succeed.
spec fn is_hopeful(run: RunView) -> bool {
    &&& (run.point is Source || run.point is Database) ==> run.config.port_start
        <= run.config.port_end
    &&& match run.point {
        PointView::Source(SourcePointView::Database(context)) => is_supported_app(context.app_type),
        PointView::Source(SourcePointView::Workspace(target)) => is_supported_app(
            target.context.app_type,
        ),
        PointView::Source(SourcePointView::Clone(target)) => is_supported_app(
            target.context.app_type,
        ),
        PointView::Database(DatabasePointView::Missing(p)) => is_supported_engine(
            p.database.engine,
        ),
        PointView::Route(RoutePointView::LookupRejected(_)) => false,
        PointView::Route(RoutePointView::UpdateRejected(_)) => false,
        PointView::Route(RoutePointView::Discard(_, _)) => false,
        _ => true,
    }
}

#[verifier::rlimit(30)]
proof fn lemma_stays_shaped(run: RunView, effect: EffectView, reply: ReplyView)
    requires
        is_shaped(run, effect),
    ensures
        run.stepped(reply) matches ProgressView::Pending(next, asked) ==> is_shaped(next, asked)
            && next.config == run.config && next.job == run.job,
{
    reveal(turn_at);
}

#[verifier::rlimit(30)]
proof fn lemma_stays_hopeful(run: RunView, effect: EffectView, reply: ReplyView)
    requires
        is_shaped(run, effect),
        is_hopeful(run),
        goes_well(run, effect, reply),
    ensures
        match run.stepped(reply) {
            ProgressView::Pending(next, _) => is_hopeful(next),
            ProgressView::Succeeded => true,
            ProgressView::Failed(_, _) => false,
        },
{
    reveal(turn_at);
}

/// Without hope, or with bad news, a run goes on without hope if it goes on at all.
#[verifier::rlimit(30)]
proof fn lemma_loses_hope(run: RunView, effect: EffectView, reply: ReplyView)
    requires
        is_shaped(run, effect),
        !is_hopeful(run) || !goes_well(run, effect, reply),
    ensures
        match run.stepped(reply) {
            ProgressView::Pending(next, _) => !is_hopeful(next),
            ProgressView::Succeeded => false,
            ProgressView::Failed(_, _) => true,
        },
{
    reveal(turn_at);
}

/// Whatever a run asks for in this row of replies goes well.
pub open spec fn all_goes_well(
    config: ConfigView,
    job: DeploymentJobView,
    replies: spec_fn(nat) -> ReplyView,
) -> bool {
    forall|n: nat|
        #![trigger heard(replies, n)]
        after(config, job, heard(replies, n)) matches ProgressView::Pending(run, effect)
            ==> goes_well(run, effect, replies(n))
}

/// A job of a known kind; for a deployment there are ports to choose from.
pub open spec fn is_feasible(config: ConfigView, job: DeploymentJobView) -> bool {
    &&& job.job_type == "deploy"@ || job.job_type == "delete"@
    &&& job.job_type == "deploy"@ ==> config.port_start <= config.port_end
}

proof fn lemma_shaped(
    config: ConfigView,
    job: DeploymentJobView,
    replies: spec_fn(nat) -> ReplyView,
    n: nat,
)
    ensures
        after(config, job, heard(replies, n)) matches ProgressView::Pending(run, effect)
            ==> is_shaped(run, effect) && run.config == config && run.job == job,
    decreases n,
{
    lemma_kinds_differ();
    if n > 0 {
        let k = (n - 1) as nat;
        lemma_shaped(config, job, replies, k);
        assert(heard(replies, n).drop_last() =~= heard(replies, k));
        if let ProgressView::Pending(run, effect) = after(config, job, heard(replies, k)) {
            lemma_stays_shaped(run, effect, replies(k));
        }
    }
}

proof fn lemma_hopeful(
    config: ConfigView,
    job: DeploymentJobView,
    replies: spec_fn(nat) -> ReplyView,
    n: nat,
)
    requires
        is_feasible(config, job),
        all_goes_well(config, job, replies),
    ensures
        match after(config, job, heard(replies, n)) {
            ProgressView::Pending(run, _) => is_hopeful(run),
            ProgressView::Succeeded => true,
            ProgressView::Failed(_, _) => false,
        },
    decreases n,
{
    if n > 0 {
        let k = (n - 1) as nat;
        lemma_hopeful(config, job, replies, k);
        lemma_shaped(config, job, replies, k);
        assert(heard(replies, n).drop_last() =~= heard(replies, k));
        if let ProgressView::Pending(run, effect) = after(config, job, heard(replies, k)) {
            lemma_stays_hopeful(run, effect, replies(k));
        }
    }
}

proof fn lemma_hopeless(
    config: ConfigView,
    job: DeploymentJobView,
    replies: spec_fn(nat) -> ReplyView,
    k: nat,
    n: nat,
)
    requires
        k <= n,
        match after(config, job, heard(replies, k)) {
            ProgressView::Pending(run, _) => !is_hopeful(run),
            ProgressView::Succeeded => false,
            ProgressView::Failed(_, _) => true,
        },
    ensures
        match after(config, job, heard(replies, n)) {
            ProgressView::Pending(run, _) => !is_hopeful(run),
            ProgressView::Succeeded => false,
            ProgressView::Failed(_, _) => true,
        },
    decreases n - k,
{
    if k < n {
        assert(heard(replies, k + 1).drop_last() =~= heard(replies, k));
        if let ProgressView::Pending(run, effect) = after(config, job, heard(replies, k)) {
            lemma_shaped(config, job, replies, k);
            lemma_loses_hope(run, effect, replies(k));
        }
        lemma_hopeless(config, job, replies, k + 1, n);
    }
}

proof fn lemma_stays_succeeded(
    config: ConfigView,
    job: DeploymentJobView,
    replies: spec_fn(nat) -> ReplyView,
    n: nat,
    m: nat,
)
    requires
        n <= m,
        after(config, job, heard(replies, n)) is Succeeded,
    ensures
        after(config, job, heard(replies, m)) is Succeeded,
    decreases m,
{
    if n < m {
        lemma_stays_succeeded(config, job, replies, n, (m - 1) as nat);
        assert(heard(replies, m).drop_last() =~= heard(replies, (m - 1) as nat));
    }
}

/// A job of a known kind succeeds if all that it asks for goes well.
pub proof fn law_job_succeeds_if_all_goes_well(
    config: ConfigView,
    job: DeploymentJobView,
    replies: spec_fn(nat) -> ReplyView,
) -> (n: nat)
    requires
        is_feasible(config, job),
        all_goes_well(config, job, replies),
    ensures
        after(config, job, heard(replies, n)) is Succeeded,
{
    let n = law_every_run_ends(config, job, replies);
    lemma_hopeful(config, job, replies, n);
    n
}

/// A job succeeds only if it is of a known kind and all that it asks for goes well.
pub proof fn law_job_succeeds_only_if_all_goes_well(
    config: ConfigView,
    job: DeploymentJobView,
    replies: spec_fn(nat) -> ReplyView,
    n: nat,
)
    requires
        after(config, job, heard(replies, n)) is Succeeded,
    ensures
        is_feasible(config, job),
        all_goes_well(config, job, replies),
{
    assert(heard(replies, 0) =~= seq![]);
    if !is_feasible(config, job) {
        lemma_hopeless(config, job, replies, 0, n);
    }
    assert forall|k: nat|
        #![trigger heard(replies, k)]
        (after(config, job, heard(replies, k)) matches ProgressView::Pending(run, effect)
            ==> goes_well(run, effect, replies(k))) by {
        if n <= k {
            lemma_stays_succeeded(config, job, replies, n, k);
        } else if let ProgressView::Pending(run, effect) = after(config, job, heard(replies, k)) {
            if !goes_well(run, effect, replies(k)) {
                lemma_shaped(config, job, replies, k);
                lemma_loses_hope(run, effect, replies(k));
                assert(heard(replies, k + 1).drop_last() =~= heard(replies, k));
                lemma_hopeless(config, job, replies, k + 1, n);
            }
        }
    }
}

} // verus!
