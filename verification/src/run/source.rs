//! From a job to an image: finding the project, fetching its source, building it.

use vstd::prelude::*;
use crate::command::{build_call, build_image, clone_call, clone_repository};
use crate::config::{Config, ConfigView};
use crate::effect::{effects, Effect, EffectView, Reply, ReplyView, Template};
use crate::fault::{Fault, FaultView};
use crate::naming::{image, image_tag, workspace, workspace_path};
use crate::run::{
    announce, announced, go, go_logged, printed, printed_by, refused, refused_turn, Point,
    PointView, Target, TargetView, Turn, TurnView,
};
use crate::run::database::{provision, provision_turn};
use crate::store::{DeploymentContext, DeploymentContextView, DeploymentJob, DeploymentJobView};
use crate::text::{join_path, path_in, same_text};

verus! {

/// Where a run waits before its image is built.
pub enum SourcePoint {
    /// For the project that the deployment belongs to.
    Context,
    /// For the database that the project may have.
    Database(DeploymentContext),
    /// To hear whether the workspace is left from an earlier run.
    Workspace(Target),
    /// For the source.
    Clone(Target),
    /// To hear whether the source has an `artisan`.
    Artisan(Target),
    /// To hear whether the source has a `composer.json`.
    Composer(Target),
    /// For the image.
    Build(Target),
}

pub enum SourcePointView {
    Context,
    Database(DeploymentContextView),
    Workspace(TargetView),
    Clone(TargetView),
    Artisan(TargetView),
    Composer(TargetView),
    Build(TargetView),
}

impl View for SourcePoint {
    type V = SourcePointView;

    open spec fn view(&self) -> SourcePointView {
        match self {
            SourcePoint::Context => SourcePointView::Context,
            SourcePoint::Database(context) => SourcePointView::Database(context@),
            SourcePoint::Workspace(target) => SourcePointView::Workspace(target@),
            SourcePoint::Clone(target) => SourcePointView::Clone(target@),
            SourcePoint::Artisan(target) => SourcePointView::Artisan(target@),
            SourcePoint::Composer(target) => SourcePointView::Composer(target@),
            SourcePoint::Build(target) => SourcePointView::Build(target@),
        }
    }
}

/// The directory that a job is built in.
pub open spec fn job_workspace(config: ConfigView, job: DeploymentJobView) -> Seq<char> {
    workspace_path(config.workspace_dir, job.deployment_id as int)
}

/// The directory in the workspace for the files that the worker adds.
pub open spec fn added_files(workspace: Seq<char>) -> Seq<char> {
    path_in(workspace, ".deploynest"@)
}

pub open spec fn added_dockerfile(workspace: Seq<char>) -> Seq<char> {
    path_in(added_files(workspace), "Dockerfile.laravel"@)
}

pub open spec fn added_entrypoint(workspace: Seq<char>) -> Seq<char> {
    path_in(added_files(workspace), "laravel-entrypoint.sh"@)
}

pub open spec fn not_laravel() -> FaultView {
    FaultView::plain("Laravel projects must contain artisan and composer.json"@)
}

pub open spec fn unsupported_app(app_type: Seq<char>) -> FaultView {
    FaultView::plain("Unsupported application type: "@ + app_type)
}

/// A project with a Dockerfile of its own is built by it. A Laravel project must look
/// like one and gets a Dockerfile. There are no others.
pub open spec fn prepare_turn(
    config: ConfigView,
    job: DeploymentJobView,
    target: TargetView,
) -> TurnView {
    let ws = job_workspace(config, job);
    let tag = image_tag(target.context.project_id as int, job.deployment_id as int);
    if target.context.app_type == "dockerfile"@ {
        let build = build_call(tag, None, ws);
        TurnView::Go(
            PointView::Source(SourcePointView::Build(target)),
            announced(job, build),
            seq![EffectView::RunLogged(job.deployment_id, build)],
        )
    } else if target.context.app_type == "laravel"@ {
        TurnView::Go(
            PointView::Source(SourcePointView::Artisan(target)),
            EffectView::PathExists(path_in(ws, "artisan"@)),
            seq![],
        )
    } else {
        TurnView::Stop(unsupported_app(target.context.app_type))
    }
}

/// The files that a Laravel project is built with are added, then it is built.
pub open spec fn laravel_turn(
    config: ConfigView,
    job: DeploymentJobView,
    target: TargetView,
) -> TurnView {
    let ws = job_workspace(config, job);
    let tag = image_tag(target.context.project_id as int, job.deployment_id as int);
    let build = build_call(tag, Some(added_dockerfile(ws)), ws);
    TurnView::Go(
        PointView::Source(SourcePointView::Build(target)),
        EffectView::CreateDir(added_files(ws)),
        seq![
            EffectView::WriteTemplate(added_dockerfile(ws), Template::LaravelDockerfile),
            EffectView::WriteTemplate(added_entrypoint(ws), Template::LaravelEntrypoint),
            announced(job, build),
            EffectView::RunLogged(job.deployment_id, build),
        ],
    )
}

pub open spec fn source_turn(
    config: ConfigView,
    job: DeploymentJobView,
    at: SourcePointView,
    reply: ReplyView,
) -> TurnView {
    let ws = job_workspace(config, job);
    match at {
        SourcePointView::Context => match reply {
            ReplyView::Context(context) => TurnView::Go(
                PointView::Source(SourcePointView::Database(context)),
                EffectView::FindDatabase(context.project_id),
                seq![],
            ),
            _ => refused_turn(reply),
        },
        SourcePointView::Database(context) => match reply {
            ReplyView::Database(database) => TurnView::Go(
                PointView::Source(SourcePointView::Workspace(TargetView { context, database })),
                EffectView::PathExists(ws),
                seq![],
            ),
            _ => refused_turn(reply),
        },
        SourcePointView::Workspace(target) => match reply {
            ReplyView::Exists(found) => {
                let clone = clone_call(target.context.branch, target.context.repo_url, ws);
                let point = PointView::Source(SourcePointView::Clone(target));
                if found {
                    TurnView::Go(
                        point,
                        EffectView::RemoveTree(ws),
                        seq![
                            announced(job, clone),
                            EffectView::RunLogged(job.deployment_id, clone),
                        ],
                    )
                } else {
                    TurnView::Go(
                        point,
                        announced(job, clone),
                        seq![EffectView::RunLogged(job.deployment_id, clone)],
                    )
                }
            },
            _ => refused_turn(reply),
        },
        SourcePointView::Clone(target) => match printed_by("git"@, reply) {
            Ok(_) => prepare_turn(config, job, target),
            Err(fault) => TurnView::Stop(fault),
        },
        SourcePointView::Artisan(target) => match reply {
            ReplyView::Exists(true) => TurnView::Go(
                PointView::Source(SourcePointView::Composer(target)),
                EffectView::PathExists(path_in(ws, "composer.json"@)),
                seq![],
            ),
            ReplyView::Exists(false) => TurnView::Stop(not_laravel()),
            _ => refused_turn(reply),
        },
        SourcePointView::Composer(target) => match reply {
            ReplyView::Exists(true) => laravel_turn(config, job, target),
            ReplyView::Exists(false) => TurnView::Stop(not_laravel()),
            _ => refused_turn(reply),
        },
        SourcePointView::Build(target) => match printed_by("docker"@, reply) {
            Ok(_) => provision_turn(config, job, target),
            Err(fault) => TurnView::Stop(fault),
        },
    }
}

fn prepare_build_context(config: &Config, job: &DeploymentJob, target: Target) -> (turn: Turn)
    ensures
        turn@ == prepare_turn(config@, job@, target@),
{
    let ws = workspace(config.workspace_dir.as_str(), job.deployment_id);
    if same_text(target.context.app_type.as_str(), "dockerfile") {
        let tag = image(target.context.project_id, job.deployment_id);
        let build = build_image(tag.as_str(), None, ws.as_str());
        go_logged(job, Point::Source(SourcePoint::Build(target)), build)
    } else if same_text(target.context.app_type.as_str(), "laravel") {
        let path = join_path(ws.as_str(), "artisan");
        go(Point::Source(SourcePoint::Artisan(target)), Effect::PathExists(path))
    } else {
        Turn::Stop(
            Fault::new(
                "Unsupported application type: ".to_owned().concat(
                    target.context.app_type.as_str(),
                ),
            ),
        )
    }
}

fn build_laravel(config: &Config, job: &DeploymentJob, target: Target) -> (turn: Turn)
    ensures
        turn@ == laravel_turn(config@, job@, target@),
{
    let ws = workspace(config.workspace_dir.as_str(), job.deployment_id);
    let dir = join_path(ws.as_str(), ".deploynest");
    let dockerfile = join_path(dir.as_str(), "Dockerfile.laravel");
    let entrypoint = join_path(dir.as_str(), "laravel-entrypoint.sh");
    let tag = image(target.context.project_id, job.deployment_id);
    let build = build_image(tag.as_str(), Some(dockerfile.as_str()), ws.as_str());
    let mut rest: Vec<Effect> = Vec::new();
    rest.push(Effect::WriteTemplate(dockerfile, Template::LaravelDockerfile));
    rest.push(Effect::WriteTemplate(entrypoint, Template::LaravelEntrypoint));
    rest.push(announce(job, &build));
    rest.push(Effect::RunLogged(job.deployment_id, build));
    let turn = Turn::Go(Point::Source(SourcePoint::Build(target)), Effect::CreateDir(dir), rest);
    assert(turn@ =~= laravel_turn(config@, job@, target@)) by {
        assert(effects(rest@) =~= laravel_turn(config@, job@, target@)->2);
    }
    turn
}

fn not_laravel_fault() -> (fault: Fault)
    ensures
        fault@ == not_laravel(),
{
    Fault::new("Laravel projects must contain artisan and composer.json".to_owned())
}

fn fetch(config: &Config, job: &DeploymentJob, target: Target, found: bool) -> (turn: Turn)
    ensures
        turn@ == source_turn(
            config@,
            job@,
            SourcePointView::Workspace(target@),
            ReplyView::Exists(found),
        ),
{
    let ws = workspace(config.workspace_dir.as_str(), job.deployment_id);
    let clone = clone_repository(
        target.context.branch.as_str(),
        target.context.repo_url.as_str(),
        ws.as_str(),
    );
    let point = Point::Source(SourcePoint::Clone(target));
    if found {
        let mut rest: Vec<Effect> = Vec::new();
        rest.push(announce(job, &clone));
        rest.push(Effect::RunLogged(job.deployment_id, clone));
        assert(effects(rest@) =~= seq![
            announced(job@, clone@),
            EffectView::RunLogged(job@.deployment_id, clone@),
        ]);
        Turn::Go(point, Effect::RemoveTree(ws), rest)
    } else {
        go_logged(job, point, clone)
    }
}

pub(crate) fn advance(
    config: &Config,
    job: &DeploymentJob,
    at: SourcePoint,
    reply: Reply,
) -> (turn: Turn)
    ensures
        turn@ == source_turn(config@, job@, at@, reply@),
{
    match at {
        SourcePoint::Context => match reply {
            Reply::Context(context) => {
                let effect = Effect::FindDatabase(context.project_id);
                go(Point::Source(SourcePoint::Database(context)), effect)
            },
            _ => refused(reply),
        },
        SourcePoint::Database(context) => match reply {
            Reply::Database(database) => {
                let ws = workspace(config.workspace_dir.as_str(), job.deployment_id);
                go(
                    Point::Source(SourcePoint::Workspace(Target { context, database })),
                    Effect::PathExists(ws),
                )
            },
            _ => refused(reply),
        },
        SourcePoint::Workspace(target) => match reply {
            Reply::Exists(found) => fetch(config, job, target, found),
            _ => refused(reply),
        },
        SourcePoint::Clone(target) => match printed("git", reply) {
            Ok(_) => prepare_build_context(config, job, target),
            Err(fault) => Turn::Stop(fault),
        },
        SourcePoint::Artisan(target) => match reply {
            Reply::Exists(found) => if found {
                let ws = workspace(config.workspace_dir.as_str(), job.deployment_id);
                let path = join_path(ws.as_str(), "composer.json");
                go(Point::Source(SourcePoint::Composer(target)), Effect::PathExists(path))
            } else {
                Turn::Stop(not_laravel_fault())
            },
            _ => refused(reply),
        },
        SourcePoint::Composer(target) => match reply {
            Reply::Exists(found) => if found {
                build_laravel(config, job, target)
            } else {
                Turn::Stop(not_laravel_fault())
            },
            _ => refused(reply),
        },
        SourcePoint::Build(target) => match printed("docker", reply) {
            Ok(_) => provision(config, job, target),
            Err(fault) => Turn::Stop(fault),
        },
    }
}

} // verus!
