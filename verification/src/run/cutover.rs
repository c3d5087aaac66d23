//! Recording a deployment that is served, and removing what it replaces.

use vstd::prelude::*;
use crate::command::{
    list_call, list_containers, remove_call, remove_container, superseded, superseded_in,
};
use crate::config::{Config, ConfigView};
use crate::effect::{Effect, EffectView, Reply, ReplyView};
use crate::fault::{Fault, FaultView};
use crate::naming::{project_label, project_tag, public_url, site, workspace};
use crate::run::{go, refused, refused_turn, Live, LiveView, Point, PointView, Turn, TurnView};
use crate::run::route::{live_host, live_hostname};
use crate::run::source::job_workspace;
use crate::store::{complete_job, completion_record, DeploymentJob, DeploymentJobView};
use crate::text::texts;

verus! {

/// Where a run waits once its host is served.
pub enum CutoverPoint {
    /// For the job to be recorded as completed.
    Complete(Live),
    /// For the list of the project's containers.
    List(Live),
    /// For a replaced container to be removed; others follow.
    Remove(Live, String, Vec<String>),
    /// For the workspace to be removed.
    Cleanup,
}

pub enum CutoverPointView {
    Complete(LiveView),
    List(LiveView),
    Remove(LiveView, Seq<char>, Seq<Seq<char>>),
    Cleanup,
}

impl View for CutoverPoint {
    type V = CutoverPointView;

    open spec fn view(&self) -> CutoverPointView {
        match self {
            CutoverPoint::Complete(live) => CutoverPointView::Complete(live@),
            CutoverPoint::List(live) => CutoverPointView::List(live@),
            CutoverPoint::Remove(live, container, others) => CutoverPointView::Remove(
                live@,
                container@,
                texts(others@),
            ),
            CutoverPoint::Cleanup => CutoverPointView::Cleanup,
        }
    }
}

// ---------------------------------------------------------------------------
// Turns
// ---------------------------------------------------------------------------

/// The transaction that records a deployment as served.
pub open spec fn live_record(
    config: ConfigView,
    job: DeploymentJobView,
    live: LiveView,
) -> EffectView {
    EffectView::Commit(
        completion_record(
            job,
            live.container_id,
            live.port,
            site(config.public_scheme, live_host(config, live)),
        ),
    )
}

pub open spec fn complete_turn(
    config: ConfigView,
    job: DeploymentJobView,
    live: LiveView,
) -> TurnView {
    TurnView::Go(
        PointView::Cutover(CutoverPointView::Complete(live)),
        live_record(config, job, live),
        seq![],
    )
}

/// The containers are removed in order, then the workspace.
pub open spec fn removal_turn(
    config: ConfigView,
    job: DeploymentJobView,
    live: LiveView,
    containers: Seq<Seq<char>>,
) -> TurnView {
    if containers.len() > 0 {
        TurnView::Go(
            PointView::Cutover(
                CutoverPointView::Remove(live, containers[0], containers.skip(1)),
            ),
            EffectView::RunWatched(remove_call(containers[0])),
            seq![],
        )
    } else {
        TurnView::Go(
            PointView::Cutover(CutoverPointView::Cleanup),
            EffectView::RemoveTree(job_workspace(config, job)),
            seq![],
        )
    }
}

pub open spec fn not_removed(container: Seq<char>) -> FaultView {
    FaultView::plain("Failed to remove old container "@ + container)
}

pub open spec fn cutover_turn(
    config: ConfigView,
    job: DeploymentJobView,
    at: CutoverPointView,
    reply: ReplyView,
) -> TurnView {
    match at {
        CutoverPointView::Complete(live) => match reply {
            ReplyView::Ready => TurnView::Go(
                PointView::Cutover(CutoverPointView::List(live)),
                EffectView::RunCaptured(
                    list_call(project_tag(live.target.context.project_id as int)),
                ),
                seq![],
            ),
            _ => refused_turn(reply),
        },
        CutoverPointView::List(live) => match reply {
            ReplyView::Captured { stdout, .. } => removal_turn(
                config,
                job,
                live,
                superseded_in(stdout, live.container_id),
            ),
            _ => refused_turn(reply),
        },
        CutoverPointView::Remove(live, container, others) => match reply {
            ReplyView::Watched(true) => removal_turn(config, job, live, others),
            ReplyView::Watched(false) => TurnView::Stop(not_removed(container)),
            _ => refused_turn(reply),
        },
        CutoverPointView::Cleanup => match reply {
            ReplyView::Ready => TurnView::Finish,
            _ => refused_turn(reply),
        },
    }
}

// ---------------------------------------------------------------------------
// Computation
// ---------------------------------------------------------------------------

pub(crate) fn complete(config: &Config, job: &DeploymentJob, live: Live) -> (turn: Turn)
    ensures
        turn@ == complete_turn(config@, job@, live@),
{
    let name = live_hostname(config, &live);
    let url = public_url(config.public_scheme.as_str(), name.as_str());
    let record = complete_job(job, live.container_id.as_str(), live.port, url.as_str());
    go(Point::Cutover(CutoverPoint::Complete(live)), Effect::Commit(record))
}

fn remove_old_containers(
    config: &Config,
    job: &DeploymentJob,
    live: Live,
    containers: Vec<String>,
) -> (turn: Turn)
    ensures
        turn@ == removal_turn(config@, job@, live@, texts(containers@)),
{
    let mut others = containers;
    if others.len() > 0 {
        let container = others.remove(0);
        assert(texts(others@) =~= texts(containers@).skip(1));
        let command = remove_container(container.as_str());
        go(
            Point::Cutover(CutoverPoint::Remove(live, container, others)),
            Effect::RunWatched(command),
        )
    } else {
        let ws = workspace(config.workspace_dir.as_str(), job.deployment_id);
        go(Point::Cutover(CutoverPoint::Cleanup), Effect::RemoveTree(ws))
    }
}

pub(crate) fn advance(
    config: &Config,
    job: &DeploymentJob,
    at: CutoverPoint,
    reply: Reply,
) -> (turn: Turn)
    ensures
        turn@ == cutover_turn(config@, job@, at@, reply@),
{
    match at {
        CutoverPoint::Complete(live) => match reply {
            Reply::Ready => {
                let label = project_label(live.target.context.project_id);
                go(
                    Point::Cutover(CutoverPoint::List(live)),
                    Effect::RunCaptured(list_containers(label.as_str())),
                )
            },
            _ => refused(reply),
        },
        CutoverPoint::List(live) => match reply {
            Reply::Captured { stdout, .. } => {
                let containers = superseded(stdout.as_str(), live.container_id.as_str());
                remove_old_containers(config, job, live, containers)
            },
            _ => refused(reply),
        },
        CutoverPoint::Remove(live, container, others) => match reply {
            Reply::Watched(success) => if success {
                remove_old_containers(config, job, live, others)
            } else {
                Turn::Stop(
                    Fault::new(
                        "Failed to remove old container ".to_owned().concat(container.as_str()),
                    ),
                )
            },
            _ => refused(reply),
        },
        CutoverPoint::Cleanup => match reply {
            Reply::Ready => Turn::Finish,
            _ => refused(reply),
        },
    }
}

} // verus!
