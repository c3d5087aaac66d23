//! Removing a deployment.

use vstd::prelude::*;
use crate::command::{remove_call, remove_container};
use crate::effect::{Effect, EffectView, Reply, ReplyView};
use crate::naming::{app_container, container_name};
use crate::run::{go, refused, refused_turn, Point, PointView, Turn, TurnView};
use crate::store::{deletion_record, delete_deployment, DeploymentJob, DeploymentJobView};

verus! {

/// Where the removal of a deployment waits.
pub enum DeletionPoint {
    /// For the project that the deployment belongs to.
    Context,
    /// For the container to be gone.
    Container,
    /// For the rows to be gone.
    Rows,
}

pub enum DeletionPointView {
    Context,
    Container,
    Rows,
}

impl View for DeletionPoint {
    type V = DeletionPointView;

    open spec fn view(&self) -> DeletionPointView {
        match self {
            DeletionPoint::Context => DeletionPointView::Context,
            DeletionPoint::Container => DeletionPointView::Container,
            DeletionPoint::Rows => DeletionPointView::Rows,
        }
    }
}

/// The container is removed first; whether that works makes no difference to the rows.
pub open spec fn deletion_turn(
    job: DeploymentJobView,
    at: DeletionPointView,
    reply: ReplyView,
) -> TurnView {
    match at {
        DeletionPointView::Context => match reply {
            ReplyView::Context(context) => TurnView::Go(
                PointView::Deletion(DeletionPointView::Container),
                EffectView::RunWatched(
                    remove_call(app_container(context.project_id as int, job.deployment_id as int)),
                ),
                seq![],
            ),
            _ => refused_turn(reply),
        },
        DeletionPointView::Container => TurnView::Go(
            PointView::Deletion(DeletionPointView::Rows),
            EffectView::Commit(deletion_record(job.deployment_id)),
            seq![],
        ),
        DeletionPointView::Rows => match reply {
            ReplyView::Ready => TurnView::Finish,
            _ => refused_turn(reply),
        },
    }
}

pub(crate) fn advance(job: &DeploymentJob, at: DeletionPoint, reply: Reply) -> (turn: Turn)
    ensures
        turn@ == deletion_turn(job@, at@, reply@),
{
    match at {
        DeletionPoint::Context => match reply {
            Reply::Context(context) => {
                let name = container_name(context.project_id, job.deployment_id);
                go(
                    Point::Deletion(DeletionPoint::Container),
                    Effect::RunWatched(remove_container(name.as_str())),
                )
            },
            _ => refused(reply),
        },
        DeletionPoint::Container => go(
            Point::Deletion(DeletionPoint::Rows),
            Effect::Commit(delete_deployment(job.deployment_id)),
        ),
        DeletionPoint::Rows => match reply {
            Reply::Ready => Turn::Finish,
            _ => refused(reply),
        },
    }
}

} // verus!
