//! Making sure that the container of a project's database is up.

use vstd::prelude::*;
use crate::command::{
    connect, connect_call, create_database, create_database_call, find_any, find_any_call,
    find_running, find_running_call, is_supported_engine, start, start_call,
};
use crate::config::{Config, ConfigView};
use crate::effect::{Effect, EffectView, Reply, ReplyView};
use crate::fault::{Fault, FaultView};
use crate::run::{
    announced, go, go_logged, go_then, note, note_of, printed, printed_by, refused, refused_turn,
    Point, PointView, Target, TargetView, Turn, TurnView,
};
use crate::run::launch::{probe_from_start, probe_turn};
use crate::store::{
    update_database_status, DatabaseConfig, DatabaseConfigView, DeploymentContext,
    DeploymentContextView, DeploymentJob, DeploymentJobView, StatementView,
};
use crate::text::{blank, is_blank};

verus! {

/// A project with a database.
pub struct Provision {
    pub context: DeploymentContext,
    pub database: DatabaseConfig,
}

pub struct ProvisionView {
    pub context: DeploymentContextView,
    pub database: DatabaseConfigView,
}

impl View for Provision {
    type V = ProvisionView;

    open spec fn view(&self) -> ProvisionView {
        ProvisionView { context: self.context@, database: self.database@ }
    }
}

impl ProvisionView {
    pub open spec fn target(self) -> TargetView {
        TargetView { context: self.context, database: Some(self.database) }
    }
}

/// Where a run waits while it looks after the database.
pub enum DatabasePoint {
    /// To hear whether the container is running.
    Running(Provision),
    /// For the log to say that it is.
    Found(Provision),
    /// For the running container to be joined to the network.
    Connect(Provision),
    /// To hear whether the container exists at all.
    Stopped(Provision),
    /// For the stopped container to start.
    Start(Provision),
    /// For the log to say that a container is to be created.
    Missing(Provision),
    /// For the new container.
    Create(Provision),
    /// For the status of the database to be set.
    Status(Provision),
}

pub enum DatabasePointView {
    Running(ProvisionView),
    Found(ProvisionView),
    Connect(ProvisionView),
    Stopped(ProvisionView),
    Start(ProvisionView),
    Missing(ProvisionView),
    Create(ProvisionView),
    Status(ProvisionView),
}

impl View for DatabasePoint {
    type V = DatabasePointView;

    open spec fn view(&self) -> DatabasePointView {
        match self {
            DatabasePoint::Running(p) => DatabasePointView::Running(p@),
            DatabasePoint::Found(p) => DatabasePointView::Found(p@),
            DatabasePoint::Connect(p) => DatabasePointView::Connect(p@),
            DatabasePoint::Stopped(p) => DatabasePointView::Stopped(p@),
            DatabasePoint::Start(p) => DatabasePointView::Start(p@),
            DatabasePoint::Missing(p) => DatabasePointView::Missing(p@),
            DatabasePoint::Create(p) => DatabasePointView::Create(p@),
            DatabasePoint::Status(p) => DatabasePointView::Status(p@),
        }
    }
}

// ---------------------------------------------------------------------------
// Messages
// ---------------------------------------------------------------------------

pub open spec fn ensuring(database: DatabaseConfigView) -> Seq<char> {
    "[DATABASE] Ensuring "@ + database.engine + " container '"@ + database.container_name
        + "' is running..."@
}

pub open spec fn already_running(database: DatabaseConfigView) -> Seq<char> {
    "[DATABASE] Container '"@ + database.container_name + "' is already running"@
}

pub open spec fn starting(database: DatabaseConfigView) -> Seq<char> {
    "[DATABASE] Starting existing container '"@ + database.container_name + "'..."@
}

pub open spec fn creating(database: DatabaseConfigView) -> Seq<char> {
    "[DATABASE] Creating new "@ + database.engine + " container '"@ + database.container_name
        + "'..."@
}

pub open spec fn created(database: DatabaseConfigView) -> Seq<char> {
    "[DATABASE] "@ + database.engine + " container '"@ + database.container_name
        + "' started successfully"@
}

pub open spec fn not_started(database: DatabaseConfigView) -> FaultView {
    FaultView::plain("Failed to start database container "@ + database.container_name)
}

pub open spec fn unsupported_engine(database: DatabaseConfigView) -> FaultView {
    FaultView::plain("Unsupported database engine: "@ + database.engine)
}

// ---------------------------------------------------------------------------
// Turns
// ---------------------------------------------------------------------------

/// The database comes before the container that uses it; without one there is nothing
/// to wait for.
pub open spec fn provision_turn(
    config: ConfigView,
    job: DeploymentJobView,
    target: TargetView,
) -> TurnView {
    match target.database {
        Some(database) => TurnView::Go(
            PointView::Database(
                DatabasePointView::Running(ProvisionView { context: target.context, database }),
            ),
            note_of(job, ensuring(database)),
            seq![EffectView::RunCaptured(find_running_call(database.container_name))],
        ),
        None => probe_turn(config, target),
    }
}

/// The status that a database has once its container is up.
pub open spec fn running_status(p: ProvisionView) -> EffectView {
    EffectView::Execute(
        StatementView::DatabaseStatus { project_id: p.context.project_id, status: "running"@ },
    )
}

pub open spec fn status_turn(p: ProvisionView) -> TurnView {
    TurnView::Go(PointView::Database(DatabasePointView::Status(p)), running_status(p), seq![])
}

/// Only for a known engine is there a container to create.
pub open spec fn create_turn(job: DeploymentJobView, p: ProvisionView) -> TurnView {
    let create = create_database_call(p.database);
    if is_supported_engine(p.database.engine) {
        TurnView::Go(
            PointView::Database(DatabasePointView::Create(p)),
            announced(job, create),
            seq![EffectView::RunLogged(job.deployment_id, create)],
        )
    } else {
        TurnView::Stop(unsupported_engine(p.database))
    }
}

/// A running container is joined to the network, if it can be; a stopped one is
/// started; a missing one is created, if its engine is known.
pub open spec fn database_turn(
    config: ConfigView,
    job: DeploymentJobView,
    at: DatabasePointView,
    reply: ReplyView,
) -> TurnView {
    match at {
        DatabasePointView::Running(p) => match reply {
            ReplyView::Captured { stdout, .. } => if is_blank(stdout) {
                TurnView::Go(
                    PointView::Database(DatabasePointView::Stopped(p)),
                    EffectView::RunCaptured(find_any_call(p.database.container_name)),
                    seq![],
                )
            } else {
                TurnView::Go(
                    PointView::Database(DatabasePointView::Found(p)),
                    note_of(job, already_running(p.database)),
                    seq![],
                )
            },
            _ => refused_turn(reply),
        },
        DatabasePointView::Found(p) => match reply {
            ReplyView::Ready => TurnView::Go(
                PointView::Database(DatabasePointView::Connect(p)),
                EffectView::RunCaptured(connect_call(p.database.container_name)),
                seq![],
            ),
            _ => refused_turn(reply),
        },
        DatabasePointView::Connect(p) => status_turn(p),
        DatabasePointView::Stopped(p) => match reply {
            ReplyView::Captured { stdout, .. } => if is_blank(stdout) {
                TurnView::Go(
                    PointView::Database(DatabasePointView::Missing(p)),
                    note_of(job, creating(p.database)),
                    seq![],
                )
            } else {
                TurnView::Go(
                    PointView::Database(DatabasePointView::Start(p)),
                    note_of(job, starting(p.database)),
                    seq![EffectView::RunWatched(start_call(p.database.container_name))],
                )
            },
            _ => refused_turn(reply),
        },
        DatabasePointView::Start(p) => match reply {
            ReplyView::Watched(true) => status_turn(p),
            ReplyView::Watched(false) => TurnView::Stop(not_started(p.database)),
            _ => refused_turn(reply),
        },
        DatabasePointView::Missing(p) => match reply {
            ReplyView::Ready => create_turn(job, p),
            _ => refused_turn(reply),
        },
        DatabasePointView::Create(p) => match printed_by("docker"@, reply) {
            Ok(_) => TurnView::Go(
                PointView::Database(DatabasePointView::Status(p)),
                note_of(job, created(p.database)),
                seq![running_status(p)],
            ),
            Err(fault) => TurnView::Stop(fault),
        },
        DatabasePointView::Status(p) => match reply {
            ReplyView::Ready => probe_turn(config, p.target()),
            _ => refused_turn(reply),
        },
    }
}

// ---------------------------------------------------------------------------
// Computation
// ---------------------------------------------------------------------------

pub(crate) fn provision(config: &Config, job: &DeploymentJob, target: Target) -> (turn: Turn)
    ensures
        turn@ == provision_turn(config@, job@, target@),
{
    let Target { context, database } = target;
    match database {
        Some(database) => {
            let message = "[DATABASE] Ensuring ".to_owned().concat(database.engine.as_str()).concat(
                " container '",
            ).concat(database.container_name.as_str()).concat("' is running...");
            let find = find_running(database.container_name.as_str());
            go_then(
                Point::Database(DatabasePoint::Running(Provision { context, database })),
                note(job, message.as_str()),
                Effect::RunCaptured(find),
            )
        },
        None => probe_from_start(config, Target { context, database: None }),
    }
}

fn running(p: &Provision) -> (effect: Effect)
    ensures
        effect@ == running_status(p@),
{
    Effect::Execute(update_database_status(p.context.project_id, "running"))
}

fn set_status(p: Provision) -> (turn: Turn)
    ensures
        turn@ == status_turn(p@),
{
    let effect = running(&p);
    go(Point::Database(DatabasePoint::Status(p)), effect)
}

fn found(job: &DeploymentJob, p: Provision) -> (turn: Turn)
    ensures
        turn@ == TurnView::Go(
            PointView::Database(DatabasePointView::Found(p@)),
            note_of(job@, already_running(p@.database)),
            seq![],
        ),
{
    let message = "[DATABASE] Container '".to_owned().concat(
        p.database.container_name.as_str(),
    ).concat("' is already running");
    go(Point::Database(DatabasePoint::Found(p)), note(job, message.as_str()))
}

fn start_stopped(job: &DeploymentJob, p: Provision) -> (turn: Turn)
    ensures
        turn@ == TurnView::Go(
            PointView::Database(DatabasePointView::Start(p@)),
            note_of(job@, starting(p@.database)),
            seq![EffectView::RunWatched(start_call(p@.database.container_name))],
        ),
{
    let message = "[DATABASE] Starting existing container '".to_owned().concat(
        p.database.container_name.as_str(),
    ).concat("'...");
    let command = start(p.database.container_name.as_str());
    go_then(
        Point::Database(DatabasePoint::Start(p)),
        note(job, message.as_str()),
        Effect::RunWatched(command),
    )
}

fn missing(job: &DeploymentJob, p: Provision) -> (turn: Turn)
    ensures
        turn@ == TurnView::Go(
            PointView::Database(DatabasePointView::Missing(p@)),
            note_of(job@, creating(p@.database)),
            seq![],
        ),
{
    let message = "[DATABASE] Creating new ".to_owned().concat(p.database.engine.as_str()).concat(
        " container '",
    ).concat(p.database.container_name.as_str()).concat("'...");
    go(Point::Database(DatabasePoint::Missing(p)), note(job, message.as_str()))
}

fn create(job: &DeploymentJob, p: Provision) -> (turn: Turn)
    ensures
        turn@ == create_turn(job@, p@),
{
    match create_database(&p.database) {
        Some(command) => go_logged(job, Point::Database(DatabasePoint::Create(p)), command),
        None => Turn::Stop(
            Fault::new(
                "Unsupported database engine: ".to_owned().concat(p.database.engine.as_str()),
            ),
        ),
    }
}

fn report_created(job: &DeploymentJob, p: Provision) -> (turn: Turn)
    ensures
        turn@ == TurnView::Go(
            PointView::Database(DatabasePointView::Status(p@)),
            note_of(job@, created(p@.database)),
            seq![running_status(p@)],
        ),
{
    let message = "[DATABASE] ".to_owned().concat(p.database.engine.as_str()).concat(
        " container '",
    ).concat(p.database.container_name.as_str()).concat("' started successfully");
    let status = running(&p);
    go_then(Point::Database(DatabasePoint::Status(p)), note(job, message.as_str()), status)
}

pub(crate) fn advance(
    config: &Config,
    job: &DeploymentJob,
    at: DatabasePoint,
    reply: Reply,
) -> (turn: Turn)
    ensures
        turn@ == database_turn(config@, job@, at@, reply@),
{
    match at {
        DatabasePoint::Running(p) => match reply {
            Reply::Captured { stdout, .. } => if blank(stdout.as_str()) {
                let find = find_any(p.database.container_name.as_str());
                go(Point::Database(DatabasePoint::Stopped(p)), Effect::RunCaptured(find))
            } else {
                found(job, p)
            },
            _ => refused(reply),
        },
        DatabasePoint::Found(p) => match reply {
            Reply::Ready => {
                let command = connect(p.database.container_name.as_str());
                go(Point::Database(DatabasePoint::Connect(p)), Effect::RunCaptured(command))
            },
            _ => refused(reply),
        },
        DatabasePoint::Connect(p) => set_status(p),
        DatabasePoint::Stopped(p) => match reply {
            Reply::Captured { stdout, .. } => if blank(stdout.as_str()) {
                missing(job, p)
            } else {
                start_stopped(job, p)
            },
            _ => refused(reply),
        },
        DatabasePoint::Start(p) => match reply {
            Reply::Watched(success) => if success {
                set_status(p)
            } else {
                Turn::Stop(
                    Fault::new(
                        "Failed to start database container ".to_owned().concat(
                            p.database.container_name.as_str(),
                        ),
                    ),
                )
            },
            _ => refused(reply),
        },
        DatabasePoint::Missing(p) => match reply {
            Reply::Ready => create(job, p),
            _ => refused(reply),
        },
        DatabasePoint::Create(p) => match printed("docker", reply) {
            Ok(_) => report_created(job, p),
            Err(fault) => Turn::Stop(fault),
        },
        DatabasePoint::Status(p) => match reply {
            Reply::Ready => {
                let Provision { context, database } = p;
                probe_from_start(config, Target { context, database: Some(database) })
            },
            _ => refused(reply),
        },
    }
}

} // verus!
