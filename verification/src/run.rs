//! A job, from the moment it is taken to the moment it is done or has failed.
//!
//! A run asks for one piece of outside work at a time. The caller does it and hands
//! the reply back, and the run says what comes next. Where several pieces follow each
//! other and only the last has something to report, they form a script that goes on
//! as long as each is ready.

use vstd::prelude::*;
use crate::command::{announcement, announcement_of, database_view, Command, CommandView};
use crate::config::{Config, ConfigView};
use crate::effect::{effects, Effect, EffectView, Reply, ReplyView};
use crate::fault::{Fault, FaultView};
use crate::store::{
    failure_record, insert_log, log_entry, mark_job_failed, statements, DatabaseConfig,
    DatabaseConfigView, DeploymentContext, DeploymentContextView, DeploymentJob,
    DeploymentJobView, Statement, StatementView,
};
use crate::text::{newline_terminated, same_text, with_newlines};
use self::cutover::{CutoverPoint, CutoverPointView};
use self::database::{DatabasePoint, DatabasePointView};
use self::deletion::{DeletionPoint, DeletionPointView};
use self::launch::{LaunchPoint, LaunchPointView};
use self::route::{RoutePoint, RoutePointView};
use self::source::{SourcePoint, SourcePointView};

pub mod cutover;
pub mod database;
pub mod deletion;
pub mod faults;
pub mod launch;
pub mod laws;
pub mod order;
pub mod requests;
pub mod route;
pub mod source;
pub mod stages;
pub mod success;
pub mod upkeep;

verus! {

// ---------------------------------------------------------------------------
// What a run knows
// ---------------------------------------------------------------------------

/// What is to be deployed.
pub struct Target {
    pub context: DeploymentContext,
    pub database: Option<DatabaseConfig>,
}

pub struct TargetView {
    pub context: DeploymentContextView,
    pub database: Option<DatabaseConfigView>,
}

impl View for Target {
    type V = TargetView;

    open spec fn view(&self) -> TargetView {
        TargetView { context: self.context@, database: database_view(self.database) }
    }
}

/// A deployment whose container is up.
pub struct Live {
    pub target: Target,
    pub port: u16,
    pub container_id: String,
}

pub struct LiveView {
    pub target: TargetView,
    pub port: u16,
    pub container_id: Seq<char>,
}

impl View for Live {
    type V = LiveView;

    open spec fn view(&self) -> LiveView {
        LiveView { target: self.target@, port: self.port, container_id: self.container_id@ }
    }
}

/// What a run is waiting for.
pub enum Point {
    Source(SourcePoint),
    Database(DatabasePoint),
    Launch(LaunchPoint),
    Route(RoutePoint),
    Cutover(CutoverPoint),
    Deletion(DeletionPoint),
}

pub enum PointView {
    Source(SourcePointView),
    Database(DatabasePointView),
    Launch(LaunchPointView),
    Route(RoutePointView),
    Cutover(CutoverPointView),
    Deletion(DeletionPointView),
}

impl View for Point {
    type V = PointView;

    open spec fn view(&self) -> PointView {
        match self {
            Point::Source(point) => PointView::Source(point@),
            Point::Database(point) => PointView::Database(point@),
            Point::Launch(point) => PointView::Launch(point@),
            Point::Route(point) => PointView::Route(point@),
            Point::Cutover(point) => PointView::Cutover(point@),
            Point::Deletion(point) => PointView::Deletion(point@),
        }
    }
}

/// Where a reply leads.
pub enum Turn {
    /// Ask for this, then for the rest, and wait at the point for the last reply.
    Go(Point, Effect, Vec<Effect>),
    /// Give up.
    Stop(Fault),
    /// All is done.
    Finish,
}

#[verifier::ext_equal]
pub enum TurnView {
    Go(PointView, EffectView, Seq<EffectView>),
    Stop(FaultView),
    Finish,
}

impl View for Turn {
    type V = TurnView;

    open spec fn view(&self) -> TurnView {
        match self {
            Turn::Go(point, first, rest) => TurnView::Go(point@, first@, effects(rest@)),
            Turn::Stop(fault) => TurnView::Stop(fault@),
            Turn::Finish => TurnView::Finish,
        }
    }
}

// ---------------------------------------------------------------------------
// Replies
// ---------------------------------------------------------------------------

/// A reply to something else than what was asked.
pub open spec fn unexpected_reply() -> FaultView {
    FaultView::plain("Unexpected reply"@)
}

/// A reply that a run cannot go on from.
pub open spec fn refused_turn(reply: ReplyView) -> TurnView {
    match reply {
        ReplyView::Failed(fault) => TurnView::Stop(fault),
        _ => TurnView::Stop(unexpected_reply()),
    }
}

/// What a logged command printed, or why there is no more to expect of it.
pub open spec fn printed_by(program: Seq<char>, reply: ReplyView) -> Result<Seq<char>, FaultView> {
    match reply {
        ReplyView::Streamed { success, status, lines } => if success {
            Ok(newline_terminated(lines))
        } else {
            Err(FaultView::plain(program + " exited with "@ + status))
        },
        ReplyView::NotStarted(fault) => Err(fault.under("Failed to start "@ + program)),
        ReplyView::Failed(fault) => Err(fault),
        _ => Err(unexpected_reply()),
    }
}

pub(crate) fn unexpected() -> (fault: Fault)
    ensures
        fault@ == unexpected_reply(),
{
    Fault::new("Unexpected reply".to_owned())
}

pub(crate) fn refused(reply: Reply) -> (turn: Turn)
    ensures
        turn@ == refused_turn(reply@),
{
    match reply {
        Reply::Failed(fault) => Turn::Stop(fault),
        _ => Turn::Stop(unexpected()),
    }
}

/// What a logged command printed to its standard output, if it ended well.
pub fn printed(program: &str, reply: Reply) -> (result: Result<String, Fault>)
    ensures
        match result {
            Ok(text) => printed_by(program@, reply@) == Ok::<Seq<char>, FaultView>(text@),
            Err(fault) => printed_by(program@, reply@) == Err::<Seq<char>, FaultView>(fault@),
        },
{
    match reply {
        Reply::Streamed { success, status, lines } => if success {
            Ok(with_newlines(&lines))
        } else {
            Err(
                Fault::new(
                    program.to_owned().concat(" exited with ").concat(status.as_str()),
                ),
            )
        },
        Reply::NotStarted(fault) => {
            let message = "Failed to start ".to_owned().concat(program);
            Err(fault.context(message.as_str()))
        },
        Reply::Failed(fault) => Err(fault),
        _ => Err(unexpected()),
    }
}

// ---------------------------------------------------------------------------
// Effects
// ---------------------------------------------------------------------------

/// A line for the log of the job's deployment.
pub open spec fn note_of(job: DeploymentJobView, message: Seq<char>) -> EffectView {
    EffectView::Execute(log_entry(job.deployment_id, message))
}

/// The line that announces a logged command.
pub open spec fn announced(job: DeploymentJobView, command: CommandView) -> EffectView {
    note_of(job, announcement_of(command))
}

pub(crate) fn note(job: &DeploymentJob, message: &str) -> (effect: Effect)
    ensures
        effect@ == note_of(job@, message@),
{
    Effect::Execute(insert_log(job.deployment_id, message))
}

pub(crate) fn announce(job: &DeploymentJob, command: &Command) -> (effect: Effect)
    ensures
        effect@ == announced(job@, command@),
{
    note(job, announcement(command).as_str())
}

pub(crate) fn go(point: Point, first: Effect) -> (turn: Turn)
    ensures
        turn@ == TurnView::Go(point@, first@, seq![]),
{
    let rest: Vec<Effect> = Vec::new();
    assert(effects(rest@) =~= seq![]);
    Turn::Go(point, first, rest)
}

pub(crate) fn go_then(point: Point, first: Effect, second: Effect) -> (turn: Turn)
    ensures
        turn@ == TurnView::Go(point@, first@, seq![second@]),
{
    let mut rest: Vec<Effect> = Vec::new();
    rest.push(second);
    assert(effects(rest@) =~= seq![second@]);
    Turn::Go(point, first, rest)
}

/// Announces a logged command and runs it.
pub(crate) fn go_logged(job: &DeploymentJob, point: Point, command: Command) -> (turn: Turn)
    ensures
        turn@ == TurnView::Go(
            point@,
            announced(job@, command@),
            seq![EffectView::RunLogged(job@.deployment_id, command@)],
        ),
{
    let first = announce(job, &command);
    go_then(point, first, Effect::RunLogged(job.deployment_id, command))
}

// ---------------------------------------------------------------------------
// Runs
// ---------------------------------------------------------------------------

/// A job under way.
pub struct Run {
    config: Config,
    job: DeploymentJob,
    point: Point,
    rest: Vec<Effect>,
}

#[verifier::ext_equal]
pub struct RunView {
    pub config: ConfigView,
    pub job: DeploymentJobView,
    pub point: PointView,
    pub rest: Seq<EffectView>,
}

impl View for Run {
    type V = RunView;

    closed spec fn view(&self) -> RunView {
        RunView {
            config: self.config@,
            job: self.job@,
            point: self.point@,
            rest: effects(self.rest@),
        }
    }
}

/// How far a job has come.
pub enum Progress {
    /// It waits for the outside work asked for.
    Pending(Run, Effect),
    /// It is done.
    Succeeded,
    /// It failed, and these statements record that.
    Failed(Fault, Vec<Statement>),
}

pub enum ProgressView {
    Pending(RunView, EffectView),
    Succeeded,
    Failed(FaultView, Seq<StatementView>),
}

impl View for Progress {
    type V = ProgressView;

    open spec fn view(&self) -> ProgressView {
        match self {
            Progress::Pending(run, effect) => ProgressView::Pending(run@, effect@),
            Progress::Succeeded => ProgressView::Succeeded,
            Progress::Failed(fault, record) => ProgressView::Failed(fault@, statements(record@)),
        }
    }
}

/// A failed job, with the record of its failure.
pub open spec fn failed(job: DeploymentJobView, fault: FaultView) -> ProgressView {
    ProgressView::Failed(fault, failure_record(job, fault.message))
}

/// What a job of a kind unknown to the worker fails with.
pub open spec fn unknown_job(job: DeploymentJobView) -> FaultView {
    FaultView::plain("Unknown job type: "@ + job.job_type)
}

/// The first thing that a job asks for.
pub open spec fn begun(config: ConfigView, job: DeploymentJobView) -> ProgressView {
    let asked = EffectView::FindContext(job.deployment_id);
    if job.job_type == "deploy"@ {
        let point = PointView::Source(SourcePointView::Context);
        ProgressView::Pending(RunView { config, job, point, rest: seq![] }, asked)
    } else if job.job_type == "delete"@ {
        let point = PointView::Deletion(DeletionPointView::Context);
        ProgressView::Pending(RunView { config, job, point, rest: seq![] }, asked)
    } else {
        failed(job, unknown_job(job))
    }
}

/// Where the last reply of a script leads.
#[verifier::opaque]
pub open spec fn turn_at(
    config: ConfigView,
    job: DeploymentJobView,
    point: PointView,
    reply: ReplyView,
) -> TurnView {
    match point {
        PointView::Source(at) => source::source_turn(config, job, at, reply),
        PointView::Database(at) => database::database_turn(config, job, at, reply),
        PointView::Launch(at) => launch::launch_turn(config, job, at, reply),
        PointView::Route(at) => route::route_turn(config, job, at, reply),
        PointView::Cutover(at) => cutover::cutover_turn(config, job, at, reply),
        PointView::Deletion(at) => deletion::deletion_turn(job, at, reply),
    }
}

impl RunView {
    /// How far the job has come after a reply.
    pub open spec fn stepped(self, reply: ReplyView) -> ProgressView {
        if self.rest.len() > 0 {
            match reply {
                ReplyView::Ready => ProgressView::Pending(
                    RunView { rest: self.rest.skip(1), ..self },
                    self.rest[0],
                ),
                ReplyView::Failed(fault) => failed(self.job, fault),
                _ => failed(self.job, unexpected_reply()),
            }
        } else {
            match turn_at(self.config, self.job, self.point, reply) {
                TurnView::Go(point, first, rest) => ProgressView::Pending(
                    RunView { point, rest, ..self },
                    first,
                ),
                TurnView::Stop(fault) => failed(self.job, fault),
                TurnView::Finish => ProgressView::Succeeded,
            }
        }
    }
}

fn fail(job: &DeploymentJob, fault: Fault) -> (progress: Progress)
    ensures
        progress@ == failed(job@, fault@),
{
    let record = mark_job_failed(job, fault.message.as_str());
    Progress::Failed(fault, record)
}

impl Run {
    /// Takes up a job.
    pub fn begin(config: Config, job: DeploymentJob) -> (progress: Progress)
        ensures
            progress@ == begun(config@, job@),
    {
        let asked = Effect::FindContext(job.deployment_id);
        let rest: Vec<Effect> = Vec::new();
        assert(effects(rest@) =~= seq![]);
        if same_text(job.job_type.as_str(), "deploy") {
            let point = Point::Source(SourcePoint::Context);
            Progress::Pending(Run { config, job, point, rest }, asked)
        } else if same_text(job.job_type.as_str(), "delete") {
            let point = Point::Deletion(DeletionPoint::Context);
            Progress::Pending(Run { config, job, point, rest }, asked)
        } else {
            let message = "Unknown job type: ".to_owned().concat(job.job_type.as_str());
            fail(&job, Fault::new(message))
        }
    }

    /// Goes on after the outside work asked for.
    pub fn step(self, reply: Reply) -> (progress: Progress)
        ensures
            progress@ == self@.stepped(reply@),
    {
        let Run { config, job, point, rest } = self;
        let mut rest = rest;
        if rest.len() > 0 {
            match reply {
                Reply::Ready => {
                    let ghost before = rest@;
                    let first = rest.remove(0);
                    assert(effects(rest@) =~= effects(before).skip(1));
                    Progress::Pending(Run { config, job, point, rest }, first)
                },
                Reply::Failed(fault) => fail(&job, fault),
                _ => fail(&job, unexpected()),
            }
        } else {
            proof {
                reveal(turn_at);
            }
            let turn = match point {
                Point::Source(at) => source::advance(&config, &job, at, reply),
                Point::Database(at) => database::advance(&config, &job, at, reply),
                Point::Launch(at) => launch::advance(&config, &job, at, reply),
                Point::Route(at) => route::advance(&config, &job, at, reply),
                Point::Cutover(at) => cutover::advance(&config, &job, at, reply),
                Point::Deletion(at) => deletion::advance(&job, at, reply),
            };
            match turn {
                Turn::Go(point, first, rest) => Progress::Pending(
                    Run { config, job, point, rest },
                    first,
                ),
                Turn::Stop(fault) => fail(&job, fault),
                Turn::Finish => Progress::Succeeded,
            }
        }
    }
}

} // verus!
