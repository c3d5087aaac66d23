//! From an image to a container that is up, with its tables in place.

use vstd::prelude::*;
use crate::command::{launch, launch_call, migrate, migrate_call};
use crate::config::{Config, ConfigView};
use crate::effect::{effects, Effect, EffectView, Reply, ReplyView};
use crate::fault::{Fault, FaultView};
use crate::naming::{app_container, container_name};
use crate::run::{
    go, go_logged, announced, note, note_of, printed, printed_by, refused, refused_turn, Live,
    LiveView, Point, PointView, Target, TargetView, Turn, TurnView,
};
use crate::run::route::{lookup, lookup_turn};
use crate::store::{DeploymentJob, DeploymentJobView};
use crate::text::{blank, decimal, is_blank, same_text, trim, trimmed, u16_text};

verus! {

/// Where a run waits until its container is ready to be served.
pub enum LaunchPoint {
    /// To hear whether a port is free.
    Probe(Target, u16),
    /// For the container to be started.
    Start(Target, u16),
    /// For the migrations.
    Migrate(Live),
    /// For the log to say how the migrations went.
    Migrated(Live),
}

pub enum LaunchPointView {
    Probe(TargetView, u16),
    Start(TargetView, u16),
    Migrate(LiveView),
    Migrated(LiveView),
}

impl View for LaunchPoint {
    type V = LaunchPointView;

    open spec fn view(&self) -> LaunchPointView {
        match self {
            LaunchPoint::Probe(target, port) => LaunchPointView::Probe(target@, *port),
            LaunchPoint::Start(target, port) => LaunchPointView::Start(target@, *port),
            LaunchPoint::Migrate(live) => LaunchPointView::Migrate(live@),
            LaunchPoint::Migrated(live) => LaunchPointView::Migrated(live@),
        }
    }
}

// ---------------------------------------------------------------------------
// Turns
// ---------------------------------------------------------------------------

pub open spec fn no_port(config: ConfigView) -> FaultView {
    FaultView::plain(
        "No available port in range "@ + decimal(config.port_start as int) + "-"@ + decimal(
            config.port_end as int,
        ),
    )
}

pub open spec fn no_container_id() -> FaultView {
    FaultView::plain("Docker did not return a container ID"@)
}

/// The ports are tried in order, from the first of the range to the last.
pub open spec fn probe_turn(config: ConfigView, target: TargetView) -> TurnView {
    if config.port_start <= config.port_end {
        TurnView::Go(
            PointView::Launch(LaunchPointView::Probe(target, config.port_start)),
            EffectView::ProbePort(config.port_start),
            seq![],
        )
    } else {
        TurnView::Stop(no_port(config))
    }
}

/// What follows when a port has been tried: the container is started on a free one,
/// and after a taken one the next is tried.
pub open spec fn probed_turn(
    config: ConfigView,
    job: DeploymentJobView,
    target: TargetView,
    port: u16,
    free: bool,
) -> TurnView {
    if free {
        let start = launch_call(
            target.context.project_id,
            job.deployment_id,
            port,
            config.container_port,
            target.database,
        );
        TurnView::Go(
            PointView::Launch(LaunchPointView::Start(target, port)),
            announced(job, start),
            seq![EffectView::RunLogged(job.deployment_id, start)],
        )
    } else if port < config.port_end {
        let next = (port + 1) as u16;
        TurnView::Go(
            PointView::Launch(LaunchPointView::Probe(target, next)),
            EffectView::ProbePort(next),
            seq![],
        )
    } else {
        TurnView::Stop(no_port(config))
    }
}

/// A Laravel application with a database needs its tables before it is served.
pub open spec fn up_turn(config: ConfigView, job: DeploymentJobView, live: LiveView) -> TurnView {
    let target = live.target;
    if target.database is Some && target.context.app_type == "laravel"@ {
        let name = app_container(target.context.project_id as int, job.deployment_id as int);
        TurnView::Go(
            PointView::Launch(LaunchPointView::Migrate(live)),
            note_of(job, "[DATABASE] Waiting for database to be ready..."@),
            seq![
                EffectView::Sleep(10),
                note_of(job, "[DATABASE] Running Laravel migrations..."@),
                EffectView::RunCaptured(migrate_call(name)),
            ],
        )
    } else {
        lookup_turn(config, live)
    }
}

/// What the log says of the migrations: all that they printed, then how they ended.
pub open spec fn migration_notes(
    job: DeploymentJobView,
    success: bool,
    stdout: Seq<char>,
    stderr: Seq<char>,
) -> Seq<EffectView> {
    (if is_blank(stdout) {
        seq![]
    } else {
        seq![note_of(job, stdout)]
    }) + (if is_blank(stderr) {
        seq![]
    } else {
        seq![note_of(job, stderr)]
    }) + seq![
        note_of(
            job,
            if success {
                "[DATABASE] Migrations completed successfully"@
            } else {
                "[DATABASE] Migration failed (non-fatal, app container still running)"@
            },
        ),
    ]
}

pub open spec fn launch_turn(
    config: ConfigView,
    job: DeploymentJobView,
    at: LaunchPointView,
    reply: ReplyView,
) -> TurnView {
    match at {
        LaunchPointView::Probe(target, port) => match reply {
            ReplyView::Port(free) => probed_turn(config, job, target, port, free),
            _ => refused_turn(reply),
        },
        LaunchPointView::Start(target, port) => match printed_by("docker"@, reply) {
            Ok(text) => if is_blank(text) {
                TurnView::Stop(no_container_id())
            } else {
                up_turn(config, job, LiveView { target, port, container_id: trimmed(text) })
            },
            Err(fault) => TurnView::Stop(fault),
        },
        LaunchPointView::Migrate(live) => match reply {
            ReplyView::Captured { success, stdout, stderr } => {
                let notes = migration_notes(job, success, stdout, stderr);
                TurnView::Go(
                    PointView::Launch(LaunchPointView::Migrated(live)),
                    notes[0],
                    notes.skip(1),
                )
            },
            _ => refused_turn(reply),
        },
        LaunchPointView::Migrated(live) => match reply {
            ReplyView::Ready => lookup_turn(config, live),
            _ => refused_turn(reply),
        },
    }
}

// ---------------------------------------------------------------------------
// Computation
// ---------------------------------------------------------------------------

fn no_port_fault(config: &Config) -> (fault: Fault)
    ensures
        fault@ == no_port(config@),
{
    Fault::new(
        "No available port in range ".to_owned().concat(u16_text(config.port_start).as_str()).concat(
            "-",
        ).concat(u16_text(config.port_end).as_str()),
    )
}

pub(crate) fn probe_from_start(config: &Config, target: Target) -> (turn: Turn)
    ensures
        turn@ == probe_turn(config@, target@),
{
    if config.port_start <= config.port_end {
        go(
            Point::Launch(LaunchPoint::Probe(target, config.port_start)),
            Effect::ProbePort(config.port_start),
        )
    } else {
        Turn::Stop(no_port_fault(config))
    }
}

fn available_port(
    config: &Config,
    job: &DeploymentJob,
    target: Target,
    port: u16,
    free: bool,
) -> (turn: Turn)
    ensures
        turn@ == probed_turn(config@, job@, target@, port, free),
{
    if free {
        let start = launch(
            target.context.project_id,
            job.deployment_id,
            port,
            config.container_port,
            &target.database,
        );
        go_logged(job, Point::Launch(LaunchPoint::Start(target, port)), start)
    } else if port < config.port_end {
        let next: u16 = port + 1;
        go(Point::Launch(LaunchPoint::Probe(target, next)), Effect::ProbePort(next))
    } else {
        Turn::Stop(no_port_fault(config))
    }
}

fn up(config: &Config, job: &DeploymentJob, live: Live) -> (turn: Turn)
    ensures
        turn@ == up_turn(config@, job@, live@),
{
    if live.target.database.is_some() && same_text(
        live.target.context.app_type.as_str(),
        "laravel",
    ) {
        let name = container_name(live.target.context.project_id, job.deployment_id);
        let mut rest: Vec<Effect> = Vec::new();
        rest.push(Effect::Sleep(10));
        rest.push(note(job, "[DATABASE] Running Laravel migrations..."));
        rest.push(Effect::RunCaptured(migrate(name.as_str())));
        let first = note(job, "[DATABASE] Waiting for database to be ready...");
        assert(effects(rest@) =~= up_turn(config@, job@, live@)->2);
        Turn::Go(Point::Launch(LaunchPoint::Migrate(live)), first, rest)
    } else {
        lookup(config, live)
    }
}

fn run_migrations(
    job: &DeploymentJob,
    success: bool,
    stdout: String,
    stderr: String,
) -> (notes: Vec<Effect>)
    ensures
        notes@.len() > 0,
        effects(notes@) == migration_notes(job@, success, stdout@, stderr@),
{
    let mut notes: Vec<Effect> = Vec::new();
    if !blank(stdout.as_str()) {
        notes.push(note(job, stdout.as_str()));
    }
    if !blank(stderr.as_str()) {
        notes.push(note(job, stderr.as_str()));
    }
    if success {
        notes.push(note(job, "[DATABASE] Migrations completed successfully"));
    } else {
        notes.push(
            note(job, "[DATABASE] Migration failed (non-fatal, app container still running)"),
        );
    }
    assert(effects(notes@) =~= migration_notes(job@, success, stdout@, stderr@));
    notes
}

pub(crate) fn advance(
    config: &Config,
    job: &DeploymentJob,
    at: LaunchPoint,
    reply: Reply,
) -> (turn: Turn)
    ensures
        turn@ == launch_turn(config@, job@, at@, reply@),
{
    match at {
        LaunchPoint::Probe(target, port) => match reply {
            Reply::Port(free) => available_port(config, job, target, port, free),
            _ => refused(reply),
        },
        LaunchPoint::Start(target, port) => match printed("docker", reply) {
            Ok(text) => {
                let container_id = trim(text.as_str());
                if container_id.as_str().is_empty() {
                    Turn::Stop(Fault::new("Docker did not return a container ID".to_owned()))
                } else {
                    up(config, job, Live { target, port, container_id })
                }
            },
            Err(fault) => Turn::Stop(fault),
        },
        LaunchPoint::Migrate(live) => match reply {
            Reply::Captured { success, stdout, stderr } => {
                let mut notes = run_migrations(job, success, stdout, stderr);
                let ghost all = notes@;
                let first = notes.remove(0);
                assert(effects(notes@) =~= effects(all).skip(1));
                Turn::Go(Point::Launch(LaunchPoint::Migrated(live)), first, notes)
            },
            _ => refused(reply),
        },
        LaunchPoint::Migrated(live) => match reply {
            Reply::Ready => lookup(config, live),
            _ => refused(reply),
        },
    }
}

} // verus!
