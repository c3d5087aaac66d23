//! In what order a deployment asks for things, and on what grounds.

use vstd::prelude::*;
use crate::command::{announcement_of, migrate_call, CommandView};
use crate::command::laws::{gives, law_build_makes_the_image};
use crate::config::ConfigView;
use crate::effect::{EffectView, Method, ReplyView, Template};
use crate::naming::{app_container, image_tag};
use crate::run::{turn_at, PointView, ProgressView, RunView, TargetView, TurnView};
use crate::run::cutover::CutoverPointView;
use crate::run::faults::lemma_quiet;
use crate::run::launch::LaunchPointView;
use crate::run::laws::{
    after, asked, lemma_answer_now, lemma_answer_stays, lemma_asked_before, was_answered,
};
use crate::run::requests::{
    about, awaits, built_in, is_laravel, is_migrated, last_of, lemma_tracked, live_of, lookup_of,
    told, written_to,
};
use crate::run::source::SourcePointView;
use crate::store::{DeploymentJobView, StatementView};
use crate::text::{is_blank, path_in};

verus! {

/// A line for the log of the job's deployment.
pub open spec fn line_of(job: DeploymentJobView, message: Seq<char>) -> EffectView {
    EffectView::Execute(
        StatementView::InsertLog { deployment_id: job.deployment_id, message },
    )
}

/// The request before this one was `effect`, and the reply to it was `reply`.
pub open spec fn was_before(
    config: ConfigView,
    job: DeploymentJobView,
    replies: Seq<ReplyView>,
    effect: EffectView,
    reply: ReplyView,
) -> bool {
    &&& replies.len() > 0
    &&& asked(config, job, replies, replies.len() - 1) == Some(effect)
    &&& replies.last() == reply
}

// ---------------------------------------------------------------------------
// Scripts
// ---------------------------------------------------------------------------

/// In a script every logged command comes right after the line that announces it.
spec fn is_announced(
    job: DeploymentJobView,
    first: EffectView,
    rest: Seq<EffectView>,
) -> bool {
    forall|i: int|
        0 <= i < rest.len() ==> (#[trigger] rest[i] matches EffectView::RunLogged(_, command) ==> (
        if i == 0 {
            first
        } else {
            rest[i - 1]
        }) == line_of(job, announcement_of(command)))
}

#[verifier::rlimit(30)]
proof fn lemma_turn_is_announced(
    config: ConfigView,
    job: DeploymentJobView,
    point: PointView,
    reply: ReplyView,
)
    ensures
        turn_at(config, job, point, reply) matches TurnView::Go(_, first, rest) ==> is_announced(
            job,
            first,
            rest,
        ) && first !is RunLogged,
{
    reveal(turn_at);
}

proof fn lemma_announced(config: ConfigView, job: DeploymentJobView, replies: Seq<ReplyView>)
    ensures
        after(config, job, replies) matches ProgressView::Pending(run, effect) ==> {
            &&& run.config == config && run.job == job
            &&& is_announced(job, effect, run.rest)
            &&& effect matches EffectView::RunLogged(_, command) ==> was_before(
                config,
                job,
                replies,
                line_of(job, announcement_of(command)),
                ReplyView::Ready,
            )
        },
    decreases replies.len(),
{
    if replies.len() > 0 {
        let before = replies.drop_last();
        lemma_announced(config, job, before);
        if let ProgressView::Pending(run, effect) = after(config, job, before) {
            lemma_asked_before(config, job, replies, replies.len() - 1);
            if run.rest.len() == 0 {
                lemma_turn_is_announced(config, job, run.point, replies.last());
            } else if let ProgressView::Pending(next, e) = run.stepped(replies.last()) {
                assert forall|i: int| 0 <= i < next.rest.len() implies (
                #[trigger] next.rest[i] matches EffectView::RunLogged(_, command) ==> (if i == 0 {
                    e
                } else {
                    next.rest[i - 1]
                }) == line_of(job, announcement_of(command))) by {
                    assert(next.rest[i] == run.rest[i + 1]);
                    if i > 0 {
                        assert(next.rest[i - 1] == run.rest[i]);
                    }
                }
            }
        }
    }
}

/// A logged command is run only right after the log has announced it.
pub proof fn law_logged_commands_are_announced(
    config: ConfigView,
    job: DeploymentJobView,
    replies: Seq<ReplyView>,
    deployment_id: i32,
    command: CommandView,
)
    requires
        after(config, job, replies) matches ProgressView::Pending(_, effect) && effect
            == EffectView::RunLogged(deployment_id, command),
    ensures
        was_before(
            config,
            job,
            replies,
            EffectView::Execute(
                StatementView::InsertLog {
                    deployment_id: job.deployment_id,
                    message: announcement_of(command),
                },
            ),
            ReplyView::Ready,
        ),
{
    lemma_announced(config, job, replies);
}

// ---------------------------------------------------------------------------
// Ports
// ---------------------------------------------------------------------------

/// A port was tried and is taken.
pub open spec fn is_taken(
    config: ConfigView,
    job: DeploymentJobView,
    replies: Seq<ReplyView>,
    port: u16,
) -> bool {
    was_answered(
        config,
        job,
        replies,
        EffectView::ProbePort(port),
        |reply: ReplyView| reply == ReplyView::Port(false),
    )
}

#[verifier::rlimit(30)]
proof fn lemma_into_probe(
    config: ConfigView,
    job: DeploymentJobView,
    run: RunView,
    effect: EffectView,
    reply: ReplyView,
)
    requires
        run.config == config,
        run.job == job,
        awaits(config, job, run.point, last_of(effect, run.rest)),
    ensures
        run.stepped(reply) matches ProgressView::Pending(next, e) ==> (next.point
            matches PointView::Launch(LaunchPointView::Probe(_, port)) ==> {
            ||| port == config.port_start
            ||| port > 0 && reply == ReplyView::Port(false) && effect == EffectView::ProbePort(
                (port - 1) as u16,
            ) && run.point == PointView::Launch(
                LaunchPointView::Probe(next.point->Launch_0->Probe_0, (port - 1) as u16),
            )
            ||| run.point == next.point && run.rest.len() > 0
        }),
{
    reveal(turn_at);
}

proof fn lemma_tried(config: ConfigView, job: DeploymentJobView, replies: Seq<ReplyView>)
    requires
        job.job_type == "deploy"@,
    ensures
        after(config, job, replies) matches ProgressView::Pending(run, _) ==> (run.point
            matches PointView::Launch(LaunchPointView::Probe(_, port)) ==> forall|p: u16|
            config.port_start <= p < port ==> #[trigger] is_taken(config, job, replies, p)),
    decreases replies.len(),
{
    if replies.len() > 0 {
        let before = replies.drop_last();
        lemma_tried(config, job, before);
        lemma_tracked(config, job, before);
        if let ProgressView::Pending(run, effect) = after(config, job, before) {
            lemma_into_probe(config, job, run, effect, replies.last());
            if let ProgressView::Pending(next, _) = run.stepped(replies.last()) {
                if let PointView::Launch(LaunchPointView::Probe(_, port)) = next.point {
                    let taken = |reply: ReplyView| reply == ReplyView::Port(false);
                    assert forall|p: u16| config.port_start <= p < port implies #[trigger] is_taken(
                        config,
                        job,
                        replies,
                        p,
                    ) by {
                        if is_taken(config, job, before, p) {
                            lemma_answer_stays(
                                config,
                                job,
                                replies,
                                EffectView::ProbePort(p),
                                taken,
                            );
                        } else {
                            lemma_answer_now(config, job, replies, EffectView::ProbePort(p), taken);
                        }
                    }
                }
            }
        }
    }
}

/// A port is tried only once all before it in the range were tried and are taken. So the port
/// that is found free is the first.
pub proof fn law_ports_are_tried_in_order(
    config: ConfigView,
    job: DeploymentJobView,
    replies: Seq<ReplyView>,
    port: u16,
)
    requires
        job.job_type == "deploy"@,
        after(config, job, replies) matches ProgressView::Pending(_, effect) && effect
            == EffectView::ProbePort(port),
    ensures
        config.port_start <= port <= config.port_end,
        forall|p: u16|
            config.port_start <= p < port ==> #[trigger] is_taken(config, job, replies, p),
{
    lemma_tracked(config, job, replies);
    lemma_tried(config, job, replies);
    lemma_only_probes(config, job, replies);
}

proof fn lemma_only_probes(config: ConfigView, job: DeploymentJobView, replies: Seq<ReplyView>)
    ensures
        after(config, job, replies) matches ProgressView::Pending(run, effect) ==> {
            &&& effect matches EffectView::ProbePort(port) ==> (run.point
                matches PointView::Launch(LaunchPointView::Probe(_, p)) && p == port)
            &&& forall|i: int| 0 <= i < run.rest.len() ==> #[trigger] run.rest[i] !is ProbePort
        },
    decreases replies.len(),
{
    reveal(turn_at);
    if replies.len() > 0 {
        lemma_only_probes(config, job, replies.drop_last());
    }
}

// ---------------------------------------------------------------------------
// The proxy
// ---------------------------------------------------------------------------

#[verifier::rlimit(30)]
proof fn lemma_turn_asks_alone(
    config: ConfigView,
    job: DeploymentJobView,
    point: PointView,
    reply: ReplyView,
)
    ensures
        turn_at(config, job, point, reply) matches TurnView::Go(next, first, rest) ==> {
            &&& forall|i: int| 0 <= i < rest.len() ==> #[trigger] rest[i] !is Request && rest[i]
                !is ReadBody
            &&& (first is Request || first is ReadBody) ==> rest.len() == 0 && next is Route
            &&& point !is Route ==> first !is ReadBody && (first matches EffectView::Request {
                method,
                ..
            } ==> method == Method::Get)
        },
{
    reveal(turn_at);
}

proof fn lemma_route_asks(
    config: ConfigView,
    job: DeploymentJobView,
    point: PointView,
    effect: EffectView,
    reply: ReplyView,
)
    requires
        point is Route,
        awaits(config, job, point, effect),
    ensures
        turn_at(config, job, point, reply) matches TurnView::Go(next, e, _) ==> {
            &&& e matches EffectView::Request { method, .. } ==> {
                &&& method != Method::Get
                &&& effect == lookup_of(config, live_of(point->Route_0).target)
                &&& reply matches ReplyView::Response(status)
                &&& if method == Method::Patch {
                    200 <= status < 300
                } else {
                    status == 404
                }
            }
            &&& e is ReadBody ==> {
                &&& effect matches EffectView::Request { method, .. }
                &&& reply matches ReplyView::Response(status)
                &&& !(200 <= status < 300)
                &&& method == Method::Get ==> status != 404
            }
        },
{
    reveal(turn_at);
}

proof fn lemma_asks_alone(config: ConfigView, job: DeploymentJobView, replies: Seq<ReplyView>)
    requires
        job.job_type == "deploy"@,
    ensures
        after(config, job, replies) matches ProgressView::Pending(run, effect) ==> {
            &&& forall|i: int| 0 <= i < run.rest.len() ==> #[trigger] run.rest[i] !is Request
                && run.rest[i] !is ReadBody
            &&& (effect is Request || effect is ReadBody) ==> run.rest.len() == 0 && run.point
                is Route
        },
    decreases replies.len(),
{
    if replies.len() > 0 {
        let before = replies.drop_last();
        lemma_asks_alone(config, job, before);
        lemma_tracked(config, job, before);
        if let ProgressView::Pending(run, effect) = after(config, job, before) {
            lemma_turn_asks_alone(run.config, run.job, run.point, replies.last());
        }
    }
}

/// A route is replaced only right after the proxy said that it has it, and inserted only right
/// after the proxy said that it has none. The proxy's words are asked for only right after it
/// refused a request.
pub proof fn law_proxy_is_asked_first(
    config: ConfigView,
    job: DeploymentJobView,
    replies: Seq<ReplyView>,
)
    requires
        job.job_type == "deploy"@,
        after(config, job, replies) is Pending,
    ensures
        ({
            let effect = after(config, job, replies)->Pending_1;
            let n = replies.len() as int;
            &&& effect matches EffectView::Request { method, .. } ==> (method != Method::Get ==> {
                &&& n > 2
                &&& asked(config, job, replies, n - 1) == Some(lookup_of(config, told(replies)))
                &&& replies.last() matches ReplyView::Response(status)
                &&& if method == Method::Patch {
                    200 <= status < 300
                } else {
                    status == 404
                }
            })
            &&& effect is ReadBody ==> {
                &&& n > 2
                &&& asked(config, job, replies, n - 1) matches Some(
                    EffectView::Request { method, .. },
                )
                &&& replies.last() matches ReplyView::Response(status)
                &&& !(200 <= status < 300)
                &&& method == Method::Get ==> status != 404
            }
        }),
{
    lemma_tracked(config, job, replies);
    lemma_asks_alone(config, job, replies);
    if replies.len() > 0 {
        let before = replies.drop_last();
        lemma_tracked(config, job, before);
        lemma_asks_alone(config, job, before);
        lemma_asked_before(config, job, replies, replies.len() - 1);
        if let ProgressView::Pending(run, effect) = after(config, job, before) {
            lemma_turn_asks_alone(run.config, run.job, run.point, replies.last());
            if run.point is Route && run.rest.len() == 0 {
                lemma_route_asks(config, job, run.point, effect, replies.last());
            }
            if before.len() >= 2 {
                assert(before[0] == replies[0] && before[1] == replies[1]);
            }
        }
    }
}

// ---------------------------------------------------------------------------
// Migrations
// ---------------------------------------------------------------------------

/// The migrations of a deployment.
pub open spec fn migration_of(job: DeploymentJobView, target: TargetView) -> EffectView {
    EffectView::RunCaptured(
        migrate_call(
            app_container(target.context.project_id as int, job.deployment_id as int),
        ),
    )
}

/// What the log says of migrations: what they printed, first to the standard output and then to
/// the standard error, unless it is blank, and how they ended.
pub open spec fn reports(success: bool, stdout: Seq<char>, stderr: Seq<char>) -> Seq<Seq<char>> {
    let end = if success {
        "[DATABASE] Migrations completed successfully"@
    } else {
        "[DATABASE] Migration failed (non-fatal, app container still running)"@
    };
    if is_blank(stdout) {
        if is_blank(stderr) {
            seq![end]
        } else {
            seq![stderr, end]
        }
    } else {
        if is_blank(stderr) {
            seq![stdout, end]
        } else {
            seq![stdout, stderr, end]
        }
    }
}

spec fn reports_of(reply: ReplyView) -> Seq<Seq<char>> {
    reports(reply->Captured_success, reply->stdout, reply->stderr)
}

/// With the `k`th request the migrations were run, after ten seconds for the database to be
/// ready, and the log was told before the wait and before the migrations.
pub open spec fn was_migrated_by(
    config: ConfigView,
    job: DeploymentJobView,
    replies: Seq<ReplyView>,
    target: TargetView,
    k: int,
) -> bool {
    &&& 3 <= k < replies.len()
    &&& asked(config, job, replies, k - 3) == Some(
        line_of(job, "[DATABASE] Waiting for database to be ready..."@),
    )
    &&& asked(config, job, replies, k - 2) == Some(EffectView::Sleep(10))
    &&& replies[k - 2] == ReplyView::Ready
    &&& asked(config, job, replies, k - 1) == Some(
        line_of(job, "[DATABASE] Running Laravel migrations..."@),
    )
    &&& asked(config, job, replies, k) == Some(migration_of(job, target))
    &&& replies[k] is Captured
}

/// The first `d` lines of what migrations report are in the log.
pub open spec fn was_reported(
    config: ConfigView,
    job: DeploymentJobView,
    replies: Seq<ReplyView>,
    k: int,
    lines: Seq<Seq<char>>,
    d: int,
) -> bool {
    &&& k + d < replies.len()
    &&& forall|i: int|
        0 <= i < d ==> #[trigger] asked(config, job, replies, k + 1 + i) == Some(
            line_of(job, lines[i]),
        ) && replies[k + 1 + i] == ReplyView::Ready
}

/// The migrations were run, and the log says all that they report, right after them and in
/// order.
pub open spec fn has_migrated(
    config: ConfigView,
    job: DeploymentJobView,
    replies: Seq<ReplyView>,
    target: TargetView,
    k: int,
) -> bool {
    &&& was_migrated_by(config, job, replies, target, k)
    &&& replies[k] matches ReplyView::Captured { success, stdout, stderr } && was_reported(
        config,
        job,
        replies,
        k,
        reports(success, stdout, stderr),
        reports(success, stdout, stderr).len() as int,
    )
}

/// Where a run that has to migrate is.
spec fn is_migrating(
    config: ConfigView,
    job: DeploymentJobView,
    replies: Seq<ReplyView>,
    run: RunView,
    effect: EffectView,
) -> bool {
    let n = replies.len() as int;
    let target = told(replies);
    match run.point {
        PointView::Launch(LaunchPointView::Migrate(_)) => {
            let waiting = line_of(job, "[DATABASE] Waiting for database to be ready..."@);
            let running = line_of(job, "[DATABASE] Running Laravel migrations..."@);
            let sleep = EffectView::Sleep(10);
            let migrate = migration_of(job, target);
            ||| effect == waiting && run.rest == seq![sleep, running, migrate]
            ||| effect == sleep && run.rest == seq![running, migrate] && n > 0 && asked(
                config,
                job,
                replies,
                n - 1,
            ) == Some(waiting)
            ||| effect == running && run.rest == seq![migrate] && n > 1 && asked(
                config,
                job,
                replies,
                n - 2,
            ) == Some(waiting) && asked(config, job, replies, n - 1) == Some(sleep)
                && replies[n - 1] == ReplyView::Ready
            ||| effect == migrate && run.rest.len() == 0 && n > 2 && asked(
                config,
                job,
                replies,
                n - 3,
            ) == Some(waiting) && asked(config, job, replies, n - 2) == Some(sleep)
                && replies[n - 2] == ReplyView::Ready && asked(config, job, replies, n - 1) == Some(
                running,
            )
        },
        PointView::Launch(LaunchPointView::Migrated(_)) => exists|k: int|
            is_reporting(config, job, replies, target, run, effect, k),
        PointView::Route(_) => is_migrated(target) ==> exists|k: int|
            has_migrated(config, job, replies, target, k),
        PointView::Cutover(_) => is_migrated(target) ==> exists|k: int|
            has_migrated(config, job, replies, target, k),
        _ => true,
    }
}

/// The lines of the migrations that are not in the log yet are those of the script.
spec fn is_reporting(
    config: ConfigView,
    job: DeploymentJobView,
    replies: Seq<ReplyView>,
    target: TargetView,
    run: RunView,
    effect: EffectView,
    k: int,
) -> bool {
    let d = replies.len() - k - 1;
    let lines = reports_of(replies[k]);
    &&& was_migrated_by(config, job, replies, target, k)
    &&& 0 <= d < lines.len()
    &&& was_reported(config, job, replies, k, lines, d)
    &&& effect == line_of(job, lines[d])
    &&& run.rest.len() == lines.len() - d - 1
    &&& forall|i: int| 0 <= i < run.rest.len() ==> #[trigger] run.rest[i] == line_of(
        job,
        lines[d + 1 + i],
    )
}

proof fn lemma_migrated_stays(
    config: ConfigView,
    job: DeploymentJobView,
    replies: Seq<ReplyView>,
    target: TargetView,
    k: int,
)
    requires
        replies.len() > 0,
        was_migrated_by(config, job, replies.drop_last(), target, k),
    ensures
        was_migrated_by(config, job, replies, target, k),
        replies[k] == replies.drop_last()[k],
{
    lemma_asked_before(config, job, replies, k);
    lemma_asked_before(config, job, replies, k - 1);
    lemma_asked_before(config, job, replies, k - 2);
    lemma_asked_before(config, job, replies, k - 3);
}

proof fn lemma_reported_stays(
    config: ConfigView,
    job: DeploymentJobView,
    replies: Seq<ReplyView>,
    k: int,
    lines: Seq<Seq<char>>,
    d: int,
)
    requires
        replies.len() > 0,
        k >= 0,
        was_reported(config, job, replies.drop_last(), k, lines, d),
    ensures
        was_reported(config, job, replies, k, lines, d),
{
    assert forall|i: int| 0 <= i < d implies #[trigger] asked(config, job, replies, k + 1 + i)
        == Some(line_of(job, lines[i])) && replies[k + 1 + i] == ReplyView::Ready by {
        lemma_asked_before(config, job, replies, k + 1 + i);
        assert(asked(config, job, replies.drop_last(), k + 1 + i) == Some(line_of(job, lines[i])));
    }
}

proof fn lemma_has_migrated_stays(
    config: ConfigView,
    job: DeploymentJobView,
    replies: Seq<ReplyView>,
    target: TargetView,
    k: int,
)
    requires
        replies.len() > 0,
        has_migrated(config, job, replies.drop_last(), target, k),
    ensures
        has_migrated(config, job, replies, target, k),
{
    lemma_migrated_stays(config, job, replies, target, k);
    let lines = reports_of(replies[k]);
    lemma_reported_stays(config, job, replies, k, lines, lines.len() as int);
}

/// The only ways through the migrations.
#[verifier::rlimit(30)]
proof fn lemma_into_migration(
    config: ConfigView,
    job: DeploymentJobView,
    target: TargetView,
    run: RunView,
    effect: EffectView,
    reply: ReplyView,
)
    requires
        run.config == config,
        run.job == job,
        about(run.point) == Some(target) || run.point == PointView::Cutover(
            CutoverPointView::Cleanup,
        ),
        awaits(config, job, run.point, last_of(effect, run.rest)),
        run.rest.len() == 0,
    ensures
        run.stepped(reply) matches ProgressView::Pending(next, e) ==> match next.point {
            PointView::Launch(LaunchPointView::Migrate(live)) => e == line_of(
                job,
                "[DATABASE] Waiting for database to be ready..."@,
            ) && next.rest == seq![
                EffectView::Sleep(10),
                line_of(job, "[DATABASE] Running Laravel migrations..."@),
                migration_of(job, target),
            ],
            PointView::Launch(LaunchPointView::Migrated(_)) => {
                let lines = reports_of(reply);
                &&& run.point is Launch && run.point->Launch_0 is Migrate
                &&& reply is Captured
                &&& lines.len() > 0
                &&& e == line_of(job, lines[0])
                &&& next.rest.len() == lines.len() - 1
                &&& forall|i: int|
                    0 <= i < next.rest.len() ==> #[trigger] next.rest[i] == line_of(
                        job,
                        lines[1 + i],
                    )
            },
            PointView::Route(_) => {
                ||| run.point is Route
                ||| run.point is Launch && run.point->Launch_0 is Migrated && reply
                    == ReplyView::Ready
                ||| run.point is Launch && !is_migrated(target)
            },
            PointView::Cutover(_) => run.point is Route || run.point is Cutover,
            _ => true,
        },
{
    reveal(turn_at);
}

/// What a step is made of that hears the last of the replies.
spec fn hears_last(
    config: ConfigView,
    job: DeploymentJobView,
    replies: Seq<ReplyView>,
    run: RunView,
    effect: EffectView,
) -> bool {
    &&& replies.len() > 2
    &&& after(config, job, replies.drop_last()) == ProgressView::Pending(run, effect)
    &&& run.config == config
    &&& run.job == job
    &&& about(run.point) == Some(told(replies)) || run.point == PointView::Cutover(
        CutoverPointView::Cleanup,
    )
    &&& awaits(config, job, run.point, last_of(effect, run.rest))
}

proof fn lemma_waiting_goes_on(
    config: ConfigView,
    job: DeploymentJobView,
    replies: Seq<ReplyView>,
    run: RunView,
    effect: EffectView,
)
    requires
        hears_last(config, job, replies, run, effect),
        is_migrating(config, job, replies.drop_last(), run, effect),
        told(replies.drop_last()) == told(replies),
        run.point is Launch,
        run.point->Launch_0 is Migrate,
        run.rest.len() > 0,
    ensures
        run.stepped(replies.last()) matches ProgressView::Pending(next, e) ==> is_migrating(
            config,
            job,
            replies,
            next,
            e,
        ),
{
    let n = replies.len() as int;
    lemma_asked_before(config, job, replies, n - 1);
    lemma_asked_before(config, job, replies, n - 2);
    lemma_asked_before(config, job, replies, n - 3);
    let target = told(replies);
    let sleep = EffectView::Sleep(10);
    let running = line_of(job, "[DATABASE] Running Laravel migrations..."@);
    let migrate = migration_of(job, target);
    assert(seq![sleep, running, migrate].skip(1) =~= seq![running, migrate]);
    assert(seq![running, migrate].skip(1) =~= seq![migrate]);
}

proof fn lemma_migration_is_run(
    config: ConfigView,
    job: DeploymentJobView,
    replies: Seq<ReplyView>,
    run: RunView,
    effect: EffectView,
)
    requires
        hears_last(config, job, replies, run, effect),
        is_migrating(config, job, replies.drop_last(), run, effect),
        told(replies.drop_last()) == told(replies),
        run.point is Launch,
        run.point->Launch_0 is Migrate,
        run.rest.len() == 0,
        replies.last() is Captured,
    ensures
        was_migrated_by(config, job, replies, told(replies), replies.len() - 1),
{
    let n = replies.len() as int;
    lemma_asked_before(config, job, replies, n - 1);
    lemma_asked_before(config, job, replies, n - 2);
    lemma_asked_before(config, job, replies, n - 3);
    if n > 3 {
        lemma_asked_before(config, job, replies, n - 4);
    }
}

#[verifier::rlimit(30)]
proof fn lemma_step_is_migrating(
    config: ConfigView,
    job: DeploymentJobView,
    replies: Seq<ReplyView>,
    run: RunView,
    effect: EffectView,
)
    requires
        hears_last(config, job, replies, run, effect),
        is_migrating(config, job, replies.drop_last(), run, effect),
        told(replies.drop_last()) == told(replies),
    ensures
        run.stepped(replies.last()) matches ProgressView::Pending(next, e) ==> is_migrating(
            config,
            job,
            replies,
            next,
            e,
        ),
{
    let before = replies.drop_last();
    let n = replies.len() as int;
    let target = told(replies);
    if let ProgressView::Pending(next, e) = run.stepped(replies.last()) {
        if run.rest.len() == 0 {
            lemma_into_migration(config, job, target, run, effect, replies.last());
        }
        match next.point {
            PointView::Launch(LaunchPointView::Migrated(_)) => {
                if run.rest.len() == 0 {
                    lemma_migration_is_run(config, job, replies, run, effect);
                    assert(is_reporting(config, job, replies, target, next, e, n - 1));
                } else {
                    let k = choose|k: int|
                        is_reporting(config, job, before, target, run, effect, k);
                    lemma_reporting_goes_on(config, job, replies, target, run, effect, k);
                    assert(is_reporting(config, job, replies, target, next, e, k));
                }
            },
            PointView::Route(_) => {
                if is_migrated(target) {
                    if run.point is Launch {
                        let k = choose|k: int|
                            is_reporting(config, job, before, target, run, effect, k);
                        lemma_reporting_goes_on(config, job, replies, target, run, effect, k);
                        assert(has_migrated(config, job, replies, target, k));
                    } else {
                        let k = choose|k: int| has_migrated(config, job, before, target, k);
                        lemma_has_migrated_stays(config, job, replies, target, k);
                    }
                }
            },
            PointView::Cutover(_) => {
                if is_migrated(target) {
                    let k = choose|k: int| has_migrated(config, job, before, target, k);
                    lemma_has_migrated_stays(config, job, replies, target, k);
                }
            },
            PointView::Launch(LaunchPointView::Migrate(_)) => {
                if run.rest.len() > 0 {
                    lemma_waiting_goes_on(config, job, replies, run, effect);
                }
            },
            _ => {},
        }
    }
}

/// One more line of the migrations is in the log.
proof fn lemma_reporting_goes_on(
    config: ConfigView,
    job: DeploymentJobView,
    replies: Seq<ReplyView>,
    target: TargetView,
    run: RunView,
    effect: EffectView,
    k: int,
)
    requires
        replies.len() > 0,
        after(config, job, replies.drop_last()) matches ProgressView::Pending(_, e) && e == effect,
        is_reporting(config, job, replies.drop_last(), target, run, effect, k),
        replies.last() == ReplyView::Ready,
    ensures
        was_migrated_by(config, job, replies, target, k),
        was_reported(
            config,
            job,
            replies,
            k,
            reports_of(replies[k]),
            replies.len() - k - 1,
        ),
        replies[k] == replies.drop_last()[k],
{
    let before = replies.drop_last();
    let lines = reports_of(replies[k]);
    let d = before.len() - k - 1;
    lemma_migrated_stays(config, job, replies, target, k);
    lemma_reported_stays(config, job, replies, k, lines, d);
    lemma_asked_before(config, job, replies, replies.len() - 1);
    assert(asked(config, job, replies, k + 1 + d) == Some(line_of(job, lines[d])));
    assert forall|i: int| 0 <= i < d + 1 implies #[trigger] asked(config, job, replies, k + 1 + i)
        == Some(line_of(job, lines[i])) && replies[k + 1 + i] == ReplyView::Ready by {}
}

proof fn lemma_migrating(config: ConfigView, job: DeploymentJobView, replies: Seq<ReplyView>)
    requires
        job.job_type == "deploy"@,
    ensures
        match after(config, job, replies) {
            ProgressView::Pending(run, effect) => is_migrating(config, job, replies, run, effect),
            ProgressView::Succeeded => replies.len() >= 2 && replies[0] is Context && replies[1]
                is Database && (is_migrated(told(replies)) ==> exists|k: int|
                has_migrated(config, job, replies, told(replies), k)),
            ProgressView::Failed(_, _) => true,
        },
    decreases replies.len(),
{
    if replies.len() > 0 {
        let before = replies.drop_last();
        lemma_migrating(config, job, before);
        lemma_tracked(config, job, before);
        lemma_tracked(config, job, replies);
        match after(config, job, before) {
            ProgressView::Pending(run, effect) => {
                if before.len() >= 2 {
                    assert(before[0] == replies[0] && before[1] == replies[1]);
                    lemma_step_is_migrating(config, job, replies, run, effect);
                } else {
                    lemma_begins_with_rows(config, job, run, replies.last());
                }
                lemma_ends_at_cleanup(config, job, run, effect, replies.last());
            },
            ProgressView::Succeeded => {
                assert(before[0] == replies[0] && before[1] == replies[1]);
            },
            ProgressView::Failed(_, _) => {},
        }
        if after(config, job, replies) is Succeeded && is_migrated(told(replies)) {
            let k = choose|k: int| has_migrated(config, job, before, told(replies), k);
            lemma_has_migrated_stays(config, job, replies, told(replies), k);
        }
    }
}

proof fn lemma_begins_with_rows(
    config: ConfigView,
    job: DeploymentJobView,
    run: RunView,
    reply: ReplyView,
)
    requires
        run.rest.len() == 0,
        run.point == PointView::Source(SourcePointView::Context) || run.point
            matches PointView::Source(SourcePointView::Database(_)),
    ensures
        run.stepped(reply) matches ProgressView::Pending(next, _) ==> next.point is Source,
{
    reveal(turn_at);
}

proof fn lemma_ends_at_cleanup(
    config: ConfigView,
    job: DeploymentJobView,
    run: RunView,
    effect: EffectView,
    reply: ReplyView,
)
    requires
        run.config == config,
        run.job == job,
        awaits(config, job, run.point, last_of(effect, run.rest)),
    ensures
        run.stepped(reply) is Succeeded ==> run.point == PointView::Cutover(
            CutoverPointView::Cleanup,
        ),
{
    reveal(turn_at);
}

/// Migrations are run in every deployment of a Laravel project with a database, and in no other.
/// They are run before the proxy hears of the container, in that container, after ten seconds
/// for the database to be ready, and the log says what came of them. No other deployment waits,
/// or runs anything in a container.
pub proof fn law_migrations_are_for_laravel_with_a_database(
    config: ConfigView,
    job: DeploymentJobView,
    replies: Seq<ReplyView>,
)
    requires
        job.job_type == "deploy"@,
    ensures
        after(config, job, replies) matches ProgressView::Pending(_, effect) ==> {
            let migrates = replies.len() >= 2 && replies[0] is Context && replies[1] is Database
                && replies[0]->Context_0.app_type == "laravel"@ && replies[1]->Database_0 is Some;
            &&& effect is Sleep ==> migrates && effect == EffectView::Sleep(10)
            &&& effect matches EffectView::RunCaptured(command) ==> (command.args[0] == "exec"@
                ==> migrates && command.program == "docker"@ && command.args == seq![
                "exec"@,
                app_container(
                    replies[0]->Context_0.project_id as int,
                    job.deployment_id as int,
                ),
                "php"@,
                "artisan"@,
                "migrate"@,
                "--force"@,
            ])
            &&& (effect is Request || effect is Commit) && migrates ==> exists|k: int|
                has_migrated(config, job, replies, told(replies), k)
        },
        after(config, job, replies) is Succeeded ==> {
            let migrates = replies[0]->Context_0.app_type == "laravel"@ && replies[1]->Database_0
                is Some;
            &&& replies.len() >= 2 && replies[0] is Context && replies[1] is Database
            &&& migrates ==> exists|k: int| has_migrated(config, job, replies, told(replies), k)
        },
{
    lemma_tracked(config, job, replies);
    lemma_migrating(config, job, replies);
    lemma_asks_alone(config, job, replies);
    lemma_commits_at_cutover(config, job, replies);
    reveal_strlit("exec");
    reveal_strlit("ps");
    reveal_strlit("network");
    assert("exec"@.len() == 4 && "ps"@.len() == 2 && "network"@.len() == 7);
}

proof fn lemma_turn_commits_at_cutover(
    config: ConfigView,
    job: DeploymentJobView,
    point: PointView,
    reply: ReplyView,
)
    requires
        point !is Deletion,
    ensures
        turn_at(config, job, point, reply) matches TurnView::Go(next, first, rest) ==> {
            &&& first is Commit ==> next is Cutover
            &&& forall|i: int| 0 <= i < rest.len() ==> #[trigger] rest[i] !is Commit
        },
{
    reveal(turn_at);
}

proof fn lemma_commits_at_cutover(
    config: ConfigView,
    job: DeploymentJobView,
    replies: Seq<ReplyView>,
)
    requires
        job.job_type == "deploy"@,
    ensures
        after(config, job, replies) matches ProgressView::Pending(run, effect) ==> {
            &&& effect is Commit ==> run.point is Cutover
            &&& forall|i: int| 0 <= i < run.rest.len() ==> #[trigger] run.rest[i] !is Commit
        },
    decreases replies.len(),
{
    if replies.len() > 0 {
        let before = replies.drop_last();
        lemma_commits_at_cutover(config, job, before);
        lemma_tracked(config, job, before);
        if let ProgressView::Pending(run, effect) = after(config, job, before) {
            lemma_turn_commits_at_cutover(run.config, run.job, run.point, replies.last());
        }
    }
}

// ---------------------------------------------------------------------------
// Laravel projects
// ---------------------------------------------------------------------------

/// What is added to the workspace of a Laravel project: a directory and two files in it.
pub open spec fn added_to(config: ConfigView, job: DeploymentJobView) -> Seq<EffectView> {
    seq![
        EffectView::CreateDir(path_in(built_in(config, job), ".deploynest"@)),
        EffectView::WriteTemplate(
            written_to(config, job, Template::LaravelDockerfile),
            Template::LaravelDockerfile,
        ),
        EffectView::WriteTemplate(
            written_to(config, job, Template::LaravelEntrypoint),
            Template::LaravelEntrypoint,
        ),
    ]
}

/// A file of the workspace was looked for and found.
pub open spec fn was_seen(
    config: ConfigView,
    job: DeploymentJobView,
    replies: Seq<ReplyView>,
    name: Seq<char>,
) -> bool {
    was_answered(
        config,
        job,
        replies,
        EffectView::PathExists(path_in(built_in(config, job), name)),
        |reply: ReplyView| reply == ReplyView::Exists(true),
    )
}

/// One of the things that are added was added.
pub open spec fn was_added(
    config: ConfigView,
    job: DeploymentJobView,
    replies: Seq<ReplyView>,
    i: int,
) -> bool {
    was_answered(
        config,
        job,
        replies,
        added_to(config, job)[i],
        |reply: ReplyView| reply == ReplyView::Ready,
    )
}

/// What is known of a Laravel project's files at the points before its image is built.
spec fn is_furnishing(
    config: ConfigView,
    job: DeploymentJobView,
    replies: Seq<ReplyView>,
    run: RunView,
    effect: EffectView,
) -> bool {
    match run.point {
        PointView::Source(SourcePointView::Composer(_)) => was_seen(
            config,
            job,
            replies,
            "artisan"@,
        ),
        PointView::Source(SourcePointView::Build(target)) => is_laravel(target) ==> {
            &&& was_seen(config, job, replies, "artisan"@)
            &&& was_seen(config, job, replies, "composer.json"@)
            &&& forall|i: int|
                0 <= i < 3 ==> #[trigger] was_added(config, job, replies, i) || effect == added_to(
                    config,
                    job,
                )[i] || run.rest.contains(added_to(config, job)[i])
        },
        _ => true,
    }
}

#[verifier::rlimit(30)]
proof fn lemma_into_build(
    config: ConfigView,
    job: DeploymentJobView,
    point: PointView,
    effect: EffectView,
    reply: ReplyView,
)
    requires
        awaits(config, job, point, effect),
    ensures
        turn_at(config, job, point, reply) matches TurnView::Go(next, first, rest) ==> {
            &&& next matches PointView::Source(SourcePointView::Composer(_)) ==> {
                &&& effect == EffectView::PathExists(path_in(built_in(config, job), "artisan"@))
                &&& reply == ReplyView::Exists(true)
            }
            &&& next matches PointView::Source(SourcePointView::Build(target)) ==> (is_laravel(
                target,
            ) ==> {
                &&& point matches PointView::Source(SourcePointView::Composer(_))
                &&& effect == EffectView::PathExists(
                    path_in(built_in(config, job), "composer.json"@),
                )
                &&& reply == ReplyView::Exists(true)
                &&& first == added_to(config, job)[0]
                &&& rest.len() == 4
                &&& rest[0] == added_to(config, job)[1]
                &&& rest[1] == added_to(config, job)[2]
            })
        },
{
    reveal(turn_at);
    reveal_strlit("dockerfile");
    reveal_strlit("laravel");
    assert("dockerfile"@.len() == 10 && "laravel"@.len() == 7);
}

#[verifier::rlimit(30)]
proof fn lemma_step_is_furnishing(
    config: ConfigView,
    job: DeploymentJobView,
    replies: Seq<ReplyView>,
    run: RunView,
    effect: EffectView,
)
    requires
        replies.len() > 0,
        after(config, job, replies.drop_last()) == ProgressView::Pending(run, effect),
        run.config == config,
        run.job == job,
        awaits(config, job, run.point, last_of(effect, run.rest)),
        is_furnishing(config, job, replies.drop_last(), run, effect),
    ensures
        run.stepped(replies.last()) matches ProgressView::Pending(next, e) ==> is_furnishing(
            config,
            job,
            replies,
            next,
            e,
        ),
{
    let before = replies.drop_last();
    let reply = replies.last();
    let seen = |reply: ReplyView| reply == ReplyView::Exists(true);
    let ready = |reply: ReplyView| reply == ReplyView::Ready;
    let artisan = EffectView::PathExists(path_in(built_in(config, job), "artisan"@));
    let composer = EffectView::PathExists(path_in(built_in(config, job), "composer.json"@));
    if was_answered(config, job, before, artisan, seen) {
        lemma_answer_stays(config, job, replies, artisan, seen);
    }
    if was_answered(config, job, before, composer, seen) {
        lemma_answer_stays(config, job, replies, composer, seen);
    }
    if seen(reply) {
        lemma_answer_now(config, job, replies, effect, seen);
    }
    if ready(reply) {
        lemma_answer_now(config, job, replies, effect, ready);
    }
    assert forall|i: int| 0 <= i < 3 && was_added(config, job, before, i) implies was_added(
        config,
        job,
        replies,
        i,
    ) by {
        lemma_answer_stays(config, job, replies, added_to(config, job)[i], ready);
    }
    if let ProgressView::Pending(next, e) = run.stepped(reply) {
        if run.rest.len() == 0 {
            lemma_into_build(config, job, run.point, effect, reply);
            if let PointView::Source(SourcePointView::Build(target)) = next.point {
                if is_laravel(target) {
                    let added = added_to(config, job);
                    assert(next.rest.contains(added[1])) by {
                        assert(next.rest[0] == added[1]);
                    }
                    assert(next.rest.contains(added[2])) by {
                        assert(next.rest[1] == added[2]);
                    }
                }
            }
        } else if let PointView::Source(SourcePointView::Build(target)) = run.point {
            if is_laravel(target) {
                assert forall|i: int| 0 <= i < 3 implies #[trigger] was_added(
                    config,
                    job,
                    replies,
                    i,
                ) || e == added_to(config, job)[i] || next.rest.contains(
                    added_to(config, job)[i],
                ) by {
                    let x = added_to(config, job)[i];
                    assert(was_added(config, job, before, i) || effect == x || run.rest.contains(
                        x,
                    ));
                    if run.rest.contains(x) {
                        let m = choose|m: int| 0 <= m < run.rest.len() && run.rest[m] == x;
                        if m > 0 {
                            assert(next.rest[m - 1] == x);
                        }
                    }
                }
            }
        }
    }
}

proof fn lemma_furnishing(config: ConfigView, job: DeploymentJobView, replies: Seq<ReplyView>)
    requires
        job.job_type == "deploy"@,
    ensures
        after(config, job, replies) matches ProgressView::Pending(run, effect) ==> is_furnishing(
            config,
            job,
            replies,
            run,
            effect,
        ),
    decreases replies.len(),
{
    if replies.len() > 0 {
        let before = replies.drop_last();
        lemma_furnishing(config, job, before);
        lemma_tracked(config, job, before);
        if let ProgressView::Pending(run, effect) = after(config, job, before) {
            lemma_step_is_furnishing(config, job, replies, run, effect);
        }
    }
}

/// The image of a Laravel project is built only once its source was found to have an `artisan`
/// and a `composer.json`, and once the Dockerfile that it is built by and the entrypoint were
/// written.
pub proof fn law_laravel_is_built_with_its_files(
    config: ConfigView,
    job: DeploymentJobView,
    replies: Seq<ReplyView>,
    deployment_id: i32,
    command: CommandView,
)
    requires
        job.job_type == "deploy"@,
        after(config, job, replies) matches ProgressView::Pending(_, effect) && effect
            == EffectView::RunLogged(deployment_id, command),
        command.args[0] == "build"@,
        replies[0]->Context_0.app_type == "laravel"@,
    ensures
        was_seen(config, job, replies, "artisan"@),
        was_seen(config, job, replies, "composer.json"@),
        forall|i: int| 0 <= i < 3 ==> #[trigger] was_added(config, job, replies, i),
        exists|path: Seq<char>| #[trigger]
            gives(command.args, "-f"@, path) && was_answered(
                config,
                job,
                replies,
                EffectView::WriteTemplate(path, Template::LaravelDockerfile),
                |reply: ReplyView| reply == ReplyView::Ready,
            ),
{
    lemma_tracked(config, job, replies);
    lemma_furnishing(config, job, replies);
    lemma_quiet(config, job, replies);
    reveal_strlit("build");
    reveal_strlit("clone");
    reveal_strlit("run");
    reveal_strlit("dockerfile");
    reveal_strlit("laravel");
    assert("build"@[0] == 'b' && "clone"@[0] == 'c' && "run"@.len() == 3);
    assert("build"@.len() == 5 && "dockerfile"@.len() == 10 && "laravel"@.len() == 7);
    let run = after(config, job, replies)->Pending_0;
    let effect = after(config, job, replies)->Pending_1;
    assert(run.rest.len() == 0);
    assert(run.point matches PointView::Source(SourcePointView::Build(_)));
    assert forall|i: int| 0 <= i < 3 implies #[trigger] was_added(config, job, replies, i) by {
        assert(effect != added_to(config, job)[i]);
        assert(!run.rest.contains(added_to(config, job)[i]));
    }
    let path = written_to(config, job, Template::LaravelDockerfile);
    law_build_makes_the_image(
        image_tag(told(replies).context.project_id as int, job.deployment_id as int),
        Some(path),
        built_in(config, job),
    );
    assert(was_added(config, job, replies, 1));
    assert(gives(command.args, "-f"@, path));
}

// ---------------------------------------------------------------------------
// What makes no difference
// ---------------------------------------------------------------------------

/// Of a captured command only what it printed to its standard output counts, but for migrations.
/// Of a logged command that ended well only the start of the deployment's container is read.
pub proof fn law_output_counts_only_where_it_is_read(
    run: RunView,
    success: bool,
    success2: bool,
    stdout: Seq<char>,
    stderr: Seq<char>,
    stderr2: Seq<char>,
    status: Seq<char>,
    status2: Seq<char>,
    lines: Seq<Seq<char>>,
    lines2: Seq<Seq<char>>,
)
    requires
        run.rest.len() == 0,
    ensures
        !(run.point matches PointView::Launch(LaunchPointView::Migrate(_))) ==> run.stepped(
            ReplyView::Captured { success, stdout, stderr },
        ) == run.stepped(ReplyView::Captured { success: success2, stdout, stderr: stderr2 }),
        !(run.point matches PointView::Launch(LaunchPointView::Start(_, _))) ==> run.stepped(
            ReplyView::Streamed { success: true, status, lines },
        ) == run.stepped(ReplyView::Streamed { success: true, status: status2, lines: lines2 }),
        run.stepped(ReplyView::Streamed { success: true, status, lines }) == run.stepped(
            ReplyView::Streamed { success: true, status: status2, lines },
        ),
        run.stepped(ReplyView::Streamed { success: false, status, lines }) == run.stepped(
            ReplyView::Streamed { success: false, status, lines: lines2 },
        ),
{
    reveal(turn_at);
}

} // verus!
