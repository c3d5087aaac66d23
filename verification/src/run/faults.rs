//! What a job that fails says of the reason.

use vstd::prelude::*;
use crate::command::remove_call;
use crate::config::ConfigView;
use crate::effect::{EffectView, Method, ReplyView};
use crate::fault::FaultView;
use crate::naming::app_container;
use crate::run::{turn_at, PointView, ProgressView, RunView, TargetView, TurnView};
use crate::run::deletion::{deletion_turn, DeletionPointView};
use crate::run::laws::{after, asked, lemma_asked_before, lemma_kinds_differ};
use crate::run::requests::{about, awaits, lemma_tracked, live_of, lookup_of, told};
use crate::run::route::RoutePointView;
use crate::store::{deletion_record, DeploymentJobView, StatementView};
use crate::text::{decimal, is_blank, newline_terminated};

verus! {

/// A fault that nothing else caused: the message is all there is to report.
pub open spec fn says(fault: FaultView, message: Seq<char>) -> bool {
    fault.message == message && fault.report == message
}

/// A fault with a cause: the report goes on with what the cause reported.
pub open spec fn says_over(fault: FaultView, message: Seq<char>, cause: FaultView) -> bool {
    fault.message == message && fault.report == message + ": "@ + cause.report
}

/// No port of the configured range is left.
pub open spec fn says_no_port(config: ConfigView, fault: FaultView) -> bool {
    says(
        fault,
        "No available port in range "@ + decimal(config.port_start as int) + "-"@ + decimal(
            config.port_end as int,
        ),
    )
}

/// The fault that a deployment fails with at once when it hears a reply to a request.
pub open spec fn is_reason(
    config: ConfigView,
    target: TargetView,
    effect: EffectView,
    reply: ReplyView,
    fault: FaultView,
) -> bool {
    match reply {
        ReplyView::Failed(cause) => fault == cause,
        ReplyView::NotStarted(cause) => match effect {
            EffectView::RunLogged(_, command) => says_over(
                fault,
                "Failed to start "@ + command.program,
                cause,
            ),
            _ => says(fault, "Unexpected reply"@),
        },
        ReplyView::Streamed { success, status, lines } => match effect {
            EffectView::RunLogged(_, command) => if !success {
                says(fault, command.program + " exited with "@ + status)
            } else if command.program == "git"@ {
                says(fault, "Unsupported application type: "@ + target.context.app_type)
            } else if command.args[0] == "run"@ {
                says(fault, "Docker did not return a container ID"@) && is_blank(
                    newline_terminated(lines),
                )
            } else {
                says_no_port(config, fault)
            },
            _ => says(fault, "Unexpected reply"@),
        },
        ReplyView::Exists(_) => if effect is PathExists {
            reply == ReplyView::Exists(false) && says(
                fault,
                "Laravel projects must contain artisan and composer.json"@,
            )
        } else {
            says(fault, "Unexpected reply"@)
        },
        ReplyView::Watched(_) => match effect {
            EffectView::RunWatched(command) => reply == ReplyView::Watched(false) && if command
                .args[0] == "start"@ {
                says(fault, "Failed to start database container "@ + command.args.last())
            } else {
                says(fault, "Failed to remove old container "@ + command.args.last())
            },
            _ => says(fault, "Unexpected reply"@),
        },
        ReplyView::Port(_) => if effect is ProbePort {
            reply == ReplyView::Port(false) && effect == EffectView::ProbePort(config.port_end)
                && says_no_port(config, fault)
        } else {
            says(fault, "Unexpected reply"@)
        },
        ReplyView::Ready => match effect {
            EffectView::Execute(StatementView::InsertLog { .. }) => target.database matches Some(db)
                && says(fault, "Unsupported database engine: "@ + db.engine),
            EffectView::Execute(_) => says_no_port(config, fault),
            _ => says(fault, "Unexpected reply"@),
        },
        _ => says(fault, "Unexpected reply"@),
    }
}

/// Every reply that is no fault of the outside and no answer to what was asked.
pub open spec fn is_plain_reason(reply: ReplyView, fault: FaultView) -> bool {
    match reply {
        ReplyView::Failed(cause) => fault == cause,
        _ => says(fault, "Unexpected reply"@),
    }
}

spec fn is_reasoned(
    config: ConfigView,
    target: TargetView,
    effect: EffectView,
    reply: ReplyView,
    turn: TurnView,
) -> bool {
    turn matches TurnView::Stop(fault) ==> is_reason(config, target, effect, reply, fault)
}

proof fn lemma_words()
    ensures
        "git"@ != "docker"@,
        "build"@ != "run"@,
        "start"@ != "rm"@,
{
    reveal_strlit("git");
    reveal_strlit("docker");
    reveal_strlit("build");
    reveal_strlit("run");
    reveal_strlit("start");
    reveal_strlit("rm");
    assert("git"@.len() == 3 && "docker"@.len() == 6);
    assert("build"@.len() == 5 && "run"@.len() == 3);
    assert("start"@.len() == 5 && "rm"@.len() == 2);
}

#[verifier::rlimit(30)]
proof fn lemma_source_reason(
    config: ConfigView,
    job: DeploymentJobView,
    target: TargetView,
    point: PointView,
    effect: EffectView,
    reply: ReplyView,
)
    requires
        point is Source,
        about(point) == Some(target),
        awaits(config, job, point, effect),
    ensures
        is_reasoned(config, target, effect, reply, turn_at(config, job, point, reply)),
{
    reveal(turn_at);
    lemma_words();
}

#[verifier::rlimit(30)]
proof fn lemma_database_reason(
    config: ConfigView,
    job: DeploymentJobView,
    target: TargetView,
    point: PointView,
    effect: EffectView,
    reply: ReplyView,
)
    requires
        point is Database,
        about(point) == Some(target),
        awaits(config, job, point, effect),
    ensures
        is_reasoned(config, target, effect, reply, turn_at(config, job, point, reply)),
{
    reveal(turn_at);
    lemma_words();
}

#[verifier::rlimit(30)]
proof fn lemma_launch_reason(
    config: ConfigView,
    job: DeploymentJobView,
    target: TargetView,
    point: PointView,
    effect: EffectView,
    reply: ReplyView,
)
    requires
        point is Launch,
        about(point) == Some(target),
        awaits(config, job, point, effect),
    ensures
        is_reasoned(config, target, effect, reply, turn_at(config, job, point, reply)),
{
    reveal(turn_at);
    lemma_words();
}

#[verifier::rlimit(30)]
proof fn lemma_cutover_reason(
    config: ConfigView,
    job: DeploymentJobView,
    target: TargetView,
    point: PointView,
    effect: EffectView,
    reply: ReplyView,
)
    requires
        point is Cutover,
        awaits(config, job, point, effect),
    ensures
        is_reasoned(config, target, effect, reply, turn_at(config, job, point, reply)),
{
    reveal(turn_at);
    lemma_words();
}

proof fn lemma_stop_mid_script(
    config: ConfigView,
    target: TargetView,
    run: RunView,
    effect: EffectView,
    reply: ReplyView,
)
    requires
        run.rest.len() > 0,
        effect !is RunLogged && effect !is PathExists && effect !is RunWatched && effect
            !is ProbePort,
    ensures
        run.stepped(reply) matches ProgressView::Failed(fault, _) ==> is_reason(
            config,
            target,
            effect,
            reply,
            fault,
        ),
{
}

/// Until the last effect of a script nothing is asked for that has something to report.
pub open spec fn is_quiet(first: EffectView, rest: Seq<EffectView>) -> bool {
    rest.len() > 0 ==> {
        &&& first !is RunLogged && first !is RunCaptured && first !is PathExists && first
            !is RunWatched && first !is ProbePort
        &&& forall|i: int|
            0 <= i < rest.len() - 1 ==> {
                &&& #[trigger] rest[i] !is RunLogged
                &&& rest[i] !is RunCaptured
                &&& rest[i] !is PathExists
                &&& rest[i] !is RunWatched
                &&& rest[i] !is ProbePort
            }
    }
}

#[verifier::rlimit(30)]
proof fn lemma_turn_is_quiet(
    config: ConfigView,
    job: DeploymentJobView,
    point: PointView,
    reply: ReplyView,
)
    ensures
        turn_at(config, job, point, reply) matches TurnView::Go(_, first, rest) ==> is_quiet(
            first,
            rest,
        ),
{
    reveal(turn_at);
}

pub(crate) proof fn lemma_quiet(config: ConfigView, job: DeploymentJobView, replies: Seq<ReplyView>)
    ensures
        after(config, job, replies) matches ProgressView::Pending(run, effect) ==> is_quiet(
            effect,
            run.rest,
        ),
    decreases replies.len(),
{
    if replies.len() > 0 {
        let before = replies.drop_last();
        lemma_quiet(config, job, before);
        if let ProgressView::Pending(run, effect) = after(config, job, before) {
            lemma_turn_is_quiet(run.config, run.job, run.point, replies.last());
            if let ProgressView::Pending(next, e) = run.stepped(replies.last()) {
                if run.rest.len() > 0 {
                    assert forall|i: int| 0 <= i < next.rest.len() - 1 implies {
                        &&& #[trigger] next.rest[i] !is RunLogged
                        &&& next.rest[i] !is RunCaptured
                        &&& next.rest[i] !is PathExists
                        &&& next.rest[i] !is RunWatched
                        &&& next.rest[i] !is ProbePort
                    } by {
                        assert(next.rest[i] == run.rest[i + 1]);
                    }
                }
            }
        }
    }
}

/// A deployment that fails says why: it fails with the fault that it heard of, or says which
/// program ended how, which kind of application or engine is not supported, which container
/// could not be started or removed, or which ports are taken. Where it gives up on the proxy it
/// fails with what [`law_proxy_faults_say_why`] says.
pub proof fn law_faults_say_why(
    config: ConfigView,
    job: DeploymentJobView,
    replies: Seq<ReplyView>,
)
    requires
        job.job_type == "deploy"@,
        replies.len() > 0,
        after(config, job, replies.drop_last()) matches ProgressView::Pending(run, _) && run.point
            !is Route,
        after(config, job, replies) is Failed,
    ensures
        ({
            let effect = after(config, job, replies.drop_last())->Pending_1;
            let fault = after(config, job, replies)->Failed_0;
            if replies.len() <= 2 {
                is_plain_reason(replies.last(), fault)
            } else {
                is_reason(config, told(replies), effect, replies.last(), fault)
            }
        }),
{
    let before = replies.drop_last();
    lemma_tracked(config, job, before);
    lemma_quiet(config, job, before);
    if let ProgressView::Pending(run, effect) = after(config, job, before) {
        let reply = replies.last();
        if replies.len() <= 2 {
            reveal(turn_at);
        } else {
            assert(before[0] == replies[0] && before[1] == replies[1]);
            let target = told(replies);
            if run.rest.len() > 0 {
                lemma_stop_mid_script(config, target, run, effect, reply);
            } else {
                match run.point {
                    PointView::Source(_) => {
                        lemma_source_reason(config, job, target, run.point, effect, reply)
                    },
                    PointView::Database(_) => {
                        lemma_database_reason(config, job, target, run.point, effect, reply)
                    },
                    PointView::Launch(_) => {
                        lemma_launch_reason(config, job, target, run.point, effect, reply)
                    },
                    PointView::Cutover(_) => {
                        lemma_cutover_reason(config, job, target, run.point, effect, reply)
                    },
                    _ => {},
                }
            }
        }
    }
}

// ---------------------------------------------------------------------------
// The proxy
// ---------------------------------------------------------------------------

/// The fault that a deployment gives up on the proxy with, from the last request and its reply;
/// `looked` tells whether the proxy was still being asked for the route.
pub open spec fn is_proxy_reason(
    effect: EffectView,
    reply: ReplyView,
    looked: bool,
    fault: FaultView,
) -> bool {
    match reply {
        ReplyView::Failed(cause) => match effect {
            EffectView::ReadBody => fault == cause,
            _ => says_over(
                fault,
                if looked {
                    "Cannot reach Caddy admin API"@
                } else {
                    "Cannot update Caddy proxy route"@
                },
                cause,
            ),
        },
        ReplyView::Body(text) => if effect is ReadBody {
            says(
                fault,
                (if looked {
                    "Caddy rejected route lookup: "@
                } else {
                    "Caddy rejected proxy route: "@
                }) + text,
            )
        } else {
            says(fault, "Unexpected reply"@)
        },
        _ => says(fault, "Unexpected reply"@),
    }
}

proof fn lemma_route_reason(
    config: ConfigView,
    job: DeploymentJobView,
    point: PointView,
    effect: EffectView,
    reply: ReplyView,
)
    requires
        point is Route,
        awaits(config, job, point, effect),
    ensures
        match turn_at(config, job, point, reply) {
            TurnView::Go(next, _, rest) => {
                let looked = point->Route_0 is Lookup || point->Route_0 is LookupRejected;
                &&& rest.len() == 0
                &&& next matches PointView::Route(RoutePointView::Discard(live, fault)) ==> {
                    &&& live == live_of(point->Route_0)
                    &&& is_proxy_reason(effect, reply, looked, fault)
                }
                &&& next matches PointView::Route(RoutePointView::LookupRejected(_)) ==> looked
                &&& next matches PointView::Route(RoutePointView::UpdateRejected(_)) ==> !looked
            },
            TurnView::Stop(fault) => point matches PointView::Route(
                RoutePointView::Discard(_, kept),
            ) && kept == fault,
            TurnView::Finish => false,
        },
{
    reveal(turn_at);
}

proof fn lemma_only_route_discards(
    config: ConfigView,
    job: DeploymentJobView,
    point: PointView,
    reply: ReplyView,
)
    requires
        point !is Route,
    ensures
        turn_at(config, job, point, reply) matches TurnView::Go(next, _, rest) ==> (next is Route
            ==> next->Route_0 is Lookup && rest.len() == 0),
{
    reveal(turn_at);
}

proof fn lemma_looking(config: ConfigView, job: DeploymentJobView, replies: Seq<ReplyView>)
    requires
        job.job_type == "deploy"@,
    ensures
        after(config, job, replies) matches ProgressView::Pending(run, effect) ==> (run.point
            is Route ==> {
            &&& run.rest.len() == 0
            &&& replies.len() > 2
            &&& run.point->Route_0 is LookupRejected ==> asked(
                config,
                job,
                replies,
                replies.len() - 1,
            ) == Some(lookup_of(config, told(replies)))
            &&& run.point->Route_0 is UpdateRejected ==> (asked(
                config,
                job,
                replies,
                replies.len() - 1,
            ) matches Some(EffectView::Request { method, .. }) && method != Method::Get)
        }),
    decreases replies.len(),
{
    if replies.len() > 0 {
        let before = replies.drop_last();
        lemma_looking(config, job, before);
        lemma_tracked(config, job, before);
        lemma_asked_before(config, job, replies, replies.len() - 1);
        if let ProgressView::Pending(run, effect) = after(config, job, before) {
            if before.len() >= 2 {
                assert(before[0] == replies[0] && before[1] == replies[1]);
            }
            if run.point is Route {
                lemma_route_reason(config, job, run.point, effect, replies.last());
                lemma_rejected_from(config, job, run.point, replies.last());
            } else {
                lemma_only_route_discards(config, job, run.point, replies.last());
                if before.len() < 2 {
                    reveal(turn_at);
                }
            }
        }
    }
}

proof fn lemma_rejected_from(
    config: ConfigView,
    job: DeploymentJobView,
    point: PointView,
    reply: ReplyView,
)
    requires
        point is Route,
    ensures
        turn_at(config, job, point, reply) matches TurnView::Go(next, _, _) ==> {
            &&& next matches PointView::Route(RoutePointView::LookupRejected(_))
                ==> point->Route_0 is Lookup
            &&& next matches PointView::Route(RoutePointView::UpdateRejected(_))
                ==> point->Route_0 is Update
        },
{
    reveal(turn_at);
}

/// A deployment that gives up on the proxy says why: the proxy could not be reached, or it
/// refused, and in what words; and whether it was still being asked for the route, or told of
/// the new one. It fails with that, once it has asked for its container to be removed, whether
/// or not that worked.
pub proof fn law_proxy_faults_say_why(
    config: ConfigView,
    job: DeploymentJobView,
    replies: Seq<ReplyView>,
    reply: ReplyView,
)
    requires
        job.job_type == "deploy"@,
        after(config, job, replies) matches ProgressView::Pending(run, _) && run.point
            matches PointView::Route(RoutePointView::Discard(_, _)),
    ensures
        ({
            let n = replies.len() as int;
            let lookup = lookup_of(config, told(replies));
            &&& n > 3
            &&& asked(config, job, replies, n - 1) matches Some(effect)
            &&& after(config, job, replies.push(reply)) matches ProgressView::Failed(fault, _)
            &&& is_proxy_reason(
                effect,
                replies.last(),
                effect == lookup || effect is ReadBody && asked(config, job, replies, n - 2)
                    == Some(lookup),
                fault,
            )
        }),
{
    let before = replies.drop_last();
    lemma_tracked(config, job, replies);
    lemma_looking(config, job, replies);
    lemma_tracked(config, job, before);
    lemma_looking(config, job, before);
    let n = replies.len() as int;
    lemma_asked_before(config, job, replies, n - 1);
    lemma_asked_before(config, job, replies, n - 2);
    let all = replies.push(reply);
    assert(all.drop_last() =~= replies);
    assert(before[0] == replies[0] && before[1] == replies[1]);
    if let ProgressView::Pending(run, effect) = after(config, job, before) {
        if run.point is Route {
            lemma_route_reason(config, job, run.point, effect, replies.last());
            lemma_methods(config, job, run.point, effect);
        } else {
            lemma_only_route_discards(config, job, run.point, replies.last());
        }
    }
    if let ProgressView::Pending(run, effect) = after(config, job, replies) {
        lemma_route_reason(config, job, run.point, effect, reply);
        lemma_discard_stops(config, job, run.point, reply);
    }
}

proof fn lemma_methods(
    config: ConfigView,
    job: DeploymentJobView,
    point: PointView,
    effect: EffectView,
)
    requires
        point is Route,
        awaits(config, job, point, effect),
    ensures
        point->Route_0 is Update ==> (effect matches EffectView::Request { method, .. } && method
            != Method::Get),
        point->Route_0 is Lookup ==> effect == lookup_of(config, live_of(point->Route_0).target),
{
}

proof fn lemma_discard_stops(
    config: ConfigView,
    job: DeploymentJobView,
    point: PointView,
    reply: ReplyView,
)
    requires
        point matches PointView::Route(RoutePointView::Discard(_, _)),
    ensures
        turn_at(config, job, point, reply) is Stop,
{
    reveal(turn_at);
}

// ---------------------------------------------------------------------------
// Other jobs
// ---------------------------------------------------------------------------

/// A job of another kind fails at once, and says which kind that is.
pub proof fn law_unknown_jobs_fail(
    config: ConfigView,
    job: DeploymentJobView,
    replies: Seq<ReplyView>,
)
    requires
        job.job_type != "deploy"@,
        job.job_type != "delete"@,
    ensures
        after(config, job, replies) matches ProgressView::Failed(fault, _) && says(
            fault,
            "Unknown job type: "@ + job.job_type,
        ),
    decreases replies.len(),
{
    if replies.len() > 0 {
        law_unknown_jobs_fail(config, job, replies.drop_last());
    }
}

proof fn lemma_deletion_turn(
    config: ConfigView,
    job: DeploymentJobView,
    at: DeletionPointView,
    reply: ReplyView,
)
    ensures
        turn_at(config, job, PointView::Deletion(at), reply) == deletion_turn(job, at, reply),
{
    reveal(turn_at);
}

/// The removal of a deployment finds the project, then removes the container of that project and
/// deployment, then, whatever came of that, removes the rows of the deployment; and it is done
/// once they are gone. It asks for nothing else, and fails only with what it heard of.
pub proof fn law_removals_take_three_steps(
    config: ConfigView,
    job: DeploymentJobView,
    first: ReplyView,
    second: ReplyView,
    third: ReplyView,
)
    requires
        job.job_type == "delete"@,
    ensures
        after(config, job, seq![]) matches ProgressView::Pending(_, effect) && effect
            == EffectView::FindContext(job.deployment_id),
        match first {
            ReplyView::Context(context) => {
                &&& after(config, job, seq![first]) matches ProgressView::Pending(_, effect)
                    && effect == EffectView::RunWatched(
                    remove_call(
                        app_container(context.project_id as int, job.deployment_id as int),
                    ),
                )
                &&& after(config, job, seq![first, second]) matches ProgressView::Pending(_, effect)
                    && effect == EffectView::Commit(deletion_record(job.deployment_id))
                &&& if third == ReplyView::Ready {
                    after(config, job, seq![first, second, third]) is Succeeded
                } else {
                    after(config, job, seq![first, second, third]) matches ProgressView::Failed(
                        fault,
                        _,
                    ) && is_plain_reason(third, fault)
                }
            },
            _ => after(config, job, seq![first]) matches ProgressView::Failed(fault, _)
                && is_plain_reason(first, fault),
        },
{
    lemma_kinds_differ();
    lemma_deletion_turn(config, job, DeletionPointView::Context, first);
    lemma_deletion_turn(config, job, DeletionPointView::Container, second);
    lemma_deletion_turn(config, job, DeletionPointView::Rows, third);
    let (a, b, c) = (seq![first], seq![first, second], seq![first, second, third]);
    assert(a.drop_last() =~= seq![]);
    assert(b.drop_last() =~= a);
    assert(c.drop_last() =~= b);
}

} // verus!
