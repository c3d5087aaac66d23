//! How a deployment brings up the database of its project.

use vstd::prelude::*;
use crate::command::{
    announcement_of, connect_call, create_database_call, find_any_call, find_running_call,
    is_supported_engine, list_call, migrate_call, start_call,
};
use crate::config::ConfigView;
use crate::effect::{EffectView, ReplyView};
use crate::naming::{app_container, project_tag};
use crate::run::{turn_at, PointView, ProgressView, RunView, TurnView};
use crate::run::cutover::CutoverPointView;
use crate::run::database::{database_turn, DatabasePointView, ProvisionView};
use crate::run::faults::lemma_quiet;
use crate::run::launch::LaunchPointView;
use crate::run::laws::after;
use crate::run::order::line_of;
use crate::run::requests::{about, awaits, lemma_tracked, told};
use crate::store::{DatabaseConfigView, DeploymentJobView, StatementView};
use crate::text::is_blank;

verus! {

/// What is asked for after the replies, if anything is.
pub open spec fn next_of(
    config: ConfigView,
    job: DeploymentJobView,
    replies: Seq<ReplyView>,
) -> Option<EffectView> {
    match after(config, job, replies) {
        ProgressView::Pending(_, effect) => Some(effect),
        _ => None,
    }
}

/// The statement that says that the database of the project is running.
pub open spec fn marked_running(replies: Seq<ReplyView>) -> EffectView {
    EffectView::Execute(
        StatementView::DatabaseStatus {
            project_id: told(replies).context.project_id,
            status: "running"@,
        },
    )
}

/// The run waits at a point of the upkeep, with the rest of a script before it.
spec fn stands(
    config: ConfigView,
    job: DeploymentJobView,
    replies: Seq<ReplyView>,
    at: DatabasePointView,
    effect: EffectView,
    rest: Seq<EffectView>,
) -> bool {
    after(config, job, replies) == ProgressView::Pending(
        RunView { config, job, point: PointView::Database(at), rest },
        effect,
    )
}

proof fn lemma_after_push(
    config: ConfigView,
    job: DeploymentJobView,
    replies: Seq<ReplyView>,
    at: DatabasePointView,
    effect: EffectView,
    rest: Seq<EffectView>,
    reply: ReplyView,
)
    requires
        stands(config, job, replies, at, effect, rest),
    ensures
        after(config, job, replies.push(reply)) == (RunView {
            config,
            job,
            point: PointView::Database(at),
            rest,
        }).stepped(reply),
        rest.len() == 0 ==> turn_at(config, job, PointView::Database(at), reply) == database_turn(
            config,
            job,
            at,
            reply,
        ),
{
    reveal(turn_at);
    assert(replies.push(reply).drop_last() =~= replies);
}

proof fn lemma_captured_differ(a: Seq<char>, b: Seq<char>)
    ensures
        find_running_call(a) != find_any_call(b),
        find_running_call(a) != connect_call(b),
        find_running_call(a) != migrate_call(b),
        find_running_call(a) != list_call(b),
{
    reveal_strlit("ps");
    reveal_strlit("-q");
    reveal_strlit("-aq");
    reveal_strlit("network");
    reveal_strlit("exec");
    assert(find_running_call(a).args[0] == "ps"@);
    assert(find_running_call(a).args[1] == "-q"@);
    assert(find_any_call(b).args[1] == "-aq"@);
    assert(connect_call(b).args[0] == "network"@);
    assert(migrate_call(b).args[0] == "exec"@);
    assert(list_call(b).args[1] == "-aq"@);
}

/// The look for the running container is asked for at one point alone.
proof fn lemma_looks(
    config: ConfigView,
    job: DeploymentJobView,
    replies: Seq<ReplyView>,
    database: DatabaseConfigView,
)
    requires
        job.job_type == "deploy"@,
        replies.len() >= 2,
        told(replies).database == Some(database),
        next_of(config, job, replies) == Some(
            EffectView::RunCaptured(find_running_call(database.container_name)),
        ),
    ensures
        stands(
            config,
            job,
            replies,
            DatabasePointView::Running(
                ProvisionView { context: told(replies).context, database },
            ),
            EffectView::RunCaptured(find_running_call(database.container_name)),
            seq![],
        ),
{
    lemma_tracked(config, job, replies);
    lemma_quiet(config, job, replies);
    let name = database.container_name;
    if let ProgressView::Pending(run, effect) = after(config, job, replies) {
        assert(run.rest =~= seq![]);
        assert(awaits(config, job, run.point, effect));
        assert(run.point is Database && run.point->Database_0 is Running) by {
            match run.point {
                PointView::Database(DatabasePointView::Connect(p)) => {
                    lemma_captured_differ(name, p.database.container_name);
                },
                PointView::Database(DatabasePointView::Stopped(p)) => {
                    lemma_captured_differ(name, p.database.container_name);
                },
                PointView::Launch(LaunchPointView::Migrate(live)) => {
                    lemma_captured_differ(
                        name,
                        app_container(
                            live.target.context.project_id as int,
                            job.deployment_id as int,
                        ),
                    );
                },
                PointView::Cutover(CutoverPointView::List(live)) => {
                    lemma_captured_differ(
                        name,
                        project_tag(live.target.context.project_id as int),
                    );
                },
                _ => {},
            }
        }
        assert(about(run.point) == Some(told(replies)));
    }
}

/// The line that says that the database is looked after.
pub open spec fn ensured(job: DeploymentJobView, database: DatabaseConfigView) -> EffectView {
    line_of(
        job,
        "[DATABASE] Ensuring "@ + database.engine + " container '"@ + database.container_name
            + "' is running..."@,
    )
}

#[verifier::rlimit(30)]
proof fn lemma_turn_into_look(
    config: ConfigView,
    job: DeploymentJobView,
    point: PointView,
    reply: ReplyView,
)
    ensures
        turn_at(config, job, point, reply) matches TurnView::Go(
            PointView::Database(DatabasePointView::Running(p)),
            first,
            rest,
        ) ==> first == ensured(job, p.database) && rest.len() == 1,
{
    reveal(turn_at);
}

proof fn lemma_look_is_noted(config: ConfigView, job: DeploymentJobView, replies: Seq<ReplyView>)
    requires
        job.job_type == "deploy"@,
    ensures
        after(config, job, replies) matches ProgressView::Pending(run, effect) ==> (run.point
            matches PointView::Database(DatabasePointView::Running(p)) ==> run.rest.len() <= 1 && (
        run.rest.len() == 1 ==> effect == ensured(job, p.database))),
    decreases replies.len(),
{
    if replies.len() > 0 {
        let before = replies.drop_last();
        lemma_look_is_noted(config, job, before);
        lemma_tracked(config, job, before);
        if let ProgressView::Pending(run, _) = after(config, job, before) {
            lemma_turn_into_look(config, job, run.point, replies.last());
        }
    }
}

/// The log says that the database is looked after right before the look for its container.
pub proof fn law_looks_are_announced(
    config: ConfigView,
    job: DeploymentJobView,
    replies: Seq<ReplyView>,
    database: DatabaseConfigView,
)
    requires
        job.job_type == "deploy"@,
        replies.len() >= 2,
        told(replies).database == Some(database),
        next_of(config, job, replies) == Some(
            EffectView::RunCaptured(find_running_call(database.container_name)),
        ),
    ensures
        next_of(config, job, replies.drop_last()) == Some(ensured(job, database)),
        replies.last() == ReplyView::Ready,
{
    let before = replies.drop_last();
    lemma_looks(config, job, replies, database);
    lemma_tracked(config, job, before);
    lemma_look_is_noted(config, job, before);
    if let ProgressView::Pending(run, _) = after(config, job, before) {
        lemma_turn_into_look(config, job, run.point, replies.last());
    }
}

/// Where the look finds the container running, the log says so, the container is joined to the
/// network, and whatever comes of that, the database is marked as running.
pub proof fn law_running_databases_are_joined(
    config: ConfigView,
    job: DeploymentJobView,
    replies: Seq<ReplyView>,
    database: DatabaseConfigView,
    look: ReplyView,
    joined: ReplyView,
)
    requires
        job.job_type == "deploy"@,
        replies.len() >= 2,
        told(replies).database == Some(database),
        next_of(config, job, replies) == Some(
            EffectView::RunCaptured(find_running_call(database.container_name)),
        ),
        look matches ReplyView::Captured { stdout, .. } && !is_blank(stdout),
    ensures
        ({
            let name = database.container_name;
            let found = replies.push(look);
            let noted = found.push(ReplyView::Ready);
            &&& next_of(config, job, found) == Some(
                line_of(job, "[DATABASE] Container '"@ + name + "' is already running"@),
            )
            &&& next_of(config, job, noted) == Some(EffectView::RunCaptured(connect_call(name)))
            &&& next_of(config, job, noted.push(joined)) == Some(marked_running(replies))
        }),
{
    lemma_looks(config, job, replies, database);
    let name = database.container_name;
    let p = ProvisionView { context: told(replies).context, database };
    let found = replies.push(look);
    let noted = found.push(ReplyView::Ready);
    let line = line_of(job, "[DATABASE] Container '"@ + name + "' is already running"@);
    let find = EffectView::RunCaptured(find_running_call(name));
    let join = EffectView::RunCaptured(connect_call(name));
    lemma_after_push(config, job, replies, DatabasePointView::Running(p), find, seq![], look);
    assert(stands(config, job, found, DatabasePointView::Found(p), line, seq![]));
    lemma_after_push(
        config,
        job,
        found,
        DatabasePointView::Found(p),
        line,
        seq![],
        ReplyView::Ready,
    );
    assert(stands(config, job, noted, DatabasePointView::Connect(p), join, seq![]));
    lemma_after_push(config, job, noted, DatabasePointView::Connect(p), join, seq![], joined);
}

/// Where the first look finds nothing, a second one sees the containers that do not run. One
/// that it finds is started, after the log said so, and once it runs the database is marked as
/// running.
pub proof fn law_stopped_databases_are_started(
    config: ConfigView,
    job: DeploymentJobView,
    replies: Seq<ReplyView>,
    database: DatabaseConfigView,
    look: ReplyView,
    second: ReplyView,
)
    requires
        job.job_type == "deploy"@,
        replies.len() >= 2,
        told(replies).database == Some(database),
        next_of(config, job, replies) == Some(
            EffectView::RunCaptured(find_running_call(database.container_name)),
        ),
        look matches ReplyView::Captured { stdout, .. } && is_blank(stdout),
        second matches ReplyView::Captured { stdout, .. } && !is_blank(stdout),
    ensures
        ({
            let name = database.container_name;
            let looked = replies.push(look);
            let found = looked.push(second);
            let noted = found.push(ReplyView::Ready);
            &&& next_of(config, job, looked) == Some(EffectView::RunCaptured(find_any_call(name)))
            &&& next_of(config, job, found) == Some(
                line_of(job, "[DATABASE] Starting existing container '"@ + name + "'..."@),
            )
            &&& next_of(config, job, noted) == Some(EffectView::RunWatched(start_call(name)))
            &&& next_of(config, job, noted.push(ReplyView::Watched(true))) == Some(
                marked_running(replies),
            )
        }),
{
    lemma_looks(config, job, replies, database);
    let name = database.container_name;
    let p = ProvisionView { context: told(replies).context, database };
    let looked = replies.push(look);
    let found = looked.push(second);
    let noted = found.push(ReplyView::Ready);
    let line = line_of(job, "[DATABASE] Starting existing container '"@ + name + "'..."@);
    let find = EffectView::RunCaptured(find_running_call(name));
    let find_any = EffectView::RunCaptured(find_any_call(name));
    let start = EffectView::RunWatched(start_call(name));
    lemma_after_push(config, job, replies, DatabasePointView::Running(p), find, seq![], look);
    assert(stands(config, job, looked, DatabasePointView::Stopped(p), find_any, seq![]));
    lemma_after_push(config, job, looked, DatabasePointView::Stopped(p), find_any, seq![], second);
    assert(stands(config, job, found, DatabasePointView::Start(p), line, seq![start]));
    lemma_after_push(
        config,
        job,
        found,
        DatabasePointView::Start(p),
        line,
        seq![start],
        ReplyView::Ready,
    );
    assert(seq![start].skip(1) =~= seq![]);
    assert(stands(config, job, noted, DatabasePointView::Start(p), start, seq![]));
    lemma_after_push(
        config,
        job,
        noted,
        DatabasePointView::Start(p),
        start,
        seq![],
        ReplyView::Watched(true),
    );
}

/// Where neither look finds a container, the log says that one is created. For a known engine
/// the command that creates it is announced and run, and once it has ended well the log says so
/// and the database is marked as running. For another engine the job fails.
pub proof fn law_missing_databases_are_created(
    config: ConfigView,
    job: DeploymentJobView,
    replies: Seq<ReplyView>,
    database: DatabaseConfigView,
    look: ReplyView,
    second: ReplyView,
    ended: ReplyView,
)
    requires
        job.job_type == "deploy"@,
        replies.len() >= 2,
        told(replies).database == Some(database),
        next_of(config, job, replies) == Some(
            EffectView::RunCaptured(find_running_call(database.container_name)),
        ),
        look matches ReplyView::Captured { stdout, .. } && is_blank(stdout),
        second matches ReplyView::Captured { stdout, .. } && is_blank(stdout),
        ended matches ReplyView::Streamed { success, .. } && success,
    ensures
        ({
            let (name, engine) = (database.container_name, database.engine);
            let create = create_database_call(database);
            let missing = replies.push(look).push(second);
            let noted = missing.push(ReplyView::Ready);
            let announced = noted.push(ReplyView::Ready);
            let created = announced.push(ended);
            &&& next_of(config, job, missing) == Some(
                line_of(
                    job,
                    "[DATABASE] Creating new "@ + engine + " container '"@ + name + "'..."@,
                ),
            )
            &&& is_supported_engine(engine) ==> {
                &&& next_of(config, job, noted) == Some(line_of(job, announcement_of(create)))
                &&& next_of(config, job, announced) == Some(
                    EffectView::RunLogged(job.deployment_id, create),
                )
                &&& next_of(config, job, created) == Some(
                    line_of(
                        job,
                        "[DATABASE] "@ + engine + " container '"@ + name
                            + "' started successfully"@,
                    ),
                )
                &&& next_of(config, job, created.push(ReplyView::Ready)) == Some(
                    marked_running(replies),
                )
            }
            &&& !is_supported_engine(engine) ==> after(config, job, noted) is Failed
        }),
{
    lemma_looks(config, job, replies, database);
    let (name, engine) = (database.container_name, database.engine);
    let p = ProvisionView { context: told(replies).context, database };
    let create = create_database_call(database);
    let looked = replies.push(look);
    let missing = looked.push(second);
    let noted = missing.push(ReplyView::Ready);
    let announced = noted.push(ReplyView::Ready);
    let created = announced.push(ended);
    let find = EffectView::RunCaptured(find_running_call(name));
    let find_any = EffectView::RunCaptured(find_any_call(name));
    let line = line_of(
        job,
        "[DATABASE] Creating new "@ + engine + " container '"@ + name + "'..."@,
    );
    lemma_after_push(config, job, replies, DatabasePointView::Running(p), find, seq![], look);
    assert(stands(config, job, looked, DatabasePointView::Stopped(p), find_any, seq![]));
    lemma_after_push(config, job, looked, DatabasePointView::Stopped(p), find_any, seq![], second);
    assert(stands(config, job, missing, DatabasePointView::Missing(p), line, seq![]));
    lemma_after_push(
        config,
        job,
        missing,
        DatabasePointView::Missing(p),
        line,
        seq![],
        ReplyView::Ready,
    );
    if is_supported_engine(engine) {
        let at = DatabasePointView::Create(p);
        let announcement = line_of(job, announcement_of(create));
        let run = EffectView::RunLogged(job.deployment_id, create);
        let done = line_of(
            job,
            "[DATABASE] "@ + engine + " container '"@ + name + "' started successfully"@,
        );
        let mark = marked_running(replies);
        assert(stands(config, job, noted, at, announcement, seq![run]));
        lemma_after_push(config, job, noted, at, announcement, seq![run], ReplyView::Ready);
        assert(seq![run].skip(1) =~= seq![]);
        assert(stands(config, job, announced, at, run, seq![]));
        lemma_after_push(config, job, announced, at, run, seq![], ended);
        assert(stands(
            config,
            job,
            created,
            DatabasePointView::Status(p),
            done,
            seq![mark],
        ));
        lemma_after_push(
            config,
            job,
            created,
            DatabasePointView::Status(p),
            done,
            seq![mark],
            ReplyView::Ready,
        );
    }
}

} // verus!
