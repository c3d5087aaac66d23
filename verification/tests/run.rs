use deploynest_worker::command::Command;
use deploynest_worker::config::{Config, Environment};
use deploynest_worker::effect::{Effect, Method, Reply, Template};
use deploynest_worker::fault::Fault;
use deploynest_worker::run::{printed, Progress, Run};
use deploynest_worker::store::{DatabaseConfig, DeploymentContext, DeploymentJob, Statement};

fn config() -> Config {
    let mut env = Environment::new();
    env.set("WORKSPACE_DIR".to_string(), "/w".to_string());
    env.set("PORT_END".to_string(), "3003".to_string());
    Config::from_env(&env).unwrap()
}

fn job(kind: &str) -> DeploymentJob {
    DeploymentJob { id: 3, deployment_id: 12, job_type: kind.to_string() }
}

fn context(app_type: &str) -> Reply {
    Reply::Context(DeploymentContext {
        project_id: 4,
        project_name: "My Shop".to_string(),
        repo_url: "https://host/repo.git".to_string(),
        branch: "main".to_string(),
        app_type: app_type.to_string(),
    })
}

fn database(engine: &str) -> Reply {
    Reply::Database(Some(DatabaseConfig {
        engine: engine.to_string(),
        db_name: "shop".to_string(),
        db_user: "ann".to_string(),
        db_password: "pw".to_string(),
        container_name: "db-4".to_string(),
        internal_host: "db-4".to_string(),
        port: 3306,
    }))
}

fn fault(message: &str) -> Fault {
    Fault::new(message.to_string())
}

fn failed(message: &str) -> Reply {
    Reply::Failed(fault(message))
}

fn streamed(lines: &[&str]) -> Reply {
    Reply::Streamed {
        success: true,
        status: "exit status: 0".to_string(),
        lines: lines.iter().map(|line| line.to_string()).collect(),
    }
}

fn exited(status: &str) -> Reply {
    Reply::Streamed { success: false, status: status.to_string(), lines: vec![] }
}

fn captured(stdout: &str) -> Reply {
    Reply::captured(true, &stdout.as_bytes().to_vec(), &vec![])
}

fn line(command: &Command) -> String {
    format!("{} {}", command.program, command.args.join(" "))
}

fn entry(statement: &Statement) -> String {
    format!("{} {:?}", statement.sql(), statement.params())
}

/// An effect in one line.
fn shown(effect: &Effect) -> String {
    match effect {
        Effect::FindContext(id) => format!("context {id}"),
        Effect::FindDatabase(id) => format!("database {id}"),
        Effect::Execute(Statement::InsertLog { deployment_id, message }) => {
            format!("log {deployment_id} {message}")
        }
        Effect::Execute(statement) => format!("execute {}", entry(statement)),
        Effect::Commit(record) => {
            let entries: Vec<String> = record.iter().map(entry).collect();
            format!("commit {}", entries.join("; "))
        }
        Effect::PathExists(path) => format!("exists {path}"),
        Effect::RemoveTree(path) => format!("remove {path}"),
        Effect::CreateDir(path) => format!("create {path}"),
        Effect::WriteTemplate(path, Template::LaravelDockerfile) => format!("dockerfile {path}"),
        Effect::WriteTemplate(path, Template::LaravelEntrypoint) => format!("entrypoint {path}"),
        Effect::RunLogged(id, command) => format!("logged {id} {}", line(command)),
        Effect::RunCaptured(command) => format!("captured {}", line(command)),
        Effect::RunWatched(command) => format!("watched {}", line(command)),
        Effect::ProbePort(port) => format!("port {port}"),
        Effect::Sleep(seconds) => format!("sleep {seconds}"),
        Effect::Request { method, url, body } => {
            let name = match method {
                Method::Get => "GET",
                Method::Patch => "PATCH",
                Method::Put => "PUT",
            };
            match body {
                Some(text) => format!("{name} {url} {text}"),
                None => format!("{name} {url}"),
            }
        }
        Effect::ReadBody => "body".to_string(),
    }
}

/// What became of a job.
enum End {
    Waiting,
    Succeeded,
    Failed(Fault, Vec<String>),
}

/// Runs a job against replies, and tells what it asked for and how it ended.
fn play(kind: &str, replies: Vec<Reply>) -> (Vec<String>, End) {
    let mut asked = Vec::new();
    let mut progress = Run::begin(config(), job(kind));
    let mut replies = replies.into_iter();
    loop {
        match progress {
            Progress::Pending(run, effect) => {
                asked.push(shown(&effect));
                match replies.next() {
                    Some(reply) => progress = run.step(reply),
                    None => return (asked, End::Waiting),
                }
            }
            Progress::Succeeded => {
                assert!(replies.next().is_none());
                return (asked, End::Succeeded);
            }
            Progress::Failed(fault, record) => {
                assert!(replies.next().is_none());
                let entries = record.iter().map(entry).collect();
                return (asked, End::Failed(fault, entries));
            }
        }
    }
}

/// The fault that a job ends with; its record must tell of it.
fn fault_of(kind: &str, replies: Vec<Reply>) -> Fault {
    match play(kind, replies).1 {
        End::Failed(fault, record) => {
            assert_eq!(
                record,
                vec![
                    "UPDATE deployment_jobs SET status = 'failed', completed_at = NOW(), updated_at = NOW() WHERE id = $1 [Int(3)]".to_string(),
                    "UPDATE deployments SET status = 'failed' WHERE id = $1 [Int(12)]".to_string(),
                    format!(
                        "INSERT INTO deployment_logs (deployment_id, message) VALUES ($1, $2) [Int(12), Text({:?})]",
                        format!("[ERROR] {}", fault.message)
                    ),
                ]
            );
            fault
        }
        End::Waiting => panic!("the job waits"),
        End::Succeeded => panic!("the job succeeded"),
    }
}

/// The replies up to the clone, for a workspace that was not there.
fn until_clone(app_type: &str, database: Reply) -> Vec<Reply> {
    vec![context(app_type), database, Reply::Exists(false), Reply::Ready]
}

/// The replies up to the start of a container without a database.
fn until_start() -> Vec<Reply> {
    let mut replies = until_clone("dockerfile", Reply::Database(None));
    replies.extend([streamed(&[]), Reply::Ready, streamed(&["built"]), Reply::Port(true)]);
    replies.push(Reply::Ready);
    replies
}

/// The replies up to the lookup of the route.
fn until_lookup() -> Vec<Reply> {
    let mut replies = until_start();
    replies.push(streamed(&["c0ffee1234"]));
    replies
}

/// The replies up to the search for the running database.
fn until_database(engine: &str) -> Vec<Reply> {
    let mut replies = until_clone("dockerfile", database(engine));
    replies.extend([streamed(&[]), Reply::Ready, streamed(&[]), Reply::Ready]);
    replies
}

fn with(mut replies: Vec<Reply>, more: Vec<Reply>) -> Vec<Reply> {
    replies.extend(more);
    replies
}

const ROUTE: &str = "{\"@id\":\"deploynest_project_4\",\"handle\":[{\"handler\":\"reverse_proxy\",\"upstreams\":[{\"dial\":\"host.docker.internal:3001\"}]}],\"match\":[{\"host\":[\"my-shop-4.localhost\"]}],\"terminal\":true}";

#[test]
fn a_dockerfile_project_is_deployed() {
    let replies = with(
        until_lookup(),
        vec![
            Reply::Response(404),
            Reply::Response(200),
            Reply::Ready,
            captured("c0ffee\nold1\nold2\n"),
            Reply::Watched(true),
            Reply::Watched(true),
            Reply::Ready,
        ],
    );
    let (asked, end) = play("deploy", replies);
    assert!(matches!(end, End::Succeeded));
    let launch = "docker run -d --restart unless-stopped --name deploynest-4-12 --label deploynest.project_id=4 --network deploynest-net -p 3001:3000 deploynest-project-4:12";
    assert_eq!(
        asked,
        vec![
            "context 12".to_string(),
            "database 4".to_string(),
            "exists /w/deployment-12".to_string(),
            "log 12 [COMMAND] git clone [repository]".to_string(),
            "logged 12 git clone --depth 1 --branch main https://host/repo.git /w/deployment-12".to_string(),
            "log 12 [COMMAND] docker build -t deploynest-project-4:12 /w/deployment-12".to_string(),
            "logged 12 docker build -t deploynest-project-4:12 /w/deployment-12".to_string(),
            "port 3001".to_string(),
            format!("log 12 [COMMAND] {launch}"),
            format!("logged 12 {launch}"),
            "GET http://127.0.0.1:2019/id/deploynest_project_4".to_string(),
            format!("PUT http://127.0.0.1:2019/config/apps/http/servers/srv0/routes/0 {ROUTE}"),
            "commit UPDATE deployment_jobs SET status = 'completed', completed_at = NOW(), updated_at = NOW() WHERE id = $1 [Int(3)]; UPDATE deployments SET status = 'success', container_id = $2, port = $3, domain = $4 WHERE id = $1 [Int(12), Text(\"c0ffee1234\"), Int(3001), Text(\"http://my-shop-4.localhost\")]; INSERT INTO deployment_logs (deployment_id, message) VALUES ($1, $2) [Int(12), Text(\"[DONE] Deployment available at http://my-shop-4.localhost\")]".to_string(),
            "captured docker ps -aq --filter label=deploynest.project_id=4".to_string(),
            "watched docker rm -f old1".to_string(),
            "watched docker rm -f old2".to_string(),
            "remove /w/deployment-12".to_string(),
        ]
    );
}

#[test]
fn a_laravel_project_with_a_database_is_deployed() {
    let replies = with(
        vec![context("laravel"), database("mysql"), Reply::Exists(true)],
        vec![
            Reply::Ready,
            Reply::Ready,
            streamed(&["Cloning"]),
            Reply::Exists(true),
            Reply::Exists(true),
            Reply::Ready,
            Reply::Ready,
            Reply::Ready,
            Reply::Ready,
            streamed(&[]),
            Reply::Ready,
            captured(" \n"),
            captured(""),
            Reply::Ready,
            Reply::Ready,
            streamed(&["dbid"]),
            Reply::Ready,
            Reply::Ready,
            Reply::Port(false),
            Reply::Port(true),
            Reply::Ready,
            streamed(&["  c0ffee1234  "]),
            Reply::Ready,
            Reply::Ready,
            Reply::Ready,
            Reply::captured(false, &b"Migrating\n".to_vec(), &b"oops \xff".to_vec()),
            Reply::Ready,
            Reply::Ready,
            Reply::Ready,
            Reply::Response(204),
            Reply::Response(201),
            Reply::Ready,
            captured("c0ffee1234\n"),
            Reply::Ready,
        ],
    );
    let (asked, end) = play("deploy", replies);
    assert!(matches!(end, End::Succeeded));
    let create = "docker run -d --restart unless-stopped --name db-4 --network deploynest-net -v db-4-data:/var/lib/mysql -e MYSQL_ROOT_PASSWORD=pw -e MYSQL_DATABASE=shop -e MYSQL_USER=ann -e MYSQL_PASSWORD=pw mysql:8";
    let launch = "docker run -d --restart unless-stopped --name deploynest-4-12 --label deploynest.project_id=4 --network deploynest-net -p 3002:3000 -e DB_CONNECTION=mysql -e DB_HOST=db-4 -e DB_PORT=3306 -e DB_DATABASE=shop -e DB_USERNAME=ann -e DB_PASSWORD=pw deploynest-project-4:12";
    let build = "docker build -t deploynest-project-4:12 -f /w/deployment-12/.deploynest/Dockerfile.laravel /w/deployment-12";
    assert_eq!(
        asked[2..31].to_vec(),
        vec![
            "exists /w/deployment-12".to_string(),
            "remove /w/deployment-12".to_string(),
            "log 12 [COMMAND] git clone [repository]".to_string(),
            "logged 12 git clone --depth 1 --branch main https://host/repo.git /w/deployment-12".to_string(),
            "exists /w/deployment-12/artisan".to_string(),
            "exists /w/deployment-12/composer.json".to_string(),
            "create /w/deployment-12/.deploynest".to_string(),
            "dockerfile /w/deployment-12/.deploynest/Dockerfile.laravel".to_string(),
            "entrypoint /w/deployment-12/.deploynest/laravel-entrypoint.sh".to_string(),
            format!("log 12 [COMMAND] {build}"),
            format!("logged 12 {build}"),
            "log 12 [DATABASE] Ensuring mysql container 'db-4' is running...".to_string(),
            "captured docker ps -q --filter name=^db-4$".to_string(),
            "captured docker ps -aq --filter name=^db-4$".to_string(),
            "log 12 [DATABASE] Creating new mysql container 'db-4'...".to_string(),
            format!("log 12 [COMMAND] {create}"),
            format!("logged 12 {create}"),
            "log 12 [DATABASE] mysql container 'db-4' started successfully".to_string(),
            "execute UPDATE project_databases SET status = $1 WHERE project_id = $2 [Text(\"running\"), Int(4)]".to_string(),
            "port 3001".to_string(),
            "port 3002".to_string(),
            format!("log 12 [COMMAND] {launch}"),
            format!("logged 12 {launch}"),
            "log 12 [DATABASE] Waiting for database to be ready...".to_string(),
            "sleep 10".to_string(),
            "log 12 [DATABASE] Running Laravel migrations...".to_string(),
            "captured docker exec deploynest-4-12 php artisan migrate --force".to_string(),
            "log 12 Migrating\n".to_string(),
            "log 12 oops \u{fffd}".to_string(),
        ]
    );
    assert_eq!(
        asked[31..34].to_vec(),
        vec![
            "log 12 [DATABASE] Migration failed (non-fatal, app container still running)".to_string(),
            "GET http://127.0.0.1:2019/id/deploynest_project_4".to_string(),
            format!(
                "PATCH http://127.0.0.1:2019/id/deploynest_project_4 {}",
                ROUTE.replace(":3001", ":3002")
            ),
        ]
    );
    assert!(asked[34].contains("Text(\"c0ffee1234\"), Int(3002)"));
    assert_eq!(asked.last().unwrap(), "remove /w/deployment-12");
}

#[test]
fn quiet_migrations_leave_one_line() {
    let replies = vec![
        context("laravel"),
        database("postgresql"),
        Reply::Exists(false),
        Reply::Ready,
        streamed(&[]),
        Reply::Exists(true),
        Reply::Exists(true),
        Reply::Ready,
        Reply::Ready,
        Reply::Ready,
        Reply::Ready,
        streamed(&[]),
        Reply::Ready,
        captured("dbid\n"),
        Reply::Ready,
        failed("no such network"),
        Reply::Ready,
        Reply::Port(true),
        Reply::Ready,
        streamed(&["c0ffee1234"]),
        Reply::Ready,
        Reply::Ready,
        Reply::Ready,
        captured("\n"),
        Reply::Ready,
    ];
    let (asked, end) = play("deploy", replies);
    assert!(matches!(end, End::Waiting));
    let tail = asked.len() - 3;
    assert_eq!(
        asked[tail..].to_vec(),
        vec![
            "captured docker exec deploynest-4-12 php artisan migrate --force",
            "log 12 [DATABASE] Migrations completed successfully",
            "GET http://127.0.0.1:2019/id/deploynest_project_4",
        ]
    );
}

#[test]
fn a_running_database_is_joined_to_the_network_if_possible() {
    for outcome in [captured(""), failed("docker is gone"), Reply::Watched(false)] {
        let replies = with(until_database("mysql"), vec![captured("dbid\n"), Reply::Ready, outcome]);
        let (asked, end) = play("deploy", replies);
        assert!(matches!(end, End::Waiting));
        let tail = asked.len() - 3;
        assert_eq!(
            asked[tail..].to_vec(),
            vec![
                "log 12 [DATABASE] Container 'db-4' is already running",
                "captured docker network connect deploynest-net db-4",
                "execute UPDATE project_databases SET status = $1 WHERE project_id = $2 [Text(\"running\"), Int(4)]",
            ]
        );
    }
}

#[test]
fn a_stopped_database_is_started() {
    let replies = with(
        until_database("mysql"),
        vec![captured(""), captured("dbid\n"), Reply::Ready, Reply::Watched(true), Reply::Ready],
    );
    let (asked, end) = play("deploy", replies);
    assert!(matches!(end, End::Waiting));
    let tail = asked.len() - 4;
    assert_eq!(
        asked[tail..].to_vec(),
        vec![
            "log 12 [DATABASE] Starting existing container 'db-4'...",
            "watched docker start db-4",
            "execute UPDATE project_databases SET status = $1 WHERE project_id = $2 [Text(\"running\"), Int(4)]",
            "port 3001",
        ]
    );
}

#[test]
fn a_database_that_does_not_start_fails_the_job() {
    let replies = with(
        until_database("mysql"),
        vec![captured(""), captured("dbid\n"), Reply::Ready, Reply::Watched(false)],
    );
    assert_eq!(fault_of("deploy", replies).message, "Failed to start database container db-4");
}

#[test]
fn an_unknown_engine_fails_the_job_if_its_container_is_missing() {
    let replies =
        with(until_database("oracle"), vec![captured(""), captured(""), Reply::Ready]);
    assert_eq!(fault_of("deploy", replies).message, "Unsupported database engine: oracle");
    let replies =
        with(until_database("oracle"), vec![captured("dbid"), Reply::Ready, captured("")]);
    assert!(matches!(play("deploy", replies).1, End::Waiting));
}

#[test]
fn a_deployment_is_deleted() {
    for outcome in [Reply::Watched(true), Reply::Watched(false), failed("docker is gone")] {
        let (asked, end) = play("delete", vec![context("laravel"), outcome, Reply::Ready]);
        assert!(matches!(end, End::Succeeded));
        assert_eq!(
            asked,
            vec![
                "context 12",
                "watched docker rm -f deploynest-4-12",
                "commit DELETE FROM deployment_logs WHERE deployment_id = $1 [Int(12)]; DELETE FROM deployment_jobs WHERE deployment_id = $1 [Int(12)]; DELETE FROM deployments WHERE id = $1 [Int(12)]",
            ]
        );
    }
}

#[test]
fn a_deletion_that_is_not_recorded_fails() {
    let replies = vec![context("laravel"), Reply::Watched(true), failed("connection lost")];
    assert_eq!(fault_of("delete", replies).message, "connection lost");
    assert_eq!(fault_of("delete", vec![failed("no rows")]).message, "no rows");
}

#[test]
fn an_unknown_kind_of_job_fails_at_once() {
    assert_eq!(fault_of("restart", vec![]).message, "Unknown job type: restart");
    assert_eq!(fault_of("Deploy", vec![]).message, "Unknown job type: Deploy");
    assert_eq!(fault_of("", vec![]).message, "Unknown job type: ");
}

#[test]
fn an_unknown_kind_of_application_fails_the_job() {
    let replies = with(until_clone("rails", Reply::Database(None)), vec![streamed(&[])]);
    assert_eq!(fault_of("deploy", replies).message, "Unsupported application type: rails");
}

#[test]
fn a_laravel_project_must_look_like_one() {
    let cloned = || with(until_clone("laravel", Reply::Database(None)), vec![streamed(&[])]);
    let expected = "Laravel projects must contain artisan and composer.json";
    let replies = with(cloned(), vec![Reply::Exists(false)]);
    assert_eq!(fault_of("deploy", replies).message, expected);
    let replies = with(cloned(), vec![Reply::Exists(true), Reply::Exists(false)]);
    assert_eq!(fault_of("deploy", replies).message, expected);
}

#[test]
fn a_failed_clone_fails_the_job() {
    let cloning = || until_clone("dockerfile", Reply::Database(None));
    let replies = with(cloning(), vec![exited("exit status: 128")]);
    assert_eq!(fault_of("deploy", replies).message, "git exited with exit status: 128");
    let replies = with(cloning(), vec![Reply::NotStarted(fault("not found"))]);
    let reported = fault_of("deploy", replies);
    assert_eq!(reported.message, "Failed to start git");
    assert_eq!(reported.report, "Failed to start git: not found");
}

#[test]
fn a_failed_build_fails_the_job() {
    let replies = with(
        until_clone("dockerfile", Reply::Database(None)),
        vec![streamed(&[]), Reply::Ready, exited("signal: 9 (SIGKILL)")],
    );
    assert_eq!(fault_of("deploy", replies).message, "docker exited with signal: 9 (SIGKILL)");
}

#[test]
fn the_first_free_port_is_taken() {
    let replies = with(
        until_clone("dockerfile", Reply::Database(None)),
        vec![
            streamed(&[]),
            Reply::Ready,
            streamed(&[]),
            Reply::Port(false),
            Reply::Port(false),
            Reply::Port(true),
        ],
    );
    let (asked, _) = play("deploy", replies);
    let tail = asked.len() - 4;
    assert_eq!(asked[tail..tail + 3].to_vec(), vec!["port 3001", "port 3002", "port 3003"]);
    assert!(asked[tail + 3].contains("-p 3003:3000"));
}

#[test]
fn without_a_free_port_the_job_fails() {
    let replies = with(
        until_clone("dockerfile", Reply::Database(None)),
        vec![
            streamed(&[]),
            Reply::Ready,
            streamed(&[]),
            Reply::Port(false),
            Reply::Port(false),
            Reply::Port(false),
        ],
    );
    assert_eq!(fault_of("deploy", replies).message, "No available port in range 3001-3003");
}

#[test]
fn an_empty_port_range_is_not_tried() {
    let mut settings = config();
    settings.port_start = 4001;
    settings.port_end = 4000;
    let mut progress = Run::begin(settings, job("deploy"));
    let replies = with(
        until_clone("dockerfile", Reply::Database(None)),
        vec![streamed(&[]), Reply::Ready, streamed(&[])],
    );
    for reply in replies {
        match progress {
            Progress::Pending(run, _) => progress = run.step(reply),
            _ => panic!("the job ended early"),
        }
    }
    match progress {
        Progress::Failed(fault, _) => {
            assert_eq!(fault.message, "No available port in range 4001-4000");
        }
        _ => panic!("the job goes on"),
    }
}

#[test]
fn the_last_port_of_all_can_be_taken() {
    let mut settings = config();
    settings.port_start = 65535;
    settings.port_end = 65535;
    let mut progress = Run::begin(settings, job("deploy"));
    let replies = with(
        until_clone("dockerfile", Reply::Database(None)),
        vec![streamed(&[]), Reply::Ready, streamed(&[]), Reply::Port(false)],
    );
    for reply in replies {
        match progress {
            Progress::Pending(run, _) => progress = run.step(reply),
            _ => panic!("the job ended early"),
        }
    }
    match progress {
        Progress::Failed(fault, _) => {
            assert_eq!(fault.message, "No available port in range 65535-65535");
        }
        _ => panic!("the job goes on"),
    }
}

#[test]
fn a_container_without_an_id_fails_the_job() {
    for output in [streamed(&[]), streamed(&["", " \t"])] {
        let replies = with(until_start(), vec![output]);
        assert_eq!(fault_of("deploy", replies).message, "Docker did not return a container ID");
    }
}

#[test]
fn an_unserved_container_is_discarded() {
    let cases = vec![
        (vec![failed("refused")], "Cannot reach Caddy admin API", "Cannot reach Caddy admin API: refused"),
        (
            vec![Reply::Response(500), Reply::Body("broken".to_string())],
            "Caddy rejected route lookup: broken",
            "Caddy rejected route lookup: broken",
        ),
        (vec![Reply::Response(403), failed("cut off")], "cut off", "cut off"),
        (
            vec![Reply::Response(200), failed("refused")],
            "Cannot update Caddy proxy route",
            "Cannot update Caddy proxy route: refused",
        ),
        (
            vec![Reply::Response(404), Reply::Response(404), Reply::Body("no server".to_string())],
            "Caddy rejected proxy route: no server",
            "Caddy rejected proxy route: no server",
        ),
        (
            vec![Reply::Response(200), Reply::Response(301), failed("cut off")],
            "cut off",
            "cut off",
        ),
        (vec![Reply::Ready], "Unexpected reply", "Unexpected reply"),
    ];
    for (more, message, report) in cases {
        let replies = with(with(until_lookup(), more), vec![failed("docker is gone")]);
        let (asked, end) = play("deploy", replies);
        assert_eq!(asked.last().unwrap(), "watched docker rm -f c0ffee1234");
        match end {
            End::Failed(fault, record) => {
                assert_eq!(fault.message, message);
                assert_eq!(fault.report, report);
                assert_eq!(record.len(), 3);
            }
            _ => panic!("the job did not fail"),
        }
        assert!(asked.iter().all(|effect| !effect.starts_with("commit")));
    }
}

#[test]
fn a_served_deployment_that_is_not_recorded_fails() {
    let replies = with(
        until_lookup(),
        vec![Reply::Response(200), Reply::Response(200), failed("connection lost")],
    );
    assert_eq!(fault_of("deploy", replies).message, "connection lost");
}

#[test]
fn an_old_container_that_stays_fails_the_job() {
    let replies = with(
        until_lookup(),
        vec![
            Reply::Response(200),
            Reply::Response(200),
            Reply::Ready,
            captured("old1\nold2\n"),
            Reply::Watched(false),
        ],
    );
    assert_eq!(fault_of("deploy", replies).message, "Failed to remove old container old1");
}

#[test]
fn the_new_container_is_not_removed() {
    let replies = with(
        until_lookup(),
        vec![
            Reply::Response(200),
            Reply::Response(200),
            Reply::Ready,
            captured("c0ffee\nc0ffee1234abcdef\n\n"),
            Reply::Ready,
        ],
    );
    let (asked, end) = play("deploy", replies);
    assert!(matches!(end, End::Succeeded));
    assert!(asked.iter().all(|effect| !effect.starts_with("watched")));
}

#[test]
fn a_fault_of_outside_work_fails_the_job() {
    let whole = || {
        with(
            until_lookup(),
            vec![Reply::Response(404), Reply::Response(200), Reply::Ready, captured(""), Reply::Ready],
        )
    };
    let count = whole().len();
    for at in 0..count {
        let mut replies: Vec<Reply> = whole().into_iter().take(at).collect();
        replies.push(failed("broken"));
        let (asked, end) = play("deploy", replies);
        match end {
            End::Failed(fault, _) => assert!(fault.report.ends_with("broken")),
            End::Waiting => assert_eq!(asked.last().unwrap(), "watched docker rm -f c0ffee1234"),
            End::Succeeded => panic!("the fault was passed over"),
        }
    }
}

#[test]
fn an_answer_to_another_question_fails_the_job() {
    assert_eq!(fault_of("deploy", vec![Reply::Ready]).message, "Unexpected reply");
    assert_eq!(fault_of("delete", vec![Reply::Exists(true)]).message, "Unexpected reply");
    let replies = with(
        vec![context("dockerfile"), Reply::Database(None), Reply::Exists(true)],
        vec![Reply::Exists(true)],
    );
    assert_eq!(fault_of("deploy", replies).message, "Unexpected reply");
}

#[test]
fn a_logged_command_hands_its_lines_over() {
    assert_eq!(printed("docker", streamed(&["a", "", "b"])).unwrap(), "a\n\nb\n");
    assert_eq!(printed("docker", streamed(&[])).unwrap(), "");
    let refused = printed("docker", exited("exit status: 1")).unwrap_err();
    assert_eq!(refused.message, "docker exited with exit status: 1");
    assert_eq!(printed("git", failed("gone")).unwrap_err().message, "gone");
    assert_eq!(printed("git", Reply::Ready).unwrap_err().message, "Unexpected reply");
}

#[test]
fn captured_bytes_become_text() {
    let bytes = b"\xe2\x82\xac \xff\xfe.".to_vec();
    match Reply::captured(false, &bytes, &"\u{1f600}".as_bytes().to_vec()) {
        Reply::Captured { success, stdout, stderr } => {
            assert!(!success);
            assert_eq!(stdout, "\u{20ac} \u{fffd}\u{fffd}.");
            assert_eq!(stderr, "\u{1f600}");
        }
        _ => panic!("not captured"),
    }
}

#[test]
fn context_is_put_before_a_fault() {
    let fault = fault("refused").context("no proxy").context("no route");
    assert_eq!(fault.message, "no route");
    assert_eq!(fault.report, "no route: no proxy: refused");
}

#[test]
fn every_run_ends_whatever_it_hears() {
    let kinds: Vec<fn() -> Reply> = vec![
        || Reply::Ready,
        || context("laravel"),
        || database("mysql"),
        || Reply::Exists(true),
        || streamed(&["id"]),
        || captured("a\nb\n"),
        || Reply::Watched(true),
        || Reply::Port(false),
        || Reply::Response(200),
        || Reply::Body("text".to_string()),
        || failed("broken"),
    ];
    for seed in 0..500usize {
        for kind in ["deploy", "delete"] {
            let mut progress = Run::begin(config(), job(kind));
            let mut steps = 0;
            while let Progress::Pending(run, effect) = progress {
                // Mostly the answer that was asked for, now and then another one.
                let reply = match (seed + steps * 7) % 23 {
                    0 => kinds[(seed / 23 + steps) % kinds.len()](),
                    _ => match effect {
                        Effect::FindContext(_) => context("laravel"),
                        Effect::FindDatabase(_) => database("mysql"),
                        Effect::PathExists(_) => Reply::Exists(true),
                        Effect::RunLogged(_, _) => streamed(&["id"]),
                        Effect::RunCaptured(_) => captured("a\nb\n"),
                        Effect::RunWatched(_) => Reply::Watched(true),
                        Effect::ProbePort(port) => Reply::Port((seed + port as usize) % 2 == 0),
                        Effect::Request { .. } => Reply::Response(200),
                        Effect::ReadBody => Reply::Body("text".to_string()),
                        _ => Reply::Ready,
                    },
                };
                progress = run.step(reply);
                steps += 1;
                assert!(steps < 100);
            }
        }
    }
}

/// The replies from a known state of the database to the end.
fn from_database() -> Vec<Reply> {
    vec![
        Reply::Ready,
        Reply::Port(true),
        Reply::Ready,
        streamed(&["c0ffee1234"]),
        Reply::Response(200),
        Reply::Response(200),
        Reply::Ready,
        captured("c0ffee1234\n"),
        Reply::Ready,
    ]
}

#[test]
fn an_unknown_engine_does_no_harm_to_a_database_that_exists() {
    let running = vec![captured("dbid"), Reply::Ready, failed("already joined")];
    let stopped = vec![captured(""), captured("dbid"), Reply::Ready, Reply::Watched(true)];
    for found in [running, stopped] {
        let replies = with(with(until_database("oracle"), found), from_database());
        assert!(matches!(play("deploy", replies).1, End::Succeeded));
    }
}

#[test]
fn a_new_database_container_need_not_print_its_name() {
    let created =
        vec![captured(""), captured(""), Reply::Ready, Reply::Ready, streamed(&[]), Reply::Ready];
    let replies = with(with(until_database("mysql"), created), from_database());
    assert!(matches!(play("deploy", replies).1, End::Succeeded));
}

#[test]
fn a_replacement_is_in_service_before_anything_is_removed() {
    let replies = with(
        until_lookup(),
        vec![
            Reply::Response(200),
            Reply::Response(200),
            Reply::Ready,
            captured("old1\n"),
            Reply::Watched(true),
            Reply::Ready,
        ],
    );
    let (asked, end) = play("deploy", replies);
    assert!(matches!(end, End::Succeeded));
    let at = |start: &str| asked.iter().position(|effect| effect.starts_with(start)).unwrap();
    let removed = at("watched docker rm");
    assert!(at("logged 12 docker run") < at("PATCH"));
    assert_eq!(at("PATCH") + 1, at("commit"));
    assert!(at("commit") < removed);
}
