//! The rows that the worker reads and the statements that it writes.

use vstd::prelude::*;

verus! {

// ---------------------------------------------------------------------------
// Rows
// ---------------------------------------------------------------------------

/// A job taken from the queue.
#[derive(Debug)]
pub struct DeploymentJob {
    pub id: i32,
    pub deployment_id: i32,
    pub job_type: String,
}

pub struct DeploymentJobView {
    pub id: i32,
    pub deployment_id: i32,
    pub job_type: Seq<char>,
}

impl View for DeploymentJob {
    type V = DeploymentJobView;

    open spec fn view(&self) -> DeploymentJobView {
        DeploymentJobView {
            id: self.id,
            deployment_id: self.deployment_id,
            job_type: self.job_type@,
        }
    }
}

/// The project that a deployment belongs to.
#[derive(Debug)]
pub struct DeploymentContext {
    pub project_id: i32,
    pub project_name: String,
    pub repo_url: String,
    pub branch: String,
    pub app_type: String,
}

pub struct DeploymentContextView {
    pub project_id: i32,
    pub project_name: Seq<char>,
    pub repo_url: Seq<char>,
    pub branch: Seq<char>,
    pub app_type: Seq<char>,
}

impl View for DeploymentContext {
    type V = DeploymentContextView;

    open spec fn view(&self) -> DeploymentContextView {
        DeploymentContextView {
            project_id: self.project_id,
            project_name: self.project_name@,
            repo_url: self.repo_url@,
            branch: self.branch@,
            app_type: self.app_type@,
        }
    }
}

/// The database that a project has asked for.
#[derive(Debug)]
pub struct DatabaseConfig {
    pub engine: String,
    pub db_name: String,
    pub db_user: String,
    pub db_password: String,
    pub container_name: String,
    pub internal_host: String,
    pub port: i32,
}

pub struct DatabaseConfigView {
    pub engine: Seq<char>,
    pub db_name: Seq<char>,
    pub db_user: Seq<char>,
    pub db_password: Seq<char>,
    pub container_name: Seq<char>,
    pub internal_host: Seq<char>,
    pub port: i32,
}

impl View for DatabaseConfig {
    type V = DatabaseConfigView;

    open spec fn view(&self) -> DatabaseConfigView {
        DatabaseConfigView {
            engine: self.engine@,
            db_name: self.db_name@,
            db_user: self.db_user@,
            db_password: self.db_password@,
            container_name: self.container_name@,
            internal_host: self.internal_host@,
            port: self.port,
        }
    }
}

// ---------------------------------------------------------------------------
// Queries
// ---------------------------------------------------------------------------

/// Takes the oldest pending job, past any that another worker holds, and marks it as
/// running.
pub const CLAIM_JOB: &'static str =
    "WITH next_job AS (SELECT id, job_type FROM deployment_jobs WHERE status = 'pending' ORDER BY id ASC FOR UPDATE SKIP LOCKED LIMIT 1) UPDATE deployment_jobs AS jobs SET status = 'running', started_at = NOW(), updated_at = NOW() FROM next_job WHERE jobs.id = next_job.id RETURNING jobs.id, jobs.deployment_id, next_job.job_type";

/// Finds the project of the deployment `$1`.
pub const FIND_CONTEXT: &'static str =
    "SELECT p.id AS project_id, p.name AS project_name, p.repo_url, p.branch, p.app_type FROM deployments d JOIN projects p ON p.id = d.project_id WHERE d.id = $1";

/// Finds the database of the project `$1`.
pub const FIND_DATABASE: &'static str =
    "SELECT engine, db_name, db_user, db_password, container_name, internal_host, port FROM project_databases WHERE project_id = $1";

// ---------------------------------------------------------------------------
// Statements
// ---------------------------------------------------------------------------

pub const INSERT_LOG: &'static str =
    "INSERT INTO deployment_logs (deployment_id, message) VALUES ($1, $2)";

pub const DEPLOYMENT_RUNNING: &'static str = "UPDATE deployments SET status = 'running' WHERE id = $1";

pub const JOB_COMPLETED: &'static str =
    "UPDATE deployment_jobs SET status = 'completed', completed_at = NOW(), updated_at = NOW() WHERE id = $1";

pub const DEPLOYMENT_SUCCEEDED: &'static str =
    "UPDATE deployments SET status = 'success', container_id = $2, port = $3, domain = $4 WHERE id = $1";

pub const JOB_FAILED: &'static str =
    "UPDATE deployment_jobs SET status = 'failed', completed_at = NOW(), updated_at = NOW() WHERE id = $1";

pub const DEPLOYMENT_FAILED: &'static str = "UPDATE deployments SET status = 'failed' WHERE id = $1";

pub const DELETE_LOGS: &'static str = "DELETE FROM deployment_logs WHERE deployment_id = $1";

pub const DELETE_JOBS: &'static str = "DELETE FROM deployment_jobs WHERE deployment_id = $1";

pub const DELETE_DEPLOYMENT: &'static str = "DELETE FROM deployments WHERE id = $1";

pub const DATABASE_STATUS: &'static str =
    "UPDATE project_databases SET status = $1 WHERE project_id = $2";

/// A change to the rows.
#[derive(Debug)]
pub enum Statement {
    InsertLog { deployment_id: i32, message: String },
    DeploymentRunning { deployment_id: i32 },
    JobCompleted { job_id: i32 },
    DeploymentSucceeded { deployment_id: i32, container_id: String, port: i32, domain: String },
    JobFailed { job_id: i32 },
    DeploymentFailed { deployment_id: i32 },
    DeleteLogs { deployment_id: i32 },
    DeleteJobs { deployment_id: i32 },
    DeleteDeployment { deployment_id: i32 },
    DatabaseStatus { project_id: i32, status: String },
}

pub enum StatementView {
    InsertLog { deployment_id: i32, message: Seq<char> },
    DeploymentRunning { deployment_id: i32 },
    JobCompleted { job_id: i32 },
    DeploymentSucceeded {
        deployment_id: i32,
        container_id: Seq<char>,
        port: i32,
        domain: Seq<char>,
    },
    JobFailed { job_id: i32 },
    DeploymentFailed { deployment_id: i32 },
    DeleteLogs { deployment_id: i32 },
    DeleteJobs { deployment_id: i32 },
    DeleteDeployment { deployment_id: i32 },
    DatabaseStatus { project_id: i32, status: Seq<char> },
}

impl View for Statement {
    type V = StatementView;

    open spec fn view(&self) -> StatementView {
        match self {
            Statement::InsertLog { deployment_id, message } => StatementView::InsertLog {
                deployment_id: *deployment_id,
                message: message@,
            },
            Statement::DeploymentRunning { deployment_id } => StatementView::DeploymentRunning {
                deployment_id: *deployment_id,
            },
            Statement::JobCompleted { job_id } => StatementView::JobCompleted { job_id: *job_id },
            Statement::DeploymentSucceeded { deployment_id, container_id, port, domain } =>
                StatementView::DeploymentSucceeded {
                deployment_id: *deployment_id,
                container_id: container_id@,
                port: *port,
                domain: domain@,
            },
            Statement::JobFailed { job_id } => StatementView::JobFailed { job_id: *job_id },
            Statement::DeploymentFailed { deployment_id } => StatementView::DeploymentFailed {
                deployment_id: *deployment_id,
            },
            Statement::DeleteLogs { deployment_id } => StatementView::DeleteLogs {
                deployment_id: *deployment_id,
            },
            Statement::DeleteJobs { deployment_id } => StatementView::DeleteJobs {
                deployment_id: *deployment_id,
            },
            Statement::DeleteDeployment { deployment_id } => StatementView::DeleteDeployment {
                deployment_id: *deployment_id,
            },
            Statement::DatabaseStatus { project_id, status } => StatementView::DatabaseStatus {
                project_id: *project_id,
                status: status@,
            },
        }
    }
}

/// What a list of statements says.
pub open spec fn statements(list: Seq<Statement>) -> Seq<StatementView> {
    list.map_values(|s: Statement| s@)
}

/// A value bound to a place of a statement.
#[derive(Debug)]
pub enum Param {
    Int(i32),
    Text(String),
}

pub enum ParamView {
    Int(i32),
    Text(Seq<char>),
}

impl View for Param {
    type V = ParamView;

    open spec fn view(&self) -> ParamView {
        match self {
            Param::Int(n) => ParamView::Int(*n),
            Param::Text(t) => ParamView::Text(t@),
        }
    }
}

pub open spec fn params_of(list: Seq<Param>) -> Seq<ParamView> {
    list.map_values(|p: Param| p@)
}

impl StatementView {
    /// The statement in SQL.
    pub open spec fn sql(self) -> Seq<char> {
        match self {
            StatementView::InsertLog { .. } => INSERT_LOG@,
            StatementView::DeploymentRunning { .. } => DEPLOYMENT_RUNNING@,
            StatementView::JobCompleted { .. } => JOB_COMPLETED@,
            StatementView::DeploymentSucceeded { .. } => DEPLOYMENT_SUCCEEDED@,
            StatementView::JobFailed { .. } => JOB_FAILED@,
            StatementView::DeploymentFailed { .. } => DEPLOYMENT_FAILED@,
            StatementView::DeleteLogs { .. } => DELETE_LOGS@,
            StatementView::DeleteJobs { .. } => DELETE_JOBS@,
            StatementView::DeleteDeployment { .. } => DELETE_DEPLOYMENT@,
            StatementView::DatabaseStatus { .. } => DATABASE_STATUS@,
        }
    }

    /// The values of its places, from `$1` on.
    pub open spec fn params(self) -> Seq<ParamView> {
        match self {
            StatementView::InsertLog { deployment_id, message } => seq![
                ParamView::Int(deployment_id),
                ParamView::Text(message),
            ],
            StatementView::DeploymentRunning { deployment_id } => seq![
                ParamView::Int(deployment_id),
            ],
            StatementView::JobCompleted { job_id } => seq![ParamView::Int(job_id)],
            StatementView::DeploymentSucceeded { deployment_id, container_id, port, domain } =>
                seq![
                ParamView::Int(deployment_id),
                ParamView::Text(container_id),
                ParamView::Int(port),
                ParamView::Text(domain),
            ],
            StatementView::JobFailed { job_id } => seq![ParamView::Int(job_id)],
            StatementView::DeploymentFailed { deployment_id } => seq![
                ParamView::Int(deployment_id),
            ],
            StatementView::DeleteLogs { deployment_id } => seq![ParamView::Int(deployment_id)],
            StatementView::DeleteJobs { deployment_id } => seq![ParamView::Int(deployment_id)],
            StatementView::DeleteDeployment { deployment_id } => seq![
                ParamView::Int(deployment_id),
            ],
            StatementView::DatabaseStatus { project_id, status } => seq![
                ParamView::Text(status),
                ParamView::Int(project_id),
            ],
        }
    }
}

impl Statement {
    /// The statement in SQL.
    pub fn sql(&self) -> (text: &'static str)
        ensures
            text@ == self@.sql(),
    {
        match self {
            Statement::InsertLog { .. } => INSERT_LOG,
            Statement::DeploymentRunning { .. } => DEPLOYMENT_RUNNING,
            Statement::JobCompleted { .. } => JOB_COMPLETED,
            Statement::DeploymentSucceeded { .. } => DEPLOYMENT_SUCCEEDED,
            Statement::JobFailed { .. } => JOB_FAILED,
            Statement::DeploymentFailed { .. } => DEPLOYMENT_FAILED,
            Statement::DeleteLogs { .. } => DELETE_LOGS,
            Statement::DeleteJobs { .. } => DELETE_JOBS,
            Statement::DeleteDeployment { .. } => DELETE_DEPLOYMENT,
            Statement::DatabaseStatus { .. } => DATABASE_STATUS,
        }
    }

    /// The values of its places, from `$1` on.
    pub fn params(&self) -> (list: Vec<Param>)
        ensures
            params_of(list@) == self@.params(),
    {
        let mut list: Vec<Param> = Vec::new();
        match self {
            Statement::InsertLog { deployment_id, message } => {
                list.push(Param::Int(*deployment_id));
                list.push(Param::Text(message.clone()));
            },
            Statement::DeploymentSucceeded { deployment_id, container_id, port, domain } => {
                list.push(Param::Int(*deployment_id));
                list.push(Param::Text(container_id.clone()));
                list.push(Param::Int(*port));
                list.push(Param::Text(domain.clone()));
            },
            Statement::DatabaseStatus { project_id, status } => {
                list.push(Param::Text(status.clone()));
                list.push(Param::Int(*project_id));
            },
            Statement::JobCompleted { job_id } | Statement::JobFailed { job_id } => {
                list.push(Param::Int(*job_id));
            },
            Statement::DeploymentRunning { deployment_id }
            | Statement::DeploymentFailed { deployment_id }
            | Statement::DeleteLogs { deployment_id }
            | Statement::DeleteJobs { deployment_id }
            | Statement::DeleteDeployment { deployment_id } => {
                list.push(Param::Int(*deployment_id));
            },
        }
        assert(params_of(list@) =~= self@.params());
        list
    }
}

// ---------------------------------------------------------------------------
// Records: the statements of one transaction
// ---------------------------------------------------------------------------

pub open spec fn log_entry(deployment_id: i32, message: Seq<char>) -> StatementView {
    StatementView::InsertLog { deployment_id, message }
}

pub open spec fn claim_record(job: DeploymentJobView) -> Seq<StatementView> {
    seq![
        StatementView::DeploymentRunning { deployment_id: job.deployment_id },
        log_entry(job.deployment_id, "[WORKER] Deployment started"@),
    ]
}

pub open spec fn completion_record(
    job: DeploymentJobView,
    container_id: Seq<char>,
    port: u16,
    domain: Seq<char>,
) -> Seq<StatementView> {
    seq![
        StatementView::JobCompleted { job_id: job.id },
        StatementView::DeploymentSucceeded {
            deployment_id: job.deployment_id,
            container_id,
            port: port as i32,
            domain,
        },
        log_entry(job.deployment_id, "[DONE] Deployment available at "@ + domain),
    ]
}

pub open spec fn failure_record(job: DeploymentJobView, message: Seq<char>) -> Seq<StatementView> {
    seq![
        StatementView::JobFailed { job_id: job.id },
        StatementView::DeploymentFailed { deployment_id: job.deployment_id },
        log_entry(job.deployment_id, "[ERROR] "@ + message),
    ]
}

pub open spec fn deletion_record(deployment_id: i32) -> Seq<StatementView> {
    seq![
        StatementView::DeleteLogs { deployment_id },
        StatementView::DeleteJobs { deployment_id },
        StatementView::DeleteDeployment { deployment_id },
    ]
}

/// Adds a line to the log of a deployment.
pub fn insert_log(deployment_id: i32, message: &str) -> (statement: Statement)
    ensures
        statement@ == log_entry(deployment_id, message@),
{
    Statement::InsertLog { deployment_id, message: message.to_owned() }
}

/// Sets the status of the database of a project.
pub fn update_database_status(project_id: i32, status: &str) -> (statement: Statement)
    ensures
        statement@ == (StatementView::DatabaseStatus { project_id, status: status@ }),
{
    Statement::DatabaseStatus { project_id, status: status.to_owned() }
}

/// How the transaction that looks for a job goes on.
#[derive(Debug)]
pub enum Claim {
    /// There is no job: roll back.
    Rollback,
    /// There is one: run the statements, commit, and work on it.
    Commit(DeploymentJob, Vec<Statement>),
}

/// Goes on after [`CLAIM_JOB`], given the row that it returned.
pub fn claim_pending_job(row: Option<DeploymentJob>) -> (claim: Claim)
    ensures
        match (row, claim) {
            (None, Claim::Rollback) => true,
            (Some(job), Claim::Commit(claimed, record)) => claimed == job && statements(record@)
                == claim_record(job@),
            _ => false,
        },
{
    match row {
        None => Claim::Rollback,
        Some(job) => {
            let mut record: Vec<Statement> = Vec::new();
            record.push(Statement::DeploymentRunning { deployment_id: job.deployment_id });
            record.push(insert_log(job.deployment_id, "[WORKER] Deployment started"));
            assert(statements(record@) =~= claim_record(job@));
            Claim::Commit(job, record)
        },
    }
}

/// Records that a deployment is up.
pub fn complete_job(
    job: &DeploymentJob,
    container_id: &str,
    port: u16,
    domain: &str,
) -> (record: Vec<Statement>)
    ensures
        statements(record@) == completion_record(job@, container_id@, port, domain@),
{
    let mut record: Vec<Statement> = Vec::new();
    record.push(Statement::JobCompleted { job_id: job.id });
    record.push(
        Statement::DeploymentSucceeded {
            deployment_id: job.deployment_id,
            container_id: container_id.to_owned(),
            port: port as i32,
            domain: domain.to_owned(),
        },
    );
    let message = "[DONE] Deployment available at ".to_owned().concat(domain);
    record.push(insert_log(job.deployment_id, message.as_str()));
    assert(statements(record@) =~= completion_record(job@, container_id@, port, domain@));
    record
}

/// Records that a job failed.
pub fn mark_job_failed(job: &DeploymentJob, message: &str) -> (record: Vec<Statement>)
    ensures
        statements(record@) == failure_record(job@, message@),
{
    let mut record: Vec<Statement> = Vec::new();
    record.push(Statement::JobFailed { job_id: job.id });
    record.push(Statement::DeploymentFailed { deployment_id: job.deployment_id });
    let line = "[ERROR] ".to_owned().concat(message);
    record.push(insert_log(job.deployment_id, line.as_str()));
    assert(statements(record@) =~= failure_record(job@, message@));
    record
}

/// Removes every row of a deployment.
pub fn delete_deployment(deployment_id: i32) -> (record: Vec<Statement>)
    ensures
        statements(record@) == deletion_record(deployment_id),
{
    let mut record: Vec<Statement> = Vec::new();
    record.push(Statement::DeleteLogs { deployment_id });
    record.push(Statement::DeleteJobs { deployment_id });
    record.push(Statement::DeleteDeployment { deployment_id });
    assert(statements(record@) =~= deletion_record(deployment_id));
    record
}

// ---------------------------------------------------------------------------
// What the records do to the rows
// ---------------------------------------------------------------------------

/// A job in the queue. Its times are set as it is claimed and as it ends.
pub struct JobRow {
    pub deployment_id: i32,
    pub job_type: Seq<char>,
    pub status: Seq<char>,
    pub started_at: Option<int>,
    pub updated_at: Option<int>,
    pub completed_at: Option<int>,
}

impl JobRow {
    /// The row of a job that is claimed at a time.
    pub open spec fn claimed_at(self, now: int) -> JobRow {
        JobRow { status: "running"@, started_at: Some(now), updated_at: Some(now), ..self }
    }

    /// The row of a job that ends at a time.
    pub open spec fn ended_at(self, now: int, status: Seq<char>) -> JobRow {
        JobRow { status, updated_at: Some(now), completed_at: Some(now), ..self }
    }
}

/// A deployment. The last three are set once it is up.
pub struct DeploymentRow {
    pub status: Seq<char>,
    pub container_id: Option<Seq<char>>,
    pub port: Option<i32>,
    pub domain: Option<Seq<char>>,
}

/// A table with a row replaced. Where there is no such row, nothing changes.
pub open spec fn updated<R>(table: Map<i32, R>, id: i32, row: R) -> Map<i32, R> {
    if table.contains_key(id) {
        table.insert(id, row)
    } else {
        table
    }
}

/// The rows that statements change, by their keys; the log in order of entry.
#[verifier::ext_equal]
pub struct Rows {
    pub jobs: Map<i32, JobRow>,
    pub deployments: Map<i32, DeploymentRow>,
    pub logs: Seq<(i32, Seq<char>)>,
    pub databases: Map<i32, Seq<char>>,
}

impl Rows {
    /// A job waits in the queue, and no other worker holds its row.
    pub open spec fn is_open(self, held: Set<i32>, job_id: i32) -> bool {
        self.jobs.contains_key(job_id) && self.jobs[job_id].status == "pending"@ && !held.contains(
            job_id,
        )
    }

    /// The open job that comes before all others.
    pub open spec fn is_next(self, held: Set<i32>, job_id: i32) -> bool {
        self.is_open(held, job_id) && forall|other: i32| #[trigger]
            self.is_open(held, other) ==> job_id <= other
    }

    /// The row that [`CLAIM_JOB`] returns while other workers hold some rows: that of the
    /// next open job, if there is one.
    pub open spec fn claimed(self, held: Set<i32>) -> Option<DeploymentJobView> {
        if exists|job_id: i32| self.is_next(held, job_id) {
            let id = choose|job_id: i32| self.is_next(held, job_id);
            let row = self.jobs[id];
            Some(
                DeploymentJobView { id, deployment_id: row.deployment_id, job_type: row.job_type },
            )
        } else {
            None
        }
    }

    /// The rows after [`CLAIM_JOB`] and all that follows it in its transaction. Without a
    /// job nothing has changed, and nothing is left of the transaction.
    pub open spec fn after_claim(self, now: int, held: Set<i32>) -> Rows {
        match self.claimed(held) {
            Some(job) => (Rows {
                jobs: self.jobs.insert(job.id, self.jobs[job.id].claimed_at(now)),
                ..self
            }).after_all(now, claim_record(job)),
            None => self,
        }
    }

    /// The rows after one statement of a transaction that began at the time `now`.
    pub open spec fn after(self, now: int, statement: StatementView) -> Rows {
        match statement {
            StatementView::InsertLog { deployment_id, message } => Rows {
                logs: self.logs.push((deployment_id, message)),
                ..self
            },
            StatementView::DeploymentRunning { deployment_id: id } => Rows {
                deployments: updated(
                    self.deployments,
                    id,
                    DeploymentRow { status: "running"@, ..self.deployments[id] },
                ),
                ..self
            },
            StatementView::JobCompleted { job_id: id } => Rows {
                jobs: updated(self.jobs, id, self.jobs[id].ended_at(now, "completed"@)),
                ..self
            },
            StatementView::DeploymentSucceeded { deployment_id: id, container_id, port, domain } =>
                Rows {
                deployments: updated(
                    self.deployments,
                    id,
                    DeploymentRow {
                        status: "success"@,
                        container_id: Some(container_id),
                        port: Some(port),
                        domain: Some(domain),
                    },
                ),
                ..self
            },
            StatementView::JobFailed { job_id: id } => Rows {
                jobs: updated(self.jobs, id, self.jobs[id].ended_at(now, "failed"@)),
                ..self
            },
            StatementView::DeploymentFailed { deployment_id: id } => Rows {
                deployments: updated(
                    self.deployments,
                    id,
                    DeploymentRow { status: "failed"@, ..self.deployments[id] },
                ),
                ..self
            },
            StatementView::DeleteLogs { deployment_id } => Rows {
                logs: self.logs.filter(|entry: (i32, Seq<char>)| entry.0 != deployment_id),
                ..self
            },
            StatementView::DeleteJobs { deployment_id } => Rows {
                jobs: self.jobs.remove_keys(
                    self.jobs.dom().filter(
                        |id: i32| self.jobs[id].deployment_id == deployment_id,
                    ),
                ),
                ..self
            },
            StatementView::DeleteDeployment { deployment_id } => Rows {
                deployments: self.deployments.remove(deployment_id),
                ..self
            },
            StatementView::DatabaseStatus { project_id, status } => Rows {
                databases: updated(self.databases, project_id, status),
                ..self
            },
        }
    }

    /// The rows after a transaction of these statements that began at the time `now`.
    pub open spec fn after_all(self, now: int, record: Seq<StatementView>) -> Rows
        decreases record.len(),
    {
        if record.len() == 0 {
            self
        } else {
            self.after_all(now, record.drop_last()).after(now, record.last())
        }
    }
}

proof fn lemma_two(rows: Rows, now: int, a: StatementView, b: StatementView)
    ensures
        rows.after_all(now, seq![a, b]) == rows.after(now, a).after(now, b),
{
    reveal_with_fuel(Rows::after_all, 3);
    assert(seq![a, b].drop_last() =~= seq![a]);
    assert(seq![a].drop_last() =~= seq![]);
}

proof fn lemma_three(rows: Rows, now: int, a: StatementView, b: StatementView, c: StatementView)
    ensures
        rows.after_all(now, seq![a, b, c]) == rows.after(now, a).after(now, b).after(now, c),
{
    lemma_two(rows, now, a, b);
    assert(seq![a, b, c].drop_last() =~= seq![a, b]);
}

proof fn lemma_some_job_is_next(rows: Rows, held: Set<i32>, job_id: i32)
    requires
        rows.is_open(held, job_id),
    ensures
        exists|id: i32| rows.is_next(held, id),
    decreases job_id - i32::MIN,
{
    if !rows.is_next(held, job_id) {
        let other = choose|other: i32| #[trigger] rows.is_open(held, other) && other < job_id;
        lemma_some_job_is_next(rows, held, other);
    }
}

/// A claim takes the first open job wherever there is an open one, and takes it once: it
/// marks that job as running, started and updated at the time of the claim, marks its
/// deployment, if it has a row, as running, and adds one line to the log. No other row
/// changes. Without an open job it changes nothing.
pub proof fn law_claim_marks_running(rows: Rows, now: int, held: Set<i32>)
    ensures
        rows.claimed(held) is None <==> forall|id: i32| !#[trigger] rows.is_open(held, id),
        match rows.claimed(held) {
            None => rows.after_claim(now, held) == rows,
            Some(job) => {
                let id = job.deployment_id;
                let after = rows.after_claim(now, held);
                &&& rows.is_next(held, job.id)
                &&& job.deployment_id == rows.jobs[job.id].deployment_id
                &&& job.job_type == rows.jobs[job.id].job_type
                &&& after.jobs == rows.jobs.insert(job.id, rows.jobs[job.id].claimed_at(now))
                &&& after.deployments == updated(
                    rows.deployments,
                    id,
                    DeploymentRow { status: "running"@, ..rows.deployments[id] },
                )
                &&& after.databases == rows.databases
                &&& after.logs == rows.logs.push((id, "[WORKER] Deployment started"@))
                &&& forall|other: Set<i32>| !after.is_open(other, job.id)
            },
        },
{
    assert forall|id: i32| #[trigger] rows.is_open(held, id) implies rows.claimed(held) is Some by {
        lemma_some_job_is_next(rows, held, id);
    }
    if let Some(job) = rows.claimed(held) {
        assert(rows.is_next(held, job.id));
        let record = claim_record(job);
        let taken = Rows {
            jobs: rows.jobs.insert(job.id, rows.jobs[job.id].claimed_at(now)),
            ..rows
        };
        lemma_two(taken, now, record[0], record[1]);
        reveal_strlit("running");
        reveal_strlit("pending");
        assert("running"@[0] != "pending"@[0]);
    }
}

/// Completing a job marks it as completed, at the time of the record, and its deployment as
/// successful, with the container, port and address it is up at. A row that is missing
/// stays missing, the log gets its line all the same, and no other row changes.
pub proof fn law_completion_marks_success(
    rows: Rows,
    now: int,
    job: DeploymentJobView,
    container_id: Seq<char>,
    port: u16,
    domain: Seq<char>,
)
    ensures
        ({
            let id = job.deployment_id;
            let after = rows.after_all(now, completion_record(job, container_id, port, domain));
            &&& after.jobs == updated(
                rows.jobs,
                job.id,
                rows.jobs[job.id].ended_at(now, "completed"@),
            )
            &&& after.deployments == updated(
                rows.deployments,
                id,
                DeploymentRow {
                    status: "success"@,
                    container_id: Some(container_id),
                    port: Some(port as i32),
                    domain: Some(domain),
                },
            )
            &&& after.databases == rows.databases
            &&& after.logs == rows.logs.push((id, "[DONE] Deployment available at "@ + domain))
        }),
{
    let record = completion_record(job, container_id, port, domain);
    lemma_three(rows, now, record[0], record[1], record[2]);
}

/// Failing a job marks it as failed, at the time of the record, and its deployment as
/// failed, and leaves everything else of the deployment as it was. A row that is missing
/// stays missing, the log gets its line all the same, and no other row changes.
pub proof fn law_failure_marks_failed(
    rows: Rows,
    now: int,
    job: DeploymentJobView,
    message: Seq<char>,
)
    ensures
        ({
            let id = job.deployment_id;
            let after = rows.after_all(now, failure_record(job, message));
            &&& after.jobs == updated(
                rows.jobs,
                job.id,
                rows.jobs[job.id].ended_at(now, "failed"@),
            )
            &&& after.deployments == updated(
                rows.deployments,
                id,
                DeploymentRow { status: "failed"@, ..rows.deployments[id] },
            )
            &&& after.databases == rows.databases
            &&& after.logs == rows.logs.push((id, "[ERROR] "@ + message))
        }),
{
    let record = failure_record(job, message);
    lemma_three(rows, now, record[0], record[1], record[2]);
}

/// Deleting a deployment leaves no row of it: no log line, no job, not itself. What
/// belongs to other deployments stays.
pub proof fn law_deletion_leaves_nothing(rows: Rows, now: int, deployment_id: i32)
    ensures
        ({
            let after = rows.after_all(now, deletion_record(deployment_id));
            &&& after.deployments == rows.deployments.remove(deployment_id)
            &&& after.databases == rows.databases
            &&& after.logs == rows.logs.filter(
                |entry: (i32, Seq<char>)| entry.0 != deployment_id,
            )
            &&& forall|i: int|
                0 <= i < after.logs.len() ==> (#[trigger] after.logs[i]).0 != deployment_id
            &&& forall|id: i32| #[trigger]
                after.jobs.contains_key(id) <==> rows.jobs.contains_key(id)
                    && rows.jobs[id].deployment_id != deployment_id
            &&& forall|id: i32| #[trigger]
                after.jobs.contains_key(id) ==> after.jobs[id] == rows.jobs[id]
        }),
{
    let record = deletion_record(deployment_id);
    lemma_three(rows, now, record[0], record[1], record[2]);
    let after = rows.after_all(now, record);
    assert forall|i: int| 0 <= i < after.logs.len() implies (#[trigger] after.logs[i]).0
        != deployment_id by {
        rows.logs.lemma_filter_pred(|entry: (i32, Seq<char>)| entry.0 != deployment_id, i);
    }
}

/// What a statement is sent as tells the statement: by its SQL which one it is, and by the bound
/// values whom it is about and what it says.
pub proof fn law_statements_are_told_apart(a: StatementView, b: StatementView)
    requires
        a.sql() == b.sql(),
        a.params() == b.params(),
    ensures
        a == b,
{
    reveal_strlit("INSERT INTO deployment_logs (deployment_id, message) VALUES ($1, $2)");
    reveal_strlit("UPDATE deployments SET status = 'running' WHERE id = $1");
    reveal_strlit(
        "UPDATE deployment_jobs SET status = 'completed', completed_at = NOW(), updated_at = NOW() WHERE id = $1",
    );
    reveal_strlit(
        "UPDATE deployments SET status = 'success', container_id = $2, port = $3, domain = $4 WHERE id = $1",
    );
    reveal_strlit(
        "UPDATE deployment_jobs SET status = 'failed', completed_at = NOW(), updated_at = NOW() WHERE id = $1",
    );
    reveal_strlit("UPDATE deployments SET status = 'failed' WHERE id = $1");
    reveal_strlit("DELETE FROM deployment_logs WHERE deployment_id = $1");
    reveal_strlit("DELETE FROM deployment_jobs WHERE deployment_id = $1");
    reveal_strlit("DELETE FROM deployments WHERE id = $1");
    reveal_strlit("UPDATE project_databases SET status = $1 WHERE project_id = $2");
    assert(INSERT_LOG@.len() == 68 && DEPLOYMENT_RUNNING@.len() == 55);
    assert(JOB_COMPLETED@.len() == 103 && DEPLOYMENT_SUCCEEDED@.len() == 98);
    assert(JOB_FAILED@.len() == 100 && DEPLOYMENT_FAILED@.len() == 54);
    assert(DELETE_LOGS@.len() == 52 && DELETE_JOBS@.len() == 52);
    assert(DELETE_DEPLOYMENT@.len() == 37 && DATABASE_STATUS@.len() == 62);
    assert(DELETE_LOGS@[23] == 'l');
    assert(DELETE_JOBS@[23] == 'j');
    let (x, y) = (a.params(), b.params());
    assert(x[0] == y[0]);
    if x.len() > 1 {
        assert(x[1] == y[1]);
    }
    if x.len() > 2 {
        assert(x[2] == y[2] && x[3] == y[3]);
    }
}

/// The first value of a statement is the key of the row that it is about, but for the status of
/// a database, where the key comes last. Texts are bound, never written into the SQL.
pub proof fn law_statements_bind_their_values(id: i32, key: i32, text: Seq<char>, text2: Seq<char>)
    ensures
        (StatementView::InsertLog { deployment_id: id, message: text }).params() == seq![
            ParamView::Int(id),
            ParamView::Text(text),
        ],
        (StatementView::DeploymentSucceeded {
            deployment_id: id,
            container_id: text,
            port: key,
            domain: text2,
        }).params() == seq![
            ParamView::Int(id),
            ParamView::Text(text),
            ParamView::Int(key),
            ParamView::Text(text2),
        ],
        (StatementView::DatabaseStatus { project_id: id, status: text }).params() == seq![
            ParamView::Text(text),
            ParamView::Int(id),
        ],
        (StatementView::DeploymentRunning { deployment_id: id }).params() == seq![
            ParamView::Int(id),
        ],
        (StatementView::DeploymentFailed { deployment_id: id }).params() == seq![
            ParamView::Int(id),
        ],
        (StatementView::JobCompleted { job_id: id }).params() == seq![ParamView::Int(id)],
        (StatementView::JobFailed { job_id: id }).params() == seq![ParamView::Int(id)],
        (StatementView::DeleteLogs { deployment_id: id }).params() == seq![ParamView::Int(id)],
        (StatementView::DeleteJobs { deployment_id: id }).params() == seq![ParamView::Int(id)],
        (StatementView::DeleteDeployment { deployment_id: id }).params() == seq![
            ParamView::Int(id),
        ],
{
}

/// Setting the status of a database changes the row of that project, if there is one, and no
/// other row.
pub proof fn law_status_is_set(rows: Rows, now: int, project_id: i32, status: Seq<char>)
    ensures
        ({
            let after = rows.after(now, StatementView::DatabaseStatus { project_id, status });
            &&& after.databases == if rows.databases.contains_key(project_id) {
                rows.databases.insert(project_id, status)
            } else {
                rows.databases
            }
            &&& after.jobs == rows.jobs
            &&& after.deployments == rows.deployments
            &&& after.logs == rows.logs
        }),
{
}

/// Somewhere in a text stands this clause.
pub open spec fn reads(text: Seq<char>, clause: Seq<char>) -> bool {
    exists|i: int|
        0 <= i && i + clause.len() <= text.len() && #[trigger] text.subrange(i, i + clause.len())
            == clause
}

/// A claim takes the pending job of the smallest number, past those that others hold, marks it as
/// running, started and updated now, and returns what a job is made of.
pub proof fn law_claim_takes_the_oldest_pending_job()
    ensures
        reads(
            CLAIM_JOB@,
            "SELECT id, job_type FROM deployment_jobs WHERE status = 'pending' ORDER BY id ASC FOR UPDATE SKIP LOCKED LIMIT 1"@,
        ),
        reads(
            CLAIM_JOB@,
            "UPDATE deployment_jobs AS jobs SET status = 'running', started_at = NOW(), updated_at = NOW() FROM next_job WHERE jobs.id = next_job.id"@,
        ),
        reads(
            CLAIM_JOB@,
            "RETURNING jobs.id, jobs.deployment_id, next_job.job_type"@,
        ),
{
    reveal_strlit(
        "WITH next_job AS (SELECT id, job_type FROM deployment_jobs WHERE status = 'pending' ORDER BY id ASC FOR UPDATE SKIP LOCKED LIMIT 1) UPDATE deployment_jobs AS jobs SET status = 'running', started_at = NOW(), updated_at = NOW() FROM next_job WHERE jobs.id = next_job.id RETURNING jobs.id, jobs.deployment_id, next_job.job_type",
    );
    reveal_strlit("SELECT id, job_type FROM deployment_jobs WHERE status = 'pending' ORDER BY id ASC FOR UPDATE SKIP LOCKED LIMIT 1");
    let clause0 = "SELECT id, job_type FROM deployment_jobs WHERE status = 'pending' ORDER BY id ASC FOR UPDATE SKIP LOCKED LIMIT 1"@;
    assert(CLAIM_JOB@.subrange(18, 18int + clause0.len()) =~= clause0);
    reveal_strlit("UPDATE deployment_jobs AS jobs SET status = 'running', started_at = NOW(), updated_at = NOW() FROM next_job WHERE jobs.id = next_job.id");
    let clause1 = "UPDATE deployment_jobs AS jobs SET status = 'running', started_at = NOW(), updated_at = NOW() FROM next_job WHERE jobs.id = next_job.id"@;
    assert(CLAIM_JOB@.subrange(132, 132int + clause1.len()) =~= clause1);
    reveal_strlit("RETURNING jobs.id, jobs.deployment_id, next_job.job_type");
    let clause2 = "RETURNING jobs.id, jobs.deployment_id, next_job.job_type"@;
    assert(CLAIM_JOB@.subrange(268, 268int + clause2.len()) =~= clause2);
}

/// The project that is found is the one that the deployment of the bound number belongs to.
pub proof fn law_context_is_that_of_the_deployment()
    ensures
        reads(
            FIND_CONTEXT@,
            "SELECT p.id AS project_id, p.name AS project_name, p.repo_url, p.branch, p.app_type"@,
        ),
        reads(
            FIND_CONTEXT@,
            "FROM deployments d JOIN projects p ON p.id = d.project_id WHERE d.id = $1"@,
        ),
{
    reveal_strlit(
        "SELECT p.id AS project_id, p.name AS project_name, p.repo_url, p.branch, p.app_type FROM deployments d JOIN projects p ON p.id = d.project_id WHERE d.id = $1",
    );
    reveal_strlit("SELECT p.id AS project_id, p.name AS project_name, p.repo_url, p.branch, p.app_type");
    let clause0 = "SELECT p.id AS project_id, p.name AS project_name, p.repo_url, p.branch, p.app_type"@;
    assert(FIND_CONTEXT@.subrange(0, 0int + clause0.len()) =~= clause0);
    reveal_strlit("FROM deployments d JOIN projects p ON p.id = d.project_id WHERE d.id = $1");
    let clause1 = "FROM deployments d JOIN projects p ON p.id = d.project_id WHERE d.id = $1"@;
    assert(FIND_CONTEXT@.subrange(84, 84int + clause1.len()) =~= clause1);
}

/// The database that is found is the one of the project of the bound number.
pub proof fn law_database_is_that_of_the_project()
    ensures
        reads(
            FIND_DATABASE@,
            "SELECT engine, db_name, db_user, db_password, container_name, internal_host, port"@,
        ),
        reads(
            FIND_DATABASE@,
            "FROM project_databases WHERE project_id = $1"@,
        ),
{
    reveal_strlit(
        "SELECT engine, db_name, db_user, db_password, container_name, internal_host, port FROM project_databases WHERE project_id = $1",
    );
    reveal_strlit("SELECT engine, db_name, db_user, db_password, container_name, internal_host, port");
    let clause0 = "SELECT engine, db_name, db_user, db_password, container_name, internal_host, port"@;
    assert(FIND_DATABASE@.subrange(0, 0int + clause0.len()) =~= clause0);
    reveal_strlit("FROM project_databases WHERE project_id = $1");
    let clause1 = "FROM project_databases WHERE project_id = $1"@;
    assert(FIND_DATABASE@.subrange(82, 82int + clause1.len()) =~= clause1);
}

} // verus!
