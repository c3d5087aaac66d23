use deploynest_worker::store::{
    claim_pending_job, complete_job, delete_deployment, insert_log, mark_job_failed,
    update_database_status, Claim, DeploymentJob, Param, Statement, CLAIM_JOB, FIND_CONTEXT,
    FIND_DATABASE,
};

fn job() -> DeploymentJob {
    DeploymentJob { id: 3, deployment_id: 12, job_type: "deploy".to_string() }
}

fn shown(statement: &Statement) -> String {
    format!("{} {:?}", statement.sql(), statement.params())
}

fn all_shown(record: &[Statement]) -> Vec<String> {
    record.iter().map(shown).collect()
}

#[test]
fn claiming_marks_the_deployment_as_running() {
    match claim_pending_job(Some(job())) {
        Claim::Commit(claimed, record) => {
            assert_eq!(claimed.id, 3);
            assert_eq!(
                all_shown(&record),
                vec![
                    "UPDATE deployments SET status = 'running' WHERE id = $1 [Int(12)]",
                    "INSERT INTO deployment_logs (deployment_id, message) VALUES ($1, $2) [Int(12), Text(\"[WORKER] Deployment started\")]",
                ]
            );
        }
        Claim::Rollback => panic!("there was a job"),
    }
}

#[test]
fn without_a_job_the_claim_is_rolled_back() {
    assert!(matches!(claim_pending_job(None), Claim::Rollback));
}

#[test]
fn completing_records_where_the_deployment_is_up() {
    assert_eq!(
        all_shown(&complete_job(&job(), "c0ffee", 65535, "http://a-1.localhost")),
        vec![
            "UPDATE deployment_jobs SET status = 'completed', completed_at = NOW(), updated_at = NOW() WHERE id = $1 [Int(3)]",
            "UPDATE deployments SET status = 'success', container_id = $2, port = $3, domain = $4 WHERE id = $1 [Int(12), Text(\"c0ffee\"), Int(65535), Text(\"http://a-1.localhost\")]",
            "INSERT INTO deployment_logs (deployment_id, message) VALUES ($1, $2) [Int(12), Text(\"[DONE] Deployment available at http://a-1.localhost\")]",
        ]
    );
}

#[test]
fn failing_records_the_message() {
    assert_eq!(
        all_shown(&mark_job_failed(&job(), "no luck")),
        vec![
            "UPDATE deployment_jobs SET status = 'failed', completed_at = NOW(), updated_at = NOW() WHERE id = $1 [Int(3)]",
            "UPDATE deployments SET status = 'failed' WHERE id = $1 [Int(12)]",
            "INSERT INTO deployment_logs (deployment_id, message) VALUES ($1, $2) [Int(12), Text(\"[ERROR] no luck\")]",
        ]
    );
}

#[test]
fn deleting_removes_logs_jobs_and_deployment() {
    assert_eq!(
        all_shown(&delete_deployment(12)),
        vec![
            "DELETE FROM deployment_logs WHERE deployment_id = $1 [Int(12)]",
            "DELETE FROM deployment_jobs WHERE deployment_id = $1 [Int(12)]",
            "DELETE FROM deployments WHERE id = $1 [Int(12)]",
        ]
    );
}

#[test]
fn database_status_is_set_by_project() {
    assert_eq!(
        shown(&update_database_status(4, "running")),
        "UPDATE project_databases SET status = $1 WHERE project_id = $2 [Text(\"running\"), Int(4)]"
    );
}

#[test]
fn log_lines_are_kept_as_they_are() {
    let params = insert_log(12, "it's \"quoted\"").params();
    assert!(matches!(&params[1], Param::Text(text) if text == "it's \"quoted\""));
}

#[test]
fn every_place_of_a_statement_has_a_value() {
    let mut all = delete_deployment(1);
    all.extend(complete_job(&job(), "c", 1, "d"));
    all.extend(mark_job_failed(&job(), "m"));
    all.push(update_database_status(1, "s"));
    all.push(Statement::DeploymentRunning { deployment_id: 1 });
    for statement in &all {
        let count = statement.params().len();
        assert_eq!(statement.sql().matches('$').count(), count);
        for n in 1..=count {
            assert!(statement.sql().contains(&format!("${n}")));
        }
    }
}

#[test]
fn queries_have_one_place_at_most() {
    assert_eq!(CLAIM_JOB.matches('$').count(), 0);
    assert!(CLAIM_JOB.contains("FOR UPDATE SKIP LOCKED LIMIT 1"));
    assert_eq!(FIND_CONTEXT.matches("$1").count(), 1);
    assert_eq!(FIND_DATABASE.matches("$1").count(), 1);
}
