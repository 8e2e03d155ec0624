use vertex_ai::runtime::{check_job_schema, diagnosis, DownloadBook, ModelDownloadJob, RuntimeError};
use vertex_ai::types::{ModelDownloadProgress, ModelDownloadState, ModelId, ProviderId, RuntimeJobId};

fn start(book: &mut DownloadBook, id: &str, now: i64) -> Result<ModelDownloadJob, RuntimeError> {
    book.start_at(
        ProviderId::new("ollama").unwrap(),
        ModelId::new("qwen3:8b").unwrap(),
        RuntimeJobId::new(id).unwrap(),
        now,
    )
}

#[test]
fn completed_jobs_persist_progress_and_survive_reopen() {
    let mut book = DownloadBook::recovered(Vec::new(), 0);
    let job = start(&mut book, "job-1", 10).unwrap();
    assert_eq!(job.state, ModelDownloadState::Queued);
    let id = RuntimeJobId::new("job-1").unwrap();
    book.begin_at(&id, false, 11).unwrap();
    book.apply_progress(
        &id,
        ModelDownloadProgress {
            status: "pulling".to_owned(),
            completed_bytes: 50,
            total_bytes: Some(100),
        },
        12,
    )
    .unwrap();
    book.finish_at(&id, Ok(()), 13).unwrap();
    let done = book.get(&id).unwrap();
    assert_eq!(done.state, ModelDownloadState::Succeeded);
    assert_eq!(done.status, "success");
    assert_eq!(done.completed_bytes, 100);
    let reopened = DownloadBook::recovered(book.jobs, 20);
    let again = reopened.get(&id).unwrap();
    assert_eq!(again.state, ModelDownloadState::Succeeded);
    assert_eq!(again.updated_at, 13);
}

#[test]
fn cancellation_reaches_a_terminal_state_even_immediately_after_start() {
    let mut book = DownloadBook::recovered(Vec::new(), 0);
    start(&mut book, "job-2", 1).unwrap();
    let id = RuntimeJobId::new("job-2").unwrap();
    book.cancel_at(&id, true, 2).unwrap();
    assert_eq!(book.get(&id).unwrap().state, ModelDownloadState::Cancelling);
    book.begin_at(&id, true, 3).unwrap();
    book.finish_at(&id, Err(RuntimeError::Cancelled), 4).unwrap();
    assert_eq!(book.get(&id).unwrap().state, ModelDownloadState::Cancelled);
}

#[test]
fn one_active_download_per_model() {
    let mut book = DownloadBook::recovered(Vec::new(), 0);
    start(&mut book, "a", 1).unwrap();
    match start(&mut book, "b", 2) {
        Err(RuntimeError::InvalidRequest(m)) => {
            assert_eq!(m, "a download for this model is already active")
        }
        other => panic!("unexpected {other:?}"),
    }
    let id = RuntimeJobId::new("a").unwrap();
    book.finish_at(&id, Err(RuntimeError::Failed("network".to_owned())), 3).unwrap();
    let failed = book.get(&id).unwrap();
    assert_eq!(failed.state, ModelDownloadState::Failed);
    assert_eq!(failed.error_message.as_deref(), Some("runtime operation failed: network"));
    assert!(start(&mut book, "b", 4).is_ok());
}

#[test]
fn active_downloads_are_interrupted_after_restart() {
    let mut book = DownloadBook::recovered(Vec::new(), 0);
    start(&mut book, "c", 1).unwrap();
    let reopened = DownloadBook::recovered(book.jobs, 9);
    let job = reopened.get(&RuntimeJobId::new("c").unwrap()).unwrap();
    assert_eq!(job.state, ModelDownloadState::Interrupted);
    assert_eq!(job.status, "application_restarted");
    assert_eq!(job.updated_at, 9);
}

#[test]
fn unknown_jobs_and_schemas_are_refused() {
    let mut book = DownloadBook::recovered(Vec::new(), 0);
    let id = RuntimeJobId::new("missing").unwrap();
    assert!(book.get(&id).is_err());
    match book.cancel_at(&id, false, 1) {
        Err(RuntimeError::InvalidRequest(m)) => assert_eq!(m, "download job is not active"),
        other => panic!("unexpected {other:?}"),
    }
    assert!(check_job_schema(1).is_ok());
    match check_job_schema(3) {
        Err(e) => assert_eq!(e.to_text(), "runtime operation failed: unsupported runtime job schema 3"),
        Ok(()) => panic!("schema accepted"),
    }
}

#[test]
fn diagnoses_read_their_code_and_hide_passwords() {
    let d = diagnosis("runtime_missing", "password=secret gone", true, false);
    assert_eq!(d.summary, "runtime missing");
    assert_eq!(d.detail, "password=[REDACTED] gone");
}

#[test]
fn fresh_jobs_get_generated_ids_and_list_newest_first() {
    let mut book = DownloadBook::recovered(Vec::new(), 0);
    let first = book
        .start(ProviderId::new("ollama").unwrap(), ModelId::new("qwen3:8b").unwrap(), 10)
        .unwrap();
    assert!(first.id.as_str().starts_with("runtime-job:"));
    assert_eq!(first.id.as_str().len(), "runtime-job:".len() + 36);
    let again = book.start(ProviderId::new("ollama").unwrap(), ModelId::new("qwen3:8b").unwrap(), 11);
    assert!(matches!(again, Err(RuntimeError::InvalidRequest(_))));
    start(&mut book, "job-b", 30).unwrap_err();
    let mut other = DownloadBook::recovered(Vec::new(), 0);
    start(&mut other, "job-b", 30).unwrap();
    other
        .start_at(ProviderId::new("ollama").unwrap(), ModelId::new("phi").unwrap(), RuntimeJobId::new("job-a").unwrap(), 30)
        .unwrap();
    other
        .start_at(ProviderId::new("ollama").unwrap(), ModelId::new("llama").unwrap(), RuntimeJobId::new("job-c").unwrap(), 5)
        .unwrap();
    other
        .start_at(ProviderId::new("ollama").unwrap(), ModelId::new("mistral").unwrap(), RuntimeJobId::new("job-d").unwrap(), 40)
        .unwrap();
    let ids: Vec<String> = other.list().iter().map(|j| j.id.as_str().to_owned()).collect();
    assert_eq!(ids, vec!["job-d", "job-a", "job-b", "job-c"]);
}
