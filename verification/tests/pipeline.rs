use mjai_reviewer_service::analysis::analyzer_args;
use mjai_reviewer_service::analysis::artifact_path;
use mjai_reviewer_service::analysis::interpret_analysis;
use mjai_reviewer_service::analysis::SpawnOutcome;
use mjai_reviewer_service::errors::UploadError;
use mjai_reviewer_service::ingest::Part;
use mjai_reviewer_service::pipeline::check_request_size;
use mjai_reviewer_service::pipeline::confirm_write;
use mjai_reviewer_service::pipeline::ensure_upload_folder;
use mjai_reviewer_service::pipeline::respond;
use mjai_reviewer_service::pipeline::run_pipeline;
use mjai_reviewer_service::pipeline::PipelineEvents;
use mjai_reviewer_service::pipeline::DEFAULT_MAX_CONTENT_LENGTH;

fn part(name: &str, filename: Option<&str>, chunks: Vec<Vec<u8>>) -> Part {
    Part {
        name: name.to_string(),
        filename: filename.map(|f| f.to_string()),
        chunks,
    }
}

fn good_events() -> PipelineEvents {
    PipelineEvents {
        storage_ready: true,
        body: Some(vec![
            part("player_id", None, vec![b"3".to_vec()]),
            part("file", Some("report.mjson"), vec![b"{}".to_vec()]),
        ]),
        write_ok: true,
        analysis: SpawnOutcome::Exited { success: true },
    }
}

#[test]
fn oversized_declared_length_is_rejected_unread() {
    // 200000 declared against the 102400-byte ceiling
    assert_eq!(DEFAULT_MAX_CONTENT_LENGTH, 102400);
    let r = check_request_size(Some("200000"), DEFAULT_MAX_CONTENT_LENGTH);
    assert_eq!(r.unwrap_err(), UploadError::RequestTooLarge);
    let (status, body) = run_pipeline(
        Some("200000"),
        &good_events(),
        1,
        "uploads",
        DEFAULT_MAX_CONTENT_LENGTH,
    );
    assert_eq!(status, 400);
    assert_eq!(body.filepath, None);
    assert_eq!(body.error.as_deref(), Some("Request size too large"));
}

#[test]
fn request_size_checks_only_parseable_headers() {
    assert!(check_request_size(None, 100).is_ok());
    assert!(check_request_size(Some("junk"), 100).is_ok());
    assert!(check_request_size(Some("100"), 100).is_ok());
    assert_eq!(
        check_request_size(Some("101"), 100).unwrap_err(),
        UploadError::RequestTooLarge
    );
}

#[test]
fn storage_and_write_outcomes_map_to_errors() {
    assert!(ensure_upload_folder(true).is_ok());
    assert_eq!(ensure_upload_folder(false).unwrap_err(), UploadError::StorageUnavailable);
    assert!(confirm_write(true).is_ok());
    assert_eq!(confirm_write(false).unwrap_err(), UploadError::WriteFailed);
}

#[test]
fn artifact_path_appends_html() {
    assert_eq!(artifact_path("uploads/report_7.mjson"), "uploads/report_7.mjson.html");
}

#[test]
fn analyzer_gets_engine_input_and_identifier() {
    let args = analyzer_args("uploads/report_7.mjson", "3");
    assert_eq!(args, vec!["-e", "mortal", "-i", "uploads/report_7.mjson", "-a", "3"]);
}

#[test]
fn analyzer_exit_is_interpreted() {
    let ok = interpret_analysis(&SpawnOutcome::Exited { success: true }, "uploads/a.mjson");
    assert_eq!(ok.unwrap(), "uploads/a.mjson.html");
    let failed = interpret_analysis(&SpawnOutcome::Exited { success: false }, "uploads/a.mjson");
    assert_eq!(failed.unwrap_err(), UploadError::ProcessFailed);
    let spawn = interpret_analysis(&SpawnOutcome::SpawnFailed, "uploads/a.mjson");
    assert_eq!(spawn.unwrap_err(), UploadError::ProcessSpawnFailed);
}

#[test]
fn success_response_carries_only_the_path() {
    let (status, body) = respond(Ok("uploads/a.html".to_string()));
    assert_eq!(status, 200);
    assert_eq!(body.filepath.as_deref(), Some("uploads/a.html"));
    assert_eq!(body.error, None);
}

#[test]
fn every_error_gets_its_status_and_message() {
    let cases = vec![
        (UploadError::RequestTooLarge, 400, "Request size too large"),
        (UploadError::MissingFile, 400, "No file uploaded"),
        (UploadError::MissingFilename, 400, "No filename provided"),
        (UploadError::MultipartReadError, 400, "Error reading multipart"),
        (UploadError::StorageUnavailable, 500, "Could not create uploads folder"),
        (UploadError::WriteFailed, 500, "Error writing file"),
        (UploadError::ProcessSpawnFailed, 500, "Error running analyzer"),
        (UploadError::ProcessFailed, 500, "Analyzer failed"),
        (UploadError::ArtifactMissing, 500, "Result file not found"),
    ];
    for (err, status, message) in cases {
        let (s, body) = respond(Err(err));
        assert_eq!(s, status);
        assert_eq!(body.filepath, None);
        assert_eq!(body.error.as_deref(), Some(message));
    }
}

#[test]
fn full_pipeline_serves_the_artifact() {
    let (status, body) = run_pipeline(Some("54"), &good_events(), 777, "uploads", 102400);
    assert_eq!(status, 200);
    assert_eq!(body.filepath.as_deref(), Some("uploads/report_777.mjson.html"));
    assert_eq!(body.error, None);
}

#[test]
fn body_with_identifier_only_yields_missing_file() {
    let mut events = good_events();
    events.body = Some(vec![part("player_id", None, vec![b"3".to_vec()])]);
    let (status, body) = run_pipeline(None, &events, 1, "uploads", 102400);
    assert_eq!(status, 400);
    assert_eq!(body.error.as_deref(), Some("No file uploaded"));
}

#[test]
fn unreadable_body_is_a_client_error() {
    let mut events = good_events();
    events.body = None;
    let (status, body) = run_pipeline(None, &events, 1, "uploads", 102400);
    assert_eq!(status, 400);
    assert_eq!(body.error.as_deref(), Some("Error reading multipart"));
}

#[test]
fn unready_storage_is_a_server_error() {
    let mut events = good_events();
    events.storage_ready = false;
    let (status, body) = run_pipeline(None, &events, 1, "uploads", 102400);
    assert_eq!(status, 500);
    assert_eq!(body.error.as_deref(), Some("Could not create uploads folder"));
}

#[test]
fn failed_write_is_a_server_error() {
    let mut events = good_events();
    events.write_ok = false;
    let (status, body) = run_pipeline(None, &events, 1, "uploads", 102400);
    assert_eq!(status, 500);
    assert_eq!(body.error.as_deref(), Some("Error writing file"));
}

#[test]
fn failed_analysis_is_a_server_error() {
    let mut events = good_events();
    events.analysis = SpawnOutcome::Exited { success: false };
    let (status, body) = run_pipeline(None, &events, 1, "uploads", 102400);
    assert_eq!(status, 500);
    assert_eq!(body.error.as_deref(), Some("Analyzer failed"));
}
