//! The per-request pipeline: validate the declared size, make sure storage
//! is ready, ingest the body, enforce the quota (best-effort, never fatal),
//! run the analyzer, and respond.
//!
//! Each stage whose work happens at the unverified edge (creating the
//! directory, streaming the body, writing the file, spawning the analyzer)
//! reports its outcome back in as a plain event; every decision taken on
//! those events is verified here. Quota enforcement deliberately has no
//! failure event: however eviction goes, the pipeline proceeds.

use crate::analysis::spec_artifact_path;
use crate::analysis::SpawnOutcome;
use crate::errors::is_client_error;
use crate::errors::spec_message;
use crate::errors::UploadError;
use crate::ingest::spec_parse_multipart;
use crate::ingest::IngestPlan;
use crate::ingest::Part;
use crate::text::spec_parse_u64;
use vstd::prelude::*;

verus! {

/// Default byte budget for the managed directory, in megabytes.
pub const DEFAULT_MAX_FOLDER_SIZE_MB: u64 = 100;

/// Default ceiling on a request's declared size, in bytes.
pub const DEFAULT_MAX_CONTENT_LENGTH: u64 = 100 * 1024;

/// A request is oversized when its declared length parses as a number above
/// the ceiling. A missing or unreadable declaration passes.
pub open spec fn spec_oversized(content_length: Option<Seq<char>>, max_bytes: nat) -> bool {
    match content_length {
        Option::Some(h) => match spec_parse_u64(h) {
            Option::Some(v) => v > max_bytes,
            Option::None => false,
        },
        Option::None => false,
    }
}

/// Validates the declared request size against the ceiling, before any of
/// the body is read: rejected with `RequestTooLarge` exactly when the
/// `Content-Length` text parses as a number above `max_bytes`.
pub fn check_request_size(content_length: Option<&str>, max_bytes: u64) -> (r: Result<
    (),
    UploadError,
>)
    ensures
        ({
            let h = match content_length {
                Option::Some(s) => Option::Some(s@),
                Option::None => Option::None,
            };
            r == if spec_oversized(h, max_bytes as nat) {
                Result::<(), UploadError>::Err(UploadError::RequestTooLarge)
            } else {
                Result::<(), UploadError>::Ok(())
            }
        }),
{
    match content_length {
        Option::Some(s) => {
            match crate::text::parse_u64(s) {
                Option::Some(v) => {
                    if v > max_bytes {
                        Result::Err(UploadError::RequestTooLarge)
                    } else {
                        Result::Ok(())
                    }
                },
                Option::None => Result::Ok(()),
            }
        },
        Option::None => Result::Ok(()),
    }
}

/// Turns the storage-preparation outcome into the pipeline decision: a
/// managed directory that could not be readied fails the request with
/// `StorageUnavailable`.
pub fn ensure_upload_folder(created: bool) -> (r: Result<(), UploadError>)
    ensures
        r == if created {
            Result::<(), UploadError>::Ok(())
        } else {
            Result::<(), UploadError>::Err(UploadError::StorageUnavailable)
        },
{
    if created {
        Result::Ok(())
    } else {
        Result::Err(UploadError::StorageUnavailable)
    }
}

/// Turns the disk-write outcome into the pipeline decision: a failed write
/// is `WriteFailed`; the partial file, if any, is left for eviction to
/// reclaim.
pub fn confirm_write(write_ok: bool) -> (r: Result<(), UploadError>)
    ensures
        r == if write_ok {
            Result::<(), UploadError>::Ok(())
        } else {
            Result::<(), UploadError>::Err(UploadError::WriteFailed)
        },
{
    if write_ok {
        Result::Ok(())
    } else {
        Result::Err(UploadError::WriteFailed)
    }
}

/// The response body: exactly one of the two fields is set.
pub struct UploadResponse {
    pub filepath: Option<String>,
    pub error: Option<String>,
}

/// Exactly one of `filepath` and `error` is set.
pub open spec fn response_well_formed(r: UploadResponse) -> bool {
    (r.filepath is Some) <==> (r.error is None)
}

/// Converts a pipeline result into the HTTP status and response body: 200
/// with the artifact path on success; otherwise 400 for client-caused and
/// 500 for server-caused failures, with the error's message — and exactly
/// one of the two body fields set.
pub fn respond(result: Result<String, UploadError>) -> (r: (u16, UploadResponse))
    ensures
        response_well_formed(r.1),
        match result {
            Result::Ok(p) => r.0 == 200 && (r.1.filepath matches Option::Some(q) && q@ == p@)
                && r.1.error is None,
            Result::Err(e) => {
                &&& r.0 == if is_client_error(e) {
                    400u16
                } else {
                    500u16
                }
                &&& r.1.filepath is None
                &&& r.1.error matches Option::Some(m) && m@ == spec_message(e)
            },
        },
{
    match result {
        Result::Ok(p) => (200, UploadResponse { filepath: Option::Some(p), error: Option::None }),
        Result::Err(e) => {
            let status: u16 = match e {
                UploadError::RequestTooLarge => 400,
                UploadError::MissingFile => 400,
                UploadError::MissingFilename => 400,
                UploadError::MultipartReadError => 400,
                UploadError::StorageUnavailable => 500,
                UploadError::WriteFailed => 500,
                UploadError::ProcessSpawnFailed => 500,
                UploadError::ProcessFailed => 500,
                UploadError::ArtifactMissing => 500,
            };
            let msg: String = e.message();
            (status, UploadResponse { filepath: Option::None, error: Option::Some(msg) })
        },
    }
}

/// The edge-reported outcomes one request's handling saw, in stage order.
pub struct PipelineEvents {
    /// Whether the managed directory could be created or found.
    pub storage_ready: bool,
    /// The parts of the multipart body, or nothing if it could not be read.
    pub body: Option<Vec<Part>>,
    /// Whether writing the stored file succeeded.
    pub write_ok: bool,
    /// How the analyzer invocation went.
    pub analysis: SpawnOutcome,
}

/// What one request comes to, stage by stage, short-circuiting on the first
/// failure: size ceiling, storage, ingest, write, analysis. Quota
/// enforcement sits between write and analysis but has no failure case.
pub open spec fn spec_pipeline(
    content_length: Option<Seq<char>>,
    storage_ready: bool,
    body: Option<Seq<Part>>,
    write_ok: bool,
    analysis: SpawnOutcome,
    now: nat,
    dir: Seq<char>,
    max_bytes: nat,
) -> Result<Seq<char>, UploadError> {
    if spec_oversized(content_length, max_bytes) {
        Result::Err(UploadError::RequestTooLarge)
    } else if !storage_ready {
        Result::Err(UploadError::StorageUnavailable)
    } else {
        match body {
            Option::None => Result::Err(UploadError::MultipartReadError),
            Option::Some(parts) => match spec_parse_multipart(parts, now, dir) {
                Result::Err(e) => Result::Err(e),
                Result::Ok(t) => {
                    if !write_ok {
                        Result::Err(UploadError::WriteFailed)
                    } else {
                        match analysis {
                            SpawnOutcome::SpawnFailed => Result::Err(
                                UploadError::ProcessSpawnFailed,
                            ),
                            SpawnOutcome::Exited { success } => {
                                if success {
                                    Result::Ok(spec_artifact_path(t.1))
                                } else {
                                    Result::Err(UploadError::ProcessFailed)
                                }
                            },
                        }
                    }
                },
            },
        }
    }
}

/// Handles one upload request, given the edge-reported outcomes: runs the
/// stages in order, short-circuits to the response on the first failure, and
/// returns the HTTP status with the response body — exactly
/// [`spec_pipeline`]'s result, rendered by [`respond`].
pub fn run_pipeline(
    content_length: Option<&str>,
    events: &PipelineEvents,
    now: u64,
    upload_dir: &str,
    max_bytes: u64,
) -> (r: (u16, UploadResponse))
    ensures
        response_well_formed(r.1),
        ({
            let h = match content_length {
                Option::Some(s) => Option::Some(s@),
                Option::None => Option::None,
            };
            let body = match events.body {
                Option::Some(parts) => Option::Some(parts@),
                Option::None => Option::None,
            };
            let out = spec_pipeline(
                h,
                events.storage_ready,
                body,
                events.write_ok,
                events.analysis,
                now as nat,
                upload_dir@,
                max_bytes as nat,
            );
            match out {
                Result::Ok(p) => r.0 == 200 && (r.1.filepath matches Option::Some(q) && q@
                    == p) && r.1.error is None,
                Result::Err(e) => {
                    &&& r.0 == if is_client_error(e) {
                        400u16
                    } else {
                        500u16
                    }
                    &&& r.1.filepath is None
                    &&& r.1.error matches Option::Some(m) && m@ == spec_message(e)
                },
            }
        }),
{
    if let Result::Err(e) = check_request_size(content_length, max_bytes) {
        return respond(Result::Err(e));
    }
    if let Result::Err(e) = ensure_upload_folder(events.storage_ready) {
        return respond(Result::Err(e));
    }
    let plan: IngestPlan = match &events.body {
        Option::None => {
            return respond(Result::Err(UploadError::MultipartReadError));
        },
        Option::Some(parts) => {
            match crate::ingest::parse_multipart_fields(parts, now, upload_dir) {
                Result::Ok(plan) => plan,
                Result::Err(e) => {
                    return respond(Result::Err(e));
                },
            }
        },
    };
    if let Result::Err(e) = confirm_write(events.write_ok) {
        return respond(Result::Err(e));
    }
    let result = crate::analysis::interpret_analysis(&events.analysis, plan.stored_path.as_str());
    respond(result)
}

} // verus!
