//! Invoking the external analyzer: the argument list it is called with, the
//! deterministic artifact path, and the reading of its exit.
//!
//! The spawn itself happens at the unverified edge; it reports back one
//! [`SpawnOutcome`], and everything decided from it is verified here.

use crate::errors::UploadError;
use vstd::prelude::*;

verus! {

/// How launching the external analyzer went.
#[derive(Clone, Copy, Debug, PartialEq, Eq, Structural)]
pub enum SpawnOutcome {
    /// The process could not be started at all.
    SpawnFailed,
    /// The process ran to completion; `success` is its exit status.
    Exited { success: bool },
}

/// The artifact path for a stored file: the stored path with `.html`
/// appended.
pub open spec fn spec_artifact_path(stored_path: Seq<char>) -> Seq<char> {
    stored_path + seq!['.', 'h', 't', 'm', 'l']
}

/// Computes the deterministic output artifact path `<stored path>.html`.
pub fn artifact_path(stored_path: &str) -> (r: String)
    ensures
        r@ == spec_artifact_path(stored_path@),
{
    let r = stored_path.to_owned().concat(".html");
    proof {
        reveal_strlit(".html");
        assert(".html"@ =~= seq!['.', 'h', 't', 'm', 'l']);
        assert(r@ =~= spec_artifact_path(stored_path@));
    }
    r
}

/// Builds the analyzer's fixed argument list: the engine selection, the
/// stored file, and the identifier to focus on.
pub fn analyzer_args(stored_path: &str, player_id: &str) -> (r: Vec<String>)
    ensures
        r@.len() == 6,
        r@[0]@ == "-e"@,
        r@[1]@ == "mortal"@,
        r@[2]@ == "-i"@,
        r@[3]@ == stored_path@,
        r@[4]@ == "-a"@,
        r@[5]@ == player_id@,
{
    let mut r: Vec<String> = Vec::new();
    r.push("-e".to_owned());
    r.push("mortal".to_owned());
    r.push("-i".to_owned());
    r.push(stored_path.to_owned());
    r.push("-a".to_owned());
    r.push(player_id.to_owned());
    r
}

/// Reads the analyzer's exit: a failure to spawn or a failing exit status
/// each yield their error, and a successful exit yields the artifact path —
/// whose existence is the caller's business, not checked here.
pub fn interpret_analysis(outcome: &SpawnOutcome, stored_path: &str) -> (r: Result<
    String,
    UploadError,
>)
    ensures
        match *outcome {
            SpawnOutcome::SpawnFailed => r == Result::<String, UploadError>::Err(
                UploadError::ProcessSpawnFailed,
            ),
            SpawnOutcome::Exited { success } => {
                if success {
                    r matches Result::Ok(p) && p@ == spec_artifact_path(stored_path@)
                } else {
                    r == Result::<String, UploadError>::Err(UploadError::ProcessFailed)
                }
            },
        },
{
    match outcome {
        SpawnOutcome::SpawnFailed => Result::Err(UploadError::ProcessSpawnFailed),
        SpawnOutcome::Exited { success } => {
            if *success {
                Result::Ok(artifact_path(stored_path))
            } else {
                Result::Err(UploadError::ProcessFailed)
            }
        },
    }
}

} // verus!
