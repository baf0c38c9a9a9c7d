//! Accepting uploads: which files are taken, what kind they are, where they
//! are stored, and the answer that names the session.

use crate::model::{ArtifactKind, ArtifactView};
use crate::pipeline::Artifact;
use crate::progress::OcrResult;
use crate::text::{
    ends_with_ignoring_case, extension, extension_of, has_suffix_ignoring_case, join_path, joined,
    to_chars,
};
use crate::token::{is_token, random_token};
use vstd::prelude::*;

verus! {

/// The kind of an upload by its name: `.pdf` makes a document, `.png`,
/// `.jpg` and `.jpeg` make an image, in any case. `None` for every other
/// name: such an upload is not taken.
pub open spec fn kind_of(filename: Seq<char>) -> Option<ArtifactKind> {
    if ends_with_ignoring_case(filename, ".pdf"@) {
        Some(ArtifactKind::Pdf)
    } else if ends_with_ignoring_case(filename, ".png"@) || ends_with_ignoring_case(
        filename,
        ".jpg"@,
    ) || ends_with_ignoring_case(filename, ".jpeg"@) {
        Some(ArtifactKind::Image)
    } else {
        None
    }
}

/// The name of the file that stores the upload `filename`.
pub open spec fn upload_name(token: Seq<char>, filename: Seq<char>) -> Seq<char> {
    "ocr_"@ + token + "."@ + extension(filename)
}

/// The upload `filename` as an accepted file stored under `temp_dir`, or
/// `None` if its name is not one that is taken.
pub open spec fn stored_artifact(temp_dir: Seq<char>, filename: Seq<char>, token: Seq<char>)
    -> Option<ArtifactView> {
    match kind_of(filename) {
        Some(kind) => Some(
            ArtifactView {
                path: joined(temp_dir, upload_name(token, filename)),
                filename: filename,
                kind: kind,
            },
        ),
        None => None,
    }
}

/// The kind of an upload by its name.
pub fn classify(filename: &str) -> (kind: Option<ArtifactKind>)
    ensures
        kind == kind_of(filename@),
{
    let chars = to_chars(filename);
    if has_suffix_ignoring_case(&chars, ".pdf") {
        Some(ArtifactKind::Pdf)
    } else if has_suffix_ignoring_case(&chars, ".png") || has_suffix_ignoring_case(&chars, ".jpg")
        || has_suffix_ignoring_case(&chars, ".jpeg") {
        Some(ArtifactKind::Image)
    } else {
        None
    }
}

/// The upload `filename` as an accepted file, stored under `temp_dir` in a
/// file named after `token`; `None` if its name is not one that is taken.
pub fn store_upload(temp_dir: &str, filename: &str, token: &str) -> (artifact: Option<Artifact>)
    ensures
        match artifact {
            Some(a) => Some(a@) == stored_artifact(temp_dir@, filename@, token@),
            None => stored_artifact(temp_dir@, filename@, token@) is None,
        },
{
    match classify(filename) {
        Some(kind) => {
            let mut name = String::from_str("ocr_");
            name.append(token);
            name.append(".");
            name.append(extension_of(filename).as_str());
            Some(
                Artifact {
                    path: join_path(temp_dir, name.as_str()),
                    filename: String::from_str(filename),
                    kind,
                },
            )
        },
        None => None,
    }
}

/// The upload `filename` as an accepted file, stored under `temp_dir` in a
/// file with a fresh random name; `None` if its name is not one that is
/// taken.
pub fn accept_upload(temp_dir: &str, filename: &str) -> (artifact: Option<Artifact>)
    ensures
        artifact is Some <==> kind_of(filename@) is Some,
        artifact matches Some(a) ==> exists|token: Seq<char>| #[trigger]
            is_token(token) && Some(a@) == stored_artifact(temp_dir@, filename@, token),
{
    let token = random_token();
    store_upload(temp_dir, filename, token.as_str())
}

/// The answer to an upload: the session under which progress can be asked
/// for. The results come with the session's last snapshot, not here.
#[derive(Debug, PartialEq, Eq)]
pub struct UploadResponse {
    pub session_id: String,
    pub results: Vec<OcrResult>,
}

/// Opens a session under a fresh random id.
pub fn open_session() -> (response: UploadResponse)
    ensures
        is_token(response.session_id@),
        response.results@.len() == 0,
{
    UploadResponse { session_id: random_token(), results: Vec::new() }
}

} // verus!
