//! The OpenWebUI processing service.

use vstd::prelude::*;

verus! {

/// A file processed by OpenWebUI.
#[derive(Debug)]
pub struct ProcessedFile {
    pub content: String,
}

/// The OpenWebUI service; it holds no state.
pub struct OpenWebUiService;

impl OpenWebUiService {
    /// Processes the text of a file: the result is `Processed: {file}`, and
    /// processing always succeeds.
    pub fn process_file(file: String) -> (res: Result<ProcessedFile, reqwest::Error>)
        ensures
            res matches Ok(p) && p.content@ == "Processed: "@ + file@,
    {
        let mut content = String::from_str("Processed: ");
        content.append(file.as_str());
        Ok(ProcessedFile { content })
    }
}

/// `reqwest::Error`, the error of OpenWebUI requests.
#[verifier::external_type_specification]
#[verifier::external_body]
pub struct ExReqwestError(reqwest::Error);

} // verus!
