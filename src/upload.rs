use vstd::prelude::*;

use crate::error::UploadError;
use crate::resolve::{find_outcome, UploadResponse};
use crate::template::UploaderTemplate;

verus! {

/// Whether an HTTP status code is in the success range 200..=299.
pub open spec fn status_success(status: u16) -> bool {
    200 <= status <= 299
}

/// Decides the outcome of an upload from the server's answer: a status
/// outside the success range is an error that carries the status and the
/// whole body; otherwise the template's URLs are resolved against the body.
pub fn handle_response(status: u16, body: String, template: UploaderTemplate) -> (r: Result<
    UploadResponse,
    UploadError,
>)
    ensures
        !status_success(status) ==> (r matches Err(UploadError::Response(s, b)) && s == status && b
            == body),
        status_success(status) ==> find_outcome(body@, template, r),
{
    if status < 200 || status > 299 {
        return Err(UploadError::Response(status, body));
    }
    UploadResponse::find(body.as_str(), template)
}

} // verus!
