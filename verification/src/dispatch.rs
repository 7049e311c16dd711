//! The dispatcher: one encoding for a response, with its content type.

use crate::media::content_type_of;
use crate::record::{LogRecord, UpstreamError};
use crate::response::{encoded_body, final_state, LogsResponse, LogsResponseType, StreamState};
use vstd::prelude::*;

verus! {

/// An encoded response: the body with the content type under which it is
/// sent, and whether the body is whole.
#[derive(Debug)]
pub struct EncodedResponse {
    pub content_type: String,
    pub body: String,
    /// `Completed` for a whole body, `Aborted` for one that was cut off
    /// by an upstream error.
    pub state: StreamState,
}

/// The response for a sequence that is at hand as a whole. The encoding
/// is the one asked for and no other; the content type is fixed by it.
pub fn respond(
    response_type: LogsResponseType,
    elements: &Vec<Result<LogRecord, UpstreamError>>,
) -> (response: EncodedResponse)
    ensures
        response.content_type@ == content_type_of(response_type),
        response.body@ == encoded_body(response_type, elements@),
        response.state == final_state(elements@),
{
    let content_type = response_type.content_type();
    let (body, state) = LogsResponse::encode_all(response_type, elements);
    EncodedResponse { content_type, body, state }
}

} // verus!
