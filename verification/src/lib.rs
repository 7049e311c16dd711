//! Streaming formatter for log responses.
//!
//! A response is produced one chunk at a time from a lazily pulled sequence
//! of log records. Three wire encodings are offered: raw lines, rendered
//! text lines and a streamed JSON array. The caller pulls from the upstream
//! sequence and hands each element to the encoder, which answers with the
//! next chunk to send; nothing is buffered beyond the element in flight.
//! A chunk is a `String`: its UTF-8 bytes are what goes on the wire.
//!
//! An upstream error ends the response where it stands. What was sent
//! stays as it is and nothing is appended to it, no marker in the line
//! encodings and no closing bracket in the JSON array: a JSON body that
//! was cut off is not a valid document, and its reader is meant to notice.

pub mod dispatch;
pub mod escape;
pub mod framing;
pub mod join_iter;
pub mod json_stream;
pub mod media;
pub mod raw_stream;
pub mod record;
pub mod response;
pub mod schema;
pub mod text_stream;
