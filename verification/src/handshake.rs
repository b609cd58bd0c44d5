//! The sender's initial handshake: its first text frame must carry the
//! transfer's metadata as JSON. Reading arbitrary JSON is delegated to
//! serde_json behind trusted wrappers that extract fields and nothing more;
//! which fields are required, the mime-type default, and the error texts
//! are verified decisions here.

use vstd::prelude::*;
use crate::messages::invalid_metadata_msg;
use crate::meta::{normalized_mime, FileMetadata};
use crate::text::json_escaped;

verus! {

/// What serde_json finds in the sender's first frame: each of the three
/// fields as it reads them — absent or of the wrong type is `None` — or the
/// parse error's description when the frame is not JSON. A function of the
/// frame's text alone.
pub uninterp spec fn sender_fields_of(s: Seq<char>) -> Result<
    (Option<Seq<char>>, Option<u64>, Option<Seq<char>>),
    Seq<char>,
>;

/// Relies on serde_json::from_str and Value::get / as_str / as_u64: hands
/// out the raw `filename`, `size` and `mime_type` fields, converted and
/// nothing else. Which fields are required is the caller's decision.
#[verifier::external_body]
fn parse_sender_fields(s: &str) -> (r: Result<
    (Option<String>, Option<u64>, Option<String>),
    String,
>)
    ensures
        match r {
            Ok(f) => sender_fields_of(s@) matches Ok(q) && (match f.0 {
                Some(t) => q.0 == Some(t@),
                None => q.0 is None,
            }) && q.1 == f.1 && (match f.2 {
                Some(t) => q.2 == Some(t@),
                None => q.2 is None,
            }),
            Err(e) => sender_fields_of(s@) matches Err(d) && d == e@,
        },
{
    let v: serde_json::Value = match serde_json::from_str(s) {
        Ok(v) => v,
        Err(e) => return Err(e.to_string()),
    };
    let f = v.get("filename").and_then(|x| x.as_str()).map(|x| x.to_string());
    let n = v.get("size").and_then(|x| x.as_u64());
    let m = v.get("mime_type").and_then(|x| x.as_str()).map(|x| x.to_string());
    Ok((f, n, m))
}

/// What the `type` field of a JSON text frame holds, when the frame is a
/// JSON object whose `type` is a string. A function of the text alone.
pub uninterp spec fn json_type_of(s: Seq<char>) -> Option<Seq<char>>;

/// Relies on serde_json::from_str and Value::get / as_str: the frame's
/// `type` field.
#[verifier::external_body]
fn json_type_field(s: &str) -> (r: Option<String>)
    ensures
        match r {
            Some(t) => json_type_of(s@) matches Some(u) && u == t@,
            None => json_type_of(s@) is None,
        },
{
    let v: serde_json::Value = serde_json::from_str(s).ok()?;
    Some(v.get("type")?.as_str()?.to_string())
}

/// Whether an inbound text frame is the sender's `{"type":"done"}`
/// terminator (any other fields are ignored, as is any other frame).
pub fn is_done_text(s: &str) -> (r: bool)
    ensures
        r == (json_type_of(s@) == Some("done"@)),
{
    match json_type_field(s) {
        Some(t) => {
            let d = String::from_str("done");
            t == d
        },
        None => false,
    }
}

/// How the relay answers the sender's first text frame.
#[derive(PartialEq, Eq, Debug)]
pub enum HandshakeOutcome {
    /// The frame parsed as metadata: register the transfer with it.
    Accepted(FileMetadata),
    /// It did not: write this `error` message and close the socket.
    Rejected(String),
}

/// The declared mime type among the raw fields: empty when absent.
pub open spec fn declared_mime(o: Option<Seq<char>>) -> Seq<char> {
    match o {
        Some(t) => t,
        None => Seq::empty(),
    }
}

/// The handshake decision on the first text frame. `filename` and `size`
/// are required, `mime_type` is optional with the octet-stream default; a
/// frame that is not JSON, or lacks a required field, gets the exact
/// `error` text to send back.
pub fn handle_first_text(s: &str) -> (r: HandshakeOutcome)
    ensures
        match sender_fields_of(s@) {
            Ok(q) => {
                if q.0 is None {
                    r matches HandshakeOutcome::Rejected(t) && t@
                        == "{\"type\":\"error\",\"error\":\"Invalid metadata: "@ + json_escaped(
                        "missing or invalid field `filename`"@,
                    ) + "\"}"@
                } else if q.1 is None {
                    r matches HandshakeOutcome::Rejected(t) && t@
                        == "{\"type\":\"error\",\"error\":\"Invalid metadata: "@ + json_escaped(
                        "missing or invalid field `size`"@,
                    ) + "\"}"@
                } else {
                    r matches HandshakeOutcome::Accepted(m) && m.filename@ == q.0->0 && m.size
                        == q.1->0 && m.mime_type@ == normalized_mime(declared_mime(q.2))
                }
            },
            Err(d) => r matches HandshakeOutcome::Rejected(t) && t@
                == "{\"type\":\"error\",\"error\":\"Invalid metadata: "@ + json_escaped(d)
                + "\"}"@,
        },
{
    match parse_sender_fields(s) {
        Ok((filename_field, size_field, mime_field)) => {
            let filename = match filename_field {
                Some(f) => f,
                None => {
                    return HandshakeOutcome::Rejected(
                        invalid_metadata_msg("missing or invalid field `filename`"),
                    );
                },
            };
            let size = match size_field {
                Some(n) => n,
                None => {
                    return HandshakeOutcome::Rejected(
                        invalid_metadata_msg("missing or invalid field `size`"),
                    );
                },
            };
            let mime_type = match mime_field {
                Some(m) => m,
                None => String::new(),
            };
            HandshakeOutcome::Accepted(FileMetadata::from_init(filename, size, mime_type))
        },
        Err(e) => HandshakeOutcome::Rejected(invalid_metadata_msg(e.as_str())),
    }
}

} // verus!
