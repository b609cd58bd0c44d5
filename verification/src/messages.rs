//! The exact text of every control message the relay writes, on the sender
//! socket and on the recipient socket.

use vstd::prelude::*;
use crate::meta::FileMetadata;
use crate::text::{append_json_escaped, dec_of, json_escaped, u64_to_string};

verus! {

/// `ready`, carrying the freshly assigned transfer id.
pub fn ready_msg(id: &str) -> (r: String)
    ensures
        r@ == "{\"type\":\"ready\",\"id\":\""@ + json_escaped(id@) + "\"}"@,
{
    let mut s = String::from_str("{\"type\":\"ready\",\"id\":\"");
    append_json_escaped(&mut s, id);
    s.append("\"}");
    s
}

/// `start`: a recipient has attached, the sender may begin.
pub fn start_msg() -> (r: String)
    ensures
        r@ == "{\"type\":\"start\"}"@,
{
    String::from_str("{\"type\":\"start\"}")
}

/// `paused`: the recipient dropped, the relay awaits a reconnect.
pub fn paused_msg() -> (r: String)
    ensures
        r@ == "{\"type\":\"paused\"}"@,
{
    String::from_str("{\"type\":\"paused\"}")
}

/// `resume`, carrying the reconnected recipient's byte offset.
pub fn resume_msg(offset: u64) -> (r: String)
    ensures
        r@ == "{\"type\":\"resume\",\"offset\":"@ + dec_of(offset as nat) + "}"@,
{
    let mut s = String::from_str("{\"type\":\"resume\",\"offset\":");
    let n = u64_to_string(offset);
    s.append(n.as_str());
    s.append("}");
    s
}

/// `cancelled`: the reconnect window expired and the transfer is abandoned.
pub fn cancelled_msg() -> (r: String)
    ensures
        r@ == "{\"type\":\"cancelled\",\"error\":\"Recipient disconnected\"}"@,
{
    String::from_str("{\"type\":\"cancelled\",\"error\":\"Recipient disconnected\"}")
}

/// `error`, carrying a detail string.
pub fn error_msg(detail: &str) -> (r: String)
    ensures
        r@ == "{\"type\":\"error\",\"error\":\""@ + json_escaped(detail@) + "\"}"@,
{
    let mut s = String::from_str("{\"type\":\"error\",\"error\":\"");
    append_json_escaped(&mut s, detail);
    s.append("\"}");
    s
}

/// The `error` reply to a first frame that does not parse as metadata.
pub fn invalid_metadata_msg(detail: &str) -> (r: String)
    ensures
        r@ == "{\"type\":\"error\",\"error\":\"Invalid metadata: "@ + json_escaped(detail@)
            + "\"}"@,
{
    let mut s = String::from_str("{\"type\":\"error\",\"error\":\"Invalid metadata: ");
    append_json_escaped(&mut s, detail);
    s.append("\"}");
    s
}

/// The `error` a recipient gets when its claim finds no claimable entry.
pub fn not_found_msg() -> (r: String)
    ensures
        r@ == "{\"type\":\"error\",\"error\":\"Transfer not found or already claimed\"}"@,
{
    String::from_str("{\"type\":\"error\",\"error\":\"Transfer not found or already claimed\"}")
}

/// The `error` a recipient gets when the sender is gone.
pub fn sender_gone_msg() -> (r: String)
    ensures
        r@ == "{\"type\":\"error\",\"error\":\"Sender disconnected\"}"@,
{
    String::from_str("{\"type\":\"error\",\"error\":\"Sender disconnected\"}")
}

/// `done`: end of stream on the recipient socket.
pub fn done_msg() -> (r: String)
    ensures
        r@ == "{\"type\":\"done\"}"@,
{
    String::from_str("{\"type\":\"done\"}")
}

/// The info route's body for a waiting transfer.
pub fn info_msg(m: &FileMetadata) -> (r: String)
    ensures
        r@ == "{\"filename\":\""@ + json_escaped(m.filename@) + "\",\"size\":"@ + dec_of(
            m.size as nat,
        ) + ",\"mime_type\":\""@ + json_escaped(m.mime_type@) + "\"}"@,
{
    let mut s = String::from_str("{\"filename\":\"");
    append_json_escaped(&mut s, m.filename.as_str());
    s.append("\",\"size\":");
    let n = u64_to_string(m.size);
    s.append(n.as_str());
    s.append(",\"mime_type\":\"");
    append_json_escaped(&mut s, m.mime_type.as_str());
    s.append("\"}");
    s
}

/// The exact text of the `metadata` message announcing `m`.
pub open spec fn metadata_text_of(m: FileMetadata) -> Seq<char> {
    "{\"type\":\"metadata\",\"filename\":\""@ + json_escaped(m.filename@) + "\",\"size\":"@
        + dec_of(m.size as nat) + ",\"mime_type\":\""@ + json_escaped(m.mime_type@) + "\"}"@
}

/// `metadata`: the recipient's first frame after a successful claim.
pub fn metadata_msg(m: &FileMetadata) -> (r: String)
    ensures
        r@ == metadata_text_of(*m),
{
    let mut s = String::from_str("{\"type\":\"metadata\",\"filename\":\"");
    append_json_escaped(&mut s, m.filename.as_str());
    s.append("\",\"size\":");
    let n = u64_to_string(m.size);
    s.append(n.as_str());
    s.append(",\"mime_type\":\"");
    append_json_escaped(&mut s, m.mime_type.as_str());
    s.append("\"}");
    s
}

} // verus!
