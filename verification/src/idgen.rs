//! Transfer id generation and registration: short url-safe ids from a
//! cryptographically strong source, with collisions rejected by the
//! registry's unique insert and retried a bounded number of times.

use vstd::prelude::*;
use vstd::pervasive::unreached;
use crate::meta::FileMetadata;
use crate::registry::{TransferEntry, TransferRegistry};

verus! {

/// Length of a transfer id, in characters.
pub const TRANSFER_ID_LEN: usize = 12;

/// How many fresh ids registration tries before giving up.
pub const MAX_ID_ATTEMPTS: usize = 16;

/// The url-safe id alphabet: letters, digits, `_` and `-`.
pub open spec fn is_id_char(c: char) -> bool {
    ('a' <= c && c <= 'z') || ('A' <= c && c <= 'Z') || ('0' <= c && c <= '9') || c == '_' || c
        == '-'
}

/// Relies on nanoid::format with nanoid's url-safe alphabet and default
/// random source: the id has exactly `len` characters, each drawn from that
/// alphabet. `format` returns only once a character has been pushed, so it
/// does not terminate when asked for zero characters; hence the bound.
#[verifier::external_body]
fn nanoid_string(len: usize) -> (r: String)
    requires
        1 <= len,
    ensures
        r@.len() == len,
        forall|i: int| 0 <= i < r@.len() ==> is_id_char(#[trigger] r@[i]),
{
    nanoid::format(nanoid::rngs::default, &nanoid::alphabet::SAFE, len)
}

/// A fresh opaque transfer id.
pub fn new_transfer_id() -> (r: String)
    ensures
        r@.len() == TRANSFER_ID_LEN,
        forall|i: int| 0 <= i < r@.len() ==> is_id_char(#[trigger] r@[i]),
{
    nanoid_string(TRANSFER_ID_LEN)
}

/// Registers a new transfer: inserts a `WaitingForRecipient` entry under a
/// fresh id, drawing new ids while the registry reports a collision. On
/// success the caller gets the id; after too many collisions it gets the
/// metadata and link back, and the registry is unchanged. A collision takes
/// an existing id-length key, so where the registry holds none — an empty
/// registry above all — the first draw registers and success is certain.
pub fn register_transfer<L>(
    reg: &mut TransferRegistry<L>,
    metadata: FileMetadata,
    link: L,
) -> (r: Result<String, (FileMetadata, L)>)
    requires
        old(reg).wf(),
    ensures
        final(reg).wf(),
        match r {
            Ok(id) => id@.len() == TRANSFER_ID_LEN && (forall|i: int|
                0 <= i < id@.len() ==> is_id_char(#[trigger] id@[i])) && !old(reg)@.contains_key(
                id@,
            ) && final(reg)@ == old(reg)@.insert(
                id@,
                TransferEntry::WaitingForRecipient { metadata, link },
            ),
            Err(back) => back.0 == metadata && back.1 == link && final(reg)@ == old(reg)@,
        },
        (forall|k: Seq<char>| #[trigger]
            old(reg)@.contains_key(k) ==> k.len() != TRANSFER_ID_LEN as nat) ==> r is Ok,
{
    let mut m = metadata;
    let mut l = link;
    let mut attempts: usize = 0;
    while attempts < MAX_ID_ATTEMPTS
        invariant
            reg.wf(),
            reg@ == old(reg)@,
            m == metadata,
            l == link,
            attempts > 0 ==> exists|k: Seq<char>| #[trigger]
                old(reg)@.contains_key(k) && k.len() == TRANSFER_ID_LEN as nat,
        decreases MAX_ID_ATTEMPTS - attempts,
    {
        let id = new_transfer_id();
        let id_copy = id.clone();
        match reg.insert_unique(id, TransferEntry::WaitingForRecipient { metadata: m, link: l }) {
            Ok(_) => {
                return Ok(id_copy);
            },
            Err((collided, back)) => {
                proof {
                    assert(old(reg)@.contains_key(collided@) && collided@.len()
                        == TRANSFER_ID_LEN as nat);
                }
                match back {
                    TransferEntry::WaitingForRecipient { metadata: m2, link: l2 } => {
                        m = m2;
                        l = l2;
                    },
                    _ => {
                        return unreached();
                    },
                }
            },
        }
        attempts = attempts + 1;
    }
    Err((m, l))
}

} // verus!
