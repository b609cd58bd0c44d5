//! The local-share mode: the process owns a file, announces it under a
//! short token, and streams it chunk by chunk, each chunk encrypted with a
//! symmetric cipher and framed as nonce-then-ciphertext. File reads stay
//! with the caller; this module computes frames, links and headers.

use aes_gcm::aead::{Aead, KeyInit};
use base64::Engine;
use vstd::prelude::*;
use crate::text::{dec_of, push_char, u64_to_string};

verus! {

/// One file offered by the local-share server.
pub struct SharedFile {
    pub path: String,
    pub filename: String,
    pub size: u64,
    pub mime_type: String,
    pub enc_key: Vec<u8>,
}

impl SharedFile {
    /// A usable entry carries a full-length symmetric key.
    pub open spec fn wf(self) -> bool {
        self.enc_key@.len() == 32
    }

    /// Builds an entry; the key must be a 256-bit key.
    pub fn new(
        path: String,
        filename: String,
        size: u64,
        mime_type: String,
        enc_key: Vec<u8>,
    ) -> (r: SharedFile)
        requires
            enc_key@.len() == 32,
        ensures
            r == (SharedFile { path, filename, size, mime_type, enc_key }),
            r.wf(),
    {
        SharedFile { path, filename, size, mime_type, enc_key }
    }
}

/// Relies on rand's OsRng fill_bytes: `n` bytes from the operating
/// system's random source. Nothing is promised of the bytes themselves; the
/// call panics only if that source itself fails, an environmental failure
/// no input can avoid.
#[verifier::external_body]
pub fn random_bytes(n: usize) -> (r: Vec<u8>)
    ensures
        r@.len() == n,
{
    let mut b = vec![0u8; n];
    rand::RngCore::fill_bytes(&mut rand::rngs::OsRng, &mut b);
    b
}

/// What AES-256-GCM makes of a key, nonce and plaintext: the ciphertext
/// with its authentication tag appended. A function of the three inputs.
pub uninterp spec fn aes_gcm_seal(key: Seq<u8>, nonce: Seq<u8>, plain: Seq<u8>) -> Seq<u8>;

/// Relies on aes_gcm's Aes256Gcm::new_from_slice and Aead::encrypt: the
/// ciphertext carries a postfix 16-byte tag, so it is 16 bytes longer than
/// the plaintext; with a full-length key, encryption fails only for a
/// plaintext beyond GCM's limit of 2^36 bytes.
#[verifier::external_body]
fn aes_encrypt(key: &Vec<u8>, nonce: &Vec<u8>, plain: &Vec<u8>) -> (r: Option<Vec<u8>>)
    requires
        key@.len() == 32,
        nonce@.len() == 12,
    ensures
        r matches Some(ct) ==> ct@ == aes_gcm_seal(key@, nonce@, plain@) && ct@.len() == plain@.len()
            + 16,
        plain@.len() <= 0x10_0000_0000 ==> r is Some,
{
    let cipher = match aes_gcm::Aes256Gcm::new_from_slice(key.as_slice()) {
        Ok(c) => c,
        Err(_) => return None,
    };
    cipher.encrypt(aes_gcm::Nonce::from_slice(nonce.as_slice()), plain.as_slice()).ok()
}

/// One frame of the encrypted stream: the nonce, then the sealed chunk.
/// Sealing is owed for every chunk within GCM's 2^36-byte plaintext limit
/// — in particular for every chunk the local-share reader produces.
pub fn seal_chunk(key: &Vec<u8>, nonce: &Vec<u8>, plain: &Vec<u8>) -> (r: Option<Vec<u8>>)
    requires
        key@.len() == 32,
        nonce@.len() == 12,
    ensures
        r matches Some(p) ==> p@ == nonce@ + aes_gcm_seal(key@, nonce@, plain@) && p@.len() == 12
            + plain@.len() + 16,
        plain@.len() <= 0x10_0000_0000 ==> r is Some,
{
    match aes_encrypt(key, nonce, plain) {
        Some(ct) => {
            let mut out: Vec<u8> = Vec::new();
            out.extend_from_slice(nonce.as_slice());
            out.extend_from_slice(ct.as_slice());
            Some(out)
        },
        None => None,
    }
}

/// What the unpadded url-safe base64 encoding of some bytes reads as.
pub uninterp spec fn b64url_nopad(b: Seq<u8>) -> Seq<char>;

/// Relies on base64's URL_SAFE_NO_PAD engine: four characters for every
/// three bytes, the tail unpadded.
#[verifier::external_body]
pub fn encode_key_b64(b: &Vec<u8>) -> (r: String)
    ensures
        r@ == b64url_nopad(b@),
        r@.len() == (b@.len() * 4 + 2) / 3,
{
    String::from(base64::engine::general_purpose::URL_SAFE_NO_PAD.encode(b.as_slice()))
}

/// What mime_guess answers for a path, with its octet-stream default.
pub uninterp spec fn mime_guess_of(path: Seq<char>) -> Seq<char>;

/// Relies on mime_guess::from_path(..).first_or_octet_stream(): the mime
/// type guessed from the path's extension, or `application/octet-stream`.
/// A path without a dot has no extension, so it gets the default.
#[verifier::external_body]
pub fn mime_for_path(path: &str) -> (r: String)
    ensures
        r@ == mime_guess_of(path@),
        !path@.contains('.') ==> r@ == "application/octet-stream"@,
{
    mime_guess::from_path(path).first_or_octet_stream().to_string()
}

/// The port part of a printed link: empty for the default HTTP port.
pub open spec fn port_suffix_of(port: u16) -> Seq<char> {
    if port == 80 {
        Seq::empty()
    } else {
        ":"@ + dec_of(port as nat)
    }
}

/// The download link for a shared file: host, optional port, token, and
/// the key in the fragment (never sent to the server).
pub fn share_link(host: &str, port: u16, token: &str, key_b64: &str) -> (r: String)
    ensures
        r@ == "http://"@ + host@ + port_suffix_of(port) + "/d/"@ + token@ + "#"@ + key_b64@,
{
    let mut s = String::from_str("http://");
    s.append(host);
    if port != 80 {
        s.append(":");
        let p = u64_to_string(port as u64);
        s.append(p.as_str());
    }
    s.append("/d/");
    s.append(token);
    s.append("#");
    s.append(key_b64);
    proof {
        assert(s@ =~= "http://"@ + host@ + port_suffix_of(port) + "/d/"@ + token@ + "#"@
            + key_b64@);
    }
    s
}

/// A file name with every double quote backslash-escaped, as it stands
/// inside a quoted header value.
pub open spec fn quote_escaped(s: Seq<char>) -> Seq<char>
    decreases s.len(),
{
    if s.len() == 0 {
        Seq::empty()
    } else {
        quote_escaped(s.drop_last()) + (if s.last() == '"' {
            seq!['\\', '"']
        } else {
            seq![s.last()]
        })
    }
}

/// The Content-Disposition header value for an attachment download.
pub fn content_disposition(filename: &str) -> (r: String)
    ensures
        r@ == "attachment; filename=\""@ + quote_escaped(filename@) + "\""@,
{
    let mut s = String::from_str("attachment; filename=\"");
    let n = filename.unicode_len();
    let mut i: usize = 0;
    while i < n
        invariant
            i <= n,
            n == filename@.len(),
            s@ == "attachment; filename=\""@ + quote_escaped(filename@.take(i as int)),
        decreases n - i,
    {
        let c = filename.get_char(i);
        if c == '"' {
            push_char(&mut s, '\\');
            push_char(&mut s, '"');
        } else {
            push_char(&mut s, c);
        }
        proof {
            assert(filename@.take(i + 1).drop_last() =~= filename@.take(i as int));
            assert(filename@.take(i + 1).last() == filename@[i as int]);
            assert(s@ =~= "attachment; filename=\""@ + quote_escaped(filename@.take(i + 1)));
        }
        i = i + 1;
    }
    proof {
        assert(filename@.take(n as int) =~= filename@);
    }
    s.append("\"");
    s
}

} // verus!
