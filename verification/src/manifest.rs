//! The chunk-to-disk staging collaborator: manifests describing an
//! uploaded file, their line-oriented `key=value` text form, and the
//! decisions around chunk accounting, expiry and blob download. All file
//! I/O stays with the caller; this module only computes.

use vstd::prelude::*;
use crate::text::{
    bool_to_string, dec_of, dec_val, ends_with, find_char, lemma_dec_round_trip,
    lemma_find_char, parse_bool, parse_u64, push_char, split_on, str_ends_with, str_eq,
    str_find, str_split, u64_to_string, valid_u64_text,
};

verus! {

/// A line with its trailing carriage return, if any, taken off.
pub open spec fn strip_cr(l: Seq<char>) -> Seq<char> {
    if l.len() > 0 && l.last() == '\r' {
        l.drop_last()
    } else {
        l
    }
}

/// The lines of a manifest text: split on newlines, carriage returns
/// stripped.
pub open spec fn lines_of(c: Seq<char>) -> Seq<Seq<char>> {
    split_on(c, '\n').map_values(|l: Seq<char>| strip_cr(l))
}

/// The `key=value` reading of one line: the part before the first `=` and
/// the part after it; a line without `=` carries nothing.
pub open spec fn kv_of(l: Seq<char>) -> Option<(Seq<char>, Seq<char>)> {
    let i = find_char(l, '=');
    if i == -1 {
        None
    } else {
        Some((l.take(i), l.skip(i + 1)))
    }
}

/// The value under `key` among `lines`, the last occurrence winning.
pub open spec fn lookup_value(lines: Seq<Seq<char>>, key: Seq<char>) -> Option<Seq<char>>
    decreases lines.len(),
{
    if lines.len() == 0 {
        None
    } else if kv_of(lines.last()) is Some {
        let p = kv_of(lines.last())->0;
        if p.0 == key {
            Some(p.1)
        } else {
            lookup_value(lines.drop_last(), key)
        }
    } else {
        lookup_value(lines.drop_last(), key)
    }
}

/// The value a manifest text holds under `key`.
pub open spec fn manifest_field(c: Seq<char>, key: Seq<char>) -> Option<Seq<char>> {
    lookup_value(lines_of(c), key)
}

/// A line built as `key=value` reads back as that pair, whatever the value
/// holds, as long as the key itself is free of `=`.
pub proof fn lemma_kv_line(key: Seq<char>, value: Seq<char>)
    requires
        !key.contains('='),
    ensures
        kv_of(key + "="@ + value) matches Some(p) && p.0 == key && p.1 == value,
{
    reveal_strlit("=");
    assert("="@ =~= seq!['=']);
    let l = key + "="@ + value;
    lemma_find_char(l, '=');
    assert(l[key.len() as int] == '=');
    let r = find_char(l, '=');
    assert(r != -1);
    assert(forall|i: int| 0 <= i < key.len() ==> l[i] == key[i]);
    assert(forall|i: int| 0 <= i < key.len() ==> l[i] != '=');
    assert(r == key.len());
    assert(l.take(r) =~= key);
    assert(l.skip(r + 1) =~= value);
}

/// When exactly one line carries `key` and no later line does, the lookup
/// finds that line's value.
pub proof fn lemma_lookup_unique(lines: Seq<Seq<char>>, key: Seq<char>, i: int)
    requires
        0 <= i < lines.len(),
        kv_of(lines[i]) matches Some(p) && p.0 == key,
        forall|j: int|
            i < j < lines.len() ==> !(#[trigger] kv_of(lines[j]) matches Some(q) && q.0 == key),
    ensures
        kv_of(lines[i]) matches Some(p) && lookup_value(lines, key) == Some(p.1),
    decreases lines.len(),
{
    if i == lines.len() - 1 {
        assert(lines.last() == lines[i]);
    } else {
        assert(lines.last() == lines[lines.len() - 1]);
        assert(!(kv_of(lines.last()) matches Some(q) && q.0 == key));
        assert(lines.drop_last()[i] == lines[i]);
        assert(forall|j: int|
            i < j < lines.drop_last().len() ==> lines.drop_last()[j] == lines[j]);
        lemma_lookup_unique(lines.drop_last(), key, i);
    }
}

fn strip_cr_exec(l: String) -> (r: String)
    ensures
        r@ == strip_cr(l@),
{
    let n = l.as_str().unicode_len();
    if n > 0 && l.as_str().get_char(n - 1) == '\r' {
        let r = String::from_str(l.as_str().substring_char(0, n - 1));
        proof {
            assert(r@ =~= l@.drop_last());
        }
        r
    } else {
        l
    }
}

/// The manifest's lines, as `lines_of` describes them.
pub fn manifest_text_lines(c: &str) -> (r: Vec<String>)
    ensures
        r@.map_values(|t: String| t@) == lines_of(c@),
{
    let raw = str_split(c, '\n');
    let ghost target = lines_of(c@);
    let mut out: Vec<String> = Vec::new();
    let mut i: usize = 0;
    proof {
        assert(target.len() == raw@.len());
    }
    while i < raw.len()
        invariant
            i <= raw@.len(),
            target == lines_of(c@),
            raw@.map_values(|t: String| t@) == split_on(c@, '\n'),
            target.len() == raw@.len(),
            out@.map_values(|t: String| t@) == target.take(i as int),
        decreases raw@.len() - i,
    {
        let ghost out_pre = out@;
        let line = strip_cr_exec(raw[i].clone());
        proof {
            assert(raw@.map_values(|t: String| t@)[i as int] == raw@[i as int]@);
            assert(target[i as int] == strip_cr(raw@[i as int]@));
        }
        out.push(line);
        proof {
            assert(out@.map_values(|t: String| t@) =~= out_pre.map_values(|t: String| t@)
                + seq![strip_cr(raw@[i as int]@)]);
            assert(target.take(i + 1) =~= target.take(i as int) + seq![target[i as int]]);
        }
        i = i + 1;
    }
    proof {
        assert(target.take(raw@.len() as int) =~= target);
    }
    out
}

/// The `key=value` reading of one line.
pub fn split_kv(l: &str) -> (r: Option<(String, String)>)
    ensures
        match r {
            Some(p) => kv_of(l@) matches Some(q) && q.0 == p.0@ && q.1 == p.1@,
            None => kv_of(l@) is None,
        },
{
    match str_find(l, '=') {
        Some(i) => {
            proof {
                lemma_find_char(l@, '=');
            }
            let n = l.unicode_len();
            let k = String::from_str(l.substring_char(0, i));
            let v = String::from_str(l.substring_char(i + 1, n));
            proof {
                assert(k@ =~= l@.take(i as int));
                assert(v@ =~= l@.skip(i + 1));
            }
            Some((k, v))
        },
        None => None,
    }
}

/// The last value under `key` among `lines`.
pub fn lookup_in_lines(lines: &Vec<String>, key: &str) -> (r: Option<String>)
    ensures
        match r {
            Some(v) => lookup_value(lines@.map_values(|t: String| t@), key@) matches Some(u)
                && u == v@,
            None => lookup_value(lines@.map_values(|t: String| t@), key@) is None,
        },
{
    let ghost lview = lines@.map_values(|t: String| t@);
    let mut found: Option<String> = None;
    let mut i: usize = 0;
    while i < lines.len()
        invariant
            i <= lines@.len(),
            lview == lines@.map_values(|t: String| t@),
            match found {
                Some(v) => lookup_value(lview.take(i as int), key@) matches Some(u) && u == v@,
                None => lookup_value(lview.take(i as int), key@) is None,
            },
        decreases lines@.len() - i,
    {
        proof {
            assert(lview.take(i + 1).drop_last() =~= lview.take(i as int));
            assert(lview.take(i + 1).last() == lview[i as int]);
            assert(lview[i as int] == lines@[i as int]@);
        }
        match split_kv(lines[i].as_str()) {
            Some((k, v)) => {
                if str_eq(k.as_str(), key) {
                    found = Some(v);
                }
            },
            None => {},
        }
        i = i + 1;
    }
    proof {
        assert(lview.take(lines@.len() as int) =~= lview);
    }
    found
}

/// The on-disk description of one staged upload.
#[derive(PartialEq, Eq, Debug)]
pub struct FileManifest {
    pub id: String,
    pub filename: String,
    pub size: u64,
    pub created_at_unix: u64,
    pub expires_at_unix: u64,
    pub chunk_size: u64,
    pub chunk_count: u64,
    pub received_size: u64,
    pub complete: bool,
}

impl Clone for FileManifest {
    fn clone(&self) -> (r: Self)
        ensures
            r == *self,
    {
        FileManifest {
            id: self.id.clone(),
            filename: self.filename.clone(),
            size: self.size,
            created_at_unix: self.created_at_unix,
            expires_at_unix: self.expires_at_unix,
            chunk_size: self.chunk_size,
            chunk_count: self.chunk_count,
            received_size: self.received_size,
            complete: self.complete,
        }
    }
}

/// The text `complete` renders as.
pub open spec fn bool_text(b: bool) -> Seq<char> {
    if b {
        "true"@
    } else {
        "false"@
    }
}

/// The exact text form of a manifest: one `key=value` line per field, in a
/// fixed order, with a trailing newline.
pub open spec fn manifest_text_of(m: FileManifest) -> Seq<char> {
    "id="@ + m.id@ + "\nfilename="@ + m.filename@ + "\nsize="@ + dec_of(m.size as nat)
        + "\ncreated_at_unix="@ + dec_of(m.created_at_unix as nat) + "\nexpires_at_unix="@
        + dec_of(m.expires_at_unix as nat) + "\nchunk_size="@ + dec_of(m.chunk_size as nat)
        + "\nchunk_count="@ + dec_of(m.chunk_count as nat) + "\nreceived_size="@ + dec_of(
        m.received_size as nat,
    ) + "\ncomplete="@ + bool_text(m.complete) + "\n"@
}

/// Why a manifest text fails to parse, if it does: the first missing key or
/// unparsable value, in field order.
pub open spec fn manifest_error(c: Seq<char>) -> Option<Seq<char>> {
    if manifest_field(c, "id"@) is None {
        Some("manifest missing key"@)
    } else if manifest_field(c, "filename"@) is None {
        Some("manifest missing key"@)
    } else if manifest_field(c, "size"@) is None {
        Some("manifest missing key"@)
    } else if !valid_u64_text(manifest_field(c, "size"@)->0) {
        Some("invalid size"@)
    } else if manifest_field(c, "created_at_unix"@) is None {
        Some("manifest missing key"@)
    } else if !valid_u64_text(manifest_field(c, "created_at_unix"@)->0) {
        Some("invalid created_at_unix"@)
    } else if manifest_field(c, "expires_at_unix"@) is None {
        Some("manifest missing key"@)
    } else if !valid_u64_text(manifest_field(c, "expires_at_unix"@)->0) {
        Some("invalid expires_at_unix"@)
    } else if manifest_field(c, "chunk_size"@) is None {
        Some("manifest missing key"@)
    } else if !valid_u64_text(manifest_field(c, "chunk_size"@)->0) {
        Some("invalid chunk_size"@)
    } else if manifest_field(c, "chunk_count"@) is None {
        Some("manifest missing key"@)
    } else if !valid_u64_text(manifest_field(c, "chunk_count"@)->0) {
        Some("invalid chunk_count"@)
    } else if manifest_field(c, "received_size"@) is None {
        Some("manifest missing key"@)
    } else if !valid_u64_text(manifest_field(c, "received_size"@)->0) {
        Some("invalid received_size"@)
    } else if manifest_field(c, "complete"@) is None {
        Some("manifest missing key"@)
    } else if manifest_field(c, "complete"@)->0 != "true"@ && manifest_field(c, "complete"@)->0
        != "false"@ {
        Some("invalid complete"@)
    } else {
        None
    }
}

impl FileManifest {
    /// Renders the manifest in its text form.
    pub fn to_text(&self) -> (r: String)
        ensures
            r@ == manifest_text_of(*self),
    {
        let mut s = String::from_str("id=");
        s.append(self.id.as_str());
        s.append("\nfilename=");
        s.append(self.filename.as_str());
        s.append("\nsize=");
        let t = u64_to_string(self.size);
        s.append(t.as_str());
        s.append("\ncreated_at_unix=");
        let t = u64_to_string(self.created_at_unix);
        s.append(t.as_str());
        s.append("\nexpires_at_unix=");
        let t = u64_to_string(self.expires_at_unix);
        s.append(t.as_str());
        s.append("\nchunk_size=");
        let t = u64_to_string(self.chunk_size);
        s.append(t.as_str());
        s.append("\nchunk_count=");
        let t = u64_to_string(self.chunk_count);
        s.append(t.as_str());
        s.append("\nreceived_size=");
        let t = u64_to_string(self.received_size);
        s.append(t.as_str());
        s.append("\ncomplete=");
        let t = bool_to_string(self.complete);
        s.append(t.as_str());
        s.append("\n");
        s
    }

    /// Parses a manifest from its text form: succeeds exactly when every
    /// field is present (last occurrence winning) and parses, and then
    /// returns the fields as written; otherwise the error names the first
    /// offending field.
    pub fn parse(content: &str) -> (r: Result<FileManifest, &'static str>)
        ensures
            r is Ok <==> manifest_error(content@) is None,
            r matches Err(e) ==> manifest_error(content@) == Some(e@),
            r matches Ok(m) ==> manifest_field(content@, "id"@) == Some(m.id@)
                && manifest_field(content@, "filename"@) == Some(m.filename@) && m.size
                == dec_val(manifest_field(content@, "size"@)->0) && m.created_at_unix == dec_val(
                manifest_field(content@, "created_at_unix"@)->0,
            ) && m.expires_at_unix == dec_val(manifest_field(content@, "expires_at_unix"@)->0)
                && m.chunk_size == dec_val(manifest_field(content@, "chunk_size"@)->0)
                && m.chunk_count == dec_val(manifest_field(content@, "chunk_count"@)->0)
                && m.received_size == dec_val(manifest_field(content@, "received_size"@)->0)
                && m.complete == (manifest_field(content@, "complete"@)->0 == "true"@),
    {
        let lines = manifest_text_lines(content);
        let id = match lookup_in_lines(&lines, "id") {
            Some(v) => v,
            None => {
                return Err("manifest missing key");
            },
        };
        let filename = match lookup_in_lines(&lines, "filename") {
            Some(v) => v,
            None => {
                return Err("manifest missing key");
            },
        };
        let size = match lookup_in_lines(&lines, "size") {
            Some(v) => match parse_u64(v.as_str()) {
                Some(n) => n,
                None => {
                    return Err("invalid size");
                },
            },
            None => {
                return Err("manifest missing key");
            },
        };
        let created_at_unix = match lookup_in_lines(&lines, "created_at_unix") {
            Some(v) => match parse_u64(v.as_str()) {
                Some(n) => n,
                None => {
                    return Err("invalid created_at_unix");
                },
            },
            None => {
                return Err("manifest missing key");
            },
        };
        let expires_at_unix = match lookup_in_lines(&lines, "expires_at_unix") {
            Some(v) => match parse_u64(v.as_str()) {
                Some(n) => n,
                None => {
                    return Err("invalid expires_at_unix");
                },
            },
            None => {
                return Err("manifest missing key");
            },
        };
        let chunk_size = match lookup_in_lines(&lines, "chunk_size") {
            Some(v) => match parse_u64(v.as_str()) {
                Some(n) => n,
                None => {
                    return Err("invalid chunk_size");
                },
            },
            None => {
                return Err("manifest missing key");
            },
        };
        let chunk_count = match lookup_in_lines(&lines, "chunk_count") {
            Some(v) => match parse_u64(v.as_str()) {
                Some(n) => n,
                None => {
                    return Err("invalid chunk_count");
                },
            },
            None => {
                return Err("manifest missing key");
            },
        };
        let received_size = match lookup_in_lines(&lines, "received_size") {
            Some(v) => match parse_u64(v.as_str()) {
                Some(n) => n,
                None => {
                    return Err("invalid received_size");
                },
            },
            None => {
                return Err("manifest missing key");
            },
        };
        let complete = match lookup_in_lines(&lines, "complete") {
            Some(v) => match parse_bool(v.as_str()) {
                Some(b) => b,
                None => {
                    return Err("invalid complete");
                },
            },
            None => {
                return Err("manifest missing key");
            },
        };
        proof {
            reveal_strlit("true");
            reveal_strlit("false");
            assert("true"@.len() == 4);
            assert("false"@.len() == 5);
            assert("true"@ != "false"@);
        }
        Ok(
            FileManifest {
                id,
                filename,
                size,
                created_at_unix,
                expires_at_unix,
                chunk_size,
                chunk_count,
                received_size,
                complete,
            },
        )
    }

    /// Whether the manifest's expiry has passed at time `now`.
    pub fn is_expired(&self, now: u64) -> (r: bool)
        ensures
            r == (self.expires_at_unix <= now),
    {
        self.expires_at_unix <= now
    }

    /// Accounts for one uploaded chunk of `len` bytes: rejected with the
    /// overflow error exactly when it would push the received total past
    /// the declared size; otherwise the totals grow by one chunk.
    pub fn record_chunk(&mut self, len: u64) -> (r: Result<(), &'static str>)
        requires
            old(self).chunk_count < u64::MAX,
        ensures
            match r {
                Ok(_) => old(self).received_size + len <= old(self).size && *final(self)
                    == (FileManifest {
                    received_size: (old(self).received_size + len) as u64,
                    chunk_count: (old(self).chunk_count + 1) as u64,
                    ..*old(self)
                }),
                Err(e) => old(self).received_size + len > old(self).size && *final(self) == *old(
                    self,
                ) && e@ == "payload exceeds declared size"@,
            },
    {
        if len > self.size || self.received_size > self.size - len {
            Err("payload exceeds declared size")
        } else {
            self.received_size = self.received_size + len;
            self.chunk_count = self.chunk_count + 1;
            Ok(())
        }
    }
}

/// Whether a completed, unexpired blob may be served.
#[derive(PartialEq, Eq, Debug)]
pub enum BlobAvailability {
    /// Complete and within its lifetime: serve it.
    Ready,
    /// Not fully uploaded: treat as missing.
    Incomplete,
    /// Past its expiry: delete the files and treat as missing.
    Expired,
}

/// The download decision for a staged blob at time `now`.
pub fn blob_availability(m: &FileManifest, now: u64) -> (r: BlobAvailability)
    ensures
        r is Incomplete <==> (!m.complete || m.received_size != m.size),
        r is Expired <==> (m.complete && m.received_size == m.size && m.expires_at_unix <= now),
        r is Ready <==> (m.complete && m.received_size == m.size && m.expires_at_unix > now),
{
    if !m.complete || m.received_size != m.size {
        BlobAvailability::Incomplete
    } else if m.expires_at_unix <= now {
        BlobAvailability::Expired
    } else {
        BlobAvailability::Ready
    }
}

/// Whether a directory entry's name is a finished manifest's: `.txt`, but
/// not a temporary `.tmp.txt`.
pub fn is_manifest_filename(name: &str) -> (r: bool)
    ensures
        r == (ends_with(name@, ".txt"@) && !ends_with(name@, ".tmp.txt"@)),
{
    str_ends_with(name, ".txt") && !str_ends_with(name, ".tmp.txt")
}

/// A digit string left-padded with zeros to eight characters.
pub open spec fn zero_pad8(d: Seq<char>) -> Seq<char> {
    if d.len() >= 8 {
        d
    } else {
        Seq::new((8 - d.len()) as nat, |i: int| '0') + d
    }
}

/// The file name of chunk number `index`: the index zero-padded to eight
/// digits, with the `.part` suffix.
pub fn chunk_file_name(index: u64) -> (r: String)
    ensures
        r@ == zero_pad8(dec_of(index as nat)) + ".part"@,
{
    let d = u64_to_string(index);
    let dn = d.as_str().unicode_len();
    let mut s = String::new();
    let pad: usize = if dn >= 8 {
        0
    } else {
        8 - dn
    };
    let mut k: usize = 0;
    while k < pad
        invariant
            k <= pad,
            s@ =~= Seq::new(k as nat, |i: int| '0'),
        decreases pad - k,
    {
        push_char(&mut s, '0');
        proof {
            assert(s@ =~= Seq::new((k + 1) as nat, |i: int| '0'));
        }
        k = k + 1;
    }
    s.append(d.as_str());
    s.append(".part");
    proof {
        assert(s@ =~= zero_pad8(dec_of(index as nat)) + ".part"@);
    }
    s
}

/// A field value that survives the line-oriented text form: free of line
/// breaks, and not ending in a carriage return.
pub open spec fn line_value_ok(s: Seq<char>) -> bool {
    !s.contains('\n') && (s.len() > 0 ==> s.last() != '\r')
}

proof fn lemma_digits_clean(s: Seq<char>)
    requires
        crate::text::all_dec_digits(s),
    ensures
        line_value_ok(s),
{
    assert forall|i: int| 0 <= i < s.len() implies s[i] != '\n' by {
        assert(crate::text::is_dec_digit(s[i]));
    }
    if s.len() > 0 {
        assert(crate::text::is_dec_digit(s.last()));
    }
}

proof fn lemma_line_ok(prefix: Seq<char>, value: Seq<char>)
    requires
        !prefix.contains('\n'),
        prefix.len() > 0,
        prefix.last() != '\r',
        line_value_ok(value),
    ensures
        !(prefix + value).contains('\n'),
        strip_cr(prefix + value) == prefix + value,
{
    let l = prefix + value;
    assert forall|i: int| 0 <= i < l.len() implies l[i] != '\n' by {
        if i < prefix.len() {
            assert(l[i] == prefix[i]);
        } else {
            assert(l[i] == value[i - prefix.len()]);
        }
    }
    if value.len() > 0 {
        assert(l.last() == value.last());
    } else {
        assert(l.last() == prefix.last());
    }
}

/// The lines a manifest's text form consists of, in field order, with the
/// empty segment after the trailing newline.
spec fn manifest_lines_spec(m: FileManifest) -> Seq<Seq<char>> {
    seq![
        "id="@ + m.id@,
        "filename="@ + m.filename@,
        "size="@ + dec_of(m.size as nat),
        "created_at_unix="@ + dec_of(m.created_at_unix as nat),
        "expires_at_unix="@ + dec_of(m.expires_at_unix as nat),
        "chunk_size="@ + dec_of(m.chunk_size as nat),
        "chunk_count="@ + dec_of(m.chunk_count as nat),
        "received_size="@ + dec_of(m.received_size as nat),
        "complete="@ + bool_text(m.complete),
        Seq::<char>::empty(),
    ]
}

#[verifier::rlimit(100)]
proof fn lemma_manifest_text_nested(m: FileManifest)
    ensures
        manifest_text_of(m) == manifest_lines_spec(m)[0] + seq!['\n'] + (manifest_lines_spec(
            m,
        )[1] + seq!['\n'] + (manifest_lines_spec(m)[2] + seq!['\n'] + (manifest_lines_spec(
            m,
        )[3] + seq!['\n'] + (manifest_lines_spec(m)[4] + seq!['\n'] + (manifest_lines_spec(
            m,
        )[5] + seq!['\n'] + (manifest_lines_spec(m)[6] + seq!['\n'] + (manifest_lines_spec(
            m,
        )[7] + seq!['\n'] + (manifest_lines_spec(m)[8] + seq!['\n']
            + Seq::<char>::empty())))))))),
{
    reveal_strlit("\n");
    reveal_strlit("\nfilename=");
    reveal_strlit("\nsize=");
    reveal_strlit("\ncreated_at_unix=");
    reveal_strlit("\nexpires_at_unix=");
    reveal_strlit("\nchunk_size=");
    reveal_strlit("\nchunk_count=");
    reveal_strlit("\nreceived_size=");
    reveal_strlit("\ncomplete=");
    reveal_strlit("filename=");
    reveal_strlit("size=");
    reveal_strlit("created_at_unix=");
    reveal_strlit("expires_at_unix=");
    reveal_strlit("chunk_size=");
    reveal_strlit("chunk_count=");
    reveal_strlit("received_size=");
    reveal_strlit("complete=");
    let nl = seq!['\n'];
    assert("\n"@ =~= nl);
    assert("\nfilename="@ =~= nl + "filename="@);
    assert("\nsize="@ =~= nl + "size="@);
    assert("\ncreated_at_unix="@ =~= nl + "created_at_unix="@);
    assert("\nexpires_at_unix="@ =~= nl + "expires_at_unix="@);
    assert("\nchunk_size="@ =~= nl + "chunk_size="@);
    assert("\nchunk_count="@ =~= nl + "chunk_count="@);
    assert("\nreceived_size="@ =~= nl + "received_size="@);
    assert("\ncomplete="@ =~= nl + "complete="@);
    let ls = manifest_lines_spec(m);
    assert(manifest_text_of(m) =~= ls[0] + nl + (ls[1] + nl + (ls[2] + nl + (ls[3] + nl + (
    ls[4] + nl + (ls[5] + nl + (ls[6] + nl + (ls[7] + nl + (ls[8] + nl
        + Seq::<char>::empty())))))))));
}

#[verifier::rlimit(100)]
proof fn lemma_manifest_lines_clean(m: FileManifest)
    requires
        line_value_ok(m.id@),
        line_value_ok(m.filename@),
    ensures
        forall|j: int|
            0 <= j < 9 ==> !(#[trigger] manifest_lines_spec(m)[j]).contains('\n') && strip_cr(
                manifest_lines_spec(m)[j],
            ) == manifest_lines_spec(m)[j],
{
    reveal_strlit("id=");
    reveal_strlit("filename=");
    reveal_strlit("size=");
    reveal_strlit("created_at_unix=");
    reveal_strlit("expires_at_unix=");
    reveal_strlit("chunk_size=");
    reveal_strlit("chunk_count=");
    reveal_strlit("received_size=");
    reveal_strlit("complete=");
    reveal_strlit("true");
    reveal_strlit("false");

    lemma_dec_round_trip(m.size as nat);
    lemma_dec_round_trip(m.created_at_unix as nat);
    lemma_dec_round_trip(m.expires_at_unix as nat);
    lemma_dec_round_trip(m.chunk_size as nat);
    lemma_dec_round_trip(m.chunk_count as nat);
    lemma_dec_round_trip(m.received_size as nat);
    lemma_digits_clean(dec_of(m.size as nat));
    lemma_digits_clean(dec_of(m.created_at_unix as nat));
    lemma_digits_clean(dec_of(m.expires_at_unix as nat));
    lemma_digits_clean(dec_of(m.chunk_size as nat));
    lemma_digits_clean(dec_of(m.chunk_count as nat));
    lemma_digits_clean(dec_of(m.received_size as nat));
    assert(line_value_ok(bool_text(m.complete)));

    lemma_line_ok("id="@, m.id@);
    lemma_line_ok("filename="@, m.filename@);
    lemma_line_ok("size="@, dec_of(m.size as nat));
    lemma_line_ok("created_at_unix="@, dec_of(m.created_at_unix as nat));
    lemma_line_ok("expires_at_unix="@, dec_of(m.expires_at_unix as nat));
    lemma_line_ok("chunk_size="@, dec_of(m.chunk_size as nat));
    lemma_line_ok("chunk_count="@, dec_of(m.chunk_count as nat));
    lemma_line_ok("received_size="@, dec_of(m.received_size as nat));
    lemma_line_ok("complete="@, bool_text(m.complete));
}

#[verifier::rlimit(100)]
proof fn lemma_manifest_lines(m: FileManifest)
    requires
        line_value_ok(m.id@),
        line_value_ok(m.filename@),
    ensures
        lines_of(manifest_text_of(m)) == manifest_lines_spec(m),
{
    let c = manifest_text_of(m);
    let nl = seq!['\n'];
    let ls = manifest_lines_spec(m);
    lemma_manifest_text_nested(m);
    lemma_manifest_lines_clean(m);

    let c9 = ls[8] + nl + Seq::<char>::empty();
    let c8 = ls[7] + nl + c9;
    let c7 = ls[6] + nl + c8;
    let c6 = ls[5] + nl + c7;
    let c5 = ls[4] + nl + c6;
    let c4 = ls[3] + nl + c5;
    let c3 = ls[2] + nl + c4;
    let c2 = ls[1] + nl + c3;
    let c1 = ls[0] + nl + c2;
    assert(c == c1);

    crate::text::lemma_split_on_prefix(ls[0], c2, '\n');
    crate::text::lemma_split_on_prefix(ls[1], c3, '\n');
    crate::text::lemma_split_on_prefix(ls[2], c4, '\n');
    crate::text::lemma_split_on_prefix(ls[3], c5, '\n');
    crate::text::lemma_split_on_prefix(ls[4], c6, '\n');
    crate::text::lemma_split_on_prefix(ls[5], c7, '\n');
    crate::text::lemma_split_on_prefix(ls[6], c8, '\n');
    crate::text::lemma_split_on_prefix(ls[7], c9, '\n');
    crate::text::lemma_split_on_prefix(ls[8], Seq::<char>::empty(), '\n');
    assert(split_on(Seq::<char>::empty(), '\n') == seq![Seq::<char>::empty()]);

    let segs = split_on(c, '\n');
    assert(segs =~= ls);

    assert(strip_cr(Seq::<char>::empty()) == Seq::<char>::empty());
    assert(lines_of(c) =~= ls) by {
        assert forall|j: int| 0 <= j < ls.len() implies lines_of(c)[j] == ls[j] by {
            assert(lines_of(c)[j] == strip_cr(segs[j]));
            assert(segs[j] == ls[j]);
        }
    }
}

#[verifier::rlimit(100)]
proof fn lemma_manifest_keys(m: FileManifest)
    ensures
        kv_of(manifest_lines_spec(m)[0]) == Some(("id"@, m.id@)),
        kv_of(manifest_lines_spec(m)[1]) == Some(("filename"@, m.filename@)),
        kv_of(manifest_lines_spec(m)[2]) == Some(("size"@, dec_of(m.size as nat))),
        kv_of(manifest_lines_spec(m)[3]) == Some(
            ("created_at_unix"@, dec_of(m.created_at_unix as nat)),
        ),
        kv_of(manifest_lines_spec(m)[4]) == Some(
            ("expires_at_unix"@, dec_of(m.expires_at_unix as nat)),
        ),
        kv_of(manifest_lines_spec(m)[5]) == Some(("chunk_size"@, dec_of(m.chunk_size as nat))),
        kv_of(manifest_lines_spec(m)[6]) == Some(
            ("chunk_count"@, dec_of(m.chunk_count as nat)),
        ),
        kv_of(manifest_lines_spec(m)[7]) == Some(
            ("received_size"@, dec_of(m.received_size as nat)),
        ),
        kv_of(manifest_lines_spec(m)[8]) == Some(("complete"@, bool_text(m.complete))),
        kv_of(manifest_lines_spec(m)[9]) is None,
{
    reveal_strlit("id");
    reveal_strlit("id=");
    reveal_strlit("filename");
    reveal_strlit("filename=");
    reveal_strlit("size");
    reveal_strlit("size=");
    reveal_strlit("created_at_unix");
    reveal_strlit("created_at_unix=");
    reveal_strlit("expires_at_unix");
    reveal_strlit("expires_at_unix=");
    reveal_strlit("chunk_size");
    reveal_strlit("chunk_size=");
    reveal_strlit("chunk_count");
    reveal_strlit("chunk_count=");
    reveal_strlit("received_size");
    reveal_strlit("received_size=");
    reveal_strlit("complete");
    reveal_strlit("complete=");
    reveal_strlit("=");

    assert(!("id"@).contains('='));
    assert("id="@ + m.id@ =~= "id"@ + "="@ + m.id@);
    lemma_kv_line("id"@, m.id@);
    assert(!("filename"@).contains('='));
    assert("filename="@ + m.filename@ =~= "filename"@ + "="@ + m.filename@);
    lemma_kv_line("filename"@, m.filename@);
    assert(!("size"@).contains('='));
    assert("size="@ + dec_of(m.size as nat) =~= "size"@ + "="@ + dec_of(m.size as nat));
    lemma_kv_line("size"@, dec_of(m.size as nat));
    assert(!("created_at_unix"@).contains('='));
    assert("created_at_unix="@ + dec_of(m.created_at_unix as nat) =~= "created_at_unix"@ + "="@
        + dec_of(m.created_at_unix as nat));
    lemma_kv_line("created_at_unix"@, dec_of(m.created_at_unix as nat));
    assert(!("expires_at_unix"@).contains('='));
    assert("expires_at_unix="@ + dec_of(m.expires_at_unix as nat) =~= "expires_at_unix"@ + "="@
        + dec_of(m.expires_at_unix as nat));
    lemma_kv_line("expires_at_unix"@, dec_of(m.expires_at_unix as nat));
    assert(!("chunk_size"@).contains('='));
    assert("chunk_size="@ + dec_of(m.chunk_size as nat) =~= "chunk_size"@ + "="@ + dec_of(
        m.chunk_size as nat,
    ));
    lemma_kv_line("chunk_size"@, dec_of(m.chunk_size as nat));
    assert(!("chunk_count"@).contains('='));
    assert("chunk_count="@ + dec_of(m.chunk_count as nat) =~= "chunk_count"@ + "="@ + dec_of(
        m.chunk_count as nat,
    ));
    lemma_kv_line("chunk_count"@, dec_of(m.chunk_count as nat));
    assert(!("received_size"@).contains('='));
    assert("received_size="@ + dec_of(m.received_size as nat) =~= "received_size"@ + "="@
        + dec_of(m.received_size as nat));
    lemma_kv_line("received_size"@, dec_of(m.received_size as nat));
    assert(!("complete"@).contains('='));
    assert("complete="@ + bool_text(m.complete) =~= "complete"@ + "="@ + bool_text(m.complete));
    lemma_kv_line("complete"@, bool_text(m.complete));
    assert(find_char(Seq::<char>::empty(), '=') == -1);
}

/// Law (manifest round trip): the text form of a manifest parses back to
/// exactly the manifest it was written from, as long as its id and
/// filename fit on one line. Each field is found, every number reads back
/// to its value, and no parse error arises.
#[verifier::rlimit(100)]
pub proof fn lemma_manifest_round_trip(m: FileManifest)
    requires
        line_value_ok(m.id@),
        line_value_ok(m.filename@),
    ensures
        manifest_error(manifest_text_of(m)) is None,
        manifest_field(manifest_text_of(m), "id"@) == Some(m.id@),
        manifest_field(manifest_text_of(m), "filename"@) == Some(m.filename@),
        manifest_field(manifest_text_of(m), "size"@) == Some(dec_of(m.size as nat)),
        dec_val(dec_of(m.size as nat)) == m.size,
        manifest_field(manifest_text_of(m), "created_at_unix"@) == Some(
            dec_of(m.created_at_unix as nat),
        ),
        dec_val(dec_of(m.created_at_unix as nat)) == m.created_at_unix,
        manifest_field(manifest_text_of(m), "expires_at_unix"@) == Some(
            dec_of(m.expires_at_unix as nat),
        ),
        dec_val(dec_of(m.expires_at_unix as nat)) == m.expires_at_unix,
        manifest_field(manifest_text_of(m), "chunk_size"@) == Some(dec_of(m.chunk_size as nat)),
        dec_val(dec_of(m.chunk_size as nat)) == m.chunk_size,
        manifest_field(manifest_text_of(m), "chunk_count"@) == Some(
            dec_of(m.chunk_count as nat),
        ),
        dec_val(dec_of(m.chunk_count as nat)) == m.chunk_count,
        manifest_field(manifest_text_of(m), "received_size"@) == Some(
            dec_of(m.received_size as nat),
        ),
        dec_val(dec_of(m.received_size as nat)) == m.received_size,
        manifest_field(manifest_text_of(m), "complete"@) == Some(bool_text(m.complete)),
        (bool_text(m.complete) == "true"@) == m.complete,
{
    reveal_strlit("id");
    reveal_strlit("filename");
    reveal_strlit("size");
    reveal_strlit("created_at_unix");
    reveal_strlit("expires_at_unix");
    reveal_strlit("chunk_size");
    reveal_strlit("chunk_count");
    reveal_strlit("received_size");
    reveal_strlit("complete");
    reveal_strlit("true");
    reveal_strlit("false");

    lemma_manifest_lines(m);
    lemma_manifest_keys(m);
    lemma_dec_round_trip(m.size as nat);
    lemma_dec_round_trip(m.created_at_unix as nat);
    lemma_dec_round_trip(m.expires_at_unix as nat);
    lemma_dec_round_trip(m.chunk_size as nat);
    lemma_dec_round_trip(m.chunk_count as nat);
    lemma_dec_round_trip(m.received_size as nat);

    // The nine keys are pairwise distinct.
    assert("id"@.len() == 2);
    assert("filename"@.len() == 8);
    assert("size"@.len() == 4);
    assert("created_at_unix"@.len() == 15);
    assert("expires_at_unix"@.len() == 15);
    assert("chunk_size"@.len() == 10);
    assert("chunk_count"@.len() == 11);
    assert("received_size"@.len() == 13);
    assert("complete"@.len() == 8);
    assert("created_at_unix"@ != "expires_at_unix"@) by {
        assert("created_at_unix"@[0] == 'c');
        assert("expires_at_unix"@[0] == 'e');
    }
    assert("filename"@ != "complete"@) by {
        assert("filename"@[0] == 'f');
        assert("complete"@[0] == 'c');
    }

    let lines = manifest_lines_spec(m);
    lemma_lookup_unique(lines, "id"@, 0);
    lemma_lookup_unique(lines, "filename"@, 1);
    lemma_lookup_unique(lines, "size"@, 2);
    lemma_lookup_unique(lines, "created_at_unix"@, 3);
    lemma_lookup_unique(lines, "expires_at_unix"@, 4);
    lemma_lookup_unique(lines, "chunk_size"@, 5);
    lemma_lookup_unique(lines, "chunk_count"@, 6);
    lemma_lookup_unique(lines, "received_size"@, 7);
    lemma_lookup_unique(lines, "complete"@, 8);

    assert(("true"@ == "false"@) == false) by {
        assert("true"@.len() == 4);
        assert("false"@.len() == 5);
    }
}

/// Where the staging collaborator keeps its files: both directories as
/// plain path strings.
pub struct AppState {
    pub manifests_dir: String,
    pub chunks_dir: String,
}

impl Clone for AppState {
    fn clone(&self) -> (r: Self)
        ensures
            r == *self,
    {
        AppState { manifests_dir: self.manifests_dir.clone(), chunks_dir: self.chunks_dir.clone() }
    }
}

impl AppState {
    /// Builds the state over the two storage directories.
    pub fn new(manifests_dir: String, chunks_dir: String) -> (r: AppState)
        ensures
            r.manifests_dir == manifests_dir,
            r.chunks_dir == chunks_dir,
    {
        AppState { manifests_dir, chunks_dir }
    }

    /// The manifest file path for a transfer id.
    pub fn manifest_path(&self, id: &str) -> (r: String)
        ensures
            r@ == self.manifests_dir@ + "/"@ + id@ + ".txt"@,
    {
        let mut s = self.manifests_dir.clone();
        s.append("/");
        s.append(id);
        s.append(".txt");
        s
    }

    /// The temporary manifest file path for a transfer id.
    pub fn manifest_tmp_path(&self, id: &str) -> (r: String)
        ensures
            r@ == self.manifests_dir@ + "/"@ + id@ + ".tmp.txt"@,
    {
        let mut s = self.manifests_dir.clone();
        s.append("/");
        s.append(id);
        s.append(".tmp.txt");
        s
    }

    /// The chunk directory for a transfer id.
    pub fn chunk_dir(&self, id: &str) -> (r: String)
        ensures
            r@ == self.chunks_dir@ + "/"@ + id@,
    {
        let mut s = self.chunks_dir.clone();
        s.append("/");
        s.append(id);
        s
    }

    /// The temporary chunk directory for a transfer id.
    pub fn chunk_tmp_dir(&self, id: &str) -> (r: String)
        ensures
            r@ == self.chunks_dir@ + "/"@ + id@ + ".tmp"@,
    {
        let mut s = self.chunks_dir.clone();
        s.append("/");
        s.append(id);
        s.append(".tmp");
        s
    }
}

} // verus!
