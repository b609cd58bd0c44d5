//! File metadata carried by a transfer: what the sender declares in its
//! first text frame, normalized for the relay.

use vstd::prelude::*;

verus! {

/// The mime type used when the sender declares none.
pub open spec fn default_mime() -> Seq<char> {
    "application/octet-stream"@
}

/// An empty declared mime type falls back to the default; anything else is
/// kept as declared.
pub open spec fn normalized_mime(m: Seq<char>) -> Seq<char> {
    if m.len() == 0 {
        default_mime()
    } else {
        m
    }
}

/// What the sender declared about the file. `size` is advisory: the relay
/// forwards bytes without holding them against it.
#[derive(PartialEq, Eq, Debug)]
pub struct FileMetadata {
    pub filename: String,
    pub size: u64,
    pub mime_type: String,
}

impl Clone for FileMetadata {
    fn clone(&self) -> (r: Self)
        ensures
            r == *self,
    {
        FileMetadata {
            filename: self.filename.clone(),
            size: self.size,
            mime_type: self.mime_type.clone(),
        }
    }
}

impl FileMetadata {
    /// Builds the metadata the relay keeps from the fields of the sender's
    /// first frame, applying the mime-type default.
    pub fn from_init(filename: String, size: u64, mime_type: String) -> (r: FileMetadata)
        ensures
            r.filename == filename,
            r.size == size,
            r.mime_type@ == normalized_mime(mime_type@),
    {
        let mime = if mime_type.as_str().is_empty() {
            String::from_str("application/octet-stream")
        } else {
            mime_type
        };
        FileMetadata { filename, size, mime_type: mime }
    }
}

} // verus!
