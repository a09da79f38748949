//! How a session is laid down in the store: which file holds it, in which
//! form, and what its saving does to the index.

use crate::errors::{ReplayError, ReplayResult};
use crate::session::index::SessionIndexFile;
use crate::session::Session;
use vstd::prelude::*;
use vstd::string::*;

verus! {

/// The level at which sessions are compressed.
pub const DEFAULT_COMPRESSION_LEVEL: i32 = 3;

/// What the zstd frames `frame` expand to; `None` where `frame` is not made
/// of zstd frames.
pub uninterp spec fn zstd_decoded(frame: Seq<u8>) -> Option<Seq<u8>>;

/// The zstd frame that compressing `data` at `level` yields; `None` where
/// the data cannot be compressed at that level.
pub uninterp spec fn zstd_encoded(data: Seq<u8>, level: i32) -> Option<Seq<u8>>;

/// `zstd::encode_all`: whether it succeeds and what it hands back are a
/// function of the data and the level alone, and what it hands back expands
/// to the data it was given.
#[verifier::external_body]
fn zstd_encode(data: &[u8], level: i32) -> (r: Result<Vec<u8>, std::io::Error>)
    ensures
        r is Ok <==> zstd_encoded(data@, level) is Some,
        r is Ok ==> r.unwrap()@ == zstd_encoded(data@, level).unwrap(),
        r is Ok ==> zstd_decoded(r.unwrap()@) == Some(data@),
{
    zstd::encode_all(data, level)
}

/// `zstd::decode_all`: the expansion is a function of the frames alone, and
/// fails where the bytes are not zstd frames.
#[verifier::external_body]
fn zstd_decode(frame: &[u8]) -> (r: Result<Vec<u8>, std::io::Error>)
    ensures
        r is Ok <==> zstd_decoded(frame@) is Some,
        r is Ok ==> r.unwrap()@ == zstd_decoded(frame@).unwrap(),
{
    zstd::decode_all(frame)
}

/// The form in which a session is stored.
#[derive(Clone, Copy, Debug, PartialEq, Eq, Structural)]
pub enum StorageFormat {
    /// JSON in a zstd frame, in a file that ends in `.zst`.
    Zst,
    /// Plain JSON, in a file that ends in `.json`.
    Json,
}

/// The bytes that hold the JSON `json` in the form `format`: the JSON
/// itself, or its zstd frame at level 3; `None` where there is no such
/// frame.
pub open spec fn stored(json: Seq<u8>, format: StorageFormat) -> Option<Seq<u8>> {
    match format {
        StorageFormat::Zst => zstd_encoded(json, DEFAULT_COMPRESSION_LEVEL),
        StorageFormat::Json => Some(json),
    }
}

/// The JSON that the stored bytes `stored` hold; `None` where they cannot be
/// expanded.
pub open spec fn loaded(stored: Seq<u8>, format: StorageFormat) -> Option<Seq<u8>> {
    match format {
        StorageFormat::Zst => zstd_decoded(stored),
        StorageFormat::Json => Some(stored),
    }
}

/// The file of the session `id` in the form whose files end in
/// `extension`, from the root of the store.
pub open spec fn session_path(id: Seq<char>, extension: Seq<char>) -> Seq<char> {
    "sessions/"@ + id + "."@ + extension
}

impl StorageFormat {
    /// What the names of the files of this form end in.
    pub open spec fn extension_text(&self) -> Seq<char> {
        match self {
            StorageFormat::Zst => "zst"@,
            StorageFormat::Json => "json"@,
        }
    }

    /// What the names of the files of this form end in.
    pub fn extension(&self) -> (r: &'static str)
        ensures
            r@ == self.extension_text(),
    {
        match self {
            StorageFormat::Zst => "zst",
            StorageFormat::Json => "json",
        }
    }

    /// The form in which a session is saved: compressed, unless the user
    /// asked for plain JSON. One file is written, in this form.
    pub fn for_save(compress: bool) -> (r: Self)
        ensures
            r == if compress {
                StorageFormat::Zst
            } else {
                StorageFormat::Json
            },
    {
        if compress {
            StorageFormat::Zst
        } else {
            StorageFormat::Json
        }
    }

    /// The form in which a session is loaded or removed: the compressed
    /// file where there is one, else the plain one.
    pub open spec fn for_load_spec(zst_exists: bool) -> Self {
        if zst_exists {
            StorageFormat::Zst
        } else {
            StorageFormat::Json
        }
    }

    /// The form in which a session is loaded or removed: the compressed
    /// file where there is one, else the plain one.
    pub fn for_load(zst_exists: bool) -> (r: Self)
        ensures
            r == Self::for_load_spec(zst_exists),
    {
        if zst_exists {
            StorageFormat::Zst
        } else {
            StorageFormat::Json
        }
    }

    /// The bytes to store for the JSON `json`. Plain JSON is stored as it
    /// is, and compression succeeds wherever the JSON has a frame at level
    /// 3; whatever is stored expands to `json` again.
    pub fn encode(&self, json: Vec<u8>) -> (r: ReplayResult<Vec<u8>>)
        ensures
            r is Ok <==> stored(json@, *self) is Some,
            r is Ok <==> (*self == StorageFormat::Json || zstd_encoded(
                json@,
                DEFAULT_COMPRESSION_LEVEL,
            ) is Some),
            r is Ok ==> r.unwrap()@ == stored(json@, *self).unwrap(),
            r is Ok ==> loaded(r.unwrap()@, *self) == Some(json@),
            r is Err ==> r.unwrap_err() is Io,
    {
        match self {
            StorageFormat::Zst => match zstd_encode(json.as_slice(), DEFAULT_COMPRESSION_LEVEL) {
                Ok(frame) => Ok(frame),
                Err(e) => Err(ReplayError::Io(e)),
            },
            StorageFormat::Json => Ok(json),
        }
    }

    /// The JSON that the stored bytes `stored` hold.
    pub fn decode(&self, stored: Vec<u8>) -> (r: ReplayResult<Vec<u8>>)
        ensures
            match loaded(stored@, *self) {
                Some(json) => r is Ok && r.unwrap()@ == json,
                None => r is Err && r.unwrap_err() is Io,
            },
    {
        match self {
            StorageFormat::Zst => match zstd_decode(stored.as_slice()) {
                Ok(json) => Ok(json),
                Err(e) => Err(ReplayError::Io(e)),
            },
            StorageFormat::Json => Ok(stored),
        }
    }
}

/// Plain storage loses nothing, whatever the bytes: what is stored as
/// plain JSON is read back as it was.
pub proof fn lemma_plain_round_trip(json: Seq<u8>)
    ensures
        loaded(json, StorageFormat::Json) == Some(json),
{
}

/// A file to write, from the root of the store.
#[derive(Debug)]
pub struct StoredFile {
    pub path: String,
    pub bytes: Vec<u8>,
}

impl Session {
    /// The file of the session `id` in the form whose files end in
    /// `extension`, from the root of the store.
    pub fn get_session_path(id: &str, extension: &str) -> (r: String)
        ensures
            r@ == session_path(id@, extension@),
    {
        let mut path = String::from_str("sessions/");
        path.append(id);
        path.append(".");
        path.append(extension);
        path
    }

    /// Lays the session down in the store: given its JSON, the file to
    /// write, in the compressed form unless `compress` is off, and the
    /// session's id as the newest entry of `index`. This succeeds unless
    /// the JSON is to be compressed and has no frame at level 3; the index
    /// then stays as it is.
    pub fn save_session(&self, json: Vec<u8>, compress: bool, index: &mut SessionIndexFile) -> (r:
        ReplayResult<StoredFile>)
        ensures
            r is Ok <==> (!compress || zstd_encoded(json@, DEFAULT_COMPRESSION_LEVEL) is Some),
            r is Ok ==> {
                let file = r.unwrap();
                let format = if compress {
                    StorageFormat::Zst
                } else {
                    StorageFormat::Json
                };
                &&& file.path@ == session_path(self.id@, format.extension_text())
                &&& Some(file.bytes@) == stored(json@, format)
                &&& loaded(file.bytes@, format) == Some(json@)
                &&& final(index)@ == old(index)@ + vstd::utf8::encode_utf8(self.id@)
            },
            r is Err ==> r.unwrap_err() is Io && final(index)@ == old(index)@,
    {
        let format = StorageFormat::for_save(compress);
        let bytes = match format.encode(json) {
            Ok(bytes) => bytes,
            Err(e) => {
                return Err(e);
            },
        };
        let path = Self::get_session_path(self.id.as_str(), format.extension());
        index.push_session(self.id.as_str());
        Ok(StoredFile { path, bytes })
    }

    /// Takes the session at position `n` out of `index` and names the file
    /// to delete: the compressed one where there is one, else the plain one.
    pub fn remove_session_by_index(index: &mut SessionIndexFile, n: u32, zst_exists: bool) -> (r:
        ReplayResult<String>)
        ensures
            match crate::session::index::lookup(old(index)@, n as int) {
                Ok(_) => r is Ok && r.unwrap()@ == session_path(
                    crate::session::index::id_text(crate::session::index::entry(old(index)@, n as int)),
                    StorageFormat::for_load_spec(zst_exists).extension_text(),
                ) && (vstd::utf8::valid_utf8(crate::session::index::entry(old(index)@, n as int))
                    ==> r.unwrap()@ == session_path(
                    vstd::utf8::decode_utf8(crate::session::index::entry(old(index)@, n as int)),
                    StorageFormat::for_load_spec(zst_exists).extension_text(),
                )) && final(index)@ == crate::session::index::without_entry(
                    old(index)@,
                    n as int,
                ),
                Err(text) => r is Err && r.unwrap_err().is_session_error(text) && final(index)@
                    == old(index)@,
            },
    {
        match index.remove_session_id(n) {
            Ok(id) => Ok(
                Self::get_session_path(id.as_str(), StorageFormat::for_load(zst_exists).extension()),
            ),
            Err(e) => Err(e),
        }
    }
}

} // verus!
