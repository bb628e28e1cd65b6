//! Blob storage for the compact-index cache: blobs with their HTTP and
//! integrity metadata, checksum verification, and the rules for storage
//! keys.

use vstd::prelude::*;
use crate::bindings::{
    base64_encode, base64_standard, joined_path, path_component_kinds, path_components, path_join,
    sha256_digest, sha256_of,
};
use crate::gem_name::is_dot_component;
use crate::text::{chars_of, find_char, find_from};

verus! {

/// Why a storage operation failed.
#[derive(Debug)]
pub enum StorageError {
    IoError(std::io::Error),
    SerdeJson(serde_json::Error),
    /// The storage key contains an unsafe path component.
    InvalidKey,
    /// There is no content to verify against a digest.
    EmptyContent,
    /// The content's checksum differs from the one the server gave.
    MismatchedChecksum { path: String, message: String },
}

/// A blob: raw content with optional metadata for cache validation (an
/// ETag, RFC 7232) and integrity checking (a SHA-256 digest in base64).
#[derive(Debug, Clone)]
pub struct Blob {
    pub content: Vec<u8>,
    pub etag: Option<String>,
    pub sha256: Option<String>,
}

impl Blob {
    /// A blob without metadata.
    pub fn new(content: Vec<u8>) -> (b: Blob)
        ensures
            b.content@ == content@,
            b.etag is None,
            b.sha256 is None,
    {
        Blob { content, etag: None, sha256: None }
    }

    /// The blob with its ETag set.
    pub fn with_etag(self, etag: String) -> (b: Blob)
        ensures
            b.content@ == self.content@,
            b.etag == Some(etag),
            b.sha256 == self.sha256,
    {
        let mut b = self;
        b.etag = Some(etag);
        b
    }

    /// The blob with its SHA-256 digest set.
    pub fn with_sha256(self, sha256: String) -> (b: Blob)
        ensures
            b.content@ == self.content@,
            b.etag == self.etag,
            b.sha256 == Some(sha256),
    {
        let mut b = self;
        b.sha256 = Some(sha256);
        b
    }

    /// A new blob: this blob's content followed by `data`, with the metadata
    /// given.
    pub fn append(self, data: &[u8], etag: Option<String>, sha256: Option<String>) -> (b: Blob)
        ensures
            b.content@ == self.content@ + data@,
            b.etag == etag,
            b.sha256 == sha256,
    {
        let mut content = self.content;
        let mut i: usize = 0;
        let ghost start = content@;
        while i < data.len()
            invariant
                i <= data@.len(),
                content@ == start + data@.subrange(0, i as int),
            decreases data@.len() - i,
        {
            content.push(data[i]);
            assert(content@ =~= start + data@.subrange(0, i + 1));
            i = i + 1;
        }
        assert(data@.subrange(0, data@.len() as int) =~= data@);
        Blob { content, etag, sha256 }
    }

    /// A blob with content and optional metadata.
    pub fn with_metadata(content: Vec<u8>, etag: Option<String>, sha256: Option<String>) -> (b: Blob)
        ensures
            b.content@ == content@,
            b.etag == etag,
            b.sha256 == sha256,
    {
        Blob { content, etag, sha256 }
    }

    /// The size of the content in bytes.
    pub fn size(&self) -> (n: u64)
        requires
            self.content@.len() <= u64::MAX,
        ensures
            n == self.content@.len(),
    {
        self.content.len() as u64
    }

    /// The ETag, if there is one.
    pub fn etag(&self) -> (e: Option<&str>)
        ensures
            e.deep_view() == self.etag.deep_view(),
    {
        match &self.etag {
            Some(e) => Some(e.as_str()),
            None => None,
        }
    }

    /// The SHA-256 digest, if there is one.
    pub fn sha256(&self) -> (d: Option<&str>)
        ensures
            d.deep_view() == self.sha256.deep_view(),
    {
        match &self.sha256 {
            Some(d) => Some(d.as_str()),
            None => None,
        }
    }
}

} // verus!

verus! {

/// The end of the `/`-separated component of `k` that starts at `p`.
pub open spec fn component_end(k: Seq<char>, p: int) -> int {
    match find_from(k, p, '/') {
        Some(e) => e,
        None => k.len() as int,
    }
}

/// Some `/`-separated component of `k`, from the one that starts at `p` on,
/// is empty, `.` or `..`.
pub open spec fn bad_component_from(k: Seq<char>, p: int) -> bool
    decreases k.len() - p,
{
    let e = component_end(k, p);
    let c = k.subrange(p, e);
    c.len() == 0 || is_dot_component(c) || (0 <= p <= e < k.len() && bad_component_from(
        k,
        e + 1,
    ))
}

/// The kind of a path component, as `std::path::Component` tells them
/// apart.
#[derive(Debug, Clone, Copy, PartialEq, Eq, Structural)]
pub enum PathComponent {
    /// A Windows prefix such as `C:`.
    Prefix,
    /// The root directory.
    RootDir,
    /// `.`
    CurDir,
    /// `..`
    ParentDir,
    /// A name.
    Normal,
}

/// Every component is a name.
pub open spec fn all_normal(cs: Seq<PathComponent>) -> bool {
    forall|i: int| 0 <= i < cs.len() ==> #[trigger] cs[i] == PathComponent::Normal
}

/// Whether every path component of `key` is a name; so it is for a key
/// that passes the text rules.
fn all_components_normal(key: &str) -> (b: bool)
    ensures
        b == all_normal(path_components(key@)),
        key_refused(key@) || b,
{
    let kinds = path_component_kinds(key);
    let mut i: usize = 0;
    while i < kinds.len()
        invariant
            i <= kinds@.len(),
            kinds@ == path_components(key@),
            all_normal(kinds@) || key_refused(key@),
            forall|j: int| 0 <= j < i ==> #[trigger] kinds@[j] == PathComponent::Normal,
        decreases kinds@.len() - i,
    {
        if kinds[i] != PathComponent::Normal {
            return false;
        }
        i = i + 1;
    }
    true
}

/// A storage key that may not be used as a path below the storage root:
/// empty, absolute, holding `\` or `:`, or with an empty, `.` or `..`
/// component.
pub open spec fn key_refused(k: Seq<char>) -> bool {
    ||| k.len() == 0
    ||| k[0] == '/'
    ||| k.contains('\\')
    ||| k.contains(':')
    ||| bad_component_from(k, 0)
}

fn contains_char(cs: &[char], c: char) -> (b: bool)
    ensures
        b == cs@.contains(c),
{
    proof {
        crate::text::lemma_find_from(cs@, 0, c);
    }
    match find_char(cs, 0, c) {
        Some(k) => {
            assert(cs@[k as int] == c);
            true
        },
        None => false,
    }
}

fn has_bad_component(cs: &[char]) -> (b: bool)
    ensures
        b == bad_component_from(cs@, 0),
{
    let n = cs.len();
    let mut p: usize = 0;
    loop
        invariant
            n == cs@.len(),
            p <= n,
            bad_component_from(cs@, 0) == bad_component_from(cs@, p as int),
        decreases n - p,
    {
        let e = match find_char(cs, p, '/') {
            Some(e) => e,
            None => n,
        };
        let len = e - p;
        let dot = (len == 1 && cs[p] == '.') || (len == 2 && cs[p] == '.' && cs[p + 1] == '.');
        proof {
            let c = cs@.subrange(p as int, e as int);
            if c =~= seq!['.'] {
                assert(c[0] == '.');
            }
            if c =~= seq!['.', '.'] {
                assert(c[0] == '.' && c[1] == '.');
            }
            if len == 1 && cs[p as int] == '.' {
                assert(c =~= seq!['.']);
            }
            if len == 2 && cs[p as int] == '.' && cs[p + 1] == '.' {
                assert(c =~= seq!['.', '.']);
            }
        }
        if len == 0 || dot {
            return true;
        }
        if e >= n {
            return false;
        }
        p = e + 1;
    }
}

/// Checks that `key` may be used as a path below the storage root: the text
/// rules, then that every path component is a name, which holds for every
/// key that passes them.
pub fn validate_key(key: &str) -> (r: Result<(), StorageError>)
    ensures
        r is Ok <==> !key_refused(key@),
        r is Ok ==> all_normal(path_components(key@)),
        r is Err ==> r matches Err(StorageError::InvalidKey),
{
    let cs = chars_of(key);
    let s = cs.as_slice();
    if cs.len() == 0 || cs[0] == '/' || contains_char(s, '\\') || contains_char(s, ':')
        || has_bad_component(s) || !all_components_normal(key) {
        return Err(StorageError::InvalidKey);
    }
    Ok(())
}

/// The `/`-separated component of `k` that starts at `p` is neither empty
/// nor `.` nor `..`.
pub open spec fn plain_component_at(k: Seq<char>, p: int) -> bool {
    let c = k.subrange(p, component_end(k, p));
    c.len() > 0 && !is_dot_component(c)
}

proof fn lemma_components_plain_from(k: Seq<char>, p: int)
    requires
        0 <= p <= k.len(),
        !bad_component_from(k, p),
    ensures
        forall|q: int|
            p <= q < k.len() && (q == p || k[q - 1] == '/') ==> #[trigger] plain_component_at(k, q),
    decreases k.len() - p,
{
    crate::text::lemma_find_from(k, p, '/');
    let e = component_end(k, p);
    if 0 <= p <= e < k.len() {
        lemma_components_plain_from(k, e + 1);
    }
    assert forall|q: int| p <= q < k.len() && (q == p || k[q - 1] == '/') implies #[trigger] plain_component_at(k, q) by {
        if q != p {
            assert(k[q - 1] == '/');
            assert(q - 1 >= e);
        }
    }
}

/// A key that is accepted names a path strictly below the storage root: it
/// is relative, holds no `\` or `:`, and each of its `/`-separated
/// components is neither empty nor `.` nor `..`.
pub proof fn lemma_accepted_key_stays_below_root(k: Seq<char>)
    requires
        !key_refused(k),
    ensures
        k.len() > 0,
        k[0] != '/',
        !k.contains('\\'),
        !k.contains(':'),
        forall|p: int| 0 <= p < k.len() && (p == 0 || k[p - 1] == '/') ==> #[trigger] plain_component_at(k, p),
{
    lemma_components_plain_from(k, 0);
}

/// The message of a checksum mismatch.
pub open spec fn mismatch_message(expected: Seq<char>, actual: Seq<char>) -> Seq<char> {
    "Expected digest "@ + expected + ", got "@ + actual
}

impl Blob {
    /// Verifies the content against the stored SHA-256 digest: without a
    /// digest there is nothing to check; with one, empty content is refused,
    /// and otherwise the base64 of the content's SHA-256 must equal it.
    pub fn verify(&self) -> (r: Result<(), StorageError>)
        ensures
            match self.sha256 {
                None => r is Ok,
                Some(expected) => if self.content@.len() == 0 {
                    r matches Err(StorageError::EmptyContent)
                } else if base64_standard(sha256_of(self.content@)) == expected@ {
                    r is Ok
                } else {
                    r matches Err(StorageError::MismatchedChecksum { path, message }) && path@
                        == "blob"@ && message@ == mismatch_message(
                        expected@,
                        base64_standard(sha256_of(self.content@)),
                    )
                },
            },
    {
        match &self.sha256 {
            None => Ok(()),
            Some(expected) => {
                if self.content.len() == 0 {
                    return Err(StorageError::EmptyContent);
                }
                let hash = sha256_digest(self.content.as_slice());
                let actual = base64_encode(hash.as_slice());
                if actual != *expected {
                    let mut message = String::from_str("Expected digest ");
                    message.append(expected.as_str());
                    message.append(", got ");
                    message.append(actual.as_str());
                    return Err(
                        StorageError::MismatchedChecksum {
                            path: String::from_str("blob"),
                            message,
                        },
                    );
                }
                Ok(())
            },
        }
    }
}

/// Storage backends (filesystem, object stores, ...) that the gem index
/// client keeps blobs in.
pub trait Storage {
    /// Whether a blob exists at `key`.
    fn blob_exists(&self, key: &str) -> bool;

    /// The blob at `key`, with its metadata.
    fn read_blob(&self, key: &str) -> Result<Blob, StorageError>;

    /// Stores `blob` and its metadata at `key`.
    fn write_blob(&self, key: &str, blob: &Blob) -> Result<(), StorageError>;
}

/// Storage in a directory: each blob in a file at its key, and its metadata
/// in `metadata/KEY.json`. The directory is held as text.
pub struct FilesystemStorage {
    base_path: String,
}

impl FilesystemStorage {
    /// The directory the blobs are stored in.
    pub closed spec fn base(&self) -> Seq<char> {
        self.base_path@
    }

    pub fn new(base_path: String) -> (s: FilesystemStorage)
        ensures
            s.base() == base_path@,
    {
        FilesystemStorage { base_path }
    }

    /// The directory the blobs are stored in.
    pub fn base_path(&self) -> (p: &str)
        ensures
            p@ == self.base(),
    {
        self.base_path.as_str()
    }

    /// The path of the blob at `key`, for a key that may be used: the
    /// storage root joined with the key.
    pub fn resolve_path(&self, key: &str) -> (r: Result<String, StorageError>)
        ensures
            r is Ok <==> !key_refused(key@),
            r is Err ==> r matches Err(StorageError::InvalidKey),
            r matches Ok(p) ==> p@ == joined_path(self.base(), key@),
    {
        match validate_key(key) {
            Ok(()) => Ok(path_join(self.base_path.as_str(), key)),
            Err(e) => Err(e),
        }
    }

    /// The path of the metadata of the blob at `key`: `metadata/KEY.json`
    /// below the storage root, that is the root joined with `metadata`, then
    /// joined with the key followed by `.json`.
    pub fn metadata_path(&self, key: &str) -> (r: Result<String, StorageError>)
        ensures
            r is Ok <==> !key_refused(key@),
            r is Err ==> r matches Err(StorageError::InvalidKey),
            r matches Ok(p) ==> p@ == joined_path(
                joined_path(self.base(), "metadata"@),
                key@ + ".json"@,
            ),
    {
        match validate_key(key) {
            Ok(()) => {
                let dir = path_join(self.base_path.as_str(), "metadata");
                let mut file = key.to_owned();
                file.append(".json");
                Ok(path_join(dir.as_str(), file.as_str()))
            },
            Err(e) => Err(e),
        }
    }
}

pub struct BlobModel {
    pub content: Seq<u8>,
    pub etag: Option<Seq<char>>,
    pub sha256: Option<Seq<char>>,
}

impl DeepView for Blob {
    type V = BlobModel;

    open spec fn deep_view(&self) -> BlobModel {
        BlobModel {
            content: self.content@,
            etag: self.etag.deep_view(),
            sha256: self.sha256.deep_view(),
        }
    }
}

/// The metadata stored beside a blob: its size in bytes, and its ETag and
/// SHA-256 digest when it has them.
#[derive(Debug, Clone, PartialEq, Eq)]
pub struct MetadataFile {
    pub bytesize: u64,
    pub etag: Option<String>,
    pub sha256: Option<String>,
}

pub struct MetadataModel {
    pub bytesize: nat,
    pub etag: Option<Seq<char>>,
    pub sha256: Option<Seq<char>>,
}

impl DeepView for MetadataFile {
    type V = MetadataModel;

    open spec fn deep_view(&self) -> MetadataModel {
        MetadataModel {
            bytesize: self.bytesize as nat,
            etag: self.etag.deep_view(),
            sha256: self.sha256.deep_view(),
        }
    }
}

/// The metadata written with a blob: its size and its ETag and digest.
pub open spec fn metadata_of(b: BlobModel) -> MetadataModel {
    MetadataModel { bytesize: b.content.len(), etag: b.etag, sha256: b.sha256 }
}

/// The blob read back from stored content and, if it could be read, its
/// metadata; without metadata the blob has no ETag and no digest.
pub open spec fn stored_blob(content: Seq<u8>, m: Option<MetadataModel>) -> BlobModel {
    match m {
        Some(m) => BlobModel { content, etag: m.etag, sha256: m.sha256 },
        None => BlobModel { content, etag: None, sha256: None },
    }
}

/// The metadata written with `blob`.
pub fn metadata_for(blob: &Blob) -> (m: MetadataFile)
    requires
        blob.content@.len() <= u64::MAX,
    ensures
        m.deep_view() == metadata_of(blob.deep_view()),
{
    MetadataFile { bytesize: blob.size(), etag: blob.etag.clone(), sha256: blob.sha256.clone() }
}

/// The blob read back from stored content and, if it could be read, its
/// metadata.
pub fn blob_from_stored(content: Vec<u8>, metadata: Option<MetadataFile>) -> (b: Blob)
    ensures
        b.deep_view() == stored_blob(content@, metadata.deep_view()),
{
    match metadata {
        Some(m) => Blob { content, etag: m.etag, sha256: m.sha256 },
        None => Blob { content, etag: None, sha256: None },
    }
}

/// Reading back a blob's content together with the metadata written with it
/// gives the blob that was written: its content, ETag and digest.
pub proof fn lemma_read_after_write(b: BlobModel)
    ensures
        stored_blob(b.content, Some(metadata_of(b))) == b,
        metadata_of(b).bytesize == b.content.len(),
{
}

} // verus!
