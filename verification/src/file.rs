//! An embedded file, its metadata, and how both are computed from the bytes
//! and the modification time of a file on disk.

use vstd::prelude::*;
use chrono::TimeZone;
use sha2::Digest;
use std::io::Write;

verus! {

/// A file found under the embedded folder: its path relative to the folder
/// and its canonical path on disk.
pub struct FileEntry {
    pub rel_path: String,
    pub full_canonical_path: String,
}

/// The view of an optional string.
pub open spec fn opt_string_view(o: Option<String>) -> Option<Seq<char>> {
    match o {
        Some(s) => Some(s@),
        None => None,
    }
}

/// The view of an optional string slice.
pub open spec fn opt_str_view(o: Option<&str>) -> Option<Seq<char>> {
    match o {
        Some(s) => Some(s@),
        None => None,
    }
}

/// The view of an optional byte vector.
pub open spec fn opt_bytes_view(o: Option<Vec<u8>>) -> Option<Seq<u8>> {
    match o {
        Some(v) => Some(v@),
        None => None,
    }
}

/// Metadata about an embedded file.
pub struct Metadata {
    hash: String,
    etag: String,
    last_modified: Option<String>,
    mime_type: Option<String>,
}

/// What a `Metadata` holds.
pub struct MetadataView {
    pub hash: Seq<char>,
    pub etag: Seq<char>,
    pub last_modified: Option<Seq<char>>,
    pub mime_type: Option<Seq<char>>,
}

impl View for Metadata {
    type V = MetadataView;

    closed spec fn view(&self) -> MetadataView {
        MetadataView {
            hash: self.hash@,
            etag: self.etag@,
            last_modified: opt_string_view(self.last_modified),
            mime_type: opt_string_view(self.mime_type),
        }
    }
}

/// Copies an optional string.
fn copy_opt_string(o: &Option<String>) -> (r: Option<String>)
    ensures
        opt_string_view(r) == opt_string_view(*o),
{
    match o {
        Some(s) => Some(s.clone()),
        None => None,
    }
}

/// Borrows the string inside an optional string.
fn opt_as_str(o: &Option<String>) -> (r: Option<&str>)
    ensures
        opt_str_view(r) == opt_string_view(*o),
{
    match o {
        Some(s) => Some(s.as_str()),
        None => None,
    }
}

impl Metadata {
    /// Builds the metadata from its four parts.
    pub fn __rust_embed_new(
        hash: String,
        etag: String,
        last_modified: Option<String>,
        mime_type: Option<String>,
    ) -> (r: Self)
        ensures
            r@ == (MetadataView {
                hash: hash@,
                etag: etag@,
                last_modified: opt_string_view(last_modified),
                mime_type: opt_string_view(mime_type),
            }),
    {
        Metadata { hash, etag, last_modified, mime_type }
    }

    /// The SHA256 hash of the file contents, base64 encoded.
    pub fn sha256_hash(&self) -> (r: &str)
        ensures
            r@ == self@.hash,
    {
        self.hash.as_str()
    }

    /// The `sha256_hash`, surrounded by quotes. This is the format required in
    /// `ETag` headers.
    pub fn etag(&self) -> (r: &str)
        ensures
            r@ == self@.etag,
    {
        self.etag.as_str()
    }

    /// The last modified date in the rfc2822 format. This is the format
    /// required in `Last-Modified` headers. It is `None` where the platform
    /// gave no modification time.
    pub fn last_modified(&self) -> (r: Option<&str>)
        ensures
            opt_str_view(r) == self@.last_modified,
    {
        opt_as_str(&self.last_modified)
    }

    /// The MIME type guessed from the file's extension, if any.
    pub fn mime_type(&self) -> (r: Option<&str>)
        ensures
            opt_str_view(r) == self@.mime_type,
    {
        opt_as_str(&self.mime_type)
    }

    /// A copy of this metadata.
    pub fn copy(&self) -> (r: Metadata)
        ensures
            r@ == self@,
    {
        Metadata {
            hash: self.hash.clone(),
            etag: self.etag.clone(),
            last_modified: copy_opt_string(&self.last_modified),
            mime_type: copy_opt_string(&self.mime_type),
        }
    }
}

/// A file embedded into the binary.
pub struct EmbeddedFile {
    pub data: Vec<u8>,
    /// The gzip-compressed contents, kept only where they are smaller than
    /// the contents themselves.
    pub data_gzip: Option<Vec<u8>>,
    pub metadata: Metadata,
}

/// What an `EmbeddedFile` holds.
pub struct EmbeddedFileView {
    pub data: Seq<u8>,
    pub data_gzip: Option<Seq<u8>>,
    pub metadata: MetadataView,
}

impl View for EmbeddedFile {
    type V = EmbeddedFileView;

    open spec fn view(&self) -> EmbeddedFileView {
        EmbeddedFileView {
            data: self.data@,
            data_gzip: opt_bytes_view(self.data_gzip),
            metadata: self.metadata@,
        }
    }
}

/// Copies a byte vector.
fn copy_bytes(v: &Vec<u8>) -> (r: Vec<u8>)
    ensures
        r@ == v@,
{
    let mut r: Vec<u8> = Vec::new();
    let mut i: usize = 0;
    while i < v.len()
        invariant
            i <= v@.len(),
            r@ == v@.take(i as int),
        decreases v@.len() - i,
    {
        r.push(v[i]);
        i = i + 1;
        assert(r@ =~= v@.take(i as int));
    }
    assert(v@.take(i as int) =~= v@);
    r
}

impl EmbeddedFile {
    /// A copy of this file.
    pub fn copy(&self) -> (r: EmbeddedFile)
        ensures
            r@ == self@,
    {
        let data_gzip = match &self.data_gzip {
            Some(g) => Some(copy_bytes(g)),
            None => None,
        };
        EmbeddedFile { data: copy_bytes(&self.data), data_gzip, metadata: self.metadata.copy() }
    }
}

/// The gzip stream that flate2's `GzEncoder` writes for `data` at the
/// compression level `level`, with the default header (no file name, no
/// modification time).
pub uninterp spec fn gzip_encoding(data: Seq<u8>, level: u32) -> Seq<u8>;

/// Compresses `data` with `flate2::write::GzEncoder::new` at
/// `Compression::new(level)`, by `write_all` and `finish` into a vector.
/// Claimed: the result is `gzip_encoding(data, level)`, and it holds at least
/// the ten header bytes and the eight trailer bytes of a gzip stream.
#[verifier::external_body]
fn gzip(data: &[u8], level: u32) -> (r: Vec<u8>)
    requires
        level <= 9,
    ensures
        r@ == gzip_encoding(data@, level),
        r@.len() >= 18,
{
    let mut encoder = flate2::write::GzEncoder::new(Vec::new(), flate2::Compression::new(level));
    encoder.write_all(data).unwrap();
    encoder.finish().unwrap()
}

/// The SHA-256 digest of `data`.
pub uninterp spec fn sha256_digest(data: Seq<u8>) -> Seq<u8>;

/// Calls `sha2::Sha256::digest`. Claimed: the result is
/// `sha256_digest(data)`, which is 32 bytes long.
#[verifier::external_body]
fn sha256(data: &[u8]) -> (r: Vec<u8>)
    ensures
        r@ == sha256_digest(data@),
        r@.len() == 32,
{
    sha2::Sha256::digest(data).to_vec()
}

/// The base64 digit (standard alphabet) for the six-bit value `n`.
pub open spec fn base64_digit(n: int) -> char {
    if n < 26 {
        ((n + 65) as u8) as char
    } else if n < 52 {
        ((n + 71) as u8) as char
    } else if n < 62 {
        ((n - 4) as u8) as char
    } else if n == 62 {
        '+'
    } else {
        '/'
    }
}

/// The standard base64 text of `data` (RFC 4648, with `=` padding): each
/// group of three bytes gives four digits, and a last group of one or two
/// bytes gives two or three digits followed by padding.
pub open spec fn base64_encoding(data: Seq<u8>) -> Seq<char>
    decreases data.len(),
{
    if data.len() == 0 {
        seq![]
    } else if data.len() == 1 {
        let b0 = data[0] as int;
        seq![base64_digit(b0 / 4), base64_digit((b0 % 4) * 16), '=', '=']
    } else if data.len() == 2 {
        let b0 = data[0] as int;
        let b1 = data[1] as int;
        seq![base64_digit(b0 / 4), base64_digit((b0 % 4) * 16 + b1 / 16), base64_digit((b1 % 16) * 4), '=']
    } else {
        let b0 = data[0] as int;
        let b1 = data[1] as int;
        let b2 = data[2] as int;
        seq![
            base64_digit(b0 / 4),
            base64_digit((b0 % 4) * 16 + b1 / 16),
            base64_digit((b1 % 16) * 4 + b2 / 64),
            base64_digit(b2 % 64),
        ] + base64_encoding(data.skip(3))
    }
}

/// Four base64 digits for every started group of three bytes.
pub proof fn lemma_base64_length(data: Seq<u8>)
    ensures
        base64_encoding(data).len() == 4 * ((data.len() + 2) / 3),
    decreases data.len(),
{
    if data.len() >= 3 {
        lemma_base64_length(data.skip(3));
    }
}

/// The base64 digits are the RFC 4648 standard alphabet: `A` to `Z` for 0 to
/// 25, `a` to `z` for 26 to 51, `0` to `9` for 52 to 61, then `+` and `/`.
pub proof fn lemma_base64_alphabet(n: int)
    requires
        0 <= n < 64,
    ensures
        0 <= n < 26 ==> base64_digit(n) as u32 == 'A' as u32 + n,
        26 <= n < 52 ==> base64_digit(n) as u32 == 'a' as u32 + (n - 26),
        52 <= n < 62 ==> base64_digit(n) as u32 == '0' as u32 + (n - 52),
        n == 62 ==> base64_digit(n) == '+',
        n == 63 ==> base64_digit(n) == '/',
{
}

/// The base64 digit for a six-bit value.
fn base64_char(n: u8) -> (r: char)
    requires
        n < 64,
    ensures
        r == base64_digit(n as int),
{
    if n < 26 {
        ((n + 65) as u8) as char
    } else if n < 52 {
        ((n + 71) as u8) as char
    } else if n < 62 {
        ((n - 4) as u8) as char
    } else if n == 62 {
        '+'
    } else {
        '/'
    }
}

/// The standard base64 text of `data`, with `=` padding.
pub fn base64_text(data: &[u8]) -> (r: String)
    ensures
        r@ == base64_encoding(data@),
{
    let mut out: Vec<char> = Vec::new();
    let n = data.len();
    let mut i: usize = 0;
    assert(data@.skip(0) =~= data@);
    while n - i >= 3
        invariant
            n == data@.len(),
            i <= n,
            base64_encoding(data@) == out@ + base64_encoding(data@.skip(i as int)),
        decreases n - i,
    {
        let b0 = data[i];
        let b1 = data[i + 1];
        let b2 = data[i + 2];
        let ghost rest = data@.skip(i as int);
        assert(rest[0] == b0 && rest[1] == b1 && rest[2] == b2);
        assert(rest.skip(3) =~= data@.skip(i + 3));
        out.push(base64_char(b0 / 4));
        out.push(base64_char((b0 % 4) * 16 + b1 / 16));
        out.push(base64_char((b1 % 16) * 4 + b2 / 64));
        out.push(base64_char(b2 % 64));
        i = i + 3;
        assert(base64_encoding(data@) == out@ + base64_encoding(data@.skip(i as int)));
    }
    let ghost rest = data@.skip(i as int);
    if n - i == 1 {
        let b0 = data[i];
        assert(rest[0] == b0);
        out.push(base64_char(b0 / 4));
        out.push(base64_char((b0 % 4) * 16));
        out.push('=');
        out.push('=');
    } else if n - i == 2 {
        let b0 = data[i];
        let b1 = data[i + 1];
        assert(rest[0] == b0 && rest[1] == b1);
        out.push(base64_char(b0 / 4));
        out.push(base64_char((b0 % 4) * 16 + b1 / 16));
        out.push(base64_char((b1 % 16) * 4));
        out.push('=');
    }
    assert(out@ =~= base64_encoding(data@));
    crate::text::string_from_chars(&out)
}

/// The earliest Unix timestamp (0000-01-01T00:00:00Z) whose date RFC 2822
/// can write.
pub open spec fn earliest_rfc2822_timestamp() -> int {
    -62167219200
}

/// The latest Unix timestamp (9999-12-31T23:59:59Z) whose date RFC 2822 can
/// write.
pub open spec fn latest_rfc2822_timestamp() -> int {
    253402300799
}

/// The RFC 2822 text that chrono writes for the UTC date and time at the Unix
/// timestamp `secs`.
pub uninterp spec fn rfc2822_text(secs: i64) -> Seq<char>;

/// Calls `chrono::Utc.timestamp(secs, 0)` and `to_rfc2822` on the date it
/// gives; the date is only a step between the two calls. Both panic outside
/// the years 0 to 9999, which `requires` leaves out. Claimed: the result is
/// `rfc2822_text(secs)`.
#[verifier::external_body]
#[allow(deprecated)]
fn rfc2822_of_timestamp(secs: i64) -> (r: String)
    requires
        earliest_rfc2822_timestamp() <= secs <= latest_rfc2822_timestamp(),
    ensures
        r@ == rfc2822_text(secs),
{
    chrono::Utc.timestamp(secs, 0).to_rfc2822()
}

/// The MIME type that new_mime_guess guesses first for `path`, by its
/// extension.
pub uninterp spec fn mime_guess(path: Seq<char>) -> Option<Seq<char>>;

/// Calls `new_mime_guess::from_path(path).first()` and writes the MIME type
/// it gives as a string. Claimed: the result is `mime_guess(path)`, and a
/// path without a `.` has no extension, so no guess.
#[verifier::external_body]
fn guess_mime_type(path: &str) -> (r: Option<String>)
    ensures
        opt_string_view(r) == mime_guess(path@),
        !path@.contains('.') ==> r is None,
{
    match new_mime_guess::from_path(path).first() {
        Some(mime) => Some(mime.to_string()),
        None => None,
    }
}

/// A modification time as the platform gives it: a number of whole seconds
/// before or after the Unix epoch.
pub struct FileTime {
    pub before_epoch: bool,
    pub secs: u64,
}

/// The signed Unix timestamp of a modification time. The seconds are taken
/// as an `i64` by a wrapping cast, as the platform's counter is.
pub open spec fn unix_timestamp(t: FileTime) -> int {
    if t.before_epoch {
        -((t.secs as i64) as int)
    } else {
        (t.secs as i64) as int
    }
}

/// The modification time falls in the years that RFC 2822 can write.
pub open spec fn rfc2822_representable(t: FileTime) -> bool {
    earliest_rfc2822_timestamp() <= unix_timestamp(t) <= latest_rfc2822_timestamp()
}

/// Whether RFC 2822 can write the date of a modification time.
pub fn is_rfc2822_representable(t: &FileTime) -> (r: bool)
    ensures
        r == rfc2822_representable(*t),
{
    let secs = t.secs as i64;
    if t.before_epoch {
        if secs == i64::MIN {
            return false;
        }
        let ts = -secs;
        -62167219200 <= ts && ts <= 253402300799
    } else {
        -62167219200 <= secs && secs <= 253402300799
    }
}

/// The compression level used for the embedded gzip data: flate2's fastest
/// level in a debug build, where speed matters but the gzip data must still
/// be there for files that compress, and flate2's default level otherwise.
pub open spec fn gzip_level(debug_build: bool) -> u32 {
    if debug_build {
        1
    } else {
        6
    }
}

/// The gzip data kept for `data`: the compressed stream where it is smaller
/// than the data, and nothing where compression does not pay off.
pub open spec fn kept_gzip(data: Seq<u8>, debug_build: bool) -> Option<Seq<u8>> {
    let gz = gzip_encoding(data, gzip_level(debug_build));
    if gz.len() < data.len() {
        Some(gz)
    } else {
        None
    }
}

/// The `ETag` text for a hash: the hash in double quotes.
pub open spec fn quoted(hash: Seq<char>) -> Seq<char> {
    seq!['"'] + hash + seq!['"']
}

/// The metadata computed for a file at `path` with contents `data` and
/// modification time `modified`.
pub open spec fn metadata_for(
    path: Seq<char>,
    data: Seq<u8>,
    modified: Option<FileTime>,
) -> MetadataView {
    let hash = base64_encoding(sha256_digest(data));
    MetadataView {
        hash: hash,
        etag: quoted(hash),
        last_modified: match modified {
            Some(t) => Some(rfc2822_text(unix_timestamp(t) as i64)),
            None => None,
        },
        mime_type: mime_guess(path),
    }
}

/// The Unix timestamp of a modification time: its seconds, negated for a
/// time before the epoch. Negating the least `i64` overflows, which
/// `requires` leaves out.
pub fn timestamp_secs(t: &FileTime) -> (r: i64)
    requires
        t.before_epoch ==> (t.secs as i64) != i64::MIN,
    ensures
        r == unix_timestamp(*t),
{
    let secs = t.secs as i64;
    if t.before_epoch {
        -secs
    } else {
        secs
    }
}

/// The embedded file for a file at `path` (used for the MIME type guess)
/// with contents `data` and modification time `modified`: the contents,
/// their gzip compression where it is smaller, the base64 SHA-256 hash, the
/// quoted hash as `ETag`, the RFC 2822 modification date, and the MIME type.
/// The dates that RFC 2822 cannot write are an error of the date formatting, so
/// `requires` leaves them out.
pub fn embedded_file_from_contents(
    path: &str,
    data: Vec<u8>,
    modified: Option<FileTime>,
    debug_build: bool,
) -> (r: EmbeddedFile)
    requires
        modified matches Some(t) ==> rfc2822_representable(t),
    ensures
        r.data@ == data@,
        opt_bytes_view(r.data_gzip) == kept_gzip(data@, debug_build),
        r.metadata@ == metadata_for(path@, data@, modified),
        r.metadata@.hash.len() == 44,
{
    let level: u32 = if debug_build {
        1
    } else {
        6
    };
    let gz = gzip(data.as_slice(), level);
    let data_gzip = if gz.len() < data.len() {
        Some(gz)
    } else {
        None
    };
    let digest = sha256(data.as_slice());
    let hash = base64_text(digest.as_slice());
    proof {
        lemma_base64_length(digest@);
    }
    let mut etag = String::from_str("\"");
    etag.append(hash.as_str());
    etag.append("\"");
    proof {
        reveal_strlit("\"");
        assert(etag@ =~= quoted(hash@));
    }
    let last_modified = match &modified {
        Some(t) => Some(rfc2822_of_timestamp(timestamp_secs(t))),
        None => None,
    };
    let mime_type = guess_mime_type(path);
    let metadata = Metadata::__rust_embed_new(hash, etag, last_modified, mime_type);
    EmbeddedFile { data, data_gzip, metadata }
}

} // verus!
