//! Chunk compression and content hashing.
use vstd::prelude::*;

verus! {

/// Maximum size of a raw (pre-compression) chunk on the wire.
pub const CHUNK_SIZE: usize = 65536;

/// Compression level of every compressed chunk.
pub const ZSTD_LEVEL: i32 = 3;

// ----- BLAKE3 ---------------------------------------------------------------

/// The incremental hasher `blake3::Hasher`.
#[verifier::external_type_specification]
#[verifier::external_body]
pub struct ExBlake3Hasher(blake3::Hasher);

/// The bytes that a hasher in default mode has taken in so far.
pub uninterp spec fn blake3_absorbed(h: blake3::Hasher) -> Option<Seq<u8>>;

/// The BLAKE3 hash of a byte string.
pub uninterp spec fn blake3_digest(input: Seq<u8>) -> Seq<u8>;

/// `blake3::Hasher::new`: a hasher in default mode that has taken in nothing.
#[verifier::external_body]
pub(crate) fn hasher_new() -> (r: blake3::Hasher)
    ensures
        blake3_absorbed(r) == Some(Seq::<u8>::empty()),
{
    blake3::Hasher::new()
}

/// `blake3::Hasher::update`: appends the input to the bytes taken in.
#[verifier::external_body]
pub(crate) fn hasher_update(h: &mut blake3::Hasher, input: &[u8])
    requires
        blake3_absorbed(*old(h)) is Some,
    ensures
        blake3_absorbed(*final(h)) == Some(blake3_absorbed(*old(h))->0 + input@),
{
    h.update(input);
}

/// `blake3::Hasher::finalize`: the hash of all bytes taken in, whatever pieces they came in.
#[verifier::external_body]
pub(crate) fn hasher_finalize(h: &blake3::Hasher) -> (r: [u8; 32])
    requires
        blake3_absorbed(*h) is Some,
    ensures
        r@ == blake3_digest(blake3_absorbed(*h)->0),
{
    *h.finalize().as_bytes()
}

/// `blake3::hash`: the hash of one byte string.
#[verifier::external_body]
pub(crate) fn blake3_hash(input: &[u8]) -> (r: [u8; 32])
    ensures
        r@ == blake3_digest(input@),
{
    *blake3::hash(input).as_bytes()
}

// ----- zstd -----------------------------------------------------------------

/// The I/O error of the standard library.
#[verifier::external_type_specification]
#[verifier::external_body]
pub struct ExIoError(std::io::Error);

/// What zstd makes of a byte string at a compression level.
pub uninterp spec fn zstd_compressed(raw: Seq<u8>, level: i32) -> Seq<u8>;

/// The content of a byte string made of zstd frames; `None` for any other byte string.
pub uninterp spec fn zstd_content(data: Seq<u8>) -> Option<Seq<u8>>;

/// `zstd::bulk::compress`: a compressed form whose content is the input. Whether it succeeds
/// depends on the memory that zstd gets, and is left open.
#[verifier::external_body]
pub(crate) fn zstd_compress(raw: &[u8], level: i32) -> (r: Result<Vec<u8>, std::io::Error>)
    requires
        raw@.len() <= isize::MAX / 2,
    ensures
        r matches Ok(v) ==> v@ == zstd_compressed(raw@, level) && zstd_content(v@) == Some(raw@),
{
    zstd::bulk::compress(raw, level)
}

/// `zstd::bulk::decompress`: the content of the frames. Content of at most `capacity` bytes is
/// always returned, bytes that are no zstd frames never; longer content may be refused.
#[verifier::external_body]
pub(crate) fn zstd_decompress(data: &[u8], capacity: usize) -> (r: Result<
    Vec<u8>,
    std::io::Error,
>)
    requires
        capacity <= isize::MAX,
    ensures
        r matches Ok(v) ==> zstd_content(data@) == Some(v@),
        zstd_content(data@) is Some && zstd_content(data@)->0.len() <= capacity ==> r is Ok,
{
    zstd::bulk::decompress(data, capacity)
}

// ----- chunks ---------------------------------------------------------------

/// Why the contents of a chunk could not be had.
#[derive(Debug)]
pub enum CodecError {
    /// zstd could not compress the chunk.
    Compress(std::io::Error),
    /// The data is no zstd frame, or zstd refused it for its size.
    Decompress(std::io::Error),
    /// The chunk holds more than twice [`CHUNK_SIZE`] bytes.
    TooLong,
}

/// The contents of a chunk's data: the data itself, or what it decompresses to where that is
/// at most twice [`CHUNK_SIZE`].
pub open spec fn chunk_contents(data: Seq<u8>, compressed: bool) -> Option<Seq<u8>> {
    if !compressed {
        Some(data)
    } else {
        match zstd_content(data) {
            Some(c) if c.len() <= CHUNK_SIZE * 2 => Some(c),
            _ => None,
        }
    }
}

/// The data of a chunk that carries `raw`.
pub open spec fn chunk_data(raw: Seq<u8>, compress: bool) -> Seq<u8> {
    if compress {
        zstd_compressed(raw, ZSTD_LEVEL)
    } else {
        raw
    }
}

/// A copy of a byte slice.
pub fn copy_bytes(b: &[u8]) -> (r: Vec<u8>)
    ensures
        r@ == b@,
{
    let mut r: Vec<u8> = Vec::new();
    r.extend_from_slice(b);
    assert(r@ =~= b@);
    r
}

/// The data of a chunk that carries `raw`, compressed where asked. Contents of at most twice
/// [`CHUNK_SIZE`] bytes come back when the chunk is read.
pub fn maybe_compress(raw: &[u8], compress: bool) -> (r: Result<Vec<u8>, CodecError>)
    requires
        raw@.len() <= isize::MAX / 2,
    ensures
        match r {
            Ok(data) => {
                &&& data@ == chunk_data(raw@, compress)
                &&& raw@.len() <= CHUNK_SIZE * 2 ==> chunk_contents(data@, compress) == Some(raw@)
            },
            Err(e) => compress && e is Compress,
        },
{
    if !compress {
        return Ok(copy_bytes(raw));
    }
    match zstd_compress(raw, ZSTD_LEVEL) {
        Ok(data) => Ok(data),
        Err(e) => Err(CodecError::Compress(e)),
    }
}

/// The contents of a chunk's data.
pub fn maybe_decompress(data: Vec<u8>, was_compressed: bool) -> (r: Result<Vec<u8>, CodecError>)
    ensures
        match r {
            Ok(raw) => chunk_contents(data@, was_compressed) == Some(raw@),
            Err(_) => chunk_contents(data@, was_compressed) is None,
        },
{
    if !was_compressed {
        return Ok(data);
    }
    match zstd_decompress(data.as_slice(), CHUNK_SIZE * 2) {
        Ok(raw) => {
            if raw.len() > CHUNK_SIZE * 2 {
                return Err(CodecError::TooLong);
            }
            Ok(raw)
        },
        Err(e) => Err(CodecError::Decompress(e)),
    }
}

// ----- magic numbers --------------------------------------------------------

/// First bytes of well-known container formats that are already compressed.
pub open spec fn magics() -> Seq<Seq<u8>> {
    seq![
        seq![0x28u8, 0xb5, 0x2f, 0xfd],  // zstd
        seq![0x1fu8, 0x8b],  // gzip
        seq![0xfdu8, 0x37, 0x7a, 0x58, 0x5a, 0x00],  // xz
        seq![0x50u8, 0x4b, 0x03, 0x04],  // zip (also .docx/.xlsx/.apk/...)
        seq![0xffu8, 0xd8, 0xff],  // jpeg
        seq![0x89u8, 0x50, 0x4e, 0x47, 0x0d, 0x0a, 0x1a, 0x0a],  // png
        seq![0x52u8, 0x49, 0x46, 0x46],  // webp/wav/avi (container)
        seq![0x00u8, 0x00, 0x00, 0x18, 0x66, 0x74, 0x79, 0x70],  // mp4
        seq![0x00u8, 0x00, 0x00, 0x20, 0x66, 0x74, 0x79, 0x70],  // mp4 variant
        seq![0x1au8, 0x45, 0xdf, 0xa3],  // matroska/webm
        seq![0x4fu8, 0x67, 0x67, 0x53],  // ogg
        seq![0xffu8, 0xfb],  // mp3 frame header
        seq![0x49u8, 0x44, 0x33],  // mp3 w/ id3 tag
    ]
}

/// The table of [`magics`].
fn magic_table() -> (r: Vec<Vec<u8>>)
    ensures
        crate::crypto::byte_views(r@) == magics(),
{
    let r: Vec<Vec<u8>> = vec![
        vec![0x28u8, 0xb5, 0x2f, 0xfd],
        vec![0x1fu8, 0x8b],
        vec![0xfdu8, 0x37, 0x7a, 0x58, 0x5a, 0x00],
        vec![0x50u8, 0x4b, 0x03, 0x04],
        vec![0xffu8, 0xd8, 0xff],
        vec![0x89u8, 0x50, 0x4e, 0x47, 0x0d, 0x0a, 0x1a, 0x0a],
        vec![0x52u8, 0x49, 0x46, 0x46],
        vec![0x00u8, 0x00, 0x00, 0x18, 0x66, 0x74, 0x79, 0x70],
        vec![0x00u8, 0x00, 0x00, 0x20, 0x66, 0x74, 0x79, 0x70],
        vec![0x1au8, 0x45, 0xdf, 0xa3],
        vec![0x4fu8, 0x67, 0x67, 0x53],
        vec![0xffu8, 0xfb],
        vec![0x49u8, 0x44, 0x33],
    ];
    assert(crate::crypto::byte_views(r@) =~~= magics());
    r
}

/// Whether a file that starts with `head` is in one of the formats of [`magics`].
pub open spec fn already_compressed(head: Seq<u8>) -> bool {
    exists|i: int| 0 <= i < magics().len() && (#[trigger] magics()[i]).is_prefix_of(head)
}

fn starts_with(head: &[u8], magic: &Vec<u8>) -> (r: bool)
    ensures
        r == magic@.is_prefix_of(head@),
{
    let n: usize = magic.len();
    if head.len() < n {
        return false;
    }
    let mut i: usize = 0;
    while i < n
        invariant
            n == magic@.len() <= head@.len(),
            i <= n,
            forall|j: int| 0 <= j < i ==> head@[j] == magic@[j],
        decreases n - i,
    {
        if head[i] != magic[i] {
            assert(head@.subrange(0, n as int)[i as int] != magic@[i as int]);
            return false;
        }
        i += 1;
    }
    assert(head@.subrange(0, n as int) =~= magic@);
    true
}

/// Whether the first bytes of a file show a format that is already compressed.
pub fn is_already_compressed(head: &[u8]) -> (r: bool)
    ensures
        r == already_compressed(head@),
{
    let table: Vec<Vec<u8>> = magic_table();
    let n: usize = table.len();
    let mut i: usize = 0;
    assert(magics().len() == n);
    while i < n
        invariant
            n == table@.len() == magics().len(),
            crate::crypto::byte_views(table@) == magics(),
            i <= n,
            forall|j: int| 0 <= j < i ==> !(#[trigger] magics()[j]).is_prefix_of(head@),
        decreases n - i,
    {
        assert(magics()[i as int] == table@[i as int]@);
        if starts_with(head, &table[i]) {
            return true;
        }
        i += 1;
    }
    false
}

} // verus!
