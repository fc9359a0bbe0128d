//! Streaming MD5 digests of file contents, as lowercase hex.
//!
//! The digest itself is computed by the MD5 implementation of the
//! `md5` crate, reached through trusted wrappers; what the library
//! proves is the bookkeeping around it: the hasher is fed exactly
//! the content's bytes, in order and in bounded chunks, and the
//! final digest is rendered as lowercase hex.

use vstd::prelude::*;

verus! {

/// Read chunks of at most this many bytes at a time, to bound peak
/// memory while hashing.
pub const DEFAULT_BUF_SIZE: usize = 2 * 1024 * 1024;

#[verifier::external_type_specification]
#[verifier::external_body]
pub struct ExMd5(md5::Md5);

/// The bytes fed so far into an MD5 hasher state.
pub uninterp spec fn fed_bytes(h: md5::Md5) -> Seq<u8>;

/// The MD5 digest (16 bytes) of a byte sequence.
pub uninterp spec fn spec_md5(bytes: Seq<u8>) -> Seq<u8>;

/// Relies on `md5::Digest::new`: a fresh hasher has processed no
/// bytes.
#[verifier::external_body]
fn md5_new() -> (h: md5::Md5)
    ensures
        fed_bytes(h) == Seq::<u8>::empty(),
{
    <md5::Md5 as md5::Digest>::new()
}

/// Relies on `md5::Digest::update`: processing data appends it to
/// the bytes the hasher has seen.
#[verifier::external_body]
fn md5_update(h: &mut md5::Md5, data: &[u8])
    ensures
        fed_bytes(*final(h)) == fed_bytes(*old(h)) + data@,
{
    md5::Digest::update(h, data)
}

/// Relies on `md5::Digest::finalize`: the result is the 16-byte
/// MD5 digest, a function of the processed bytes alone.
#[verifier::external_body]
fn md5_finalize(h: md5::Md5) -> (r: Vec<u8>)
    ensures
        r@ == spec_md5(fed_bytes(h)),
        r@.len() == 16,
{
    md5::Digest::finalize(h).as_slice().to_vec()
}

/// The lower hex digit for a value below 16.
pub open spec fn spec_hex_digit(d: int) -> char
    recommends
        0 <= d < 16,
{
    if d == 0 {
        '0'
    } else if d == 1 {
        '1'
    } else if d == 2 {
        '2'
    } else if d == 3 {
        '3'
    } else if d == 4 {
        '4'
    } else if d == 5 {
        '5'
    } else if d == 6 {
        '6'
    } else if d == 7 {
        '7'
    } else if d == 8 {
        '8'
    } else if d == 9 {
        '9'
    } else if d == 10 {
        'a'
    } else if d == 11 {
        'b'
    } else if d == 12 {
        'c'
    } else if d == 13 {
        'd'
    } else if d == 14 {
        'e'
    } else {
        'f'
    }
}

/// Lowercase hex of a byte sequence: two digits per byte, high
/// nibble first.
pub open spec fn spec_hex(bytes: Seq<u8>) -> Seq<char>
    decreases bytes.len(),
{
    if bytes.len() == 0 {
        Seq::empty()
    } else {
        spec_hex(bytes.drop_last()) + seq![
            spec_hex_digit(bytes.last() as int / 16),
            spec_hex_digit(bytes.last() as int % 16),
        ]
    }
}

/// Hex doubles the length.
pub proof fn lemma_spec_hex_len(bytes: Seq<u8>)
    ensures
        spec_hex(bytes).len() == 2 * bytes.len(),
    decreases bytes.len(),
{
    if bytes.len() > 0 {
        lemma_spec_hex_len(bytes.drop_last());
    }
}

/// Relies on `base16ct::lower::encode_string`: each input byte
/// becomes its two lower hex digits, high nibble first, in input
/// order.  The length bound excludes the one input size on which
/// the encoder panics.
#[verifier::external_body]
fn to_lower_hex(b: &[u8]) -> (r: String)
    requires
        2 * b@.len() <= usize::MAX,
    ensures
        r@ == spec_hex(b@),
{
    base16ct::lower::encode_string(b)
}

/// The lowercase hex MD5 digest of a byte sequence — what the
/// existing-file check compares against an expected hash.
pub open spec fn spec_md5_hex(bytes: Seq<u8>) -> Seq<char> {
    spec_hex(spec_md5(bytes))
}

/// An MD5 digest in progress.  Its view is the sequence of bytes
/// fed so far.
pub struct FileHasher {
    inner: md5::Md5,
}

impl View for FileHasher {
    type V = Seq<u8>;

    closed spec fn view(&self) -> Seq<u8> {
        fed_bytes(self.inner)
    }
}

impl FileHasher {
    /// A hasher that has seen nothing yet.
    pub fn new() -> (h: FileHasher)
        ensures
            h@ == Seq::<u8>::empty(),
    {
        FileHasher { inner: md5_new() }
    }

    /// Feed the next chunk of the content.
    pub fn feed(&mut self, chunk: &[u8])
        ensures
            final(self)@ == old(self)@ + chunk@,
    {
        md5_update(&mut self.inner, chunk);
    }

    /// Finish and render the digest as 32 lowercase hex digits.
    pub fn finish(self) -> (r: String)
        ensures
            r@ == spec_md5_hex(self@),
            r@.len() == 32,
    {
        let digest = md5_finalize(self.inner);
        proof {
            lemma_spec_hex_len(digest@);
        }
        to_lower_hex(digest.as_slice())
    }
}

/// The lowercase hex MD5 digest of `content`, fed to the hasher in
/// chunks of at most `DEFAULT_BUF_SIZE` bytes.
pub fn hash_bytes(content: &[u8]) -> (r: String)
    ensures
        r@ == spec_md5_hex(content@),
        r@.len() == 32,
{
    let n = content.len();
    let mut h = FileHasher::new();
    let mut i: usize = 0;
    while i < n
        invariant
            n == content@.len(),
            i <= n,
            h@ == content@.take(i as int),
        decreases n - i,
    {
        let end = if n - i >= DEFAULT_BUF_SIZE {
            i + DEFAULT_BUF_SIZE
        } else {
            n
        };
        let mut chunk: Vec<u8> = Vec::new();
        let mut j: usize = i;
        while j < end
            invariant
                i <= j <= end <= n,
                n == content@.len(),
                chunk@ == content@.subrange(i as int, j as int),
            decreases end - j,
        {
            chunk.push(*vstd::slice::slice_index_get(content, j));
            proof {
                assert(content@.subrange(i as int, j + 1 as int) =~= content@.subrange(
                    i as int,
                    j as int,
                ).push(content@[j as int]));
            }
            j = j + 1;
        }
        h.feed(chunk.as_slice());
        proof {
            assert(content@.take(end as int) =~= content@.take(i as int) + content@.subrange(
                i as int,
                end as int,
            ));
        }
        i = end;
    }
    proof {
        assert(content@.take(n as int) =~= content@);
    }
    h.finish()
}

} // verus!
