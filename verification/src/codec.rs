//! Compression, digests and hexadecimal text, as the crates behind them do it.
use std::io::{Read, Write};
use sha2::Digest;
use vstd::prelude::*;

verus! {

/// What decoding gives: the bytes, or the text of the error.
pub open spec fn decoding(r: Result<Vec<u8>, String>) -> Result<Seq<u8>, Seq<char>> {
    match r {
        Ok(v) => Ok(v@),
        Err(e) => Err(e@),
    }
}

/// What encoding gives: the bytes, or where it failed (`true`: at the end of
/// the stream) and the text of the error.
pub open spec fn encoding(r: Result<Vec<u8>, (bool, String)>) -> Result<
    Seq<u8>,
    (bool, Seq<char>),
> {
    match r {
        Ok(v) => Ok(v@),
        Err(e) => Err((e.0, e.1@)),
    }
}

/// What `flate2` reads from the first gzip member of `raw`.
pub uninterp spec fn gunzipped(raw: Seq<u8>) -> Result<Seq<u8>, Seq<char>>;

/// `flate2::read::GzDecoder` read to its end: the content of the first gzip
/// member of `raw`, or the text of the error that stopped it. Which of the two
/// comes depends on the bytes alone.
#[verifier::external_body]
pub(crate) fn gunzip(raw: &[u8]) -> (r: Result<Vec<u8>, String>)
    ensures
        decoding(r) == gunzipped(raw@),
{
    let mut out: Vec<u8> = Vec::new();
    match flate2::read::GzDecoder::new(raw).read_to_end(&mut out) {
        Ok(_) => Ok(out),
        Err(e) => Err(e.to_string()),
    }
}

/// What `flate2` writes for `raw` as one gzip member at its best level.
pub uninterp spec fn gzipped(raw: Seq<u8>) -> Result<Seq<u8>, (bool, Seq<char>)>;

/// `flate2::write::GzEncoder` at the best level, fed with `raw` and finished:
/// the gzip member, or the text of the error and whether it came at the end.
/// The result depends on the bytes alone, and a member that was written reads
/// back as the bytes it was written for.
#[verifier::external_body]
pub(crate) fn gzip(raw: &[u8]) -> (r: Result<Vec<u8>, (bool, String)>)
    ensures
        encoding(r) == gzipped(raw@),
        r is Ok ==> gunzipped(r->Ok_0@) is Ok && gunzipped(r->Ok_0@)->Ok_0 == raw@,
{
    let mut enc = flate2::write::GzEncoder::new(Vec::new(), flate2::Compression::best());
    match enc.write_all(raw) {
        Ok(_) => match enc.finish() {
            Ok(z) => Ok(z),
            Err(e) => Err((true, e.to_string())),
        },
        Err(e) => Err((false, e.to_string())),
    }
}

/// What `zstd` reads from the frames of `raw`.
pub uninterp spec fn unzstded(raw: Seq<u8>) -> Result<Seq<u8>, Seq<char>>;

/// `zstd::stream::decode_all`: the content of the zstd frames of `raw`, or the
/// text of the error. Which of the two comes depends on the bytes alone.
#[verifier::external_body]
pub(crate) fn unzstd(raw: &[u8]) -> (r: Result<Vec<u8>, String>)
    ensures
        decoding(r) == unzstded(raw@),
{
    match zstd::stream::decode_all(raw) {
        Ok(v) => Ok(v),
        Err(e) => Err(e.to_string()),
    }
}

/// What `liblzma` reads from the xz stream `raw`.
pub uninterp spec fn unxzed(raw: Seq<u8>) -> Result<Seq<u8>, Seq<char>>;

/// `liblzma::read::XzDecoder` read to its end: the content of the xz stream
/// `raw`, or the text of the error. Which of the two comes depends on the bytes
/// alone.
#[verifier::external_body]
pub(crate) fn unxz(raw: &[u8]) -> (r: Result<Vec<u8>, String>)
    ensures
        decoding(r) == unxzed(raw@),
{
    let mut out: Vec<u8> = Vec::new();
    match liblzma::read::XzDecoder::new(raw).read_to_end(&mut out) {
        Ok(_) => Ok(out),
        Err(e) => Err(e.to_string()),
    }
}

// ---------------------------------------------------------------------------
// SHA-256
// ---------------------------------------------------------------------------

/// The SHA-256 state of the `sha2` crate.
#[verifier::external_type_specification]
#[verifier::external_body]
pub struct ExSha256(sha2::Sha256);

/// The bytes that a SHA-256 state has been fed with, in order.
pub uninterp spec fn fed(h: sha2::Sha256) -> Seq<u8>;

/// The SHA-256 digest of `bytes`.
pub uninterp spec fn sha256_of(bytes: Seq<u8>) -> Seq<u8>;

/// `Digest::new` of `sha2::Sha256`: a state that has been fed with nothing.
#[verifier::external_body]
pub(crate) fn sha256_new() -> (r: sha2::Sha256)
    ensures
        fed(r) == Seq::<u8>::empty(),
{
    sha2::Sha256::new()
}

/// `Digest::update` of `sha2::Sha256`: the state is fed with `chunk` too.
#[verifier::external_body]
pub(crate) fn sha256_update(h: &mut sha2::Sha256, chunk: &[u8])
    ensures
        fed(*final(h)) == fed(*old(h)) + chunk@,
{
    h.update(chunk)
}

/// `Digest::finalize` of `sha2::Sha256`: the digest, 32 bytes long, of what the
/// state has been fed with.
#[verifier::external_body]
pub(crate) fn sha256_finish(h: sha2::Sha256) -> (r: Vec<u8>)
    ensures
        r@ == sha256_of(fed(h)),
        r@.len() == 32,
{
    h.finalize().to_vec()
}

// ---------------------------------------------------------------------------
// Hexadecimal text
// ---------------------------------------------------------------------------

/// The small hexadecimal digit for `d`.
pub open spec fn hex_char(d: nat) -> char {
    if d < 10 {
        (d + 48) as char
    } else {
        (d + 87) as char
    }
}

/// Each byte of `b` as two small hexadecimal digits.
pub open spec fn hex_text(b: Seq<u8>) -> Seq<char>
    decreases b.len(),
{
    if b.len() == 0 {
        Seq::empty()
    } else {
        hex_text(b.drop_last()) + seq![
            hex_char((b.last() / 16) as nat),
            hex_char((b.last() % 16) as nat),
        ]
    }
}

/// Each byte becomes two digits.
pub proof fn hex_text_len(b: Seq<u8>)
    ensures
        hex_text(b).len() == 2 * b.len(),
    decreases b.len(),
{
    if b.len() > 0 {
        hex_text_len(b.drop_last());
    }
}

/// `hex::encode`: each byte as two small hexadecimal digits, the high one first.
#[verifier::external_body]
pub(crate) fn hex_encode(b: &[u8]) -> (r: String)
    ensures
        r@ == hex_text(b@),
{
    hex::encode(b)
}

// ---------------------------------------------------------------------------
// Laws
// ---------------------------------------------------------------------------

/// Bytes are written one by one, each as the digit of its upper half and then
/// that of its lower half, with the codes of `0` to `9` and of `a` to `f`.
pub proof fn bytes_are_written_as_two_digits(a: Seq<u8>, b: Seq<u8>, x: u8)
    ensures
        hex_text(a + b) == hex_text(a) + hex_text(b),
        hex_text(Seq::empty()) == Seq::<char>::empty(),
        hex_text(seq![x]).len() == 2,
        x / 16 < 10 ==> hex_text(seq![x])[0] as u32 == 48 + x / 16,
        x / 16 >= 10 ==> hex_text(seq![x])[0] as u32 == 97 + (x / 16 - 10),
        x % 16 < 10 ==> hex_text(seq![x])[1] as u32 == 48 + x % 16,
        x % 16 >= 10 ==> hex_text(seq![x])[1] as u32 == 97 + (x % 16 - 10),
    decreases b.len(),
{
    reveal_with_fuel(hex_text, 2);
    assert(seq![x].drop_last() =~= Seq::<u8>::empty());
    if b.len() == 0 {
        assert(a + b =~= a);
        assert(hex_text(a) + hex_text(b) =~= hex_text(a));
    } else {
        bytes_are_written_as_two_digits(a, b.drop_last(), x);
        assert((a + b).drop_last() =~= a + b.drop_last());
        assert((a + b).last() == b.last());
        assert(hex_text(a + b) =~= hex_text(a) + hex_text(b));
    }
}

} // verus!
