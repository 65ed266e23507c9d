//! Content checksums for the STAC File extension (`file:checksum`): the
//! SHA-256 digest of the content as a hex-encoded multihash.
use vstd::prelude::*;
use crate::text::push_char;

verus! {

/// The SHA-256 digest of a byte sequence.
pub uninterp spec fn sha256(data: Seq<u8>) -> Seq<u8>;

/// Calls sha2's `Sha256::digest` (through the `Digest` trait) on the bytes.
/// The digest is named by `sha256`; of the hash function only the digest
/// length, 32 bytes, is stated.
#[verifier::external_body]
fn sha256_digest(data: &[u8]) -> (r: Vec<u8>)
    ensures
        r@ == sha256(data@),
        r@.len() == 32,
{
    <sha2::Sha256 as sha2::Digest>::digest(data).to_vec()
}

/// The lower-case hexadecimal digit of a value below 16.
pub open spec fn hex_digit(n: nat) -> char {
    if n < 10 {
        (('0' as int) + n) as char
    } else {
        (('a' as int) + n - 10) as char
    }
}

/// Bytes in lower-case hexadecimal, two digits per byte, high digit first
/// (what `hex::encode` produces).
pub open spec fn hex_lower(b: Seq<u8>) -> Seq<char>
    decreases b.len(),
{
    if b.len() == 0 {
        seq![]
    } else {
        hex_lower(b.drop_last()) + seq![hex_digit(b.last() as nat / 16), hex_digit(b.last() as nat % 16)]
    }
}

/// The hexadecimal digit of a value below 16.
fn hex_char(d: u8) -> (c: char)
    requires
        d < 16,
    ensures
        c == hex_digit(d as nat),
{
    if d < 10 {
        (48u8 + d) as char
    } else {
        (87u8 + d) as char
    }
}

/// Encodes bytes in lower-case hexadecimal.
pub fn hex_encode(bytes: &Vec<u8>) -> (r: String)
    ensures
        r@ == hex_lower(bytes@),
        r@.len() == 2 * bytes@.len(),
{
    let mut r = String::new();
    let mut i: usize = 0;
    while i < bytes.len()
        invariant
            i <= bytes.len(),
            r@ == hex_lower(bytes@.take(i as int)),
            r@.len() == 2 * i,
        decreases bytes.len() - i,
    {
        let ghost pre = bytes@.take(i + 1);
        assert(pre.drop_last() =~= bytes@.take(i as int));
        let b = bytes[i];
        push_char(&mut r, hex_char(b / 16));
        push_char(&mut r, hex_char(b % 16));
        assert(r@ =~= hex_lower(pre));
        i = i + 1;
    }
    assert(bytes@.take(bytes.len() as int) =~= bytes@);
    r
}

/// The multihash of a SHA-256 digest: the function code `0x12`, the digest
/// length `0x20`, then the digest.
pub open spec fn sha256_multihash(digest: Seq<u8>) -> Seq<u8> {
    seq![0x12u8, 0x20u8] + digest
}

/// The hex-encoded multihash of a SHA-256 digest.
pub fn multihash_hex(digest: &Vec<u8>) -> (r: String)
    ensures
        r@ == hex_lower(sha256_multihash(digest@)),
{
    let mut m: Vec<u8> = Vec::new();
    m.push(0x12);
    m.push(0x20);
    let mut i: usize = 0;
    while i < digest.len()
        invariant
            i <= digest.len(),
            m@ == seq![0x12u8, 0x20u8] + digest@.take(i as int),
        decreases digest.len() - i,
    {
        m.push(digest[i]);
        assert(digest@.take(i + 1) =~= digest@.take(i as int).push(digest@[i as int]));
        i = i + 1;
    }
    assert(digest@.take(digest.len() as int) =~= digest@);
    hex_encode(&m)
}

/// The `file:checksum` of some content: the hex-encoded multihash of its
/// SHA-256 digest (68 hexadecimal digits).
pub fn content_checksum(data: &[u8]) -> (r: String)
    ensures
        r@ == hex_lower(sha256_multihash(sha256(data@))),
        r@.len() == 68,
{
    let digest = sha256_digest(data);
    let r = multihash_hex(&digest);
    proof {
        lemma_hex_len(sha256_multihash(digest@));
    }
    r
}

/// Hex encoding doubles the length.
proof fn lemma_hex_len(b: Seq<u8>)
    ensures
        hex_lower(b).len() == 2 * b.len(),
    decreases b.len(),
{
    if b.len() > 0 {
        lemma_hex_len(b.drop_last());
    }
}

} // verus!
