use vstd::prelude::*;

use crate::model::id::{id_shaped, is_hex_digit};
use sha2::Digest;

verus! {

/// The SHA-256 digest of a byte sequence, as the `sha2` crate computes it.
pub uninterp spec fn sha256_of(data: Seq<u8>) -> Seq<u8>;

/// Calls `sha2::Sha256::digest`. Trusted: the digest is the named function
/// `sha256_of` of the input bytes, and it is 32 bytes long (the output
/// size `U32` that `sha2` declares for SHA-256).
#[verifier::external_body]
fn sha256_digest(data: &[u8]) -> (d: Vec<u8>)
    ensures
        d@ == sha256_of(data@),
        d@.len() == 32,
{
    sha2::Sha256::digest(data).to_vec()
}

/// The lower-case hexadecimal digit for a value below sixteen.
pub open spec fn hex_char(n: int) -> char {
    if n < 10 {
        (48 + n) as char
    } else {
        (87 + n) as char
    }
}

/// Lower-case hexadecimal text of a byte sequence: two digits per byte,
/// high nibble first.
pub open spec fn hex_lower(bytes: Seq<u8>) -> Seq<char>
    decreases bytes.len(),
{
    if bytes.len() == 0 {
        Seq::empty()
    } else {
        seq![hex_char(bytes[0] as int / 16), hex_char(bytes[0] as int % 16)] + hex_lower(bytes.drop_first())
    }
}

/// Calls `hex::encode`. Trusted: the result is the lower-case hex text of
/// the input, two characters per byte, high nibble first (the table
/// `b"0123456789abcdef"` indexed by `byte >> 4`, then `byte & 0x0f`).
#[verifier::external_body]
fn hex_encode(data: &[u8]) -> (s: String)
    ensures
        s@ == hex_lower(data@),
{
    hex::encode(data)
}

/// Lower-case hex text of bytes, two digits per byte.
pub fn hex_text(bytes: &[u8]) -> (s: String)
    ensures
        s@ == hex_lower(bytes@),
{
    hex_encode(bytes)
}

/// The id-shaped text a content hash has: `hex(sha256(bytes))`.
pub open spec fn content_hash(bytes: Seq<u8>) -> Seq<char> {
    hex_lower(sha256_of(bytes))
}

/// Hex text has two digits per byte, all of them hex digits.
pub proof fn lemma_hex_lower_shape(bytes: Seq<u8>)
    ensures
        hex_lower(bytes).len() == 2 * bytes.len(),
        forall|i: int| 0 <= i < hex_lower(bytes).len() ==> #[trigger] is_hex_digit(hex_lower(bytes)[i]),
    decreases bytes.len(),
{
    if bytes.len() > 0 {
        lemma_hex_lower_shape(bytes.drop_first());
        let head = seq![hex_char(bytes[0] as int / 16), hex_char(bytes[0] as int % 16)];
        let tail = hex_lower(bytes.drop_first());
        assert(hex_lower(bytes) == head + tail);
        assert forall|i: int| 0 <= i < hex_lower(bytes).len() implies #[trigger] is_hex_digit(hex_lower(bytes)[i]) by {
            if i >= 2 {
                assert(hex_lower(bytes)[i] == tail[i - 2]);
            }
        }
    }
}

/// Every content hash is id-shaped: 64 lower-case hex digits.
pub proof fn lemma_content_hash_is_id_shaped(bytes: Seq<u8>)
    requires
        sha256_of(bytes).len() == 32,
    ensures
        id_shaped(content_hash(bytes)),
{
    lemma_hex_lower_shape(sha256_of(bytes));
}

/// Hex-encoded SHA-256 of `bytes`: the content hash a blob is stored and
/// addressed under.
pub fn sha256_hex(bytes: &[u8]) -> (h: String)
    ensures
        h@ == hex_lower(sha256_of(bytes@)),
        h@ == content_hash(bytes@),
        id_shaped(h@),
{
    let d = sha256_digest(bytes);
    let h = hex_text(d.as_slice());
    proof {
        lemma_hex_lower_shape(d@);
    }
    h
}

/// A content hash is the hex text of the SHA-256 of every byte of the
/// content, whatever its length.
pub proof fn lemma_content_hash_is_hex_sha256(bytes: Seq<u8>)
    ensures
        content_hash(bytes) == hex_lower(sha256_of(bytes)),
{
}

/// Hex text digit by digit: byte `i` gives the characters at `2 * i` and
/// `2 * i + 1`, its high nibble then its low nibble, each written with
/// `0123456789abcdef`.
pub proof fn lemma_hex_lower_digits(bytes: Seq<u8>)
    ensures
        hex_lower(bytes).len() == 2 * bytes.len(),
        forall|i: int|
            0 <= i < bytes.len() ==> {
                &&& #[trigger] hex_lower(bytes)[2 * i] == seq![
                    '0', '1', '2', '3', '4', '5', '6', '7', '8', '9', 'a', 'b', 'c', 'd', 'e', 'f',
                ][bytes[i] as int / 16]
                &&& hex_lower(bytes)[2 * i + 1] == seq![
                    '0', '1', '2', '3', '4', '5', '6', '7', '8', '9', 'a', 'b', 'c', 'd', 'e', 'f',
                ][bytes[i] as int % 16]
            },
    decreases bytes.len(),
{
    let table = seq!['0', '1', '2', '3', '4', '5', '6', '7', '8', '9', 'a', 'b', 'c', 'd', 'e', 'f'];
    assert forall|n: int| 0 <= n < 16 implies #[trigger] hex_char(n) == table[n] by {
        assert(table[0] == '0' && table[1] == '1' && table[2] == '2' && table[3] == '3');
        assert(table[4] == '4' && table[5] == '5' && table[6] == '6' && table[7] == '7');
        assert(table[8] == '8' && table[9] == '9' && table[10] == 'a' && table[11] == 'b');
        assert(table[12] == 'c' && table[13] == 'd' && table[14] == 'e' && table[15] == 'f');
    }
    if bytes.len() > 0 {
        lemma_hex_lower_digits(bytes.drop_first());
        let head = seq![hex_char(bytes[0] as int / 16), hex_char(bytes[0] as int % 16)];
        let tail = hex_lower(bytes.drop_first());
        assert(hex_lower(bytes) == head + tail);
        assert forall|i: int| 0 <= i < bytes.len() implies {
            &&& #[trigger] hex_lower(bytes)[2 * i] == table[bytes[i] as int / 16]
            &&& hex_lower(bytes)[2 * i + 1] == table[bytes[i] as int % 16]
        } by {
            assert(hex_char(bytes[i] as int / 16) == table[bytes[i] as int / 16]);
            assert(hex_char(bytes[i] as int % 16) == table[bytes[i] as int % 16]);
            if i > 0 {
                assert(bytes.drop_first()[i - 1] == bytes[i]);
                assert(hex_lower(bytes)[2 * i] == tail[2 * (i - 1)]);
                assert(hex_lower(bytes)[2 * i + 1] == tail[2 * (i - 1) + 1]);
            }
        }
    }
}

} // verus!
