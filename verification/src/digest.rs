use vstd::prelude::*;
use sha2::Digest;

verus! {

/// The SHA-256 digest (32 bytes) of a byte sequence. The algorithm itself
/// is not restated here; the library names its result and reasons about
/// which bytes were hashed.
pub uninterp spec fn sha256_of(bytes: Seq<u8>) -> Seq<u8>;

/// The lowercase hexadecimal digit for a nibble.
pub open spec fn hex_digit_char(v: u8) -> char
    recommends
        v < 16,
{
    if v == 0 {
        '0'
    } else if v == 1 {
        '1'
    } else if v == 2 {
        '2'
    } else if v == 3 {
        '3'
    } else if v == 4 {
        '4'
    } else if v == 5 {
        '5'
    } else if v == 6 {
        '6'
    } else if v == 7 {
        '7'
    } else if v == 8 {
        '8'
    } else if v == 9 {
        '9'
    } else if v == 10 {
        'a'
    } else if v == 11 {
        'b'
    } else if v == 12 {
        'c'
    } else if v == 13 {
        'd'
    } else if v == 14 {
        'e'
    } else {
        'f'
    }
}

/// Lowercase hexadecimal rendering of bytes: two digits per byte, the high
/// nibble first.
pub open spec fn hex_of(bytes: Seq<u8>) -> Seq<char> {
    Seq::new(
        bytes.len() * 2,
        |i: int|
            if i % 2 == 0 {
                hex_digit_char(bytes[i / 2] / 16)
            } else {
                hex_digit_char(bytes[i / 2] % 16)
            },
    )
}

/// The concatenation, in order, of a sequence of byte chunks.
pub open spec fn concat_of(chunks: Seq<Seq<u8>>) -> Seq<u8>
    decreases chunks.len(),
{
    if chunks.len() == 0 {
        Seq::empty()
    } else {
        concat_of(chunks.drop_last()) + chunks.last()
    }
}

pub proof fn lemma_concat_of_push(chunks: Seq<Seq<u8>>, c: Seq<u8>)
    ensures
        concat_of(chunks.push(c)) == concat_of(chunks) + c,
{
    assert(chunks.push(c).drop_last() =~= chunks);
    assert(chunks.push(c).last() == c);
}

pub proof fn lemma_concat_of_take_len(chunks: Seq<Seq<u8>>, i: int)
    requires
        0 <= i <= chunks.len(),
    ensures
        concat_of(chunks.take(i)).len() <= concat_of(chunks).len(),
    decreases chunks.len() - i,
{
    if i == chunks.len() {
        assert(chunks.take(i) =~= chunks);
    } else {
        lemma_concat_of_take_len(chunks, i + 1);
        assert(chunks.take(i + 1).drop_last() =~= chunks.take(i));
        assert(concat_of(chunks.take(i + 1)) == concat_of(chunks.take(i)) + chunks.take(i + 1).last());
    }
}

/// Incremental SHA-256 state. It holds sha2's hasher, which Verus does not
/// read; the bytes absorbed so far are tracked through `digest_fed`.
#[verifier::external_body]
pub struct DigestAcc {
    inner: sha2::Sha256,
}

/// The bytes an accumulator has absorbed so far.
pub uninterp spec fn digest_fed(d: DigestAcc) -> Seq<u8>;

/// Relies on sha2::Sha256::new: a fresh hasher has absorbed no bytes.
#[verifier::external_body]
pub fn digest_new() -> (d: DigestAcc)
    ensures
        digest_fed(d) == Seq::<u8>::empty(),
{
    DigestAcc { inner: sha2::Sha256::new() }
}

/// Relies on sha2::Sha256::update: absorbing a chunk appends it to the
/// hashed stream.
#[verifier::external_body]
pub fn digest_update(d: &mut DigestAcc, chunk: &[u8])
    ensures
        digest_fed(*final(d)) == digest_fed(*old(d)) + chunk@,
{
    d.inner.update(chunk);
}

/// Relies on sha2::Sha256::finalize: the output is the 32-byte SHA-256
/// digest of exactly the bytes absorbed, in the order absorbed.
#[verifier::external_body]
pub fn digest_finalize(d: DigestAcc) -> (out: Vec<u8>)
    ensures
        out@ == sha256_of(digest_fed(d)),
        out@.len() == 32,
{
    d.inner.finalize().as_slice().to_vec()
}

/// Relies on hex::encode: lowercase hexadecimal, two digits per byte, the
/// high nibble first.
#[verifier::external_body]
pub(crate) fn hex_encode(bytes: &Vec<u8>) -> (out: String)
    ensures
        out@ == hex_of(bytes@),
{
    hex::encode(bytes)
}

/// The lowercase hex SHA-256 digest of `bytes`, computed in one shot.
pub fn sha256_hex(bytes: &Vec<u8>) -> (out: String)
    ensures
        out@ == hex_of(sha256_of(bytes@)),
{
    let mut d = digest_new();
    digest_update(&mut d, bytes.as_slice());
    proof {
        assert(Seq::<u8>::empty() + bytes@ =~= bytes@);
    }
    let raw = digest_finalize(d);
    hex_encode(&raw)
}

} // verus!
