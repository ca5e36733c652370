//! Digest primitives: trusted wrappers around the hash crates, together
//! with the hex alphabet that digests are printed in.

use vstd::prelude::*;

verus! {

/// What sha2's SHA-256 returns for the UTF-8 bytes of a string; a function
/// of the characters alone, never spelled out here.
pub uninterp spec fn spec_sha256(s: Seq<char>) -> Seq<u8>;

/// What sha3's SHA3-256 returns for the UTF-8 bytes of a string.
pub uninterp spec fn spec_sha3(s: Seq<char>) -> Seq<u8>;

/// What rs_merkle computes as the root of a binary hash tree over the
/// given 32-byte leaves.
pub uninterp spec fn spec_merkle_root(leaves: Seq<Seq<u8>>) -> Seq<u8>;

/// The lower-case hex digit for a value below 16.
pub open spec fn hex_digit(d: nat) -> char {
    if d == 0 {
        '0'
    } else if d == 1 {
        '1'
    } else if d == 2 {
        '2'
    } else if d == 3 {
        '3'
    } else if d == 4 {
        '4'
    } else if d == 5 {
        '5'
    } else if d == 6 {
        '6'
    } else if d == 7 {
        '7'
    } else if d == 8 {
        '8'
    } else if d == 9 {
        '9'
    } else if d == 10 {
        'a'
    } else if d == 11 {
        'b'
    } else if d == 12 {
        'c'
    } else if d == 13 {
        'd'
    } else if d == 14 {
        'e'
    } else {
        'f'
    }
}

/// The lower-case hex encoding of a byte sequence, two digits per byte,
/// most significant digit first.
pub open spec fn spec_hex(bytes: Seq<u8>) -> Seq<char>
    decreases bytes.len(),
{
    if bytes.len() == 0 {
        Seq::empty()
    } else {
        seq![
            hex_digit((bytes.first() / 16) as nat),
            hex_digit((bytes.first() % 16) as nat),
        ] + spec_hex(bytes.drop_first())
    }
}

/// Whether a character is one of the sixteen lower-case hex digits.
pub open spec fn spec_is_hex_char(c: char) -> bool {
    exists|d: nat| d < 16 && c == hex_digit(d)
}

/// A hex encoding prints two digits per byte, every one of them from
/// the lower-case hex alphabet.
pub proof fn lemma_hex_shape(bytes: Seq<u8>)
    ensures
        spec_hex(bytes).len() == 2 * bytes.len(),
        forall|i: int|
            0 <= i < spec_hex(bytes).len() ==> spec_is_hex_char(#[trigger] spec_hex(bytes)[i]),
    decreases bytes.len(),
{
    if bytes.len() > 0 {
        lemma_hex_shape(bytes.drop_first());
        let h = spec_hex(bytes);
        let rest = spec_hex(bytes.drop_first());
        assert forall|i: int| 0 <= i < h.len() implies spec_is_hex_char(#[trigger] h[i]) by {
            if i == 0 {
                let d = (bytes.first() / 16) as nat;
                assert(d < 16 && h[0] == hex_digit(d));
            } else if i == 1 {
                let d = (bytes.first() % 16) as nat;
                assert(d < 16 && h[1] == hex_digit(d));
            } else {
                assert(h[i] == rest[i - 2]);
            }
        }
    }
}

/// Relies on sha2's `Sha256::digest`: a 32-byte digest of the input's
/// UTF-8 bytes, depending on the input alone.
#[verifier::external_body]
pub(crate) fn sha256_digest(s: &str) -> (r: Vec<u8>)
    ensures
        r@ == spec_sha256(s@),
        r@.len() == 32,
{
    <sha2::Sha256 as sha2::Digest>::digest(s.as_bytes()).to_vec()
}

/// Relies on sha3's `Sha3_256::digest`: a 32-byte digest of the input's
/// UTF-8 bytes, depending on the input alone.
#[verifier::external_body]
pub(crate) fn sha3_digest(s: &str) -> (r: Vec<u8>)
    ensures
        r@ == spec_sha3(s@),
        r@.len() == 32,
{
    <sha3::Sha3_256 as sha3::Digest>::digest(s.as_bytes()).to_vec()
}

/// Relies on hex's `encode`: the lower-case hex digits of the bytes, two
/// per byte, most significant first.
#[verifier::external_body]
pub(crate) fn encode_hex(bytes: &Vec<u8>) -> (r: String)
    ensures
        r@ == spec_hex(bytes@),
{
    hex::encode(bytes)
}

/// Relies on rs_merkle's `MerkleTree::from_leaves` and `MerkleTree::root`:
/// the root of the tree built over the leaves, a 32-byte value that is a
/// function of the leaf sequence alone and is present whenever at least
/// one leaf was supplied.
#[verifier::external_body]
pub(crate) fn merkle_root_digest(leaves: &Vec<Vec<u8>>) -> (r: Vec<u8>)
    requires
        leaves@.len() >= 1,
        forall|i: int| 0 <= i < leaves@.len() ==> leaves@[i]@.len() == 32,
    ensures
        r@ == spec_merkle_root(leaves.deep_view()),
        r@.len() == 32,
{
    let hashes: Vec<[u8; 32]> = leaves.iter().map(|l| l.as_slice().try_into().unwrap()).collect();
    let tree = rs_merkle::MerkleTree::<rs_merkle::algorithms::Sha256>::from_leaves(&hashes);
    tree.root().unwrap_or([0u8; 32]).to_vec()
}

} // verus!
