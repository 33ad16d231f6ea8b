//! Fresh keypairs and the hex address derived from each.
//!
//! The curve arithmetic and the hash come from outside crates; this module
//! frames their bytes: the secret key in hex, and the address as the hex of
//! the last twenty bytes of the Keccak-256 digest of the public key's
//! coordinates.
use vstd::prelude::*;
use crate::pattern::{is_hex_char, is_hex_pattern};

verus! {

#[verifier::external_type_specification]
#[verifier::external_body]
pub struct ExThreadRng(rand::rngs::ThreadRng);

/// The Keccak-256 digest of `data`.
pub uninterp spec fn keccak256_of(data: Seq<u8>) -> Seq<u8>;

/// Relies on tiny_keccak's Keccak-256 hasher (`Keccak::v256`, then `update`
/// and `finalize`): the 32-byte digest of `data`, a function of `data` alone.
#[verifier::external_body]
fn keccak256(data: &[u8]) -> (r: [u8; 32])
    ensures
        r@ == keccak256_of(data@),
{
    let mut hasher = tiny_keccak::Keccak::v256();
    tiny_keccak::Hasher::update(&mut hasher, data);
    let mut out = [0u8; 32];
    tiny_keccak::Hasher::finalize(hasher, &mut out);
    out
}

/// Relies on secp256k1::generate_keypair (global context) drawing from the
/// caller's random generator: a fresh random keypair, handed back as the
/// secret key's 32 bytes and the public key's 65-byte uncompressed
/// serialization. Nothing is known of the values themselves.
#[verifier::external_body]
fn random_keypair(rng: &mut rand::rngs::ThreadRng) -> (r: ([u8; 32], [u8; 65])) {
    let (secret, public) = secp256k1::generate_keypair(rng);
    (secret.secret_bytes(), public.serialize_uncompressed())
}

/// The lowercase hex digit of `n`, for `n < 16`.
pub open spec fn hex_digit(n: u8) -> char {
    seq!['0', '1', '2', '3', '4', '5', '6', '7', '8', '9', 'a', 'b', 'c', 'd', 'e', 'f'][n as int]
}

/// Two lowercase hex digits for each byte, high nibble first.
pub open spec fn hex_of(b: Seq<u8>) -> Seq<char>
    decreases b.len(),
{
    if b.len() == 0 {
        Seq::empty()
    } else {
        hex_of(b.drop_last()) + seq![hex_digit(b.last() / 16), hex_digit(b.last() % 16)]
    }
}

/// The address of an uncompressed public key: the hex of the last twenty
/// bytes of the digest of its coordinates (the key without its tag byte).
pub open spec fn address_of_public_key(pk: Seq<u8>) -> Seq<char> {
    hex_of(keccak256_of(pk.subrange(1, 65)).subrange(12, 32))
}

/// The hex of a byte string has two digits per byte, all of them lowercase
/// hex.
pub proof fn lemma_hex_of(b: Seq<u8>)
    ensures
        hex_of(b).len() == 2 * b.len(),
        is_hex_pattern(hex_of(b)),
    decreases b.len(),
{
    if b.len() > 0 {
        lemma_hex_of(b.drop_last());
        let h = hex_of(b);
        let digits = seq!['0', '1', '2', '3', '4', '5', '6', '7', '8', '9', 'a', 'b', 'c', 'd', 'e', 'f'];
        assert forall|i: int| 0 <= i < 16 implies is_hex_char(#[trigger] digits[i]) by {}
        assert(is_hex_char(hex_digit(b.last() / 16)) && is_hex_char(hex_digit(b.last() % 16)));
        assert forall|i: int| 0 <= i < h.len() implies is_hex_char(#[trigger] h[i]) by {
            if i < h.len() - 2 {
                assert(h[i] == hex_of(b.drop_last())[i]);
            }
        }
    }
}

fn push_hex_digit(s: &mut String, n: u8)
    requires
        n < 16,
    ensures
        final(s)@ == old(s)@.push(hex_digit(n)),
{
    match n {
        0 => { proof { reveal_strlit("0"); } s.append("0"); }
        1 => { proof { reveal_strlit("1"); } s.append("1"); }
        2 => { proof { reveal_strlit("2"); } s.append("2"); }
        3 => { proof { reveal_strlit("3"); } s.append("3"); }
        4 => { proof { reveal_strlit("4"); } s.append("4"); }
        5 => { proof { reveal_strlit("5"); } s.append("5"); }
        6 => { proof { reveal_strlit("6"); } s.append("6"); }
        7 => { proof { reveal_strlit("7"); } s.append("7"); }
        8 => { proof { reveal_strlit("8"); } s.append("8"); }
        9 => { proof { reveal_strlit("9"); } s.append("9"); }
        10 => { proof { reveal_strlit("a"); } s.append("a"); }
        11 => { proof { reveal_strlit("b"); } s.append("b"); }
        12 => { proof { reveal_strlit("c"); } s.append("c"); }
        13 => { proof { reveal_strlit("d"); } s.append("d"); }
        14 => { proof { reveal_strlit("e"); } s.append("e"); }
        _ => { proof { reveal_strlit("f"); } s.append("f"); }
    }
}

/// The lowercase hex of `bytes[start..end]`.
pub fn hex_of_range(bytes: &[u8], start: usize, end: usize) -> (r: String)
    requires
        start <= end <= bytes@.len(),
    ensures
        r@ == hex_of(bytes@.subrange(start as int, end as int)),
{
    let mut s = String::new();
    let mut i: usize = start;
    assert(bytes@.subrange(start as int, start as int) =~= Seq::<u8>::empty());
    while i < end
        invariant
            start <= i <= end <= bytes@.len(),
            s@ == hex_of(bytes@.subrange(start as int, i as int)),
        decreases end - i,
    {
        let b = bytes[i];
        push_hex_digit(&mut s, b / 16);
        push_hex_digit(&mut s, b % 16);
        i += 1;
        assert(bytes@.subrange(start as int, i as int).drop_last() =~= bytes@.subrange(start as int, i - 1));
    }
    s
}

/// The address for a Keccak-256 digest: the hex of its last twenty bytes.
pub fn address_from_digest(digest: &[u8; 32]) -> (r: String)
    ensures
        r@ == hex_of(digest@.subrange(12, 32)),
{
    hex_of_range(digest.as_slice(), 12, 32)
}

/// The address of a public key in its 65-byte uncompressed form.
pub fn public_key_address(public_key: &[u8; 65]) -> (r: String)
    ensures
        r@ == address_of_public_key(public_key@),
        r@.len() == 40,
        is_hex_pattern(r@),
{
    let mut coords: Vec<u8> = Vec::new();
    let mut i: usize = 1;
    while i < 65
        invariant
            1 <= i <= 65,
            coords@ =~= public_key@.subrange(1, i as int),
        decreases 65 - i,
    {
        coords.push(public_key[i]);
        i += 1;
    }
    let digest = keccak256(coords.as_slice());
    proof {
        lemma_hex_of(digest@.subrange(12, 32));
    }
    address_from_digest(&digest)
}

/// One generated keypair under evaluation: the secret key and the address,
/// both in lowercase hex.
#[derive(Debug)]
pub struct Candidate {
    pub private_key: String,
    pub address: String,
}

/// A candidate made of the secret key `sk` and the public key `pk`.
pub open spec fn is_candidate_of(c: Candidate, sk: Seq<u8>, pk: Seq<u8>) -> bool {
    &&& sk.len() == 32
    &&& pk.len() == 65
    &&& c.private_key@ == hex_of(sk)
    &&& c.address@ == address_of_public_key(pk)
}

/// The shape every candidate has: 64 hex digits of secret key, 40 of address.
pub open spec fn is_well_formed(c: Candidate) -> bool {
    &&& c.private_key@.len() == 64
    &&& c.address@.len() == 40
    &&& is_hex_pattern(c.private_key@)
    &&& is_hex_pattern(c.address@)
}

/// Generates a fresh random keypair with `rng` and derives its address.
pub fn generate_key_address(rng: &mut rand::rngs::ThreadRng) -> (r: Candidate)
    ensures
        exists|sk: Seq<u8>, pk: Seq<u8>| is_candidate_of(r, sk, pk),
        is_well_formed(r),
{
    let (secret, public) = random_keypair(rng);
    let private_key = hex_of_range(secret.as_slice(), 0, 32);
    let address = public_key_address(&public);
    proof {
        assert(secret@.subrange(0, 32) =~= secret@);
        lemma_hex_of(secret@);
    }
    let r = Candidate { private_key, address };
    assert(is_candidate_of(r, secret@, public@));
    r
}

} // verus!
