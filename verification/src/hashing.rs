//! Content-hash handling: validating declared BLAKE2b hash strings, and
//! the incremental BLAKE2b-512 digest that the streaming downloader
//! computes over everything it writes.

use vstd::prelude::*;

verus! {

/// Is `c` one of the hexadecimal digits (either case)?
pub open spec fn is_hex_digit(c: char) -> bool {
    (48 <= c as u32 <= 57) || (97 <= c as u32 <= 102) || (65 <= c as u32 <= 70)
}

pub open spec fn hex_digit_val(c: char) -> nat {
    if 48 <= c as u32 <= 57 {
        (c as u32 - 48) as nat
    } else if 97 <= c as u32 <= 102 {
        (c as u32 - 87) as nat
    } else {
        (c as u32 - 55) as nat
    }
}

/// The bytes a hex string denotes, one byte per digit pair.
pub open spec fn hex_decoded(s: Seq<char>) -> Seq<u8>
    decreases s.len(),
{
    if s.len() < 2 {
        Seq::empty()
    } else {
        seq![(16 * hex_digit_val(s[0]) + hex_digit_val(s[1])) as u8] + hex_decoded(s.skip(2))
    }
}

pub proof fn lemma_hex_decoded_len(s: Seq<char>)
    ensures
        hex_decoded(s).len() == s.len() / 2,
    decreases s.len(),
{
    if s.len() >= 2 {
        lemma_hex_decoded_len(s.skip(2));
    }
}

/// Relies on `hex::decode`: it succeeds exactly on even-length strings
/// of hexadecimal digits (either case, `0x` prefixes rejected), and then
/// yields one byte per digit pair, high digit first.
#[verifier::external_body]
fn hex_decode(s: &str) -> (r: Option<Vec<u8>>)
    ensures
        r is Some <==> (s@.len() % 2 == 0 && forall|i: int|
            0 <= i < s@.len() ==> is_hex_digit(#[trigger] s@[i])),
        r matches Some(v) ==> v@ == hex_decoded(s@),
{
    hex::decode(s).ok()
}

/// What a well-formed declared hash is: 128 characters that decode as
/// hex to exactly 64 bytes — equivalently, 128 hex digits.
pub open spec fn spec_valid_hash(s: Seq<char>) -> bool {
    s.len() == 128 && forall|i: int| 0 <= i < s.len() ==> is_hex_digit(#[trigger] s[i])
}

/// Is `val` a well-formed BLAKE2b hash string: exactly 128 characters
/// which decode as hex to exactly 64 bytes?
pub fn valid_hash(val: &str) -> (r: bool)
    ensures
        r == spec_valid_hash(val@),
{
    if val.unicode_len() != 128 {
        return false;
    }
    match hex_decode(val) {
        Some(v) => {
            proof {
                lemma_hex_decoded_len(val@);
            }
            v.len() == 64
        },
        None => false,
    }
}

#[verifier::external_type_specification]
#[verifier::external_body]
pub struct ExBlake2bState(blake2b_simd::State);

/// The BLAKE2b-512 digest of a byte sequence.  Named here, defined by
/// blake2b_simd: the digest is a function of the input bytes alone.
pub uninterp spec fn blake2b_of(input: Seq<u8>) -> Seq<u8>;

/// The bytes a hasher state has absorbed so far.
pub uninterp spec fn absorbed(st: blake2b_simd::State) -> Seq<u8>;

/// Relies on `blake2b_simd::State::new`: a fresh hasher with the default
/// 64-byte output parameters and nothing absorbed yet.
#[verifier::external_body]
fn hasher_new() -> (st: blake2b_simd::State)
    ensures
        absorbed(st) == Seq::<u8>::empty(),
{
    blake2b_simd::State::new()
}

/// Relies on `blake2b_simd::State::update`: the chunk is absorbed after
/// everything absorbed before it.
#[verifier::external_body]
fn hasher_update(st: &mut blake2b_simd::State, chunk: &[u8])
    ensures
        absorbed(*final(st)) == absorbed(*old(st)) + chunk@,
{
    st.update(chunk);
}

/// Relies on `blake2b_simd::State::finalize` and `Hash::as_bytes`: the
/// 64-byte BLAKE2b-512 digest of all absorbed bytes, independent of how
/// they were split into chunks.
#[verifier::external_body]
fn hasher_finalize(st: &blake2b_simd::State) -> (digest: Vec<u8>)
    ensures
        digest@ == blake2b_of(absorbed(*st)),
        digest@.len() == 64,
{
    st.finalize().as_bytes().to_vec()
}

/// The hashing half of the streaming downloader.  The caller feeds every
/// chunk it writes to the destination, in stream order, and finally
/// obtains the digest to compare against the package's declared hash.
pub struct DownloadHasher {
    state: blake2b_simd::State,
}

impl DownloadHasher {
    /// The bytes fed so far.
    pub closed spec fn fed(&self) -> Seq<u8> {
        absorbed(self.state)
    }

    /// A fresh hasher with nothing fed.
    pub fn new() -> (h: DownloadHasher)
        ensures
            h.fed() == Seq::<u8>::empty(),
    {
        DownloadHasher { state: hasher_new() }
    }

    /// Feed one chunk of the stream.
    pub fn push_chunk(&mut self, chunk: &[u8])
        ensures
            final(self).fed() == old(self).fed() + chunk@,
    {
        hasher_update(&mut self.state, chunk);
    }

    /// The BLAKE2b-512 digest of everything fed so far.
    pub fn finish(&self) -> (digest: Vec<u8>)
        ensures
            digest@ == blake2b_of(self.fed()),
            digest@.len() == 64,
    {
        hasher_finalize(&self.state)
    }
}

/// The digest of a byte slice in one call.
pub fn hash_bytes(data: &[u8]) -> (digest: Vec<u8>)
    ensures
        digest@ == blake2b_of(data@),
        digest@.len() == 64,
{
    let mut h = DownloadHasher::new();
    h.push_chunk(data);
    proof {
        assert(Seq::<u8>::empty() + data@ =~= data@);
    }
    h.finish()
}

} // verus!
