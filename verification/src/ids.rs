//! Identifiers: the byte form of an occurrence key, and the instance
//! identifier derived from it by hashing.

use vstd::prelude::*;
use sha2::{Digest, Sha256};
use crate::types::{OverrideKey, Uuid};

verus! {

/// The SHA-256 digest of a byte string.
pub uninterp spec fn sha256_digest(data: Seq<u8>) -> Seq<u8>;

/// Calls `Sha256::digest` of the crate `sha2`. Nothing is proved of it:
/// the contract names the digest of the bytes handed in, and states that
/// it has 32 bytes, the output size of SHA-256.
#[verifier::external_body]
fn sha256(data: &Vec<u8>) -> (out: Vec<u8>)
    ensures
        out@ == sha256_digest(data@),
        out@.len() == 32,
{
    Sha256::digest(data.as_slice()).to_vec()
}

/// The eight bytes of `x`, most significant first.
pub open spec fn be_bytes(x: u64) -> Seq<u8> {
    seq![
        ((x as int / 0x100_0000_0000_0000) % 256) as u8,
        ((x as int / 0x1_0000_0000_0000) % 256) as u8,
        ((x as int / 0x100_0000_0000) % 256) as u8,
        ((x as int / 0x1_0000_0000) % 256) as u8,
        ((x as int / 0x100_0000) % 256) as u8,
        ((x as int / 0x1_0000) % 256) as u8,
        ((x as int / 0x100) % 256) as u8,
        (x as int % 256) as u8,
    ]
}

/// The number whose eight bytes, most significant first, are `s`.
pub open spec fn be_value(s: Seq<u8>) -> int {
    s[0] * 0x100_0000_0000_0000 + s[1] * 0x1_0000_0000_0000 + s[2] * 0x100_0000_0000 + s[3]
        * 0x1_0000_0000 + s[4] * 0x100_0000 + s[5] * 0x1_0000 + s[6] * 0x100 + s[7]
}

/// The byte form of an occurrence key: the 16 bytes of the rule's
/// identifier, then the occurrence instant, most significant byte first.
pub open spec fn key_bytes(series_id: [u8; 16], occurrence_start: u64) -> Seq<u8> {
    series_id@ + be_bytes(occurrence_start)
}

/// The array that holds the 16 bytes of `s`.
pub open spec fn array16(s: Seq<u8>) -> [u8; 16] {
    choose|a: [u8; 16]| a@ == s
}

/// The identifier of the session that an occurrence of a rule resolves
/// to: the first 16 bytes of the SHA-256 digest of the occurrence key.
pub open spec fn instance_id(series_id: [u8; 16], occurrence_start: u64) -> [u8; 16] {
    array16(sha256_digest(key_bytes(series_id, occurrence_start)).subrange(0, 16))
}

/// Reading the eight bytes of a number back gives the number.
pub proof fn lemma_be_round_trip(x: u64)
    ensures
        be_bytes(x).len() == 8,
        be_value(be_bytes(x)) == x,
{
    assert(x == ((x / 0x100_0000_0000_0000) % 256) * 0x100_0000_0000_0000 + ((x
        / 0x1_0000_0000_0000) % 256) * 0x1_0000_0000_0000 + ((x / 0x100_0000_0000) % 256)
        * 0x100_0000_0000 + ((x / 0x1_0000_0000) % 256) * 0x1_0000_0000 + ((x / 0x100_0000) % 256)
        * 0x100_0000 + ((x / 0x1_0000) % 256) * 0x1_0000 + ((x / 0x100) % 256) * 0x100 + (x % 256))
        by (bit_vector);
}

/// The eight bytes of `x`, most significant first, appended to `out`.
pub fn push_be_bytes(out: &mut Vec<u8>, x: u64)
    ensures
        final(out)@ == old(out)@ + be_bytes(x),
{
    out.push(((x / 0x100_0000_0000_0000) % 256) as u8);
    out.push(((x / 0x1_0000_0000_0000) % 256) as u8);
    out.push(((x / 0x100_0000_0000) % 256) as u8);
    out.push(((x / 0x1_0000_0000) % 256) as u8);
    out.push(((x / 0x100_0000) % 256) as u8);
    out.push(((x / 0x1_0000) % 256) as u8);
    out.push(((x / 0x100) % 256) as u8);
    out.push((x % 256) as u8);
    assert(out@ =~= old(out)@ + be_bytes(x));
}

/// The number whose eight bytes, most significant first, stand in `bytes`
/// from index `at` on.
pub fn read_be_u64(bytes: &Vec<u8>, at: usize) -> (x: u64)
    requires
        at + 8 <= bytes@.len(),
    ensures
        x == be_value(bytes@.subrange(at as int, at + 8)),
{
    let n: usize = bytes.len();
    let ghost s = bytes@.subrange(at as int, at + 8);
    assert(s[0] == bytes@[at as int] && s[1] == bytes@[at + 1] && s[2] == bytes@[at + 2] && s[3]
        == bytes@[at + 3] && s[4] == bytes@[at + 4] && s[5] == bytes@[at + 5] && s[6] == bytes@[at
        + 6] && s[7] == bytes@[at + 7]);
    let b0: u64 = bytes[at] as u64;
    let b1: u64 = bytes[at + 1] as u64;
    let b2: u64 = bytes[at + 2] as u64;
    let b3: u64 = bytes[at + 3] as u64;
    let b4: u64 = bytes[at + 4] as u64;
    let b5: u64 = bytes[at + 5] as u64;
    let b6: u64 = bytes[at + 6] as u64;
    let b7: u64 = bytes[at + 7] as u64;
    b0 * 0x100_0000_0000_0000 + b1 * 0x1_0000_0000_0000 + b2 * 0x100_0000_0000 + b3
        * 0x1_0000_0000 + b4 * 0x100_0000 + b5 * 0x1_0000 + b6 * 0x100 + b7
}

/// The first 16 bytes of `bytes`, as an array.
pub fn first_16(bytes: &Vec<u8>) -> (id: [u8; 16])
    requires
        bytes@.len() >= 16,
    ensures
        id@ == bytes@.subrange(0, 16),
        id == array16(bytes@.subrange(0, 16)),
{
    let mut id: [u8; 16] = [0u8;16];
    let mut i: usize = 0;
    while i < 16
        invariant
            0 <= i <= 16,
            bytes@.len() >= 16,
            forall|j: int| 0 <= j < i ==> id@[j] == bytes@[j],
        decreases 16 - i,
    {
        id[i] = bytes[i];
        i += 1;
    }
    proof {
        let s = bytes@.subrange(0, 16);
        assert(id@ =~= s);
        let a = array16(s);
        assert(a@ == s);
        assert(a =~= id);
    }
    id
}

impl OverrideKey {
    /// The byte form of the key, 24 bytes long.
    pub fn to_bytes(&self) -> (out: Vec<u8>)
        ensures
            out@ == key_bytes(self.series_id, self.occurrence_start_utc),
            out@.len() == 24,
    {
        let mut out: Vec<u8> = Vec::new();
        let mut i: usize = 0;
        while i < 16
            invariant
                0 <= i <= 16,
                out@ == self.series_id@.subrange(0, i as int),
            decreases 16 - i,
        {
            out.push(self.series_id[i]);
            i += 1;
            assert(out@ =~= self.series_id@.subrange(0, i as int));
        }
        assert(out@ =~= self.series_id@);
        push_be_bytes(&mut out, self.occurrence_start_utc);
        out
    }

    /// The key whose byte form the first 24 bytes of `bytes` are.
    pub fn from_bytes(bytes: &Vec<u8>) -> (key: OverrideKey)
        requires
            bytes@.len() >= 24,
        ensures
            key.series_id@ == bytes@.subrange(0, 16),
            key.occurrence_start_utc == be_value(bytes@.subrange(16, 24)),
    {
        OverrideKey { series_id: first_16(bytes), occurrence_start_utc: read_be_u64(bytes, 16) }
    }
}

/// A key is read back from its own byte form.
pub proof fn lemma_key_round_trip(key: OverrideKey, read: OverrideKey)
    requires
        read.series_id@ == key_bytes(key.series_id, key.occurrence_start_utc).subrange(0, 16),
        read.occurrence_start_utc == be_value(
            key_bytes(key.series_id, key.occurrence_start_utc).subrange(16, 24),
        ),
    ensures
        read == key,
{
    let b = key_bytes(key.series_id, key.occurrence_start_utc);
    lemma_be_round_trip(key.occurrence_start_utc);
    assert(b.subrange(0, 16) =~= key.series_id@);
    assert(b.subrange(16, 24) =~= be_bytes(key.occurrence_start_utc));
    assert(read.series_id =~= key.series_id);
}

impl Uuid {
    /// The 16 bytes of the identifier.
    pub fn to_bytes(&self) -> (out: Vec<u8>)
        ensures
            out@ == self.0@,
    {
        let mut out: Vec<u8> = Vec::new();
        let mut i: usize = 0;
        while i < 16
            invariant
                0 <= i <= 16,
                out@ == self.0@.subrange(0, i as int),
            decreases 16 - i,
        {
            out.push(self.0[i]);
            i += 1;
            assert(out@ =~= self.0@.subrange(0, i as int));
        }
        assert(out@ =~= self.0@);
        out
    }

    /// The identifier that 16 bytes stand for.
    pub fn from_bytes(bytes: &Vec<u8>) -> (id: Uuid)
        requires
            bytes@.len() == 16,
        ensures
            id.0@ == bytes@,
    {
        assert(bytes@.subrange(0, 16) =~= bytes@);
        Uuid(first_16(bytes))
    }
}

/// The identifier that a digest stands for: its first 16 bytes.
pub fn id_from_digest(digest: &Vec<u8>) -> (id: [u8; 16])
    requires
        digest@.len() >= 16,
    ensures
        id@ == digest@.subrange(0, 16),
        id == array16(digest@.subrange(0, 16)),
{
    first_16(digest)
}

/// The identifier of the session that an occurrence resolves to. It
/// depends on the rule's identifier and the occurrence's base instant
/// alone, so it is the same on every read.
pub fn generate_instance_id(series_id: &[u8; 16], occurrence_start: u64) -> (id: [u8; 16])
    ensures
        id == instance_id(*series_id, occurrence_start),
        id@ == sha256_digest(key_bytes(*series_id, occurrence_start)).subrange(0, 16),
{
    let key = OverrideKey { series_id: *series_id, occurrence_start_utc: occurrence_start };
    let message: Vec<u8> = key.to_bytes();
    let digest: Vec<u8> = sha256(&message);
    id_from_digest(&digest)
}

/// An identifier for a new record, made from the current time and a
/// counter that the caller advances: the first 16 bytes of the SHA-256
/// digest of the two numbers' bytes. It is not a secret.
pub fn generate_uuid(time: u64, counter: u64) -> (id: [u8; 16])
    ensures
        id@ == sha256_digest(be_bytes(time) + be_bytes(counter)).subrange(0, 16),
{
    let mut message: Vec<u8> = Vec::new();
    push_be_bytes(&mut message, time);
    push_be_bytes(&mut message, counter);
    assert(message@ =~= be_bytes(time) + be_bytes(counter));
    let digest: Vec<u8> = sha256(&message);
    id_from_digest(&digest)
}

} // verus!
