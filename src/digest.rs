//! Content digests of executable nodes.
//!
//! A digest is the 64-bit FNV-1a hash of the UTF-8 bytes of a node's code,
//! a separator byte that UTF-8 never contains, and the UTF-8 bytes of its
//! language. It is a pure function of those two texts.

use vstd::prelude::*;

verus! {

/// The FNV-1a offset basis for 64 bits.
pub const FNV_OFFSET: u64 = 0xcbf29ce484222325;

/// The FNV-1a prime for 64 bits.
pub const FNV_PRIME: u64 = 0x100000001b3;

/// The byte between code and language in the hashed input.
pub const SEPARATOR: u8 = 0xff;

/// One round of FNV-1a.
pub open spec fn fnv_step(h: u64, b: u8) -> u64 {
    (h ^ (b as u64)).wrapping_mul(FNV_PRIME)
}

/// The FNV-1a hash of a byte sequence.
pub open spec fn fnv(bytes: Seq<u8>) -> u64
    decreases bytes.len(),
{
    if bytes.len() == 0 {
        FNV_OFFSET
    } else {
        fnv_step(fnv(bytes.drop_last()), bytes.last())
    }
}

/// The bytes that the digest of code in a language hashes.
pub open spec fn digest_input(code: Seq<char>, language: Seq<char>) -> Seq<u8> {
    vstd::utf8::encode_utf8(code) + seq![SEPARATOR] + vstd::utf8::encode_utf8(language)
}

/// The digest of `code` in `language`.
pub open spec fn digest_of(code: Seq<char>, language: Seq<char>) -> u64 {
    fnv(digest_input(code, language))
}

/// Continues a hash `h` of `prefix` over `bytes`.
fn fnv_extend(h: u64, bytes: &[u8], Ghost(prefix): Ghost<Seq<u8>>) -> (r: u64)
    requires
        h == fnv(prefix),
    ensures
        r == fnv(prefix + bytes@),
{
    let mut acc = h;
    let mut i: usize = 0;
    assert(prefix + bytes@.take(0) =~= prefix);
    while i < bytes.len()
        invariant
            i <= bytes@.len(),
            acc == fnv(prefix + bytes@.take(i as int)),
        decreases bytes@.len() - i,
    {
        let ghost before = prefix + bytes@.take(i as int);
        acc = (acc ^ (bytes[i] as u64)).wrapping_mul(FNV_PRIME);
        proof {
            let after = prefix + bytes@.take(i + 1);
            assert(after.drop_last() =~= before);
            assert(after.last() == bytes@[i as int]);
        }
        i = i + 1;
    }
    assert(bytes@.take(bytes@.len() as int) =~= bytes@);
    acc
}

/// The digest of `code` in `language`.
pub fn compilation_digest(code: &str, language: &str) -> (r: u64)
    ensures
        r == digest_of(code@, language@),
{
    let cb = code.as_bytes();
    let lb = language.as_bytes();
    assert(fnv(Seq::<u8>::empty()) == FNV_OFFSET);
    let h1 = fnv_extend(FNV_OFFSET, cb, Ghost(Seq::empty()));
    assert(Seq::<u8>::empty() + cb@ =~= cb@);
    let sep = [SEPARATOR];
    let h2 = fnv_extend(h1, &sep, Ghost(cb@));
    let h3 = fnv_extend(h2, lb, Ghost(cb@ + sep@));
    assert(sep@ =~= seq![SEPARATOR]);
    h3
}

} // verus!
