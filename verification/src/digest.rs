//! Content-addressing checksum: a SHA-256 digest of the raw archive bytes,
//! rendered as 64 lowercase hexadecimal characters.

use sha2::Digest;
use vstd::prelude::*;

verus! {

/// The SHA-256 digest of a byte sequence. The digest is a function of the
/// bytes alone; its definition is left to the outside implementation.
pub uninterp spec fn sha256_of(b: Seq<u8>) -> Seq<u8>;

/// Relies on sha2::Sha256 (through digest::Digest::digest): the digest is
/// computed from the input bytes alone and is always 32 bytes long.
#[verifier::external_body]
fn sha256(b: &Vec<u8>) -> (r: Vec<u8>)
    ensures
        r@ == sha256_of(b@),
        r@.len() == 32,
{
    sha2::Sha256::digest(b.as_slice()).to_vec()
}

/// The lowercase hexadecimal digit for a value below 16.
pub open spec fn hex_digit(n: u8) -> char
    recommends
        n < 16,
{
    if n == 0 { '0' } else if n == 1 { '1' } else if n == 2 { '2' } else if n == 3 { '3' }
    else if n == 4 { '4' } else if n == 5 { '5' } else if n == 6 { '6' } else if n == 7 { '7' }
    else if n == 8 { '8' } else if n == 9 { '9' } else if n == 10 { 'a' } else if n == 11 { 'b' }
    else if n == 12 { 'c' } else if n == 13 { 'd' } else if n == 14 { 'e' } else { 'f' }
}

/// Lowercase hexadecimal rendering: two digits per byte, high digit first.
pub open spec fn hex_of(b: Seq<u8>) -> Seq<char>
    decreases b.len(),
{
    if b.len() == 0 {
        Seq::<char>::empty()
    } else {
        seq![hex_digit(b[0] >> 4), hex_digit(b[0] & 15)] + hex_of(b.skip(1))
    }
}

/// A lowercase hexadecimal digit character.
pub open spec fn is_lower_hex(c: char) -> bool {
    ('0' <= c && c <= '9') || ('a' <= c && c <= 'f')
}

/// Hexadecimal rendering distributes over concatenation.
pub proof fn lemma_hex_of_concat(s: Seq<u8>, t: Seq<u8>)
    ensures
        hex_of(s + t) == hex_of(s) + hex_of(t),
    decreases s.len(),
{
    if s.len() == 0 {
        assert(s + t =~= t);
        assert(hex_of(s) + hex_of(t) =~= hex_of(t));
    } else {
        assert((s + t).skip(1) =~= s.skip(1) + t);
        lemma_hex_of_concat(s.skip(1), t);
        assert(hex_of(s + t) =~= hex_of(s) + hex_of(t));
    }
}

/// The rendering of `n` bytes has `2 n` characters, all lowercase hexadecimal.
pub proof fn lemma_hex_of_shape(b: Seq<u8>)
    ensures
        hex_of(b).len() == 2 * b.len(),
        forall|i: int| 0 <= i < hex_of(b).len() ==> is_lower_hex(#[trigger] hex_of(b)[i]),
    decreases b.len(),
{
    if b.len() > 0 {
        let x = b[0];
        assert(x >> 4 < 16 && x & 15 < 16) by (bit_vector);
        lemma_hex_of_shape(b.skip(1));
    }
}

/// A one-character string slice holding the digit for `n`.
fn hex_digit_str(n: u8) -> (r: &'static str)
    requires
        n < 16,
    ensures
        r@ == seq![hex_digit(n)],
{
    proof {
        reveal_strlit("0"); reveal_strlit("1"); reveal_strlit("2"); reveal_strlit("3");
        reveal_strlit("4"); reveal_strlit("5"); reveal_strlit("6"); reveal_strlit("7");
        reveal_strlit("8"); reveal_strlit("9"); reveal_strlit("a"); reveal_strlit("b");
        reveal_strlit("c"); reveal_strlit("d"); reveal_strlit("e"); reveal_strlit("f");
    }
    let r = if n == 0 { "0" } else if n == 1 { "1" } else if n == 2 { "2" }
    else if n == 3 { "3" } else if n == 4 { "4" } else if n == 5 { "5" }
    else if n == 6 { "6" } else if n == 7 { "7" } else if n == 8 { "8" }
    else if n == 9 { "9" } else if n == 10 { "a" } else if n == 11 { "b" }
    else if n == 12 { "c" } else if n == 13 { "d" } else if n == 14 { "e" } else { "f" };
    proof {
        assert(r@ =~= seq![hex_digit(n)]);
    }
    r
}

/// Renders bytes as lowercase hexadecimal text.
pub fn to_hex_string(b: &Vec<u8>) -> (r: String)
    ensures
        r@ == hex_of(b@),
{
    let mut s = String::new();
    let mut i: usize = 0;
    while i < b.len()
        invariant
            i <= b@.len(),
            s@ == hex_of(b@.take(i as int)),
        decreases b@.len() - i,
    {
        let hi = b[i] >> 4;
        let lo = b[i] & 15;
        proof {
            let x = b@[i as int];
            assert(x >> 4 < 16 && x & 15 < 16) by (bit_vector);
        }
        s.append(hex_digit_str(hi));
        s.append(hex_digit_str(lo));
        proof {
            let x = b@[i as int];
            assert(b@.take(i + 1) =~= b@.take(i as int) + seq![x]);
            lemma_hex_of_concat(b@.take(i as int), seq![x]);
            assert(seq![x].skip(1) =~= Seq::<u8>::empty());
            assert(hex_of(Seq::<u8>::empty()) == Seq::<char>::empty());
            assert(hex_of(seq![x]) =~= seq![hex_digit(x >> 4), hex_digit(x & 15)]);
        }
        i += 1;
    }
    proof {
        assert(b@.take(b@.len() as int) =~= b@);
    }
    s
}

/// Checksum of an archive's raw bytes: the SHA-256 digest, rendered as
/// exactly 64 lowercase hexadecimal characters. The result is a function of
/// the input bytes alone, so equal inputs always give equal checksums.
pub fn compute_checksum(bytes: &Vec<u8>) -> (r: String)
    ensures
        r@ == hex_of(sha256_of(bytes@)),
        r@.len() == 64,
        forall|i: int| 0 <= i < r@.len() ==> is_lower_hex(r@[i]),
{
    let d = sha256(bytes);
    let r = to_hex_string(&d);
    proof {
        lemma_hex_of_shape(d@);
    }
    r
}

/// Two checksum renderings of the same bytes are the same text: the digest
/// and its rendering are functions of the input bytes alone.
pub proof fn lemma_checksum_deterministic(b: Seq<u8>, r1: Seq<char>, r2: Seq<char>)
    requires
        r1 == hex_of(sha256_of(b)),
        r2 == hex_of(sha256_of(b)),
    ensures
        r1 == r2,
{
}

} // verus!
