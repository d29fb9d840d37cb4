//! Cache-key derivation: a key is the lowercase-hex SHA-256 digest of the
//! UTF-8 bytes of the image's full path string. Keys depend on the path
//! alone, never on file content or modification time, so they are stable
//! across process restarts.

use sha2::Digest;
use vstd::prelude::*;
use vstd::string::StringExecFns;

verus! {

/// The SHA-256 digest of a byte sequence; a pure function of its input.
pub uninterp spec fn sha256_of(bytes: Seq<u8>) -> Seq<u8>;

/// Relies on sha2's `Sha256::digest` (through the `Digest` trait): the digest
/// is a function of the input bytes alone and is 32 bytes long.
#[verifier::external_body]
fn sha256_digest(bytes: &[u8]) -> (r: Vec<u8>)
    ensures
        r@ == sha256_of(bytes@),
        r@.len() == 32,
{
    sha2::Sha256::digest(bytes).to_vec()
}

/// The lowercase hex digit for a value below 16.
pub open spec fn hex_digit(v: u8) -> char {
    match v {
        0 => '0',
        1 => '1',
        2 => '2',
        3 => '3',
        4 => '4',
        5 => '5',
        6 => '6',
        7 => '7',
        8 => '8',
        9 => '9',
        10 => 'a',
        11 => 'b',
        12 => 'c',
        13 => 'd',
        14 => 'e',
        15 => 'f',
        _ => '0',
    }
}

/// Lowercase hex encoding: two digits per byte, high nibble first.
pub open spec fn hex_of(bytes: Seq<u8>) -> Seq<char>
    decreases bytes.len(),
{
    if bytes.len() == 0 {
        Seq::empty()
    } else {
        hex_of(bytes.drop_last()) + seq![
            hex_digit(bytes.last() / 16),
            hex_digit(bytes.last() % 16),
        ]
    }
}

proof fn lemma_hex_of_len(bytes: Seq<u8>)
    ensures
        hex_of(bytes).len() == 2 * bytes.len(),
    decreases bytes.len(),
{
    if bytes.len() > 0 {
        lemma_hex_of_len(bytes.drop_last());
    }
}

proof fn lemma_hex_digit_injective(a: u8, b: u8)
    requires
        a < 16,
        b < 16,
        hex_digit(a) == hex_digit(b),
    ensures
        a == b,
{
}

/// Law: hex encoding is injective — distinct byte sequences have distinct
/// encodings, so a key collision can only come from a digest collision.
pub proof fn lemma_hex_of_injective(a: Seq<u8>, b: Seq<u8>)
    requires
        hex_of(a) == hex_of(b),
    ensures
        a == b,
    decreases a.len(),
{
    lemma_hex_of_len(a);
    lemma_hex_of_len(b);
    if a.len() == 0 {
        assert(a =~= b);
    } else {
        let ha = hex_of(a.drop_last());
        let hb = hex_of(b.drop_last());
        lemma_hex_of_len(a.drop_last());
        lemma_hex_of_len(b.drop_last());
        assert(hex_of(a)[hex_of(a).len() - 2] == hex_digit(a.last() / 16));
        assert(hex_of(a)[hex_of(a).len() - 1] == hex_digit(a.last() % 16));
        assert(hex_of(b)[hex_of(b).len() - 2] == hex_digit(b.last() / 16));
        assert(hex_of(b)[hex_of(b).len() - 1] == hex_digit(b.last() % 16));
        lemma_hex_digit_injective(a.last() / 16, b.last() / 16);
        lemma_hex_digit_injective(a.last() % 16, b.last() % 16);
        assert(a.last() == b.last()) by {
            assert(a.last() == 16 * (a.last() / 16) + a.last() % 16);
            assert(b.last() == 16 * (b.last() / 16) + b.last() % 16);
        }
        assert(ha =~= hex_of(a).subrange(0, hex_of(a).len() - 2));
        assert(hb =~= hex_of(b).subrange(0, hex_of(b).len() - 2));
        lemma_hex_of_injective(a.drop_last(), b.drop_last());
        assert(a =~= a.drop_last().push(a.last()));
        assert(b =~= b.drop_last().push(b.last()));
    }
}

fn hex_digit_exec(v: u8) -> (c: char)
    requires
        v < 16,
    ensures
        c == hex_digit(v),
{
    match v {
        0 => '0',
        1 => '1',
        2 => '2',
        3 => '3',
        4 => '4',
        5 => '5',
        6 => '6',
        7 => '7',
        8 => '8',
        9 => '9',
        10 => 'a',
        11 => 'b',
        12 => 'c',
        13 => 'd',
        14 => 'e',
        _ => 'f',
    }
}

/// Writes one character onto the end of a string.
fn push_char(s: &mut String, c: char)
    ensures
        final(s)@ == old(s)@.push(c),
{
    let one = single_char_str(c);
    s.append(one.as_str());
    proof {
        assert(old(s)@ + one@ =~= old(s)@.push(c));
    }
}

/// Relies on `String::from` for `char`: the result is that one character.
#[verifier::external_body]
fn single_char_str(c: char) -> (r: String)
    ensures
        r@ == seq![c],
{
    String::from(c)
}

/// Lowercase hex encoding of a byte slice.
pub fn to_hex(bytes: &[u8]) -> (r: String)
    ensures
        r@ == hex_of(bytes@),
{
    let mut out = String::new();
    let n = bytes.len();
    let mut i: usize = 0;
    proof {
        assert(bytes@.subrange(0, 0) =~= Seq::<u8>::empty());
    }
    while i < n
        invariant
            n == bytes@.len(),
            i <= n,
            out@ == hex_of(bytes@.subrange(0, i as int)),
        decreases n - i,
    {
        let b = bytes[i];
        push_char(&mut out, hex_digit_exec(b / 16));
        push_char(&mut out, hex_digit_exec(b % 16));
        proof {
            let pre = bytes@.subrange(0, i as int);
            let cur = bytes@.subrange(0, i + 1);
            assert(cur.drop_last() =~= pre);
            assert(cur.last() == bytes@[i as int]);
            assert(out@ =~= hex_of(cur));
        }
        i += 1;
    }
    proof {
        assert(bytes@.subrange(0, n as int) =~= bytes@);
    }
    out
}

/// The cache key of a path: lowercase hex of the SHA-256 of its UTF-8 bytes.
pub open spec fn spec_cache_key(p: Seq<char>) -> Seq<char> {
    hex_of(sha256_of(vstd::utf8::encode_utf8(p)))
}

/// Derives the deterministic cache key for an image path: 64 characters of
/// lowercase hex.
pub fn cache_key_for_path(path: &str) -> (r: String)
    ensures
        r@ == spec_cache_key(path@),
        r@.len() == 64,
{
    let digest = sha256_digest(path.as_bytes());
    proof {
        lemma_hex_of_len(digest@);
    }
    to_hex(digest.as_slice())
}

/// Law: key derivation is pure and total — equal path strings always yield
/// equal keys.
pub proof fn lemma_cache_key_deterministic(p1: Seq<char>, p2: Seq<char>)
    requires
        p1 == p2,
    ensures
        spec_cache_key(p1) == spec_cache_key(p2),
{
}

} // verus!
