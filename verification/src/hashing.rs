//! The two digests the file manager depends on: SHA-384 over credential
//! material (session tokens) and MD5 over path strings (temp artifact
//! names). The digest computations themselves are outside calls; the hex
//! rendering of their output is verified here.

use vstd::prelude::*;
use sha2::Digest;
use crate::strutil::chars_to_string;

verus! {

/// The SHA-384 digest (as bytes) of the UTF-8 encoding of a string.
pub uninterp spec fn sha384_of(s: Seq<char>) -> Seq<u8>;

/// The MD5 digest (as bytes) of the UTF-8 encoding of a string.
pub uninterp spec fn md5_of(s: Seq<char>) -> Seq<u8>;

/// Relies on sha2::Sha384 through Digest::digest: the 48-byte SHA-384
/// digest of the UTF-8 bytes of `input`, a function of the input alone.
#[verifier::external_body]
fn sha384_bytes(input: &str) -> (r: Vec<u8>)
    ensures
        r@ == sha384_of(input@),
        r@.len() == 48,
{
    sha2::Sha384::digest(input.as_bytes()).to_vec()
}

/// Relies on md5::Md5 through Digest::digest: the 16-byte MD5 digest of
/// the UTF-8 bytes of `input`, a function of the input alone.
#[verifier::external_body]
fn md5_bytes(input: &str) -> (r: Vec<u8>)
    ensures
        r@ == md5_of(input@),
        r@.len() == 16,
{
    md5::Md5::digest(input.as_bytes()).to_vec()
}

/// The lowercase hexadecimal digit with value `n`.
pub open spec fn hex_char(n: u8) -> char
    recommends
        n < 16,
{
    if n < 10 {
        ((n + 48) as u8) as char
    } else {
        ((n + 87) as u8) as char
    }
}

/// The lowercase hexadecimal rendering of a byte string, two digits per
/// byte, high nibble first.
pub open spec fn to_hex_lower(bytes: Seq<u8>) -> Seq<char>
    decreases bytes.len(),
{
    if bytes.len() == 0 {
        Seq::empty()
    } else {
        seq![hex_char(bytes.first() / 16), hex_char(bytes.first() % 16)] + to_hex_lower(
            bytes.drop_first(),
        )
    }
}

fn hex_char_ex(n: u8) -> (c: char)
    requires
        n < 16,
    ensures
        c == hex_char(n),
{
    if n < 10 {
        (n + 48) as char
    } else {
        (n + 87) as char
    }
}

/// Renders a byte string in lowercase hexadecimal.
fn bytes_to_hex_lower(bytes: &Vec<u8>) -> (r: String)
    ensures
        r@ == to_hex_lower(bytes@),
        r@.len() == 2 * bytes@.len(),
{
    let n = bytes.len();
    let mut v: Vec<char> = Vec::new();
    let mut i: usize = 0;
    proof {
        assert(bytes@.subrange(0, n as int) =~= bytes@);
    }
    while i < n
        invariant
            n == bytes@.len(),
            i <= n,
            v@.len() == 2 * i,
            v@ + to_hex_lower(bytes@.subrange(i as int, n as int)) == to_hex_lower(bytes@),
        decreases n - i,
    {
        let b = bytes[i];
        let ghost tail = bytes@.subrange(i as int, n as int);
        proof {
            assert(tail.first() == bytes@[i as int]);
            assert(tail.drop_first() =~= bytes@.subrange(i as int + 1, n as int));
        }
        v.push(hex_char_ex(b / 16));
        v.push(hex_char_ex(b % 16));
        proof {
            assert(v@ + to_hex_lower(bytes@.subrange(i as int + 1, n as int)) =~= to_hex_lower(
                bytes@,
            ));
        }
        i = i + 1;
    }
    proof {
        assert(bytes@.subrange(n as int, n as int) =~= Seq::<u8>::empty());
        assert(v@ =~= to_hex_lower(bytes@));
    }
    chars_to_string(&v)
}

/// The session-token digest: lowercase hex of the SHA-384 of `input`.
pub fn sha384_hex(input: &str) -> (r: String)
    ensures
        r@ == to_hex_lower(sha384_of(input@)),
        r@.len() == 96,
{
    let bytes = sha384_bytes(input);
    bytes_to_hex_lower(&bytes)
}

/// The artifact-name digest: lowercase hex of the MD5 of `input`.
pub fn md5_hex(input: &str) -> (r: String)
    ensures
        r@ == to_hex_lower(md5_of(input@)),
        r@.len() == 32,
{
    let bytes = md5_bytes(input);
    bytes_to_hex_lower(&bytes)
}

} // verus!
