//! Token value generation: a SHA-256 digest over a server secret, fresh
//! randomness and the current time, rendered as lowercase hex. The digest and
//! the random draw come from outside crates behind trusted wrappers; the
//! input assembly and the hex rendering are verified here.

use vstd::prelude::*;

use rand::RngCore;
use sha2::Digest;

verus! {

/// The SHA-256 digest of a byte string. The algorithm itself is not restated
/// here; the name only records that the digest is a function of the input
/// bytes alone.
pub uninterp spec fn sha256_of(data: Seq<u8>) -> Seq<u8>;

/// Relies on `sha2::Sha256` (`update`, `finalize`): the digest depends on the
/// hashed bytes alone and is 32 bytes long.
#[verifier::external_body]
fn sha256(data: &[u8]) -> (r: Vec<u8>)
    ensures
        r@ == sha256_of(data@),
        r@.len() == 32,
{
    let mut hasher = sha2::Sha256::new();
    hasher.update(data);
    hasher.finalize().to_vec()
}

/// Relies on `rand::rngs::OsRng` (`RngCore::fill_bytes`): 32 bytes from the
/// operating system's secure random source. The draw is random, so only its
/// length is promised. If the operating system's randomness source itself
/// fails — an environmental condition no input can provoke — the call
/// panics rather than hand out weak tokens.
#[verifier::external_body]
fn random_block() -> (r: Vec<u8>)
    ensures
        r@.len() == 32,
{
    let mut block = [0u8; 32];
    rand::rngs::OsRng.fill_bytes(&mut block);
    block.to_vec()
}

/// Relies on `String::from_iter`: collecting characters preserves them.
#[verifier::external_body]
fn chars_to_string(chars: &Vec<char>) -> (r: String)
    ensures
        r@ == chars@,
{
    chars.iter().collect()
}

/// The big-endian bytes of a 64-bit integer, most significant first; a
/// negative value contributes its two's-complement bits.
pub open spec fn spec_i64_be_bytes(v: i64) -> Seq<u8> {
    let u = v as u64;
    seq![
        ((u >> 56) & 0xff) as u8,
        ((u >> 48) & 0xff) as u8,
        ((u >> 40) & 0xff) as u8,
        ((u >> 32) & 0xff) as u8,
        ((u >> 24) & 0xff) as u8,
        ((u >> 16) & 0xff) as u8,
        ((u >> 8) & 0xff) as u8,
        (u & 0xff) as u8,
    ]
}

/// Big-endian encoding of a 64-bit integer, most significant byte first.
pub fn i64_to_be_bytes(v: i64) -> (r: Vec<u8>)
    ensures
        r@ == spec_i64_be_bytes(v),
        r@.len() == 8,
{
    #[verifier::truncate]
    let u = v as u64;
    let mut r: Vec<u8> = Vec::new();
    r.push(((u >> 56) & 0xff) as u8);
    r.push(((u >> 48) & 0xff) as u8);
    r.push(((u >> 40) & 0xff) as u8);
    r.push(((u >> 32) & 0xff) as u8);
    r.push(((u >> 24) & 0xff) as u8);
    r.push(((u >> 16) & 0xff) as u8);
    r.push(((u >> 8) & 0xff) as u8);
    r.push((u & 0xff) as u8);
    proof {
        assert(r@ =~= spec_i64_be_bytes(v));
    }
    r
}

/// The lowercase hex digit for a value below 16.
pub open spec fn spec_hex_digit(n: u8) -> char {
    if n == 0 {
        '0'
    } else if n == 1 {
        '1'
    } else if n == 2 {
        '2'
    } else if n == 3 {
        '3'
    } else if n == 4 {
        '4'
    } else if n == 5 {
        '5'
    } else if n == 6 {
        '6'
    } else if n == 7 {
        '7'
    } else if n == 8 {
        '8'
    } else if n == 9 {
        '9'
    } else if n == 10 {
        'a'
    } else if n == 11 {
        'b'
    } else if n == 12 {
        'c'
    } else if n == 13 {
        'd'
    } else if n == 14 {
        'e'
    } else {
        'f'
    }
}

fn hex_digit(n: u8) -> (c: char)
    requires
        n < 16,
    ensures
        c == spec_hex_digit(n),
{
    match n {
        0 => '0',
        1 => '1',
        2 => '2',
        3 => '3',
        4 => '4',
        5 => '5',
        6 => '6',
        7 => '7',
        8 => '8',
        9 => '9',
        10 => 'a',
        11 => 'b',
        12 => 'c',
        13 => 'd',
        14 => 'e',
        _ => 'f',
    }
}

/// The lowercase hex rendering of a byte string: two digits per byte, most
/// significant nibble first.
pub open spec fn spec_hex_of(data: Seq<u8>) -> Seq<char>
    decreases data.len(),
{
    if data.len() == 0 {
        Seq::empty()
    } else {
        spec_hex_of(data.drop_last()) + seq![
            spec_hex_digit(data.last() / 16),
            spec_hex_digit(data.last() % 16),
        ]
    }
}

/// Renders bytes as lowercase hex, two digits per byte.
pub fn to_hex_lower(data: &Vec<u8>) -> (r: String)
    ensures
        r@ == spec_hex_of(data@),
        r@.len() == 2 * data@.len(),
{
    let n = data.len();
    let mut out: Vec<char> = Vec::new();
    let mut i: usize = 0;
    while i < n
        invariant
            n == data@.len(),
            0 <= i <= n,
            out@ =~= spec_hex_of(data@.take(i as int)),
            out@.len() == 2 * i,
        decreases n - i,
    {
        let b = data[i];
        out.push(hex_digit(b / 16));
        out.push(hex_digit(b % 16));
        proof {
            assert(data@.take(i + 1 as int).drop_last() =~= data@.take(i as int));
            assert(data@.take(i + 1 as int).last() == data@[i as int]);
        }
        i += 1;
    }
    proof {
        assert(data@.take(n as int) =~= data@);
    }
    chars_to_string(&out)
}

/// The token value issued for a given secret, random block and timestamp:
/// lowercase hex of the SHA-256 digest over the secret's UTF-8 bytes, the
/// random block, and the big-endian timestamp.
pub open spec fn spec_token_value(secret: Seq<char>, random: Seq<u8>, now: i64) -> Seq<char> {
    spec_hex_of(sha256_of(vstd::utf8::encode_utf8(secret) + random + spec_i64_be_bytes(now)))
}

/// Generates a fresh opaque token value: 64 lowercase hex digits of a
/// SHA-256 digest over the secret, 32 fresh random bytes and the timestamp.
/// The random block makes the value unguessable; which block was drawn is
/// existentially recorded, no more.
pub fn generate_token_value(secret: &str, now: i64) -> (r: String)
    ensures
        r@.len() == 64,
        exists|random: Seq<u8>|
            random.len() == 32 && r@ == #[trigger] spec_token_value(secret@, random, now),
{
    let random = random_block();
    let mut input: Vec<u8> = Vec::new();
    input.extend_from_slice(secret.as_bytes());
    input.extend_from_slice(random.as_slice());
    let stamp = i64_to_be_bytes(now);
    input.extend_from_slice(stamp.as_slice());
    let digest = sha256(input.as_slice());
    let hex = to_hex_lower(&digest);
    proof {
        assert(input@ =~= vstd::utf8::encode_utf8(secret@) + random@ + spec_i64_be_bytes(now));
        assert(hex@ == spec_token_value(secret@, random@, now));
    }
    hex
}

} // verus!
