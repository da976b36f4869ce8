//! Binary identifiers and their URL-safe textual encoding.
//!
//! An identifier is a 128-bit value. Its external form is the base64
//! encoding (URL-safe alphabet, no padding) of its 16-byte big-endian
//! representation: always exactly 22 characters.

use base64::Engine;
use vstd::string::StrSliceExecFns;
use vstd::arithmetic::div_mod::{
    lemma_div_basics, lemma_div_denominator, lemma_fundamental_div_mod_converse,
};
use vstd::prelude::*;

verus! {

/// What the base64 engine produces for a byte string (URL-safe alphabet,
/// no padding). Left abstract: the contracts of the wrappers below are the
/// only facts known about it.
pub uninterp spec fn b64_of(bytes: Seq<u8>) -> Seq<char>;

/// What the base64 engine recovers from a character string, `None` when the
/// string is not a canonical encoding of any byte string.
pub uninterp spec fn b64_decode_of(s: Seq<char>) -> Option<Seq<u8>>;

/// Relies on base64's `Engine::encode` with the `URL_SAFE_NO_PAD` engine:
/// the result is a pure function of the input bytes, its length is the
/// unpadded encoded length, and decoding it with the same engine gives the
/// input back.
#[verifier::external_body]
fn b64_encode(bytes: &[u8]) -> (r: String)
    ensures
        r@ == b64_of(bytes@),
        b64_decode_of(r@) == Some(bytes@),
        r@.len() == (bytes@.len() * 4 + 2) / 3,
{
    base64::prelude::BASE64_URL_SAFE_NO_PAD.encode(bytes)
}

/// Relies on base64's `Engine::decode` with the `URL_SAFE_NO_PAD` engine.
/// That engine refuses padding and non-zero trailing bits, so it accepts
/// exactly the canonical unpadded encodings: on success the input is the
/// encoding of the result, and on failure the input encodes nothing.
#[verifier::external_body]
fn b64_decode(s: &str) -> (r: Result<Vec<u8>, ()>)
    ensures
        r matches Ok(b) ==> b64_decode_of(s@) == Some(b@) && s@ == b64_of(b@) && b@.len()
            == s@.len() * 3 / 4,
        r is Err ==> b64_decode_of(s@) is None,
{
    base64::prelude::BASE64_URL_SAFE_NO_PAD.decode(s.as_bytes()).map_err(|_| ())
}

/// `256^k`.
pub open spec fn pow256(k: nat) -> nat
    decreases k,
{
    if k == 0 {
        1
    } else {
        256 * pow256((k - 1) as nat)
    }
}

/// The value of a big-endian byte string.
pub open spec fn id_of_bytes(b: Seq<u8>) -> nat
    decreases b.len(),
{
    if b.len() == 0 {
        0
    } else {
        (id_of_bytes(b.drop_last()) * 256 + b.last()) as nat
    }
}

/// The `k`-th byte of `id`, counting from the least significant.
pub open spec fn byte_of_id(id: nat, k: nat) -> u8 {
    ((id / pow256(k)) % 256) as u8
}

/// The 16-byte big-endian representation of an identifier.
pub open spec fn bytes_of_id(id: u128) -> Seq<u8> {
    Seq::new(16, |i: int| byte_of_id(id as nat, (15 - i) as nat))
}

proof fn lemma_pow256_pos(k: nat)
    ensures
        pow256(k) >= 1,
    decreases k,
{
    if k > 0 {
        lemma_pow256_pos((k - 1) as nat);
    }
}

/// Each byte of the value of a big-endian byte string is the corresponding
/// input byte.
proof fn lemma_id_of_bytes_extract(b: Seq<u8>)
    ensures
        forall|k: int|
            0 <= k < b.len() ==> #[trigger] byte_of_id(id_of_bytes(b), k as nat) == b[b.len() - 1
                - k],
    decreases b.len(),
{
    if b.len() > 0 {
        let front = b.drop_last();
        let id = id_of_bytes(b);
        let q = id_of_bytes(front);
        lemma_id_of_bytes_extract(front);
        lemma_fundamental_div_mod_converse(id as int, 256, q as int, b.last() as int);
        assert(id % 256 == b.last());
        assert(id / 256 == q);
        assert(pow256(0) == 1);
        lemma_div_basics(id as int);
        assert(byte_of_id(id, 0) == b[b.len() - 1]);
        assert forall|k: int| 1 <= k < b.len() implies #[trigger] byte_of_id(id, k as nat)
            == b.index(b.len() - 1 - k) by {
            lemma_pow256_pos((k - 1) as nat);
            lemma_div_denominator(id as int, 256, pow256((k - 1) as nat) as int);
            assert(pow256(k as nat) == 256 * pow256((k - 1) as nat));
            assert(id as int / pow256(k as nat) as int == q as int / pow256((k - 1) as nat) as int);
            assert(byte_of_id(id, k as nat) == byte_of_id(q, (k - 1) as nat));
            assert(byte_of_id(q, (k - 1) as nat) == front[front.len() - 1 - (k - 1)]);
        }
    }
}

proof fn lemma_pow256_16()
    ensures
        pow256(16) == 0x1_0000_0000_0000_0000_0000_0000_0000_0000,
{
    assert(pow256(1) == 256 * pow256(0));
    assert(pow256(2) == 256 * pow256(1));
    assert(pow256(3) == 256 * pow256(2));
    assert(pow256(4) == 256 * pow256(3));
    assert(pow256(5) == 256 * pow256(4));
    assert(pow256(6) == 256 * pow256(5));
    assert(pow256(7) == 256 * pow256(6));
    assert(pow256(8) == 256 * pow256(7));
    assert(pow256(9) == 256 * pow256(8));
    assert(pow256(10) == 256 * pow256(9));
    assert(pow256(11) == 256 * pow256(10));
    assert(pow256(12) == 256 * pow256(11));
    assert(pow256(13) == 256 * pow256(12));
    assert(pow256(14) == 256 * pow256(13));
    assert(pow256(15) == 256 * pow256(14));
    assert(pow256(16) == 256 * pow256(15));
}

/// The big-endian bytes of an identifier, most significant first.
pub fn id_to_bytes(id: u128) -> (r: Vec<u8>)
    ensures
        r@ == bytes_of_id(id),
        r@.len() == 16,
{
    let mut little: Vec<u8> = Vec::new();
    let mut tmp: u128 = id;
    let mut i: usize = 0;
    proof {
        assert(pow256(0) == 1);
        lemma_div_basics(id as int);
    }
    while i < 16
        invariant
            i <= 16,
            little@.len() == i,
            tmp as nat == id as nat / pow256(i as nat),
            forall|j: int| 0 <= j < i ==> little@[j] == byte_of_id(id as nat, j as nat),
        decreases 16 - i,
    {
        proof {
            lemma_pow256_pos(i as nat);
            assert(pow256((i + 1) as nat) == pow256(i as nat) * 256) by (nonlinear_arith)
                requires
                    pow256((i + 1) as nat) == 256 * pow256(i as nat),
            ;
            lemma_div_denominator(id as int, pow256(i as nat) as int, 256);
        }
        little.push((tmp % 256) as u8);
        tmp = tmp / 256;
        i = i + 1;
    }
    let mut r: Vec<u8> = Vec::new();
    let mut k: usize = 0;
    while k < 16
        invariant
            k <= 16,
            little@.len() == 16,
            forall|j: int| 0 <= j < 16 ==> little@[j] == byte_of_id(id as nat, j as nat),
            r@.len() == k,
            forall|j: int| 0 <= j < k ==> r@[j] == byte_of_id(id as nat, (15 - j) as nat),
        decreases 16 - k,
    {
        r.push(little[15 - k]);
        k = k + 1;
    }
    proof {
        assert(r@ =~= bytes_of_id(id));
    }
    r
}

/// The identifier with the given 16-byte big-endian representation.
pub fn bytes_to_id(b: &[u8]) -> (r: u128)
    requires
        b@.len() == 16,
    ensures
        bytes_of_id(r) == b@,
        r as nat == id_of_bytes(b@),
{
    let mut acc: u128 = 0;
    let mut i: usize = 0;
    while i < 16
        invariant
            i <= 16,
            b@.len() == 16,
            acc as nat == id_of_bytes(b@.take(i as int)),
            (acc as nat) < pow256(i as nat),
        decreases 16 - i,
    {
        proof {
            lemma_pow256_16();
            lemma_pow256_mono(i as nat, 15);
            assert(b@.take(i as int + 1).drop_last() =~= b@.take(i as int));
            assert(acc as nat * 256 + b@[i as int] < pow256(i as nat) * 256) by (nonlinear_arith)
                requires
                    (acc as nat) < pow256(i as nat),
                    b@[i as int] < 256,
            ;
            assert(pow256(i as nat) * 256 <= pow256(15) * 256) by (nonlinear_arith)
                requires
                    pow256(i as nat) <= pow256(15),
            ;
            assert(pow256(15) * 256 == pow256(16));
        }
        acc = acc * 256 + (b[i] as u128);
        i = i + 1;
    }
    proof {
        assert(b@.take(16) =~= b@);
        lemma_id_of_bytes_extract(b@);
        assert(bytes_of_id(acc) =~= b@);
    }
    acc
}

proof fn lemma_pow256_mono(j: nat, k: nat)
    requires
        j <= k,
    ensures
        pow256(j) <= pow256(k),
    decreases k,
{
    if j < k {
        lemma_pow256_mono(j, (k - 1) as nat);
        lemma_pow256_pos((k - 1) as nat);
    }
}

/// Encode an identifier: 22 characters of URL-safe, unpadded base64 over
/// its big-endian bytes.
pub fn uuid_to_b64(id: u128) -> (r: String)
    ensures
        r@ == b64_of(bytes_of_id(id)),
        b64_decode_of(r@) == Some(bytes_of_id(id)),
        r@.len() == 22,
{
    let bytes = id_to_bytes(id);
    b64_encode(bytes.as_slice())
}

/// Decode the textual form of an identifier. Succeeds exactly when the
/// input is the canonical encoding of some 16-byte string.
pub fn try_b64_to_uuid(s: &str) -> (r: Option<u128>)
    ensures
        r is Some <==> (b64_decode_of(s@) matches Some(b) && b.len() == 16),
        r matches Some(id) ==> b64_decode_of(s@) == Some(bytes_of_id(id)) && s@ == b64_of(
            bytes_of_id(id),
        ) && id as nat == id_of_bytes(b64_decode_of(s@)->0),
{
    match b64_decode(s) {
        Ok(bytes) => {
            if bytes.len() == 16 {
                Some(bytes_to_id(bytes.as_slice()))
            } else {
                None
            }
        },
        Err(_) => None,
    }
}

/// The character for one hexadecimal digit value, lower case.
pub open spec fn hex_digit_char(v: u8) -> char {
    if v < 10 {
        ((48 + v) as u8) as char
    } else {
        ((87 + v) as u8) as char
    }
}

/// The two hexadecimal digits of one byte.
pub open spec fn hex_pair(b: u8) -> Seq<char> {
    seq![hex_digit_char(b / 16), hex_digit_char(b % 16)]
}

/// The hexadecimal form of a byte string.
pub open spec fn hex_of_bytes(bs: Seq<u8>) -> Seq<char>
    decreases bs.len(),
{
    if bs.len() == 0 {
        Seq::empty()
    } else {
        hex_of_bytes(bs.drop_last()) + hex_pair(bs.last())
    }
}

pub proof fn lemma_hex_of_bytes_len(bs: Seq<u8>)
    ensures
        hex_of_bytes(bs).len() == 2 * bs.len(),
    decreases bs.len(),
{
    if bs.len() > 0 {
        lemma_hex_of_bytes_len(bs.drop_last());
    }
}

/// The hyphenated textual form of an identifier: 32 hexadecimal digits in
/// five groups of 8, 4, 4, 4 and 12.
pub open spec fn hyphenated_of(id: u128) -> Seq<char> {
    let h = hex_of_bytes(bytes_of_id(id));
    h.subrange(0, 8) + seq!['-'] + h.subrange(8, 12) + seq!['-'] + h.subrange(12, 16) + seq!['-']
        + h.subrange(16, 20) + seq!['-'] + h.subrange(20, 32)
}

fn hex_digit(v: u8) -> (c: char)
    requires
        v < 16,
    ensures
        c == hex_digit_char(v),
{
    if v < 10 {
        (48 + v) as char
    } else {
        (87 + v) as char
    }
}

/// Format an identifier in its canonical hyphenated form.
pub fn uuid_to_string(id: u128) -> (r: String)
    ensures
        r@ == hyphenated_of(id),
{
    let bytes = id_to_bytes(id);
    let mut h = String::new();
    let mut i: usize = 0;
    while i < 16
        invariant
            bytes@.len() == 16,
            bytes@ == bytes_of_id(id),
            i <= 16,
            h@ == hex_of_bytes(bytes@.take(i as int)),
        decreases 16 - i,
    {
        let b = bytes[i];
        h.push(hex_digit(b / 16));
        h.push(hex_digit(b % 16));
        proof {
            assert(bytes@.take(i as int + 1).drop_last() =~= bytes@.take(i as int));
            assert(h@ =~= hex_of_bytes(bytes@.take(i as int + 1)));
        }
        i = i + 1;
    }
    proof {
        assert(bytes@.take(16) =~= bytes@);
        lemma_hex_of_bytes_len(bytes@);
    }
    let hs = h.as_str();
    let mut out = String::new();
    out.append(hs.substring_char(0, 8));
    out.push('-');
    out.append(hs.substring_char(8, 12));
    out.push('-');
    out.append(hs.substring_char(12, 16));
    out.push('-');
    out.append(hs.substring_char(16, 20));
    out.push('-');
    out.append(hs.substring_char(20, 32));
    proof {
        assert(out@ =~= hyphenated_of(id));
    }
    out
}

/// What the uuid crate accepts as the textual form of an identifier,
/// `None` where it refuses the string.
pub uninterp spec fn uuid_of(s: Seq<char>) -> Option<u128>;

/// Relies on uuid's `Uuid::try_parse`: which strings it accepts, and which
/// identifier one denotes, depend on the characters alone.
#[verifier::external_body]
pub fn try_parse_uuid(s: &str) -> (r: Option<u128>)
    ensures
        r == uuid_of(s@),
{
    match uuid::Uuid::try_parse(s) {
        Ok(u) => Some(u.as_u128()),
        Err(_) => None,
    }
}

} // verus!
