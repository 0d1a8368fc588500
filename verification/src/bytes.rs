//! The byte forms of stored fields: texts as UTF-8, numbers as four
//! little-endian bytes.
use vstd::prelude::*;
use vstd::utf8::{valid_utf8, decode_utf8, encode_utf8};

verus! {

/// The text shown in place of a field whose bytes are not UTF-8.
pub open spec fn unreadable_text() -> Seq<char> {
    "Error Encypting/Decrypting.."@
}

/// The text that a field's bytes stand for.
pub open spec fn text_of(bytes: Seq<u8>) -> Seq<char> {
    if valid_utf8(bytes) {
        decode_utf8(bytes)
    } else {
        unreadable_text()
    }
}

/// The number below `2^32` whose low 32 bits are those of `x`.
pub open spec fn unsigned_of(x: i32) -> int {
    if x >= 0 {
        x as int
    } else {
        x + 4294967296
    }
}

/// The four little-endian bytes of an `i32`, in two's complement.
pub open spec fn le_bytes_of(x: i32) -> Seq<u8> {
    let u = unsigned_of(x);
    seq![
        (u % 256) as u8,
        ((u / 256) % 256) as u8,
        ((u / 65536) % 256) as u8,
        ((u / 16777216) % 256) as u8,
    ]
}

/// The number below `2^32` that the first four little-endian bytes stand for.
pub open spec fn le_unsigned(b: Seq<u8>) -> int {
    b[0] + b[1] * 256 + b[2] * 65536 + b[3] * 16777216
}

/// The `i32` that the first four little-endian bytes stand for, in two's
/// complement (as `i32::from_le_bytes` reads them).
pub open spec fn le_value(b: Seq<u8>) -> int {
    if le_unsigned(b) >= 2147483648 {
        le_unsigned(b) - 4294967296
    } else {
        le_unsigned(b)
    }
}

/// Bytes that hold a number: at least four.
pub open spec fn readable_le(b: Seq<u8>) -> bool {
    b.len() >= 4
}

/// `String::from_utf8` on the bytes. Trusted: std documents that it succeeds
/// exactly on valid UTF-8 and then holds the text those bytes encode.
#[verifier::external_body]
fn string_from_utf8(bytes: Vec<u8>) -> (r: Option<String>)
    ensures
        r is Some <==> valid_utf8(bytes@),
        r matches Some(s) ==> s@ == decode_utf8(bytes@),
{
    String::from_utf8(bytes).ok()
}

/// The text a field's bytes stand for; bytes that are not UTF-8 read as a
/// fixed error text.
pub fn bytes_to_text(bytes: Vec<u8>) -> (s: String)
    ensures
        s@ == text_of(bytes@),
{
    match string_from_utf8(bytes) {
        Some(s) => s,
        None => "Error Encypting/Decrypting..".to_owned(),
    }
}

/// The `i32` the first four little-endian bytes stand for, in two's complement.
pub fn le_bytes_to_i32(four_bytes: &[u8]) -> (r: i32)
    requires
        readable_le(four_bytes@),
    ensures
        r == le_value(four_bytes@),
{
    let mut index: usize = 0;
    let mut res_int: i64 = 0;
    while index <= 3
        invariant
            four_bytes@.len() >= 4,
            index <= 4,
            res_int == (if index > 0 {
                four_bytes@[0] as int
            } else {
                0
            }) + (if index > 1 {
                four_bytes@[1] * 256
            } else {
                0
            }) + (if index > 2 {
                four_bytes@[2] * 65536
            } else {
                0
            }) + (if index > 3 {
                four_bytes@[3] * 16777216
            } else {
                0
            }),
        decreases 4 - index,
    {
        let num = four_bytes[index] as i64;
        if index == 0 {
            res_int = res_int + num;
        } else if index == 1 {
            res_int = res_int + num * 256;
        } else if index == 2 {
            res_int = res_int + num * 65_536;
        } else if index == 3 {
            res_int = res_int + num * 16_777_216;
        }
        index = index + 1;
    }
    if res_int >= 2_147_483_648 {
        (res_int - 4_294_967_296) as i32
    } else {
        res_int as i32
    }
}

/// The four little-endian bytes of an `i32`, as `i32::to_le_bytes` gives them.
pub fn i32_to_le_bytes(x: i32) -> (r: Vec<u8>)
    ensures
        r@ == le_bytes_of(x),
        r@.len() == 4,
{
    let u: u64 = if x >= 0 {
        x as u64
    } else {
        (x as i64 + 4294967296i64) as u64
    };
    assert(u == unsigned_of(x));
    let b0 = (u % 256) as u8;
    let b1 = ((u / 256) % 256) as u8;
    let b2 = ((u / 65536) % 256) as u8;
    let b3 = ((u / 16777216) % 256) as u8;
    let mut r: Vec<u8> = Vec::new();
    r.push(b0);
    r.push(b1);
    r.push(b2);
    r.push(b3);
    assert(r@ =~= le_bytes_of(x));
    r
}

/// The bytes of a text, UTF-8 encoded.
pub fn text_bytes(s: &String) -> (b: Vec<u8>)
    ensures
        b@ == encode_utf8(s@),
{
    let sl = s.as_str().as_bytes();
    let mut v: Vec<u8> = Vec::new();
    let mut i: usize = 0;
    while i < sl.len()
        invariant
            i <= sl@.len(),
            v@ == sl@.subrange(0, i as int),
        decreases sl@.len() - i,
    {
        v.push(sl[i]);
        proof {
            assert(sl@.subrange(0, i + 1) =~= sl@.subrange(0, i as int).push(sl@[i as int]));
        }
        i = i + 1;
    }
    proof {
        assert(sl@.subrange(0, sl@.len() as int) =~= sl@);
    }
    v
}

/// Reading back the bytes of any `i32` gives the number.
pub proof fn lemma_le_roundtrip(x: i32)
    ensures
        readable_le(le_bytes_of(x)),
        le_value(le_bytes_of(x)) == x,
{
    let u = unsigned_of(x);
    assert(0 <= u < 4294967296);
    let q1 = u / 256;
    let q2 = u / 65536;
    let q3 = u / 16777216;
    vstd::arithmetic::div_mod::lemma_fundamental_div_mod(u, 256);
    vstd::arithmetic::div_mod::lemma_div_denominator(u, 256, 256);
    vstd::arithmetic::div_mod::lemma_div_denominator(u, 65536, 256);
    vstd::arithmetic::div_mod::lemma_fundamental_div_mod(q1, 256);
    vstd::arithmetic::div_mod::lemma_fundamental_div_mod(q2, 256);
    assert(q1 / 256 == q2);
    assert(q2 / 256 == q3);
    assert(0 <= q3 < 256) by {
        vstd::arithmetic::div_mod::lemma_div_is_ordered(u, 4294967295, 16777216);
        vstd::arithmetic::div_mod::lemma_div_pos_is_pos(u, 16777216);
    }
    assert(0 <= q1) by {
        vstd::arithmetic::div_mod::lemma_div_pos_is_pos(u, 256);
    }
    assert(0 <= q2) by {
        vstd::arithmetic::div_mod::lemma_div_pos_is_pos(u, 65536);
    }
    vstd::arithmetic::div_mod::lemma_small_mod(q3 as nat, 256);
    assert(u == (u % 256) + 256 * ((q1 % 256) + 256 * ((q2 % 256) + 256 * q3)));
    assert(u == (u % 256) + (q1 % 256) * 256 + (q2 % 256) * 65536 + q3 * 16777216)
        by (nonlinear_arith)
        requires
            u == (u % 256) + 256 * ((q1 % 256) + 256 * ((q2 % 256) + 256 * q3)),
    ;
    assert(le_unsigned(le_bytes_of(x)) == u);
}

/// Reading back the bytes of a text gives the text.
pub proof fn lemma_text_roundtrip(s: Seq<char>)
    ensures
        text_of(encode_utf8(s)) == s,
{
    vstd::utf8::encode_utf8_valid_utf8(s);
    vstd::utf8::encode_utf8_decode_utf8(s);
}

} // verus!
