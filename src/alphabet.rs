//! The standard base64 encoding (RFC 4648, section 4) as a mathematical
//! function, with the facts that make it a faithful code: it is injective,
//! and its length is four characters per group of up to three bytes.
use vstd::prelude::*;

verus! {

/// The character that stands for the six-bit value `v` in the standard
/// base64 alphabet: `A-Z`, `a-z`, `0-9`, `+`, `/`.
pub open spec fn symbol(v: int) -> char {
    if v < 26 {
        (v + 65) as u32 as char
    } else if v < 52 {
        (v - 26 + 97) as u32 as char
    } else if v < 62 {
        (v - 52 + 48) as u32 as char
    } else if v == 62 {
        '+'
    } else {
        '/'
    }
}

/// The four symbols that carry the three bytes `x`, `y`, `z`, six bits each,
/// most significant bits first.
pub open spec fn full_quad(x: int, y: int, z: int) -> Seq<char> {
    seq![symbol(x / 4), symbol((x % 4) * 16 + y / 16), symbol((y % 16) * 4 + z / 64), symbol(z % 64)]
}

/// Standard base64 with padding (RFC 4648, section 4): each group of three
/// bytes becomes four symbols; a last group of one or two bytes is filled
/// with zero bits and padded with `=` to four characters.
pub open spec fn encode_spec(b: Seq<u8>) -> Seq<char>
    decreases b.len(),
{
    if b.len() == 0 {
        Seq::empty()
    } else if b.len() == 1 {
        let x = b[0] as int;
        seq![symbol(x / 4), symbol((x % 4) * 16), '=', '=']
    } else if b.len() == 2 {
        let (x, y) = (b[0] as int, b[1] as int);
        seq![symbol(x / 4), symbol((x % 4) * 16 + y / 16), symbol((y % 16) * 4), '=']
    } else {
        full_quad(b[0] as int, b[1] as int, b[2] as int) + encode_spec(b.subrange(3, b.len() as int))
    }
}

/// The length of the encoding of `n` bytes: four characters for each group
/// of at most three bytes.
pub open spec fn encoded_len(n: nat) -> nat {
    4 * ((n + 2) / 3)
}

/// A text is valid standard base64 when it is the encoding of some bytes.
pub open spec fn is_base64(s: Seq<char>) -> bool {
    exists|b: Seq<u8>| encode_spec(b) == s
}

/// The bytes whose encoding is `s` (meaningful when `is_base64(s)`).
pub open spec fn decode_spec(s: Seq<char>) -> Seq<u8> {
    choose|b: Seq<u8>| encode_spec(b) == s
}

proof fn lemma_symbol(v: int, w: int)
    requires
        0 <= v < 64,
        0 <= w < 64,
    ensures
        symbol(v) != '=',
        symbol(v) == symbol(w) ==> v == w,
{
}

pub proof fn lemma_encoded_len(b: Seq<u8>)
    ensures
        encode_spec(b).len() == encoded_len(b.len()),
    decreases b.len(),
{
    if b.len() >= 3 {
        lemma_encoded_len(b.subrange(3, b.len() as int));
    }
}

proof fn lemma_full_quad_injective(x: int, y: int, z: int, p: int, q: int, r: int)
    requires
        0 <= x < 256,
        0 <= y < 256,
        0 <= z < 256,
        0 <= p < 256,
        0 <= q < 256,
        0 <= r < 256,
        full_quad(x, y, z) == full_quad(p, q, r),
    ensures
        x == p,
        y == q,
        z == r,
{
    let s = full_quad(x, y, z);
    let t = full_quad(p, q, r);
    assert(s[0] == t[0] && s[1] == t[1] && s[2] == t[2] && s[3] == t[3]);
    lemma_symbol(x / 4, p / 4);
    lemma_symbol((x % 4) * 16 + y / 16, (p % 4) * 16 + q / 16);
    lemma_symbol((y % 16) * 4 + z / 64, (q % 16) * 4 + r / 64);
    lemma_symbol(z % 64, r % 64);
}

/// Different byte sequences have different encodings.
pub proof fn lemma_encode_injective(a: Seq<u8>, b: Seq<u8>)
    requires
        encode_spec(a) == encode_spec(b),
    ensures
        a == b,
    decreases a.len(),
{
    let ea = encode_spec(a);
    let eb = encode_spec(b);
    lemma_encoded_len(a);
    lemma_encoded_len(b);
    if a.len() > 0 && b.len() > 0 {
        assert(ea[0] == eb[0] && ea[1] == eb[1] && ea[2] == eb[2] && ea[3] == eb[3]);
        let (a0, a1, a2) = (a[0] as int, if a.len() > 1 { a[1] as int } else { 0 }, if a.len() > 2 { a[2] as int } else { 0 });
        let (b0, b1, b2) = (b[0] as int, if b.len() > 1 { b[1] as int } else { 0 }, if b.len() > 2 { b[2] as int } else { 0 });
        lemma_symbol(a0 / 4, b0 / 4);
        if a.len() == 1 && b.len() == 1 {
            lemma_symbol((a0 % 4) * 16, (b0 % 4) * 16);
            assert(a =~= b);
        } else if a.len() == 2 && b.len() == 2 {
            lemma_symbol((a0 % 4) * 16 + a1 / 16, (b0 % 4) * 16 + b1 / 16);
            lemma_symbol((a1 % 16) * 4, (b1 % 16) * 4);
            assert(a =~= b);
        } else if a.len() >= 3 && b.len() >= 3 {
            let ra = a.subrange(3, a.len() as int);
            let rb = b.subrange(3, b.len() as int);
            assert(ea.subrange(0, 4) =~= full_quad(a0, a1, a2));
            assert(eb.subrange(0, 4) =~= full_quad(b0, b1, b2));
            lemma_full_quad_injective(a0, a1, a2, b0, b1, b2);
            assert(encode_spec(ra) =~= ea.subrange(4, ea.len() as int));
            assert(encode_spec(rb) =~= eb.subrange(4, eb.len() as int));
            lemma_encode_injective(ra, rb);
            assert forall|i: int| 0 <= i < a.len() implies a[i] == b[i] by {
                if i >= 3 {
                    assert(a[i] == ra[i - 3] && b[i] == rb[i - 3]);
                }
            }
            assert(a =~= b);
        } else if a.len() == 1 && b.len() == 2 {
            lemma_symbol((b1 % 16) * 4, 0);
        } else if a.len() == 2 && b.len() == 1 {
            lemma_symbol((a1 % 16) * 4, 0);
        } else if a.len() >= 3 {
            lemma_symbol(a2 % 64, 0);
        } else {
            lemma_symbol(b2 % 64, 0);
        }
    } else {
        assert(a.len() == 0 && b.len() == 0);
        assert(a =~= b);
    }
}

/// Every encoding is valid base64, and decodes to the bytes it encodes.
pub proof fn lemma_decode_encode(b: Seq<u8>)
    ensures
        is_base64(encode_spec(b)),
        decode_spec(encode_spec(b)) == b,
{
    let s = encode_spec(b);
    assert(encode_spec(b) == s);
    lemma_encode_injective(decode_spec(s), b);
}

} // verus!
