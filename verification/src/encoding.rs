//! How text and bytes turn into each other: UTF-8, lower case and base64.

use base64::engine::general_purpose;
use base64::Engine;
use vstd::prelude::*;
use vstd::utf8::{decode_utf8, is_ascii_chars, valid_utf8};

verus! {

/// The standard base64 symbol for a number below 64.
pub open spec fn base64_symbol(n: int) -> char {
    if n < 26 {
        (65 + n) as char
    } else if n < 52 {
        (71 + n) as char
    } else if n < 62 {
        (n - 4) as char
    } else if n == 62 {
        '+'
    } else {
        '/'
    }
}

/// The four symbols for three bytes.
pub open spec fn base64_quad(a: int, b: int, c: int) -> Seq<char> {
    seq![
        base64_symbol(a / 4),
        base64_symbol(a % 4 * 16 + b / 16),
        base64_symbol(b % 16 * 4 + c / 64),
        base64_symbol(c % 64),
    ]
}

/// Standard base64 with padding: three bytes become four symbols, and a shorter last group
/// is filled up with `=`.
pub open spec fn base64(bytes: Seq<u8>) -> Seq<char>
    decreases bytes.len(),
{
    if bytes.len() == 0 {
        Seq::empty()
    } else if bytes.len() == 1 {
        base64_quad(bytes[0] as int, 0, 0).take(2) + seq!['=', '=']
    } else if bytes.len() == 2 {
        base64_quad(bytes[0] as int, bytes[1] as int, 0).take(3) + seq!['=']
    } else {
        base64_quad(bytes[0] as int, bytes[1] as int, bytes[2] as int) + base64(bytes.skip(3))
    }
}

/// The number of symbols that `n` bytes take in padded base64.
pub open spec fn base64_len(n: nat) -> nat {
    (n + 2) / 3 * 4
}

/// What `String::from_utf8_lossy` makes of a byte sequence.
pub uninterp spec fn utf8_lossy(bytes: Seq<u8>) -> Seq<char>;

/// What `str::to_lowercase` makes of a text.
pub uninterp spec fn lowercase(text: Seq<char>) -> Seq<char>;

/// The media type that `mime_guess` gives for a file name extension.
pub uninterp spec fn media_type(extension: Seq<char>) -> Seq<char>;

/// `c` in lower case, if it is an ASCII letter.
pub open spec fn ascii_lower(c: char) -> char {
    if 'A' <= c <= 'Z' {
        (c as u32 + 32) as char
    } else {
        c
    }
}

/// The error type of the `base64` decoder. Its content is not looked at.
#[verifier::external_type_specification]
#[verifier::external_body]
pub struct ExDecodeError(base64::DecodeError);

/// The error type of `String::from_utf8`. Its content is not looked at.
#[verifier::external_type_specification]
#[verifier::external_body]
pub struct ExFromUtf8Error(std::string::FromUtf8Error);

/// `String::from_utf8` succeeds exactly on valid UTF-8 and then returns the text that the
/// bytes encode.
pub assume_specification[ String::from_utf8 ](vec: Vec<u8>) -> (res: Result<
    String,
    std::string::FromUtf8Error,
>)
    ensures
        res is Ok <==> valid_utf8(vec@),
        res matches Ok(s) ==> s@ == decode_utf8(vec@),
;

/// `str::to_lowercase` is a function of the text; on ASCII text it maps `A` to `Z` to `a` to
/// `z` and leaves the rest alone.
pub assume_specification[ str::to_lowercase ](s: &str) -> (res: String)
    ensures
        res@ == lowercase(s@),
        is_ascii_chars(s@) ==> res@ == s@.map_values(|c: char| ascii_lower(c)),
;

/// `String::from_utf8_lossy` is a function of the bytes; on valid UTF-8 it returns the text
/// that the bytes encode.
#[verifier::external_body]
pub(crate) fn text_lossy(bytes: &[u8]) -> (res: String)
    ensures
        res@ == utf8_lossy(bytes@),
        valid_utf8(bytes@) ==> res@ == decode_utf8(bytes@),
{
    String::from_utf8_lossy(bytes).into_owned()
}

/// `Engine::encode` of `base64` with the `STANDARD` engine. The bound leaves out the inputs
/// whose encoding does not fit in one allocation, on which it panics.
#[verifier::external_body]
pub(crate) fn base64_encode(bytes: &[u8]) -> (res: String)
    requires
        base64_len(bytes@.len()) <= isize::MAX,
    ensures
        res@ == base64(bytes@),
{
    general_purpose::STANDARD.encode(bytes)
}

/// `Engine::decode` of `base64` with the `STANDARD` engine, which wants canonical padding and
/// no stray bits: it accepts exactly the texts that encode some bytes, and returns those.
#[verifier::external_body]
pub(crate) fn base64_decode(encoded: &str) -> (res: Result<Vec<u8>, base64::DecodeError>)
    ensures
        match res {
            Ok(bytes) => base64(bytes@) == encoded@,
            Err(_) => forall|bytes: Seq<u8>| #[trigger] base64(bytes) != encoded@,
        },
{
    general_purpose::STANDARD.decode(encoded)
}

/// `mime_guess::from_ext` and the first type that it offers, as text. It is a function of the
/// extension; for the empty extension it is the type of plain bytes.
#[verifier::external_body]
pub(crate) fn guess_media_type(extension: &str) -> (res: String)
    ensures
        res@ == media_type(extension@),
        extension@.len() == 0 ==> res@ == "application/octet-stream"@,
{
    mime_guess::from_ext(extension).first_or_octet_stream().to_string()
}

proof fn lemma_symbol(m: int, n: int)
    requires
        0 <= m < 64,
        0 <= n < 64,
    ensures
        base64_symbol(m) != '=',
        base64_symbol(m) == base64_symbol(n) ==> m == n,
{
}

proof fn lemma_quad(a: u8, b: u8, c: u8, x: u8, y: u8, z: u8)
    ensures
        ({
            let p = base64_quad(a as int, b as int, c as int);
            let q = base64_quad(x as int, y as int, z as int);
            &&& p.len() == 4
            &&& forall|i: int| 0 <= i < 4 ==> p[i] != '='
            &&& p == q ==> a == x && b == y && c == z
        }),
{
    let p = base64_quad(a as int, b as int, c as int);
    let q = base64_quad(x as int, y as int, z as int);
    lemma_symbol(a as int / 4, x as int / 4);
    lemma_symbol(a as int % 4 * 16 + b as int / 16, x as int % 4 * 16 + y as int / 16);
    lemma_symbol(b as int % 16 * 4 + c as int / 64, y as int % 16 * 4 + z as int / 64);
    lemma_symbol(c as int % 64, z as int % 64);
    assert(p[0] == q[0] && p[1] == q[1] && p[2] == q[2] && p[3] == q[3] ==> a == x && b == y && c
        == z);
}

/// The first three bytes of a sequence, filled up with zeros.
spec fn group(bytes: Seq<u8>) -> (u8, u8, u8) {
    (
        bytes[0],
        if bytes.len() > 1 {
            bytes[1]
        } else {
            0u8
        },
        if bytes.len() > 2 {
            bytes[2]
        } else {
            0u8
        },
    )
}

proof fn lemma_first_quad(bytes: Seq<u8>)
    requires
        bytes.len() > 0,
    ensures
        ({
            let (a, b, c) = group(bytes);
            let q = base64_quad(a as int, b as int, c as int);
            let s = base64(bytes);
            &&& s.len() >= 4
            &&& s[0] == q[0]
            &&& s[1] == q[1]
            &&& bytes.len() > 1 <==> s[2] != '='
            &&& bytes.len() > 2 <==> s[3] != '='
            &&& bytes.len() > 1 ==> s[2] == q[2]
            &&& bytes.len() > 2 ==> s[3] == q[3]
            &&& bytes.len() > 2 ==> s.skip(4) == base64(bytes.skip(3))
            &&& bytes.len() <= 2 ==> s.len() == 4
            &&& bytes.len() <= 1 ==> q[2] == base64_symbol(0)
            &&& bytes.len() <= 2 ==> q[3] == base64_symbol(0)
        }),
{
    let (a, b, c) = group(bytes);
    lemma_quad(a, b, c, a, b, c);
    if bytes.len() > 2 {
        assert(base64(bytes).skip(4) =~= base64(bytes.skip(3)));
    }
}

/// Different byte sequences have different encodings.
pub proof fn law_base64_injective(a: Seq<u8>, b: Seq<u8>)
    requires
        base64(a) == base64(b),
    ensures
        a == b,
    decreases a.len(),
{
    if a.len() > 0 {
        lemma_first_quad(a);
    }
    if b.len() > 0 {
        lemma_first_quad(b);
    }
    if a.len() > 0 && b.len() > 0 {
        let (a0, a1, a2) = group(a);
        let (b0, b1, b2) = group(b);
        lemma_quad(a0, a1, a2, b0, b1, b2);
        let p = base64_quad(a0 as int, a1 as int, a2 as int);
        let q = base64_quad(b0 as int, b1 as int, b2 as int);
        assert(p =~= q);
        if a.len() > 2 {
            law_base64_injective(a.skip(3), b.skip(3));
            assert(a =~= seq![a0, a1, a2] + a.skip(3));
            assert(b =~= seq![b0, b1, b2] + b.skip(3));
        } else {
            assert(a =~= b);
        }
    } else {
        assert(a =~= b);
    }
}

/// The sixty-four symbols in the order of their values.
pub open spec fn alphabet() -> Seq<char> {
    "ABCDEFGHIJKLMNOPQRSTUVWXYZabcdefghijklmnopqrstuvwxyz0123456789+/"@
}

proof fn lemma_alphabet(n: int)
    requires
        0 <= n < 64,
    ensures
        base64_symbol(n) == alphabet()[n],
{
    reveal_strlit("ABCDEFGHIJKLMNOPQRSTUVWXYZabcdefghijklmnopqrstuvwxyz0123456789+/");
}

/// Three bytes and the four symbols before the rest stand for the same 24-bit number.
pub proof fn law_base64_of_three_bytes(
    a: u8,
    b: u8,
    c: u8,
    rest: Seq<u8>,
    w: int,
    x: int,
    y: int,
    z: int,
)
    requires
        0 <= w < 64 && 0 <= x < 64 && 0 <= y < 64 && 0 <= z < 64,
        65536 * a + 256 * b + c == 262144 * w + 4096 * x + 64 * y + z,
    ensures
        base64(seq![a, b, c] + rest) == seq![
            alphabet()[w],
            alphabet()[x],
            alphabet()[y],
            alphabet()[z],
        ] + base64(rest),
{
    let bytes = seq![a, b, c] + rest;
    assert(bytes.skip(3) =~= rest);
    lemma_alphabet(w);
    lemma_alphabet(x);
    lemma_alphabet(y);
    lemma_alphabet(z);
    assert(a as int / 4 == w);
    assert(a as int % 4 * 16 + b as int / 16 == x);
    assert(b as int % 16 * 4 + c as int / 64 == y);
    assert(c as int % 64 == z);
}

/// Two bytes at the end fill three symbols, with two zero bits, and one `=` stands behind.
pub proof fn law_base64_of_two_bytes(a: u8, b: u8, w: int, x: int, y: int)
    requires
        0 <= w < 64 && 0 <= x < 64 && 0 <= y < 64,
        1024 * a + 4 * b == 4096 * w + 64 * x + y,
    ensures
        base64(seq![a, b]) == seq![alphabet()[w], alphabet()[x], alphabet()[y], '='],
{
    lemma_alphabet(w);
    lemma_alphabet(x);
    lemma_alphabet(y);
    assert(a as int / 4 == w);
    assert(a as int % 4 * 16 + b as int / 16 == x);
    assert(b as int % 16 * 4 == y);
    assert(base64(seq![a, b]) =~= seq![alphabet()[w], alphabet()[x], alphabet()[y], '=']);
}

/// One byte at the end fills two symbols, with four zero bits, and two `=` stand behind.
pub proof fn law_base64_of_one_byte(a: u8, w: int, x: int)
    requires
        0 <= w < 64 && 0 <= x < 64,
        16 * a == 64 * w + x,
    ensures
        base64(seq![a]) == seq![alphabet()[w], alphabet()[x], '=', '='],
{
    lemma_alphabet(w);
    lemma_alphabet(x);
    assert(a as int / 4 == w);
    assert(a as int % 4 * 16 == x);
    assert(base64(seq![a]) =~= seq![alphabet()[w], alphabet()[x], '=', '=']);
}

/// The length of an encoding: four symbols for every three bytes, counted up.
pub proof fn law_base64_length(bytes: Seq<u8>)
    ensures
        base64(bytes).len() == base64_len(bytes.len()),
        base64(bytes).len() % 4 == 0,
        3 * base64(bytes).len() >= 4 * bytes.len(),
        3 * base64(bytes).len() <= 4 * bytes.len() + 8,
    decreases bytes.len(),
{
    if bytes.len() > 2 {
        law_base64_length(bytes.skip(3));
    }
}

/// Lower case moves each of the capital letters by the same distance and nothing else.
pub proof fn law_ascii_lower(i: int, c: char)
    requires
        0 <= i < 26,
        !('A' <= c <= 'Z'),
    ensures
        ascii_lower("ABCDEFGHIJKLMNOPQRSTUVWXYZ"@[i]) == "abcdefghijklmnopqrstuvwxyz"@[i],
        ascii_lower(c) == c,
{
    reveal_strlit("ABCDEFGHIJKLMNOPQRSTUVWXYZ");
    reveal_strlit("abcdefghijklmnopqrstuvwxyz");
}

} // verus!
