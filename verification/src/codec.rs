//! Hexadecimal and Base64 text for bytes.

use base64::Engine;
use vstd::prelude::*;
use vstd::utf8::*;

use crate::text::is_trimmed;

verus! {

/// The value of a hexadecimal digit in either case.
pub open spec fn hex_value(b: u8) -> Option<u8> {
    if 0x30 <= b <= 0x39 {
        Some((b - 0x30) as u8)
    } else if 0x41 <= b <= 0x46 {
        Some((b - 0x37) as u8)
    } else if 0x61 <= b <= 0x66 {
        Some((b - 0x57) as u8)
    } else {
        None
    }
}

/// The lower-case hexadecimal digit of a value below 16.
pub open spec fn hex_digit(n: u8) -> char {
    if n < 10 {
        (0x30 + n) as u8 as char
    } else {
        (0x57 + n) as u8 as char
    }
}

/// Bytes in lower-case hexadecimal notation, two digits for each.
pub open spec fn hex_text(bytes: Seq<u8>) -> Seq<char> {
    Seq::new(
        2 * bytes.len(),
        |i: int|
            if i % 2 == 0 {
                hex_digit((bytes[i / 2] / 16) as u8)
            } else {
                hex_digit((bytes[i / 2] % 16) as u8)
            },
    )
}

/// The bytes that hexadecimal notation stands for, where it is such notation.
pub open spec fn hex_bytes(text: Seq<u8>) -> Option<Seq<u8>> {
    if text.len() % 2 == 0 && forall|i: int|
        0 <= i < text.len() ==> hex_value(#[trigger] text[i]) is Some {
        Some(
            Seq::new(
                text.len() / 2,
                |i: int| (16 * hex_value(text[2 * i])->0 + hex_value(text[2 * i + 1])->0) as u8,
            ),
        )
    } else {
        None
    }
}

/// `hex::encode`: two lower-case digits for each byte.
#[verifier::external_body]
pub(crate) fn hex_encode(bytes: &[u8]) -> (text: String)
    ensures
        text@ == hex_text(bytes@),
{
    hex::encode(bytes)
}

/// `hex::decode_to_slice` into 32 bytes, on a text of 64 bytes: the bytes, or nothing where the
/// text holds anything but hexadecimal digits.
#[verifier::external_body]
pub(crate) fn hex_decode_32(text: &str) -> (bytes: Option<[u8; 32]>)
    requires
        encode_utf8(text@).len() == 64,
    ensures
        match bytes {
            Some(b) => hex_bytes(encode_utf8(text@)) == Some(b@),
            None => hex_bytes(encode_utf8(text@)) is None,
        },
{
    let mut bytes = [0u8; 32];
    match hex::decode_to_slice(text, &mut bytes) {
        Ok(()) => Some(bytes),
        Err(_) => None,
    }
}

/// Hexadecimal notation is ASCII text without white space that stands for the bytes it was made
/// from.
pub proof fn law_hex_round_trip(bytes: Seq<u8>)
    ensures
        hex_bytes(encode_utf8(hex_text(bytes))) == Some(bytes),
        encode_utf8(hex_text(bytes)).len() == 2 * bytes.len(),
        is_trimmed(hex_text(bytes)),
{
    let text = hex_text(bytes);
    assert forall|i: int| 0 <= i < text.len() implies {
        &&& (text[i] as nat) < 128
        &&& hex_value(text[i] as u8) is Some
        &&& !crate::text::is_white_space(text[i])
        &&& (i % 2 == 0 ==> hex_value(text[i] as u8) == Some((bytes[i / 2] / 16) as u8))
        &&& (i % 2 == 1 ==> hex_value(text[i] as u8) == Some((bytes[i / 2] % 16) as u8))
    } by {
        let hi = (bytes[i / 2] / 16) as u8;
        let lo = (bytes[i / 2] % 16) as u8;
        assert(hi < 16 && lo < 16);
    }
    assert(is_ascii_chars(text));
    is_ascii_chars_encode_utf8(text);
    let enc = encode_utf8(text);
    assert(enc =~= Seq::new(text.len(), |i: int| text[i] as u8));
    assert forall|i: int| 0 <= i < enc.len() implies hex_value(#[trigger] enc[i]) is Some by {
        assert(enc[i] == text[i] as u8);
    }
    let back = hex_bytes(enc)->0;
    assert forall|i: int| 0 <= i < bytes.len() implies back[i] == bytes[i] by {
        assert(enc[2 * i] == text[2 * i] as u8);
        assert(enc[2 * i + 1] == text[2 * i + 1] as u8);
        assert((2 * i) % 2 == 0 && (2 * i) / 2 == i);
        assert((2 * i + 1) % 2 == 1 && (2 * i + 1) / 2 == i);
        assert(16 * (bytes[i] / 16) + bytes[i] % 16 == bytes[i]);
    }
    assert(back =~= bytes);
}

/// The byte `=`, which fills up the last group of Base64 text.
pub const PAD: u8 = 0x3d;

/// The Base64 digit of a value below 64.
pub open spec fn base64_digit(n: int) -> u8 {
    if n < 26 {
        (0x41 + n) as u8
    } else if n < 52 {
        (0x61 + (n - 26)) as u8
    } else if n < 62 {
        (0x30 + (n - 52)) as u8
    } else if n == 62 {
        0x2b
    } else {
        0x2f
    }
}

/// Base64 text in the standard alphabet, with padding, as bytes.
pub open spec fn base64_bytes(b: Seq<u8>) -> Seq<u8>
    decreases b.len(),
{
    if b.len() == 0 {
        Seq::empty()
    } else if b.len() == 1 {
        seq![base64_digit(b[0] as int / 4), base64_digit(b[0] as int % 4 * 16), PAD, PAD]
    } else if b.len() == 2 {
        seq![
            base64_digit(b[0] as int / 4),
            base64_digit(b[0] as int % 4 * 16 + b[1] as int / 16),
            base64_digit(b[1] as int % 16 * 4),
            PAD,
        ]
    } else {
        seq![
            base64_digit(b[0] as int / 4),
            base64_digit(b[0] as int % 4 * 16 + b[1] as int / 16),
            base64_digit(b[1] as int % 16 * 4 + b[2] as int / 64),
            base64_digit(b[2] as int % 64),
        ] + base64_bytes(b.skip(3))
    }
}

/// Base64 text in the standard alphabet, with padding.
pub open spec fn base64_text(b: Seq<u8>) -> Seq<char> {
    base64_bytes(b).map_values(|x: u8| x as char)
}

/// Why bytes are not Base64 text.
#[verifier::external_type_specification]
#[verifier::external_body]
pub struct ExDecodeError(base64::DecodeError);

/// The error that the `STANDARD` engine's `decode` gives for bytes that are not Base64 text.
pub uninterp spec fn base64_fault(input: Seq<u8>) -> base64::DecodeError;

/// `encode` of the `STANDARD` engine of the base64 crate: standard alphabet, with padding.
#[verifier::external_body]
pub(crate) fn base64_encode(bytes: &[u8]) -> (text: String)
    ensures
        text@ == base64_text(bytes@),
{
    base64::engine::general_purpose::STANDARD.encode(bytes)
}

/// `decode` of the `STANDARD` engine of the base64 crate: the bytes whose encoding the input is.
/// Other input, such as one with padding left out or with bits set that stand for nothing, is
/// an error, which is named, not described.
#[verifier::external_body]
pub(crate) fn base64_decode(input: &[u8]) -> (bytes: Result<Vec<u8>, base64::DecodeError>)
    ensures
        match bytes {
            Ok(b) => base64_bytes(b@) == input@,
            Err(e) => e == base64_fault(input@) && forall|b: Seq<u8>| #[trigger]
                base64_bytes(b) != input@,
        },
{
    base64::engine::general_purpose::STANDARD.decode(input)
}

proof fn lemma_base64_digit(n: int)
    requires
        0 <= n < 64,
    ensures
        base64_digit(n) < 128,
        base64_digit(n) != PAD,
        base64_digit(n) > 0x20,
{
}

proof fn lemma_base64_digit_injective(m: int, n: int)
    requires
        0 <= m < 64,
        0 <= n < 64,
        base64_digit(m) == base64_digit(n),
    ensures
        m == n,
{
}

/// Two byte strings with the same Base64 text are the same.
pub proof fn law_base64_injective(a: Seq<u8>, b: Seq<u8>)
    requires
        base64_bytes(a) == base64_bytes(b),
    ensures
        a == b,
    decreases a.len(),
{
    let x = base64_bytes(a);
    let y = base64_bytes(b);
    if a.len() == 0 || b.len() == 0 {
        assert(x.len() == 0 <==> a.len() == 0);
        assert(y.len() == 0 <==> b.len() == 0);
        assert(a =~= b);
    } else {
        let a0 = a[0] as int;
        let b0 = b[0] as int;
        let a1 = if a.len() >= 2 { a[1] as int } else { 0 };
        let b1 = if b.len() >= 2 { b[1] as int } else { 0 };
        let a2 = if a.len() >= 3 { a[2] as int } else { 0 };
        let b2 = if b.len() >= 3 { b[2] as int } else { 0 };
        lemma_base64_digit(a2 % 64);
        lemma_base64_digit(b2 % 64);
        lemma_base64_digit(a1 % 16 * 4 + a2 / 64);
        lemma_base64_digit(b1 % 16 * 4 + b2 / 64);
        assert(x[0] == y[0] && x[1] == y[1] && x[2] == y[2] && x[3] == y[3]);
        assert(x[0] == base64_digit(a0 / 4));
        assert(y[0] == base64_digit(b0 / 4));
        assert(x[1] == base64_digit(a0 % 4 * 16 + a1 / 16));
        assert(y[1] == base64_digit(b0 % 4 * 16 + b1 / 16));
        lemma_base64_digit_injective(a0 / 4, b0 / 4);
        lemma_base64_digit_injective(a0 % 4 * 16 + a1 / 16, b0 % 4 * 16 + b1 / 16);
        assert((a.len() >= 2) == (x[2] != PAD));
        assert((b.len() >= 2) == (y[2] != PAD));
        assert((a.len() >= 3) == (x[3] != PAD));
        assert((b.len() >= 3) == (y[3] != PAD));
        if a.len() >= 2 {
            lemma_base64_digit_injective(a1 % 16 * 4 + a2 / 64, b1 % 16 * 4 + b2 / 64);
        }
        if a.len() >= 3 {
            lemma_base64_digit_injective(a2 % 64, b2 % 64);
            assert(x.skip(4) =~= base64_bytes(a.skip(3)));
            assert(y.skip(4) =~= base64_bytes(b.skip(3)));
            law_base64_injective(a.skip(3), b.skip(3));
            assert(a =~= seq![a[0], a[1], a[2]] + a.skip(3));
            assert(b =~= seq![b[0], b[1], b[2]] + b.skip(3));
        } else {
            assert(a =~= b);
        }
    }
}

/// Base64 text is ASCII, and no byte of it is white space.
pub proof fn lemma_base64_is_ascii(b: Seq<u8>)
    ensures
        forall|i: int|
            0 <= i < base64_bytes(b).len() ==> 0x20 < #[trigger] base64_bytes(b)[i] < 128,
        encode_utf8(base64_text(b)) == base64_bytes(b),
    decreases b.len(),
{
    lemma_base64_range(b);
    let text = base64_text(b);
    assert forall|i: int| 0 <= i < text.len() implies (text[i] as nat) < 128 by {
        assert(0x20 < base64_bytes(b)[i] < 128);
    }
    assert(is_ascii_chars(text));
    is_ascii_chars_encode_utf8(text);
    assert(encode_utf8(text) =~= base64_bytes(b));
}

proof fn lemma_base64_range(b: Seq<u8>)
    ensures
        forall|i: int|
            0 <= i < base64_bytes(b).len() ==> 0x20 < #[trigger] base64_bytes(b)[i] < 128,
    decreases b.len(),
{
    if b.len() > 0 {
        let b0 = b[0] as int;
        let b1 = if b.len() >= 2 { b[1] as int } else { 0 };
        let b2 = if b.len() >= 3 { b[2] as int } else { 0 };
        lemma_base64_digit(b0 / 4);
        lemma_base64_digit(b0 % 4 * 16 + b1 / 16);
        lemma_base64_digit(b1 % 16 * 4 + b2 / 64);
        lemma_base64_digit(b2 % 64);
        let x = base64_bytes(b);
        if b.len() >= 3 {
            let rest = base64_bytes(b.skip(3));
            lemma_base64_range(b.skip(3));
            assert forall|i: int| 0 <= i < x.len() implies 0x20 < #[trigger] x[i] < 128 by {
                if i >= 4 {
                    assert(x[i] == rest[i - 4]);
                }
            }
        } else {
            assert forall|i: int| 0 <= i < x.len() implies 0x20 < #[trigger] x[i] < 128 by {}
        }
    }
}

/// White space in the ASCII sense: space, tab, line feed, form feed and carriage return.
pub open spec fn is_ascii_space(b: u8) -> bool {
    b == 0x20 || b == 0x09 || b == 0x0a || b == 0x0c || b == 0x0d
}

/// Bytes without the white space among them.
pub open spec fn without_spaces(bytes: Seq<u8>) -> Seq<u8>
    decreases bytes.len(),
{
    if bytes.len() == 0 {
        Seq::empty()
    } else if is_ascii_space(bytes.last()) {
        without_spaces(bytes.drop_last())
    } else {
        without_spaces(bytes.drop_last()).push(bytes.last())
    }
}

/// `bytes` without the white space among them.
pub fn remove_spaces(bytes: &[u8]) -> (r: Vec<u8>)
    ensures
        r@ == without_spaces(bytes@),
{
    let mut r: Vec<u8> = Vec::new();
    let mut i: usize = 0;
    while i < bytes.len()
        invariant
            i <= bytes.len(),
            r@ == without_spaces(bytes@.take(i as int)),
        decreases bytes.len() - i,
    {
        let b = bytes[i];
        if !(b == 0x20 || b == 0x09 || b == 0x0a || b == 0x0c || b == 0x0d) {
            r.push(b);
        }
        assert(bytes@.take(i as int + 1).drop_last() == bytes@.take(i as int));
        i = i + 1;
    }
    assert(bytes@.take(bytes@.len() as int) == bytes@);
    r
}

/// Bytes that hold no white space are left alone.
pub proof fn lemma_no_spaces(bytes: Seq<u8>)
    requires
        forall|i: int| 0 <= i < bytes.len() ==> !is_ascii_space(#[trigger] bytes[i]),
    ensures
        without_spaces(bytes) == bytes,
    decreases bytes.len(),
{
    if bytes.len() > 0 {
        lemma_no_spaces(bytes.drop_last());
        assert(bytes =~= bytes.drop_last().push(bytes.last()));
    }
}

/// What is left is everything but the ASCII white space, in order: spaces, tabs, line feeds, form
/// feeds and carriage returns.
pub proof fn law_spaces_are_all_that_is_removed(bytes: Seq<u8>)
    ensures
        without_spaces(bytes) == bytes.filter(
            |b: u8| !(b == 0x20 || b == 0x09 || b == 0x0a || b == 0x0c || b == 0x0d),
        ),
    decreases bytes.len(),
{
    reveal(Seq::filter);
    if bytes.len() > 0 {
        law_spaces_are_all_that_is_removed(bytes.drop_last());
    }
}

/// Base64 text is printable: letters, digits, `+`, `/` and `=`.
pub proof fn law_base64_is_printable(b: Seq<u8>)
    ensures
        forall|i: int|
            0 <= i < base64_text(b).len() ==> {
                let c = #[trigger] base64_text(b)[i];
                'A' <= c <= 'Z' || 'a' <= c <= 'z' || '0' <= c <= '9' || c == '+' || c == '/' || c
                    == '='
            },
    decreases b.len(),
{
    let text = base64_text(b);
    if b.len() >= 3 {
        let rest = b.skip(3);
        law_base64_is_printable(rest);
        assert forall|i: int| 0 <= i < text.len() implies {
            let c = #[trigger] text[i];
            'A' <= c <= 'Z' || 'a' <= c <= 'z' || '0' <= c <= '9' || c == '+' || c == '/' || c == '='
        } by {
            if i >= 4 {
                assert(base64_text(rest)[i - 4] == text[i]);
            }
        }
    }
}

} // verus!
