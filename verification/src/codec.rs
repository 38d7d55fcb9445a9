//! The byte encodings that keys and credentials travel in: base64, hexadecimal and UTF-8.
use base64::Engine;
use vstd::prelude::*;
use vstd::utf8::*;

verus! {

/// The base64 symbol that stands for the six-bit value `v`.
pub open spec fn base64_symbol(v: int) -> char {
    if v < 26 {
        ('A' as int + v) as char
    } else if v < 52 {
        ('a' as int + (v - 26)) as char
    } else if v < 62 {
        ('0' as int + (v - 52)) as char
    } else if v == 62 {
        '+'
    } else {
        '/'
    }
}

/// Standard base64 with padding: every three bytes become four symbols, and `=` fills up the
/// last group.
pub open spec fn base64_text(bytes: Seq<u8>) -> Seq<char>
    decreases bytes.len(),
{
    let a = bytes[0] as int;
    let b = bytes[1] as int;
    let c = bytes[2] as int;
    if bytes.len() == 0 {
        seq![]
    } else if bytes.len() == 1 {
        seq![base64_symbol(a / 4), base64_symbol((a % 4) * 16), '=', '=']
    } else if bytes.len() == 2 {
        seq![
            base64_symbol(a / 4),
            base64_symbol((a % 4) * 16 + b / 16),
            base64_symbol((b % 16) * 4),
            '=',
        ]
    } else {
        seq![
            base64_symbol(a / 4),
            base64_symbol((a % 4) * 16 + b / 16),
            base64_symbol((b % 16) * 4 + c / 64),
            base64_symbol(c % 64),
        ] + base64_text(bytes.skip(3))
    }
}

/// The bytes that `text` is the base64 text of, if there are any.
pub open spec fn base64_bytes(text: Seq<char>) -> Option<Seq<u8>> {
    if exists|bytes: Seq<u8>| base64_text(bytes) == text {
        Some(choose|bytes: Seq<u8>| base64_text(bytes) == text)
    } else {
        None
    }
}

/// How long the base64 text of `len` bytes is.
pub open spec fn base64_len(len: nat) -> nat {
    (len + 2) / 3 * 4
}

/// Whether the base64 text of `bytes` fits in memory.
pub open spec fn base64_fits(bytes: Seq<u8>) -> bool {
    base64_len(bytes.len()) <= isize::MAX
}

/// How the base64 decoder words its complaint about `text`.
pub uninterp spec fn base64_complaint(text: Seq<char>) -> Seq<char>;

proof fn symbol_is_injective(v: int, w: int)
    requires
        0 <= v < 64,
        0 <= w < 64,
        base64_symbol(v) == base64_symbol(w),
    ensures
        v == w,
        base64_symbol(v) != '=',
{
}

/// No two byte strings share a base64 text.
pub proof fn base64_is_injective(x: Seq<u8>, y: Seq<u8>)
    requires
        base64_text(x) == base64_text(y),
    ensures
        x == y,
    decreases x.len(),
{
    let tx = base64_text(x);
    let ty = base64_text(y);
    if x.len() == 0 || y.len() == 0 {
        assert(tx.len() == 0);
        assert(x =~= y);
    } else {
        let (a, b, c) = (x[0] as int, x[1] as int, x[2] as int);
        let (d, e, f) = (y[0] as int, y[1] as int, y[2] as int);
        assert(tx[0] == ty[0] && tx[1] == ty[1] && tx[2] == ty[2] && tx[3] == ty[3]);
        symbol_is_injective(a / 4, d / 4);
        if x.len() == 1 {
            symbol_is_injective((a % 4) * 16, (a % 4) * 16);
            if y.len() == 2 {
                symbol_is_injective((e % 16) * 4, (e % 16) * 4);
            } else if y.len() > 2 {
                symbol_is_injective((e % 16) * 4 + f / 64, (e % 16) * 4 + f / 64);
            }
            assert(y.len() == 1);
            symbol_is_injective((a % 4) * 16, (d % 4) * 16);
            assert(x =~= y);
        } else if x.len() == 2 {
            symbol_is_injective((b % 16) * 4, (b % 16) * 4);
            if y.len() > 2 {
                symbol_is_injective(f % 64, f % 64);
            }
            assert(y.len() == 2);
            symbol_is_injective((a % 4) * 16 + b / 16, (d % 4) * 16 + e / 16);
            symbol_is_injective((b % 16) * 4, (e % 16) * 4);
            assert(x =~= y);
        } else {
            symbol_is_injective(c % 64, c % 64);
            symbol_is_injective((b % 16) * 4 + c / 64, (b % 16) * 4 + c / 64);
            assert(y.len() > 2);
            symbol_is_injective((a % 4) * 16 + b / 16, (d % 4) * 16 + e / 16);
            symbol_is_injective((b % 16) * 4 + c / 64, (e % 16) * 4 + f / 64);
            symbol_is_injective(c % 64, f % 64);
            assert(tx.skip(4) =~= base64_text(x.skip(3)));
            assert(ty.skip(4) =~= base64_text(y.skip(3)));
            base64_is_injective(x.skip(3), y.skip(3));
            assert(x =~= x.take(3) + x.skip(3));
            assert(y =~= y.take(3) + y.skip(3));
            assert(x.take(3) =~= y.take(3));
        }
    }
}

/// Decoding gives back what was encoded.
pub proof fn base64_round_trip(bytes: Seq<u8>)
    ensures
        base64_bytes(base64_text(bytes)) == Some(bytes),
{
    let text = base64_text(bytes);
    assert(base64_text(bytes) == text);
    let found = choose|b: Seq<u8>| base64_text(b) == text;
    base64_is_injective(found, bytes);
}

/// Encodes `bytes` with `base64`'s `STANDARD` engine (`Engine::encode`): RFC 4648's alphabet,
/// padded with `=`. The engine panics where the text would not fit in memory.
#[verifier::external_body]
pub(crate) fn encode_standard(bytes: &Vec<u8>) -> (text: String)
    requires
        base64_fits(bytes@),
    ensures
        text@ == base64_text(bytes@),
{
    base64::engine::general_purpose::STANDARD.encode(bytes)
}

/// Decodes `text` with `base64`'s `STANDARD` engine (`Engine::decode`). The engine asks for
/// canonical padding and for zero trailing bits, so it accepts exactly the texts that encoding
/// writes. The error is the `Debug` text of its `DecodeError`.
#[verifier::external_body]
fn decode_standard(text: &str) -> (bytes: Result<Vec<u8>, String>)
    ensures
        match bytes {
            Ok(b) => base64_text(b@) == text@,
            Err(e) => (forall|b: Seq<u8>| base64_text(b) != text@) && e@ == base64_complaint(text@),
        },
{
    base64::engine::general_purpose::STANDARD.decode(text).map_err(|e| format!("{e:?}"))
}

/// Decodes standard base64.
pub fn decode_base64(text: &str) -> (bytes: Result<Vec<u8>, String>)
    ensures
        match bytes {
            Ok(b) => base64_bytes(text@) == Some(b@),
            Err(e) => base64_bytes(text@) is None && e@ == base64_complaint(text@),
        },
{
    let bytes = decode_standard(text);
    proof {
        if bytes is Ok {
            base64_round_trip(bytes->Ok_0@);
        }
    }
    bytes
}

/// The value of a hexadecimal digit of either case.
pub open spec fn hex_value(c: char) -> Option<int> {
    if '0' <= c <= '9' {
        Some(c as int - '0' as int)
    } else if 'a' <= c <= 'f' {
        Some(c as int - 'a' as int + 10)
    } else if 'A' <= c <= 'F' {
        Some(c as int - 'A' as int + 10)
    } else {
        None
    }
}

/// The `k`th half of `bytes`, counted in hexadecimal digits: high half first.
pub open spec fn nibble(bytes: Seq<u8>, k: int) -> int {
    if k % 2 == 0 {
        bytes[k / 2] as int / 16
    } else {
        bytes[k / 2] as int % 16
    }
}

/// Whether `text` writes `bytes` with two hexadecimal digits for each byte.
pub open spec fn is_hex_of(text: Seq<char>, bytes: Seq<u8>) -> bool {
    &&& text.len() == 2 * bytes.len()
    &&& forall|k: int|
        0 <= k < text.len() ==> hex_value(#[trigger] text[k]) == Some(nibble(bytes, k))
}

/// The bytes that `text` writes in hexadecimal, if there are any.
pub open spec fn hex_bytes(text: Seq<char>) -> Option<Seq<u8>> {
    if exists|bytes: Seq<u8>| is_hex_of(text, bytes) {
        Some(choose|bytes: Seq<u8>| is_hex_of(text, bytes))
    } else {
        None
    }
}

/// How the hexadecimal decoder words its complaint about `text`.
pub uninterp spec fn hex_complaint(text: Seq<char>) -> Seq<char>;

/// A hexadecimal text writes one byte string only.
pub proof fn hex_is_unambiguous(text: Seq<char>, x: Seq<u8>, y: Seq<u8>)
    requires
        is_hex_of(text, x),
        is_hex_of(text, y),
    ensures
        x == y,
{
    assert forall|i: int| 0 <= i < x.len() implies x[i] == y[i] by {
        assert(hex_value(text[2 * i]) == Some(nibble(x, 2 * i)));
        assert(hex_value(text[2 * i + 1]) == Some(nibble(x, 2 * i + 1)));
        assert(nibble(y, 2 * i) == y[i] as int / 16);
        assert(nibble(y, 2 * i + 1) == y[i] as int % 16);
    }
    assert(x =~= y);
}

/// Decodes `text` with `hex::decode`: an even number of digits of either case, two for each
/// byte. The error is the `Display` text of its `FromHexError`.
#[verifier::external_body]
fn decode_digits(text: &str) -> (bytes: Result<Vec<u8>, String>)
    ensures
        match bytes {
            Ok(b) => is_hex_of(text@, b@),
            Err(e) => (forall|b: Seq<u8>| !is_hex_of(text@, b)) && e@ == hex_complaint(text@),
        },
{
    hex::decode(text).map_err(|e| e.to_string())
}

/// Decodes hexadecimal text.
pub fn decode_hex(text: &str) -> (bytes: Result<Vec<u8>, String>)
    ensures
        match bytes {
            Ok(b) => hex_bytes(text@) == Some(b@),
            Err(e) => hex_bytes(text@) is None && e@ == hex_complaint(text@),
        },
{
    let bytes = decode_digits(text);
    proof {
        if bytes is Ok {
            let b = bytes->Ok_0@;
            assert(is_hex_of(text@, b));
            hex_is_unambiguous(text@, b, choose|c: Seq<u8>| is_hex_of(text@, c));
        }
    }
    bytes
}

/// How `String::from_utf8` words its complaint about `bytes`.
pub uninterp spec fn utf8_complaint(bytes: Seq<u8>) -> Seq<char>;

/// Reads `bytes` as UTF-8 with `String::from_utf8`, which accepts exactly the valid encodings.
/// The error is the `Debug` text of its `FromUtf8Error`.
#[verifier::external_body]
pub(crate) fn decode_utf8_text(bytes: Vec<u8>) -> (text: Result<String, String>)
    ensures
        match text {
            Ok(t) => valid_utf8(bytes@) && t@ == decode_utf8(bytes@),
            Err(e) => !valid_utf8(bytes@) && e@ == utf8_complaint(bytes@),
        },
{
    String::from_utf8(bytes).map_err(|e| format!("{e:?}"))
}

/// Decoding base64 gives the whole of what was encoded and nothing else: the bytes whose base64 text
/// is exactly the text given.
pub proof fn base64_bytes_are_all(text: Seq<char>, bytes: Seq<u8>)
    ensures
        base64_bytes(text) == Some(bytes) <==> base64_text(bytes) == text,
{
    if base64_text(bytes) == text {
        base64_round_trip(bytes);
    } else if base64_bytes(text) is Some {
        let found = choose|b: Seq<u8>| base64_text(b) == text;
        assert(base64_text(found) == text);
    }
}

/// A base64 text has four symbols for every three bytes, begun ones counted.
pub proof fn base64_len_is_exact(bytes: Seq<u8>)
    ensures
        base64_text(bytes).len() == base64_len(bytes.len()),
        base64_text(bytes).len() % 4 == 0,
        3 * base64_text(bytes).len() >= 4 * bytes.len(),
        3 * base64_text(bytes).len() <= 4 * (bytes.len() + 2),
    decreases bytes.len(),
{
    if bytes.len() > 2 {
        base64_len_is_exact(bytes.skip(3));
    }
}

/// Decoding hexadecimal text gives the whole of what it writes and nothing else.
pub proof fn hex_bytes_are_all(text: Seq<char>, bytes: Seq<u8>)
    ensures
        hex_bytes(text) == Some(bytes) <==> is_hex_of(text, bytes),
{
    if is_hex_of(text, bytes) {
        hex_is_unambiguous(text, bytes, choose|b: Seq<u8>| is_hex_of(text, b));
    } else if hex_bytes(text) is Some {
        let found = choose|b: Seq<u8>| is_hex_of(text, b);
        assert(is_hex_of(text, found));
    }
}

} // verus!
