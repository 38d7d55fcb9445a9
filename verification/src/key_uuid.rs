//! The UUIDs that DSM knows its keys by.
use crate::codec;
use vstd::prelude::*;

verus! {

/// The lower-case hexadecimal digit of value `v`.
pub open spec fn hex_digit(v: int) -> char {
    if v < 10 {
        ('0' as int + v) as char
    } else {
        ('a' as int + (v - 10)) as char
    }
}

/// The thirty-two lower-case digits of a UUID.
pub open spec fn uuid_digits(bytes: Seq<u8>) -> Seq<char> {
    Seq::new(32, |k: int| hex_digit(codec::nibble(bytes, k)))
}

/// The hyphenated form: groups of eight, four, four, four and twelve digits.
pub open spec fn hyphenated(bytes: Seq<u8>) -> Seq<char> {
    let d = uuid_digits(bytes);
    d.subrange(0, 8) + seq!['-'] + d.subrange(8, 12) + seq!['-'] + d.subrange(12, 16) + seq!['-']
        + d.subrange(16, 20) + seq!['-'] + d.subrange(20, 32)
}

/// Whether `text` writes a UUID with thirty-two digits and nothing else.
pub open spec fn spells_simple(text: Seq<char>, bytes: Seq<u8>) -> bool {
    bytes.len() == 16 && codec::is_hex_of(text, bytes)
}

/// Whether `text` writes a UUID in five groups of digits parted by hyphens.
pub open spec fn spells_hyphenated(text: Seq<char>, bytes: Seq<u8>) -> bool {
    &&& text.len() == 36
    &&& text[8] == '-' && text[13] == '-' && text[18] == '-' && text[23] == '-'
    &&& spells_simple(
        text.subrange(0, 8) + text.subrange(9, 13) + text.subrange(14, 18) + text.subrange(19, 23)
            + text.subrange(24, 36),
        bytes,
    )
}

/// `c` with an upper-case ASCII letter made lower-case.
pub open spec fn ascii_lower(c: char) -> char {
    if 'A' <= c <= 'Z' {
        (c as int + 32) as char
    } else {
        c
    }
}

/// Whether `text` writes the UUID `bytes` in one of the accepted forms: simple, hyphenated,
/// hyphenated in braces, or hyphenated behind `urn:uuid:`. Digits and prefix may have either case.
pub open spec fn spells_uuid(text: Seq<char>, bytes: Seq<u8>) -> bool {
    ||| spells_simple(text, bytes)
    ||| spells_hyphenated(text, bytes)
    ||| {
        &&& text.len() == 38
        &&& text[0] == '{' && text[37] == '}'
        &&& spells_hyphenated(text.subrange(1, 37), bytes)
    }
    ||| {
        &&& text.len() == 45
        &&& text.subrange(0, 9).map_values(|c: char| ascii_lower(c)) == "urn:uuid:"@
        &&& spells_hyphenated(text.subrange(9, 45), bytes)
    }
}

/// The UUID that `text` writes, if it writes one.
pub open spec fn uuid_bytes(text: Seq<char>) -> Option<Seq<u8>> {
    if exists|bytes: Seq<u8>| spells_uuid(text, bytes) {
        Some(choose|bytes: Seq<u8>| spells_uuid(text, bytes))
    } else {
        None
    }
}

/// How the UUID parser words its complaint about `text`.
pub uninterp spec fn uuid_complaint(text: Seq<char>) -> Seq<char>;

/// A text writes one UUID only.
pub proof fn uuid_is_unambiguous(text: Seq<char>, x: Seq<u8>, y: Seq<u8>)
    requires
        spells_uuid(text, x),
        spells_uuid(text, y),
    ensures
        x == y,
{
    if text.len() == 32 {
        codec::hex_is_unambiguous(text, x, y);
    } else {
        let core = if text.len() == 36 {
            text
        } else if text.len() == 38 {
            text.subrange(1, 37)
        } else {
            text.subrange(9, 45)
        };
        let digits = core.subrange(0, 8) + core.subrange(9, 13) + core.subrange(14, 18)
            + core.subrange(19, 23) + core.subrange(24, 36);
        codec::hex_is_unambiguous(digits, x, y);
    }
}

/// A hyphenated UUID has thirty-six characters, all of them lower-case digits or hyphens.
pub proof fn hyphenated_is_plain(bytes: Seq<u8>)
    requires
        bytes.len() == 16,
    ensures
        hyphenated(bytes).len() == 36,
        forall|i: int|
            0 <= i < 36 ==> {
                let c = #[trigger] hyphenated(bytes)[i];
                '0' <= c <= '9' || 'a' <= c <= 'f' || c == '-'
            },
{
}

/// The hyphenated form reads back as the UUID it was written from.
pub proof fn hyphenated_reads_back(bytes: Seq<u8>)
    requires
        bytes.len() == 16,
    ensures
        uuid_bytes(hyphenated(bytes)) == Some(bytes),
{
    let text = hyphenated(bytes);
    let digits = text.subrange(0, 8) + text.subrange(9, 13) + text.subrange(14, 18)
        + text.subrange(19, 23) + text.subrange(24, 36);
    assert(digits =~= uuid_digits(bytes));
    assert forall|k: int| 0 <= k < 32 implies codec::hex_value(#[trigger] digits[k]) == Some(
        codec::nibble(bytes, k),
    ) by {
        assert(0 <= codec::nibble(bytes, k) < 16);
    }
    assert(spells_hyphenated(text, bytes));
    assert(spells_uuid(text, bytes));
    uuid_is_unambiguous(text, bytes, choose|b: Seq<u8>| spells_uuid(text, b));
}

/// Whether `bytes` are marked as a random UUID: version 4 of the standard variant.
pub open spec fn is_version_4(bytes: Seq<u8>) -> bool {
    &&& bytes.len() == 16
    &&& bytes[6] as int / 16 == 4
    &&& bytes[8] as int / 64 == 2
}

/// A UUID, as DSM hands it out for a key.
#[derive(Clone, Copy, Debug, PartialEq, Eq)]
pub struct KeyUuid {
    /// The sixteen bytes, most significant first.
    pub bytes: [u8; 16],
}

impl View for KeyUuid {
    type V = Seq<u8>;

    open spec fn view(&self) -> Seq<u8> {
        self.bytes@
    }
}

/// Parses `text` with `uuid::Uuid::parse_str`, which accepts the simple, hyphenated, braced and
/// URN forms. The error is the `Display` text of its `Error`.
#[verifier::external_body]
fn parse_str(text: &str) -> (bytes: Result<[u8; 16], String>)
    ensures
        match bytes {
            Ok(b) => spells_uuid(text@, b@),
            Err(e) => (forall|b: Seq<u8>| !spells_uuid(text@, b)) && e@ == uuid_complaint(text@),
        },
{
    uuid::Uuid::parse_str(text).map(|u| u.into_bytes()).map_err(|e| e.to_string())
}

/// Writes a UUID with the `Display` of `uuid::Uuid`: lower-case and hyphenated.
#[verifier::external_body]
fn write_hyphenated(bytes: [u8; 16]) -> (text: String)
    ensures
        text@ == hyphenated(bytes@),
{
    uuid::Uuid::from_bytes(bytes).to_string()
}

/// Draws a random UUID with `uuid::Uuid::new_v4`. Only the bits that mark version and variant
/// are known of it.
#[verifier::external_body]
fn new_v4() -> (bytes: [u8; 16])
    ensures
        is_version_4(bytes@),
{
    uuid::Uuid::new_v4().into_bytes()
}

impl KeyUuid {
    /// Parses a UUID in any of the accepted forms.
    pub fn parse(text: &str) -> (uuid: Result<KeyUuid, String>)
        ensures
            match uuid {
                Ok(u) => uuid_bytes(text@) == Some(u@),
                Err(e) => uuid_bytes(text@) is None && e@ == uuid_complaint(text@),
            },
    {
        match parse_str(text) {
            Ok(bytes) => {
                proof {
                    assert(spells_uuid(text@, bytes@));
                    uuid_is_unambiguous(
                        text@,
                        bytes@,
                        choose|b: Seq<u8>| spells_uuid(text@, b),
                    );
                }
                Ok(KeyUuid { bytes })
            }
            Err(e) => Err(e),
        }
    }

    /// A random UUID of version 4.
    pub fn random() -> (uuid: KeyUuid)
        ensures
            is_version_4(uuid@),
    {
        KeyUuid { bytes: new_v4() }
    }

    /// The hyphenated, lower-case form.
    pub fn to_text(&self) -> (text: String)
        ensures
            text@ == hyphenated(self@),
    {
        write_hyphenated(self.bytes)
    }
}

/// Reading a UUID gives the one that the text writes and no other.
pub proof fn uuid_bytes_are_all(text: Seq<char>, bytes: Seq<u8>)
    ensures
        uuid_bytes(text) == Some(bytes) <==> spells_uuid(text, bytes),
{
    if spells_uuid(text, bytes) {
        uuid_is_unambiguous(text, bytes, choose|b: Seq<u8>| spells_uuid(text, b));
    } else if uuid_bytes(text) is Some {
        let found = choose|b: Seq<u8>| spells_uuid(text, b);
        assert(spells_uuid(text, found));
    }
}

} // verus!
