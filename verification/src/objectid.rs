//! Object ids: twelve bytes in hexadecimal, of which the first four say when the object was made.
use crate::text::decimal;
use crate::timestamp::{from_unix_timestamp, Timestamp};
use vstd::prelude::*;
use vstd::string::*;
use vstd::utf8::*;

verus! {

/// Why a text is no hexadecimal of the length asked for.
#[derive(Clone, Copy, Debug, PartialEq, Eq, Structural)]
pub enum HexError {
    /// The byte at `index`, read as the character `c`, is no hexadecimal digit.
    InvalidHexCharacter { c: char, index: usize },
    /// The number of digits is odd.
    OddLength,
    /// There are not two digits for each byte.
    InvalidStringLength,
}

/// Why a text is no object id.
#[derive(Clone, Copy, Debug, PartialEq, Eq, Structural)]
pub enum ObjectIdError {
    /// The text is not 24 bytes long.
    NotAnObjectId,
    /// The text is not hexadecimal.
    Hex(HexError),
    /// The calendar cannot hold the timestamp.
    OutOfRange,
}

/// How a character is written between quotes, as `Debug` of std's `char` writes it.
pub uninterp spec fn quoted_char(c: char) -> Seq<char>;

impl HexError {
    /// The error in words.
    pub open spec fn text(self) -> Seq<char> {
        match self {
            HexError::InvalidHexCharacter { c, index } => "Invalid character "@ + quoted_char(c)
                + " at position "@ + decimal(index as int),
            HexError::OddLength => "Odd number of digits"@,
            HexError::InvalidStringLength => "Invalid string length"@,
        }
    }
}

impl ObjectIdError {
    /// The error in words.
    pub open spec fn text(self) -> Seq<char> {
        match self {
            ObjectIdError::NotAnObjectId => "not a valid objectid"@,
            ObjectIdError::Hex(e) => e.text(),
            ObjectIdError::OutOfRange => "timestamp was not in range"@,
        }
    }

    /// The error in words.
    pub fn message(&self) -> (message: String)
        ensures
            message@ == self.text(),
            *self is NotAnObjectId ==> message@ == "not a valid objectid"@,
            *self matches ObjectIdError::Hex(HexError::OddLength) ==> message@
                == "Odd number of digits"@,
            *self matches ObjectIdError::Hex(HexError::InvalidStringLength) ==> message@
                == "Invalid string length"@,
            *self matches ObjectIdError::Hex(HexError::InvalidHexCharacter { c, index }) ==> message@
                == "Invalid character "@ + quoted_char(c) + " at position "@ + decimal(
                index as int,
            ),
            *self is OutOfRange ==> message@ == "timestamp was not in range"@,
    {
        match self {
            ObjectIdError::NotAnObjectId => "not a valid objectid".to_owned(),
            ObjectIdError::Hex(e) => hex_error_message(*e),
            ObjectIdError::OutOfRange => "timestamp was not in range".to_owned(),
        }
    }
}

/// Calls `to_string` on `hex::FromHexError`, whose `Display` writes a fixed text for a wrong number
/// of digits, and for a byte that is no digit the character, quoted, and its place. How a character
/// is quoted is std's, and has only a name here.
#[verifier::external_body]
fn hex_error_message(error: HexError) -> (message: String)
    ensures
        message@ == match error {
            HexError::InvalidHexCharacter { c, index } => "Invalid character "@ + quoted_char(c)
                + " at position "@ + decimal(index as int),
            HexError::OddLength => "Odd number of digits"@,
            HexError::InvalidStringLength => "Invalid string length"@,
        },
{
    match error {
        HexError::InvalidHexCharacter { c, index } => {
            hex::FromHexError::InvalidHexCharacter { c, index }.to_string()
        },
        HexError::OddLength => hex::FromHexError::OddLength.to_string(),
        HexError::InvalidStringLength => hex::FromHexError::InvalidStringLength.to_string(),
    }
}

/// Whether a byte is a hexadecimal digit, in either case.
pub open spec fn is_hex_digit(b: u8) -> bool {
    48 <= b <= 57 || 65 <= b <= 70 || 97 <= b <= 102
}

/// The value of a hexadecimal digit.
pub open spec fn hex_digit_value(b: u8) -> int {
    if b <= 57 {
        b - 48
    } else if b <= 70 {
        b - 55
    } else {
        b - 87
    }
}

/// The byte that two hexadecimal digits denote.
pub open spec fn hex_pair(high: u8, low: u8) -> int {
    hex_digit_value(high) * 16 + hex_digit_value(low)
}

/// Whether `index` is the place of the first byte of `digits` that is no hexadecimal digit.
pub open spec fn first_bad_digit(digits: Seq<u8>, index: int) -> bool {
    &&& 0 <= index < digits.len()
    &&& !is_hex_digit(digits[index])
    &&& forall|j: int| 0 <= j < index ==> is_hex_digit(#[trigger] digits[j])
}

/// Whether every byte is a hexadecimal digit.
pub open spec fn all_hex(digits: Seq<u8>) -> bool {
    forall|j: int| 0 <= j < digits.len() ==> is_hex_digit(#[trigger] digits[j])
}

/// Whether a text is an object id: 24 hexadecimal digits, in either case.
pub open spec fn is_objectid(text: Seq<char>) -> bool {
    &&& text.len() == 24
    &&& forall|i: int|
        0 <= i < text.len() ==> ('0' <= #[trigger] text[i] <= '9' || 'A' <= text[i] <= 'F' || 'a'
            <= text[i] <= 'f')
}

/// The byte of two characters that are hexadecimal digits.
pub open spec fn char_pair(high: char, low: char) -> int {
    hex_pair(high as u8, low as u8)
}

/// The seconds since the Unix epoch that an object id starts with: its first eight digits, the
/// highest first.
pub open spec fn objectid_seconds(text: Seq<char>) -> int {
    char_pair(text[0], text[1]) * 0x100_0000 + char_pair(text[2], text[3]) * 0x1_0000 + char_pair(
        text[4],
        text[5],
    ) * 0x100 + char_pair(text[6], text[7])
}

/// Calls `hex::decode_to_slice` of `hex` with room for twelve bytes. It fails on an odd number of
/// digits, on a number of digits other than two for each byte, and on the first byte that is no
/// hexadecimal digit, in that order; otherwise each byte of the result is that of its two digits.
#[verifier::external_body]
fn decode_hex(text: &str) -> (decoded: Result<[u8; 12], HexError>)
    ensures
        match decoded {
            Ok(bytes) => {
                &&& text.spec_bytes().len() == 24
                &&& all_hex(text.spec_bytes())
                &&& forall|i: int|
                    0 <= i < 12 ==> #[trigger] bytes@[i] == hex_pair(
                        text.spec_bytes()[2 * i],
                        text.spec_bytes()[2 * i + 1],
                    )
            },
            Err(HexError::OddLength) => text.spec_bytes().len() % 2 != 0,
            Err(HexError::InvalidStringLength) => text.spec_bytes().len() % 2 == 0
                && text.spec_bytes().len() != 24,
            Err(HexError::InvalidHexCharacter { c, index }) => {
                &&& text.spec_bytes().len() == 24
                &&& first_bad_digit(text.spec_bytes(), index as int)
                &&& c == text.spec_bytes()[index as int] as char
            },
        },
{
    let mut bytes = [0u8; 12];
    match hex::decode_to_slice(text, &mut bytes) {
        Ok(()) => Ok(bytes),
        Err(hex::FromHexError::OddLength) => Err(HexError::OddLength),
        Err(hex::FromHexError::InvalidStringLength) => Err(HexError::InvalidStringLength),
        Err(hex::FromHexError::InvalidHexCharacter { c, index }) => Err(
            HexError::InvalidHexCharacter { c, index },
        ),
    }
}

/// The time at which an object was made, out of its id.
///
/// An id that is not 24 bytes long is refused first; then the first byte that is no hexadecimal
/// digit is reported. Every other id has a timestamp: the whole second, in UTC, that its first
/// eight digits denote.
pub fn objectid_to_timestamp(id: &str) -> (made: Result<Timestamp, ObjectIdError>)
    ensures
        made is Ok <==> is_objectid(id@),
        made == Err::<Timestamp, ObjectIdError>(ObjectIdError::NotAnObjectId)
            <==> id.spec_bytes().len() != 24,
        made matches Ok(t) ==> {
            let digit = |i: int| hex_digit_value(id@[i] as u8);
            t.unix_seconds == ((((((digit(0) * 16 + digit(1)) * 16 + digit(2)) * 16 + digit(3)) * 16
                + digit(4)) * 16 + digit(5)) * 16 + digit(6)) * 16 + digit(7)
        },
        match made {
            Ok(t) => {
                &&& t.unix_seconds == objectid_seconds(id@)
                &&& t.nanosecond == 0
                &&& t.offset_seconds == 0
            },
            Err(ObjectIdError::NotAnObjectId) => id.spec_bytes().len() != 24,
            Err(ObjectIdError::Hex(HexError::InvalidHexCharacter { c, index })) => {
                &&& id.spec_bytes().len() == 24
                &&& first_bad_digit(id.spec_bytes(), index as int)
                &&& c == id.spec_bytes()[index as int] as char
            },
            Err(_) => false,
        },
{
    proof {
        lemma_objectid_bytes(id@);
    }
    if id.as_bytes().len() != 24 {
        return Err(ObjectIdError::NotAnObjectId);
    }
    let data = match decode_hex(id) {
        Ok(data) => data,
        Err(e) => {
            return Err(ObjectIdError::Hex(e));
        },
    };
    let ghost digits = id.spec_bytes();
    assert(data@[0] == hex_pair(digits[0], digits[1]));
    assert(data@[1] == hex_pair(digits[2], digits[3]));
    assert(data@[2] == hex_pair(digits[4], digits[5]));
    assert(data@[3] == hex_pair(digits[6], digits[7]));
    let unix_timestamp: u32 = data[0] as u32 * 0x100_0000 + data[1] as u32 * 0x1_0000 + data[2] as u32
        * 0x100 + data[3] as u32;
    match from_unix_timestamp(unix_timestamp as i64) {
        Ok(t) => Ok(t),
        Err(_) => Err(ObjectIdError::OutOfRange),
    }
}

/// A text of which every byte is below 128 holds only ASCII characters.
proof fn lemma_ascii_bytes(text: Seq<char>)
    requires
        forall|i: int| 0 <= i < encode_utf8(text).len() ==> #[trigger] encode_utf8(text)[i] < 128,
    ensures
        is_ascii_chars(text),
    decreases text.len(),
{
    if text.len() > 0 {
        let c = text[0] as u32;
        char_is_scalar(text[0]);
        char_u32_cast(text[0], c);
        let bytes = encode_utf8(text);
        let first = encode_scalar(c);
        let rest = encode_utf8(text.drop_first());
        assert(bytes[0] == first[0]);
        assert(leading_byte_width_2(c) >= 128) by (bit_vector);
        assert(leading_byte_width_3(c) >= 128) by (bit_vector);
        assert(leading_byte_width_4(c) >= 128) by (bit_vector);
        assert(has_width_1_encoding(c));
        assert forall|i: int| 0 <= i < rest.len() implies #[trigger] rest[i] < 128 by {
            assert(rest[i] == bytes[first.len() + i]);
        }
        lemma_ascii_bytes(text.drop_first());
        assert forall|i: int| 0 <= i < text.len() implies '\0' <= #[trigger] text[i] <= '\u{7f}' by {
            if i > 0 {
                assert(text[i] == text.drop_first()[i - 1]);
            } else {
                assert(text[0] as int == c as int);
            }
        }
    }
}

/// A text is an object id exactly where it is 24 bytes long and each byte is a hexadecimal digit;
/// the bytes are then its characters.
proof fn lemma_objectid_bytes(text: Seq<char>)
    ensures
        is_objectid(text) <==> encode_utf8(text).len() == 24 && all_hex(encode_utf8(text)),
        is_objectid(text) ==> forall|i: int|
            0 <= i < 24 ==> #[trigger] encode_utf8(text)[i] == text[i] as u8,
{
    let bytes = encode_utf8(text);
    if is_objectid(text) {
        assert(is_ascii_chars(text));
        is_ascii_chars_encode_utf8(text);
        assert forall|i: int| 0 <= i < bytes.len() implies is_hex_digit(#[trigger] bytes[i]) by {
            assert(text[i] as u8 == bytes[i]);
        }
    }
    if bytes.len() == 24 && all_hex(bytes) {
        lemma_ascii_bytes(text);
        is_ascii_chars_encode_utf8(text);
        assert forall|i: int| 0 <= i < text.len() implies ('0' <= #[trigger] text[i] <= '9' || 'A'
            <= text[i] <= 'F' || 'a' <= text[i] <= 'f') by {
            assert(is_hex_digit(bytes[i]));
        }
    }
}

/// Only the first eight digits of an id say when the object was made, and their case does not
/// matter.
pub proof fn law_objectid_prefix_decides(a: Seq<char>, b: Seq<char>)
    requires
        is_objectid(a),
        is_objectid(b),
        forall|i: int|
            0 <= i < 8 ==> hex_digit_value(#[trigger] a[i] as u8) == hex_digit_value(b[i] as u8),
    ensures
        objectid_seconds(a) == objectid_seconds(b),
{
    assert(forall|i: int| 0 <= i < 8 ==> hex_digit_value(a[i] as u8) == hex_digit_value(b[i] as u8));
}

/// An id whose leading digits agree with another's up to a place, and fall below it there, is of
/// an earlier second: ids sort by the time at which their objects were made.
pub proof fn law_objectids_sort_by_time(a: Seq<char>, b: Seq<char>, at: int)
    requires
        is_objectid(a),
        is_objectid(b),
        0 <= at < 8,
        forall|i: int|
            0 <= i < at ==> hex_digit_value(#[trigger] a[i] as u8) == hex_digit_value(b[i] as u8),
        hex_digit_value(a[at] as u8) < hex_digit_value(b[at] as u8),
    ensures
        objectid_seconds(a) < objectid_seconds(b),
{
    assert(forall|i: int| 0 <= i < 8 ==> 0 <= hex_digit_value(#[trigger] a[i] as u8) < 16);
    assert(forall|i: int| 0 <= i < 8 ==> 0 <= hex_digit_value(#[trigger] b[i] as u8) < 16);
}

/// The second of every object id is one that a timestamp can hold.
pub proof fn law_objectid_seconds_fit(text: Seq<char>)
    requires
        is_objectid(text),
    ensures
        0 <= objectid_seconds(text) <= u32::MAX,
{
    assert(forall|i: int| 0 <= i < 8 ==> 0 <= hex_digit_value(#[trigger] text[i] as u8) < 16);
}

/// The hexadecimal digits are the ten decimal ones and six letters in either case, and count from 0
/// to 15.
pub proof fn law_hex_digits_count_to_fifteen(b: u8)
    ensures
        is_hex_digit(b) <==> (48 <= b < 58 || 65 <= b < 71 || 97 <= b < 103),
        48 <= b < 58 ==> hex_digit_value(b) == b - 48,
        65 <= b < 71 ==> hex_digit_value(b) == b - 65 + 10,
        97 <= b < 103 ==> hex_digit_value(b) == b - 97 + 10,
{
}

/// The first eight digits of an id are its seconds in hexadecimal, the highest digit first.
pub proof fn law_objectid_starts_with_its_seconds(text: Seq<char>)
    requires
        is_objectid(text),
    ensures
        ({
            let digit = |i: int| hex_digit_value(text[i] as u8);
            objectid_seconds(text) == ((((((digit(0) * 16 + digit(1)) * 16 + digit(2)) * 16 + digit(
                3,
            )) * 16 + digit(4)) * 16 + digit(5)) * 16 + digit(6)) * 16 + digit(7)
        }),
{
}

/// An id is 24 characters, each of them a hexadecimal digit, and any such text is one.
pub proof fn law_objectid_is_twenty_four_digits(text: Seq<char>)
    ensures
        is_objectid(text) <==> text.len() == 24 && forall|i: int|
            0 <= i < text.len() ==> {
                let n = #[trigger] text[i] as int;
                48 <= n < 58 || 65 <= n < 71 || 97 <= n < 103
            },
{
}

/// Bytes are hexadecimal digits throughout, or else there is one first byte that is none.
pub proof fn law_one_bad_digit_comes_first(digits: Seq<u8>)
    ensures
        all_hex(digits) <==> !exists|i: int| first_bad_digit(digits, i),
        forall|i: int, j: int|
            first_bad_digit(digits, i) && first_bad_digit(digits, j) ==> i == j,
    decreases digits.len(),
{
    if digits.len() > 0 {
        let earlier = digits.drop_last();
        law_one_bad_digit_comes_first(earlier);
        if all_hex(earlier) {
            assert forall|j: int| 0 <= j < earlier.len() implies is_hex_digit(#[trigger] digits[j]) by {
                assert(is_hex_digit(earlier[j]));
            }
            if !is_hex_digit(digits.last()) {
                assert(first_bad_digit(digits, digits.len() - 1));
            }
        } else {
            let i = choose|i: int| first_bad_digit(earlier, i);
            assert forall|j: int| 0 <= j < i implies is_hex_digit(#[trigger] digits[j]) by {
                assert(is_hex_digit(earlier[j]));
            }
            assert(first_bad_digit(digits, i));
        }
    }
}

} // verus!
