use unicode_normalization::UnicodeNormalization;
use vstd::prelude::*;
use vstd::utf8::*;

verus! {

/// The lower-case form of a text, as `str::to_lowercase` computes it.
pub uninterp spec fn lowercase(text: Seq<char>) -> Seq<char>;

/// The Unicode Normalization Form KC of a text, as `unicode_normalization` computes it.
pub uninterp spec fn nfkc(text: Seq<char>) -> Seq<char>;

/// A text with its letters `A` to `Z` made `a` to `z`.
pub open spec fn ascii_lowercase(text: Seq<char>) -> Seq<char> {
    text.map_values(
        |c: char|
            if 'A' <= c <= 'Z' {
                (c as int + 32) as char
            } else {
                c
            },
    )
}

/// Calls `str::to_lowercase` of std. The contract gives the result the name `lowercase`, and says
/// that in an ASCII text the letters `A` to `Z` become `a` to `z` and nothing else changes; it says
/// nothing more of the Unicode case mapping.
#[verifier::external_body]
fn to_lowercase(text: &str) -> (lowered: String)
    ensures
        lowered@ == lowercase(text@),
        is_ascii_chars(text@) ==> lowered@ == ascii_lowercase(text@),
{
    text.to_lowercase()
}

/// Calls `UnicodeNormalization::nfkc` of `unicode_normalization` and collects the characters that
/// it yields. The contract gives the result the name `nfkc`, and says that it is in that form: to
/// normalize it once more, which is how `is_nfkc` of that crate tells whether a text is in the
/// form, leaves it as it is. An ASCII text is in the form already. Nothing more is said of the
/// normalization tables.
#[verifier::external_body]
fn to_nfkc(text: &str) -> (normalized: String)
    ensures
        normalized@ == nfkc(text@),
        nfkc(normalized@) == normalized@,
        is_ascii_chars(text@) ==> normalized@ == text@,
{
    text.nfkc().to_string()
}

/// The canonical spelling of a location: lower case first, then normalization form KC.
pub open spec fn location_text(text: Seq<char>) -> Seq<char> {
    nfkc(lowercase(text))
}

/// The canonical spelling of a location. It is in normalization form KC. That of an ASCII text is
/// the text in lower case, as long as it was; so that of nothing is nothing.
pub fn normalize_location(s: &str) -> (location: String)
    ensures
        location@ == location_text(s@),
        location@ == nfkc(lowercase(s@)),
        nfkc(location@) == location@,
        is_ascii_chars(s@) ==> location@ == ascii_lowercase(s@) && location@.len() == s@.len(),
        s@.len() == 0 ==> location@.len() == 0,
{
    let lowered = to_lowercase(s);
    proof {
        if is_ascii_chars(s@) {
            lemma_ascii_lowercase(s@);
        }
    }
    to_nfkc(lowered.as_str())
}

/// An ASCII text is one in lower case as well.
proof fn lemma_ascii_lowercase(text: Seq<char>)
    requires
        is_ascii_chars(text),
    ensures
        is_ascii_chars(ascii_lowercase(text)),
{
    assert forall|i: int| 0 <= i < text.len() implies '\0' <= #[trigger] ascii_lowercase(text)[i]
        <= '\u{7f}' by {
        assert('\0' <= text[i] <= '\u{7f}');
    }
}

/// Two spellings whose lower-case forms have the same form KC are spellings of one location.
pub proof fn law_equivalent_spellings_share_a_location(a: Seq<char>, b: Seq<char>)
    requires
        nfkc(lowercase(a)) == nfkc(lowercase(b)),
    ensures
        location_text(a) == location_text(b),
{
}

} // verus!
