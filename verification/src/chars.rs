//! Character classes that the service's text handling depends on: white
//! space (`char::is_whitespace`), numbers (`char::is_numeric`) and word
//! characters (`\w`, `regex_syntax::is_word_character`).

use vstd::prelude::*;

verus! {

/// Whether `c` has the Unicode `White_Space` property, which decides
/// `char::is_whitespace`: tab, line feed, vertical tab, form feed, carriage
/// return, space, U+0085, U+00A0, U+1680, U+2000 to U+200A, U+2028, U+2029,
/// U+202F, U+205F and U+3000 (the property's entries in the Unicode
/// Character Database, `PropList.txt`).
pub open spec fn char_whitespace(c: char) -> bool {
    ||| ('\u{9}' <= c <= '\u{d}')
    ||| c == ' '
    ||| c == '\u{85}'
    ||| c == '\u{a0}'
    ||| c == '\u{1680}'
    ||| ('\u{2000}' <= c <= '\u{200a}')
    ||| c == '\u{2028}'
    ||| c == '\u{2029}'
    ||| c == '\u{202f}'
    ||| c == '\u{205f}'
    ||| c == '\u{3000}'
}

/// Whether a character above U+007F is in one of the Unicode number
/// categories (Nd, Nl, No), as decided by `char::is_numeric`.
pub uninterp spec fn non_ascii_numeric(c: char) -> bool;

/// Whether `c` is in one of the Unicode number categories (Nd, Nl, No),
/// which decide `char::is_numeric`: among ASCII characters only the digits
/// `0` to `9` are, above them the characters that std accepts.
pub open spec fn char_numeric(c: char) -> bool {
    if c <= '\u{7f}' {
        '0' <= c <= '9'
    } else {
        non_ascii_numeric(c)
    }
}

/// Whether a character above U+007F is a Unicode word character, as decided
/// by `regex_syntax::is_word_character`.
pub uninterp spec fn non_ascii_word_char(c: char) -> bool;

/// Whether an ASCII character is a word character: a letter, a digit or `_`.
pub open spec fn ascii_word_char(c: char) -> bool {
    ('0' <= c <= '9') || ('a' <= c <= 'z') || ('A' <= c <= 'Z') || c == '_'
}

/// Whether `c` is a Unicode word character (the class `\w` of a regular
/// expression): among ASCII characters the letters, digits and `_`, above
/// them the characters that `regex_syntax::is_word_character` accepts.
pub open spec fn word_char(c: char) -> bool {
    if c <= '\u{7f}' {
        ascii_word_char(c)
    } else {
        non_ascii_word_char(c)
    }
}

/// Whether `c` is white space (`char::is_whitespace`): the members of the
/// Unicode `White_Space` property, listed one by one.
pub fn is_whitespace(c: char) -> (r: bool)
    ensures
        r == char_whitespace(c),
{
    ('\u{9}' <= c && c <= '\u{d}') || c == ' ' || c == '\u{85}' || c == '\u{a0}' || c == '\u{1680}'
        || ('\u{2000}' <= c && c <= '\u{200a}') || c == '\u{2028}' || c == '\u{2029}'
        || c == '\u{202f}' || c == '\u{205f}' || c == '\u{3000}'
}

/// Calls `char::is_numeric`, which the std documentation defines by the
/// Unicode general categories Nd, Nl and No. The ASCII members of those are
/// the digits, which the contract states; above ASCII it claims only that
/// the answer is a function of `c` alone.
#[verifier::external_body]
pub(crate) fn is_numeric(c: char) -> (r: bool)
    ensures
        r == (if c <= '\u{7f}' {
            '0' <= c <= '9'
        } else {
            non_ascii_numeric(c)
        }),
{
    c.is_numeric()
}

/// Calls `regex_syntax::is_word_character`, the class that `\w` matches in
/// the `regex` crate. For ASCII the source answers from `is_word_byte`
/// (`_`, digits, letters), which the contract states; above ASCII it searches
/// the Unicode word table, of which the contract claims only that the answer
/// is a function of `c` alone. (The call would panic without the crate's
/// `unicode-perl` feature, which the default features switch on.)
#[verifier::external_body]
pub(crate) fn is_word_character(c: char) -> (r: bool)
    ensures
        r == (if c <= '\u{7f}' {
            ascii_word_char(c)
        } else {
            non_ascii_word_char(c)
        }),
{
    regex_syntax::is_word_character(c)
}

} // verus!
