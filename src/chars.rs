use vstd::prelude::*;

verus! {

/// What `char::is_alphanumeric` answers for a character.
pub uninterp spec fn is_alnum(c: char) -> bool;

/// What `char::is_whitespace` answers for a character.
pub uninterp spec fn is_ws(c: char) -> bool;

pub open spec fn is_ascii_alnum(c: char) -> bool {
    ('a' <= c && c <= 'z') || ('A' <= c && c <= 'Z') || ('0' <= c && c <= '9')
}

/// Hangul syllables (U+AC00..U+D7A3) and the CJK unified ideographs
/// (U+3400..U+4DBF, U+4E00..U+9FFF).
pub open spec fn is_cjk(c: char) -> bool {
    ('\u{AC00}' <= c && c <= '\u{D7A3}') || ('\u{3400}' <= c && c <= '\u{4DBF}') || ('\u{4E00}' <= c
        && c <= '\u{9FFF}')
}

/// The ASCII punctuation characters.
pub open spec fn is_ascii_punct(c: char) -> bool {
    ('!' <= c && c <= '/') || (':' <= c && c <= '@') || ('[' <= c && c <= '`') || ('{' <= c && c <= '~')
}

/// The ASCII whitespace characters: tab, line feed, vertical tab, form feed,
/// carriage return and space.
pub open spec fn is_ascii_ws(c: char) -> bool {
    ('\t' <= c && c <= '\r') || c == ' '
}

/// Relies on `char::is_alphanumeric` (Unicode Alphabetic or Numeric): ASCII
/// letters and digits, Hangul syllables and CJK ideographs (letters, Lo) are
/// alphanumeric; ASCII punctuation and whitespace characters are not.
#[verifier::external_body]
pub(crate) fn alphanumeric(c: char) -> (r: bool)
    ensures
        r == is_alnum(c),
        is_ascii_alnum(c) ==> r,
        is_cjk(c) ==> r,
        is_ascii_punct(c) ==> !r,
        r ==> !is_ws(c),
{
    c.is_alphanumeric()
}

/// Relies on `char::is_whitespace` (Unicode White_Space): among ASCII
/// characters exactly tab through carriage return and the space; no
/// alphanumeric character is whitespace.
#[verifier::external_body]
pub(crate) fn whitespace(c: char) -> (r: bool)
    ensures
        r == is_ws(c),
        c <= '\u{7f}' ==> (r <==> is_ascii_ws(c)),
        r ==> !is_alnum(c),
{
    c.is_whitespace()
}

/// The class code of a character: 0 for word characters (alphanumeric or
/// `_`), 1 for whitespace, 2 for everything else.
pub open spec fn class_code(c: char) -> u8 {
    if is_alnum(c) || c == '_' {
        0
    } else if is_ws(c) {
        1
    } else {
        2
    }
}

/// Classifies a character for word motions; characters of one class form a
/// single word.
pub fn char_class(ch: &char) -> (r: u8)
    ensures
        r == class_code(*ch),
        r <= 2,
        (is_ascii_alnum(*ch) || is_cjk(*ch) || *ch == '_') ==> r == 0,
        is_ascii_ws(*ch) ==> r == 1,
        is_ascii_punct(*ch) && *ch != '_' ==> r == 2,
{
    let alnum = alphanumeric(*ch);
    let ws = whitespace(*ch);
    if alnum || *ch == '_' {
        0
    } else if ws {
        1
    } else {
        2
    }
}

/// Every alphanumeric character, whatever its script, is a word character.
pub proof fn lemma_alnum_is_word(c: char)
    requires
        is_alnum(c),
    ensures
        class_code(c) == 0,
{
}

} // verus!

verus! {

/// What `char::is_uppercase` answers for a character.
pub uninterp spec fn is_upper(c: char) -> bool;

/// The first character of `char::to_lowercase` of a character.
pub uninterp spec fn lower_of(c: char) -> char;

/// The first character of `char::to_uppercase` of a character.
pub uninterp spec fn upper_of(c: char) -> char;

/// Relies on `char::is_uppercase` (Unicode Uppercase property).
#[verifier::external_body]
pub(crate) fn uppercase(c: char) -> (r: bool)
    ensures
        r == is_upper(c),
{
    c.is_uppercase()
}

/// Relies on `char::to_lowercase`: the first character of the mapping, or the
/// character itself when the mapping is empty.
#[verifier::external_body]
pub(crate) fn to_lower(c: char) -> (r: char)
    ensures
        r == lower_of(c),
{
    c.to_lowercase().next().unwrap_or(c)
}

/// Relies on `char::to_uppercase`: the first character of the mapping, or the
/// character itself when the mapping is empty.
#[verifier::external_body]
pub(crate) fn to_upper(c: char) -> (r: char)
    ensures
        r == upper_of(c),
{
    c.to_uppercase().next().unwrap_or(c)
}

/// How a character's case is changed.
#[derive(Clone, Copy, Debug, PartialEq, Eq, Structural)]
pub enum CaseChange {
    Toggle,
    Lower,
    Upper,
}

pub open spec fn change_case(k: CaseChange, c: char) -> char {
    match k {
        CaseChange::Toggle => if is_upper(c) {
            lower_of(c)
        } else {
            upper_of(c)
        },
        CaseChange::Lower => lower_of(c),
        CaseChange::Upper => upper_of(c),
    }
}

/// Changes the case of one character.
pub fn apply_case(k: CaseChange, c: char) -> (r: char)
    ensures
        r == change_case(k, c),
{
    match k {
        CaseChange::Toggle => if uppercase(c) {
            to_lower(c)
        } else {
            to_upper(c)
        },
        CaseChange::Lower => to_lower(c),
        CaseChange::Upper => to_upper(c),
    }
}

} // verus!
