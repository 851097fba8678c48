//! White space, comments and identifiers.

use crate::errors::ParseError;
use crate::text::{chars_of, has_tag, same_chars, tag_at, text_of};
use vstd::prelude::*;

verus! {

/// Whether a character has the Unicode property `Alphabetic`.
pub uninterp spec fn is_alphabetic(c: char) -> bool;

/// Whether a character is alphabetic or numeric in the sense of Unicode.
pub uninterp spec fn is_alphanumeric(c: char) -> bool;

/// Whether a character has the Unicode property `White_Space`.
pub uninterp spec fn is_whitespace(c: char) -> bool;

/// `char::is_alphabetic`: the answer depends on the character alone.
#[verifier::external_body]
fn char_is_alphabetic(c: char) -> (r: bool)
    ensures
        r == is_alphabetic(c),
{
    c.is_alphabetic()
}

/// `char::is_alphanumeric`: the answer depends on the character alone.
#[verifier::external_body]
fn char_is_alphanumeric(c: char) -> (r: bool)
    ensures
        r == is_alphanumeric(c),
{
    c.is_alphanumeric()
}

/// `char::is_whitespace`: the answer depends on the character alone.
#[verifier::external_body]
fn char_is_whitespace(c: char) -> (r: bool)
    ensures
        r == is_whitespace(c),
{
    c.is_whitespace()
}

/// Whether a character may begin an identifier.
pub open spec fn is_head(c: char) -> bool {
    is_alphabetic(c) || c == '_' || c == '#' || c == '@'
}

/// Whether a character may continue an identifier.
pub open spec fn is_tail(c: char) -> bool {
    is_alphanumeric(c) || is_head(c)
}

/// The end of the run of characters that satisfy `keep`, from `pos` on.
pub open spec fn run_end(s: Seq<char>, pos: int, keep: spec_fn(char) -> bool) -> int
    decreases s.len() - pos,
{
    if 0 <= pos < s.len() && keep(s[pos]) {
        run_end(s, pos + 1, keep)
    } else {
        pos
    }
}

/// The position after the white space that begins at `pos`.
pub open spec fn spaces_end(s: Seq<char>, pos: int) -> int {
    run_end(s, pos, |c: char| is_whitespace(c))
}

/// The position after the comment that begins at `pos`, if one does: two
/// slashes, the rest of the line, and the white space that follows.
pub open spec fn comment_end(s: Seq<char>, pos: int) -> Option<int> {
    if tag_at(s, pos, seq!['/', '/']) {
        Some(spaces_end(s, run_end(s, pos + 2, |c: char| c != '\n' && c != '\r')))
    } else {
        None
    }
}

/// The position after the comments that begin at `pos`, each with the white
/// space that follows it.
pub open spec fn comments_end(s: Seq<char>, pos: int) -> int
    decreases s.len() - pos,
{
    match comment_end(s, pos) {
        Some(p) => if pos < p <= s.len() {
            comments_end(s, p)
        } else {
            pos
        },
        None => pos,
    }
}

/// The position after the white space and comments that begin at `pos`.
pub open spec fn blank_end(s: Seq<char>, pos: int) -> int {
    comments_end(s, spaces_end(s, pos))
}

/// The words that the language keeps for itself.
pub open spec fn is_reserved(name: Seq<char>) -> bool {
    ||| name == seq!['l', 'e', 't']
    ||| name == seq!['f', 'n']
    ||| name == seq!['u', 's', 'e']
    ||| name == seq!['s', 't', 'r', 'u', 'c', 't']
    ||| name == seq!['e', 'n', 'u', 'm']
    ||| name == seq!['t', 'y', 'p', 'e']
    ||| name == seq!['a', 's']
    ||| name == seq!['t', 'r', 'u', 'e']
    ||| name == seq!['f', 'a', 'l', 's', 'e']
    ||| name == seq!['N', 'o', 'n', 'e']
    ||| name == seq!['S', 'o', 'm', 'e']
    ||| name == seq!['n', 'o', 't']
    ||| name == seq!['a', 'n', 'd']
    ||| name == seq!['o', 'r']
    ||| name == seq!['x', 'o', 'r']
}

/// The word at `pos`, if one begins there: a head character and the
/// longest run of tail characters after it.
pub open spec fn word_at(s: Seq<char>, pos: int) -> Option<(Seq<char>, int)> {
    if 0 <= pos < s.len() && is_head(s[pos]) {
        let end = run_end(s, pos + 1, |c: char| is_tail(c));
        Some((s.subrange(pos, end), end))
    } else {
        None
    }
}

/// The identifier at `pos`, if one begins there: a word that the language
/// does not keep for itself.
pub open spec fn identifier_at(s: Seq<char>, pos: int) -> Option<(Seq<char>, int)> {
    match word_at(s, pos) {
        Some((name, end)) => if is_reserved(name) {
            None
        } else {
            Some((name, end))
        },
        None => None,
    }
}

/// The name at `pos` of something that is applied, if one begins there: an
/// identifier, or the word `Some`.
pub open spec fn callee_at(s: Seq<char>, pos: int) -> Option<(Seq<char>, int)> {
    match word_at(s, pos) {
        Some((name, end)) => if is_reserved(name) && name != seq!['S', 'o', 'm', 'e'] {
            None
        } else {
            Some((name, end))
        },
        None => None,
    }
}

/// The position after an optional comma at `pos` and the white space and
/// comments behind it.
pub open spec fn comma_end(s: Seq<char>, pos: int) -> int {
    if 0 <= pos < s.len() && s[pos] == ',' {
        blank_end(s, pos + 1)
    } else {
        pos
    }
}

/// The model of a parsed text with the position after it.
pub open spec fn parsed_text(r: Option<(String, usize)>) -> Option<(Seq<char>, int)> {
    match r {
        Some((name, end)) => Some((name@, end as int)),
        None => None,
    }
}

/// Skips the white space that begins at `pos`.
#[verifier::loop_isolation(false)]
pub(crate) fn skip_spaces(input: &Vec<char>, pos: usize) -> (end: usize)
    requires
        pos <= input.len(),
    ensures
        end == spaces_end(input@, pos as int),
        pos <= end <= input.len(),
{
    let mut i: usize = pos;
    while i < input.len() && char_is_whitespace(input[i])
        invariant
            pos <= i <= input.len(),
            spaces_end(input@, pos as int) == spaces_end(input@, i as int),
        decreases input.len() - i,
    {
        i += 1;
    }
    i
}

/// Skips the characters up to the end of the line.
#[verifier::loop_isolation(false)]
fn skip_line(input: &Vec<char>, pos: usize) -> (end: usize)
    requires
        pos <= input.len(),
    ensures
        end == run_end(input@, pos as int, |c: char| c != '\n' && c != '\r'),
        pos <= end <= input.len(),
{
    let ghost keep = |c: char| c != '\n' && c != '\r';
    let mut i: usize = pos;
    while i < input.len() && input[i] != '\n' && input[i] != '\r'
        invariant
            pos <= i <= input.len(),
            run_end(input@, pos as int, keep) == run_end(input@, i as int, keep),
        decreases input.len() - i,
    {
        i += 1;
    }
    i
}

/// Skips the comment that begins at `pos`, if one does.
pub(crate) fn skip_comment(input: &Vec<char>, pos: usize) -> (r: Option<usize>)
    requires
        pos <= input.len(),
    ensures
        comment_end(input@, pos as int) == match r {
            Some(end) => Some(end as int),
            None => None,
        },
        r matches Some(end) ==> pos + 2 <= end <= input.len(),
{
    let slashes = ['/', '/'];
    assert(slashes@ =~= seq!['/', '/']);
    if has_tag(input, pos, &slashes) {
        let line = skip_line(input, pos + 2);
        Some(skip_spaces(input, line))
    } else {
        None
    }
}

/// Skips the white space and comments that begin at `pos`.
#[verifier::loop_isolation(false)]
pub(crate) fn skip_blank(input: &Vec<char>, pos: usize) -> (end: usize)
    requires
        pos <= input.len(),
    ensures
        end == blank_end(input@, pos as int),
        pos <= end <= input.len(),
{
    let mut i: usize = skip_spaces(input, pos);
    loop
        invariant
            pos <= i <= input.len(),
            blank_end(input@, pos as int) == comments_end(input@, i as int),
        decreases input.len() - i,
    {
        match skip_comment(input, i) {
            Some(next) => {
                i = next;
            },
            None => {
                return i;
            },
        }
    }
}

/// Tells whether a word is one that the language keeps for itself.
pub fn reserved(name: &Vec<char>) -> (r: bool)
    ensures
        r == is_reserved(name@),
{
    let w_let = ['l', 'e', 't'];
    let w_fn = ['f', 'n'];
    let w_use = ['u', 's', 'e'];
    let w_struct = ['s', 't', 'r', 'u', 'c', 't'];
    let w_enum = ['e', 'n', 'u', 'm'];
    let w_type = ['t', 'y', 'p', 'e'];
    let w_as = ['a', 's'];
    let w_true = ['t', 'r', 'u', 'e'];
    let w_false = ['f', 'a', 'l', 's', 'e'];
    let w_none = ['N', 'o', 'n', 'e'];
    let w_some = ['S', 'o', 'm', 'e'];
    let w_not = ['n', 'o', 't'];
    let w_and = ['a', 'n', 'd'];
    let w_or = ['o', 'r'];
    let w_xor = ['x', 'o', 'r'];
    assert(w_let@ =~= seq!['l', 'e', 't']);
    assert(w_fn@ =~= seq!['f', 'n']);
    assert(w_use@ =~= seq!['u', 's', 'e']);
    assert(w_struct@ =~= seq!['s', 't', 'r', 'u', 'c', 't']);
    assert(w_enum@ =~= seq!['e', 'n', 'u', 'm']);
    assert(w_type@ =~= seq!['t', 'y', 'p', 'e']);
    assert(w_as@ =~= seq!['a', 's']);
    assert(w_true@ =~= seq!['t', 'r', 'u', 'e']);
    assert(w_false@ =~= seq!['f', 'a', 'l', 's', 'e']);
    assert(w_none@ =~= seq!['N', 'o', 'n', 'e']);
    assert(w_some@ =~= seq!['S', 'o', 'm', 'e']);
    assert(w_not@ =~= seq!['n', 'o', 't']);
    assert(w_and@ =~= seq!['a', 'n', 'd']);
    assert(w_or@ =~= seq!['o', 'r']);
    assert(w_xor@ =~= seq!['x', 'o', 'r']);
    same_chars(name, &w_let) || same_chars(name, &w_fn) || same_chars(name, &w_use)
        || same_chars(name, &w_struct) || same_chars(name, &w_enum) || same_chars(name, &w_type)
        || same_chars(name, &w_as) || same_chars(name, &w_true) || same_chars(name, &w_false)
        || same_chars(name, &w_none) || same_chars(name, &w_some) || same_chars(name, &w_not)
        || same_chars(name, &w_and) || same_chars(name, &w_or) || same_chars(name, &w_xor)
}

/// Tells whether a character is white space.
pub fn whitespace(c: char) -> (r: bool)
    ensures
        r == is_whitespace(c),
{
    char_is_whitespace(c)
}

/// Tells whether a character may begin an identifier.
fn head(c: char) -> (r: bool)
    ensures
        r == is_head(c),
{
    char_is_alphabetic(c) || c == '_' || c == '#' || c == '@'
}

/// Tells whether a character may continue an identifier.
fn tail(c: char) -> (r: bool)
    ensures
        r == is_tail(c),
{
    char_is_alphanumeric(c) || head(c)
}

/// Reads the word at `pos`, if one begins there, as its end position.
#[verifier::loop_isolation(false)]
pub(crate) fn read_word(input: &Vec<char>, pos: usize) -> (r: Option<usize>)
    requires
        pos <= input.len(),
    ensures
        match r {
            Some(end) => word_at(input@, pos as int) == Some(
                (input@.subrange(pos as int, end as int), end as int),
            ) && pos < end <= input.len(),
            None => word_at(input@, pos as int) is None,
        },
{
    if pos < input.len() && head(input[pos]) {
        let ghost keep = |c: char| is_tail(c);
        let mut i: usize = pos + 1;
        while i < input.len() && tail(input[i])
            invariant
                pos < i <= input.len(),
                run_end(input@, pos + 1, keep) == run_end(input@, i as int, keep),
            decreases input.len() - i,
        {
            i += 1;
        }
        Some(i)
    } else {
        None
    }
}

/// Reads the identifier at `pos`, if one begins there.
pub(crate) fn read_identifier(input: &Vec<char>, pos: usize) -> (r: Option<(String, usize)>)
    requires
        pos <= input.len(),
    ensures
        parsed_text(r) == identifier_at(input@, pos as int),
        r matches Some((_, end)) ==> pos < end <= input.len(),
{
    match read_word(input, pos) {
        Some(end) => {
            let name = text_of(input, pos, end);
            let chars = chars_of(name.as_str());
            if reserved(&chars) {
                None
            } else {
                Some((name, end))
            }
        },
        None => None,
    }
}

/// Reads the name at `pos` of something that is applied.
pub(crate) fn read_callee(input: &Vec<char>, pos: usize) -> (r: Option<(String, usize)>)
    requires
        pos <= input.len(),
    ensures
        parsed_text(r) == callee_at(input@, pos as int),
        r matches Some((_, end)) ==> pos < end <= input.len(),
{
    match read_word(input, pos) {
        Some(end) => {
            let name = text_of(input, pos, end);
            let chars = chars_of(name.as_str());
            let w_some = ['S', 'o', 'm', 'e'];
            assert(w_some@ =~= seq!['S', 'o', 'm', 'e']);
            if reserved(&chars) && !same_chars(&chars, &w_some) {
                None
            } else {
                Some((name, end))
            }
        },
        None => None,
    }
}

/// Skips an optional comma at `pos` and the white space and comments behind it.
pub(crate) fn skip_comma(input: &Vec<char>, pos: usize) -> (end: usize)
    requires
        pos <= input.len(),
    ensures
        end == comma_end(input@, pos as int),
        pos <= end <= input.len(),
{
    if pos < input.len() && input[pos] == ',' {
        skip_blank(input, pos + 1)
    } else {
        pos
    }
}

/// What a parser makes of a whole text: the value with the text left
/// over, or the text itself where the parser does not accept it.
pub open spec fn outcome<T>(input: Seq<char>, parsed: Option<(T, int)>) -> Result<
    (Seq<char>, T),
    Seq<char>,
> {
    match parsed {
        Some((value, end)) => Ok((input.skip(end), value)),
        None => Err(input),
    }
}

/// The white space that begins a text, after the text that follows it.
pub fn spaces(input: &str) -> (r: Result<(String, String), ParseError>)
    ensures
        r matches Ok((rest, blank)) && blank@ == input@.take(spaces_end(input@, 0)) && rest@
            == input@.skip(spaces_end(input@, 0)),
{
    let chars = chars_of(input);
    let end = skip_spaces(&chars, 0);
    let blank = text_of(&chars, 0, end);
    let rest = text_of(&chars, end, chars.len());
    assert(chars@.subrange(0, end as int) =~= input@.take(end as int));
    assert(chars@.subrange(end as int, chars.len() as int) =~= input@.skip(end as int));
    Ok((rest, blank))
}

/// Skips the white space and the comments that begin a text.
pub fn commentable_spaces(input: &str) -> (r: Result<(String, ()), ParseError>)
    ensures
        r matches Ok((rest, _)) && rest@ == input@.skip(blank_end(input@, 0)),
{
    let chars = chars_of(input);
    let end = skip_blank(&chars, 0);
    let rest = text_of(&chars, end, chars.len());
    assert(chars@.subrange(end as int, chars.len() as int) =~= input@.skip(end as int));
    Ok((rest, ()))
}

/// Reads the identifier that begins a text.
pub fn identifier(input: &str) -> (r: Result<(String, String), ParseError>)
    ensures
        match r {
            Ok((rest, name)) => outcome(input@, identifier_at(input@, 0)) == Ok::<
                (Seq<char>, Seq<char>),
                Seq<char>,
            >((rest@, name@)),
            Err(e) => outcome(input@, identifier_at(input@, 0)) == Err::<
                (Seq<char>, Seq<char>),
                Seq<char>,
            >(e.rest@),
        },
{
    let chars = chars_of(input);
    match read_identifier(&chars, 0) {
        Some((name, end)) => {
            let rest = text_of(&chars, end, chars.len());
            assert(chars@.subrange(end as int, chars.len() as int) =~= input@.skip(end as int));
            Ok((rest, name))
        },
        None => {
            let rest = text_of(&chars, 0, chars.len());
            assert(chars@.subrange(0, chars.len() as int) =~= input@);
            Err(ParseError { rest })
        },
    }
}

} // verus!
