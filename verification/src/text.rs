//! Texts as sequences of characters, and the decimal notation of integers.

use vstd::prelude::*;

verus! {

/// Appends one character to a string (`String::push`): the text grows by
/// exactly that character at its end.
#[verifier::external_body]
pub(crate) fn push_char(s: &mut String, c: char)
    ensures
        final(s)@ == old(s)@.push(c),
{
    s.push(c)
}

/// The characters of a text, in order.
pub fn chars_of(s: &str) -> (r: Vec<char>)
    ensures
        r@ == s@,
{
    let mut out: Vec<char> = Vec::new();
    for c in it: s.chars()
        invariant
            out@ == it.seq().take(it.index() as int),
            it.seq() == s@,
    {
        out.push(c);
        assert(it.seq().take(it.index() + 1) =~= it.seq().take(it.index() as int).push(c));
    }
    out
}

/// The text made of the characters of `chars` from `from` up to `to`.
#[verifier::loop_isolation(false)]
pub(crate) fn text_of(chars: &Vec<char>, from: usize, to: usize) -> (r: String)
    requires
        from <= to <= chars.len(),
    ensures
        r@ == chars@.subrange(from as int, to as int),
{
    let mut out = String::new();
    let mut i: usize = from;
    while i < to
        invariant
            from <= i <= to,
            out@ == chars@.subrange(from as int, i as int),
        decreases to - i,
    {
        push_char(&mut out, chars[i]);
        assert(chars@.subrange(from as int, i + 1) =~= chars@.subrange(from as int, i as int).push(
            chars@[i as int],
        ));
        i += 1;
    }
    out
}

/// Whether a character is one of the ten decimal digits.
pub open spec fn is_digit(c: char) -> bool {
    '0' <= c <= '9'
}

/// The number that a decimal digit stands for.
pub open spec fn digit_value(c: char) -> nat {
    (c as int - '0' as int) as nat
}

/// The decimal digit that stands for a number below ten.
pub open spec fn digit_char(d: nat) -> char {
    ((d + '0' as nat) as u8) as char
}

/// The number that a sequence of decimal digits denotes; the empty one denotes zero.
pub open spec fn decimal_value(s: Seq<char>) -> nat
    decreases s.len(),
{
    if s.len() == 0 {
        0
    } else {
        decimal_value(s.drop_last()) * 10 + digit_value(s.last())
    }
}

/// The decimal digits of a number, without leading zeros; zero is `0`.
pub open spec fn nat_digits(n: nat) -> Seq<char>
    decreases n,
{
    if n < 10 {
        seq![digit_char(n)]
    } else {
        nat_digits(n / 10).push(digit_char(n % 10))
    }
}

/// The decimal text of an integer: its digits, after a `-` where it is negative.
pub open spec fn int_digits(n: int) -> Seq<char> {
    if n < 0 {
        seq!['-'] + nat_digits((-n) as nat)
    } else {
        nat_digits(n as nat)
    }
}

/// Whether every character of a sequence is a decimal digit.
pub open spec fn all_digits(s: Seq<char>) -> bool {
    forall|i: int| 0 <= i < s.len() ==> is_digit(#[trigger] s[i])
}

/// The digits of a number are digits, and denote it.
pub proof fn lemma_nat_digits(n: nat)
    ensures
        nat_digits(n).len() > 0,
        all_digits(nat_digits(n)),
        decimal_value(nat_digits(n)) == n,
    decreases n,
{
    if n < 10 {
        let s = nat_digits(n);
        assert(s.drop_last() =~= Seq::<char>::empty());
        assert(decimal_value(s.drop_last()) == 0);
    } else {
        lemma_nat_digits(n / 10);
        let s = nat_digits(n);
        assert(s.drop_last() =~= nat_digits(n / 10));
        assert(s.last() == digit_char(n % 10));
    }
}

/// A number is at least the number that a prefix of its digits denotes.
pub proof fn lemma_decimal_prefix(s: Seq<char>, k: int)
    requires
        0 <= k <= s.len(),
    ensures
        decimal_value(s.take(k)) <= decimal_value(s),
    decreases s.len() - k,
{
    if k < s.len() {
        lemma_decimal_prefix(s, k + 1);
        assert(s.take(k + 1).drop_last() =~= s.take(k));
        assert(decimal_value(s.take(k + 1)) >= decimal_value(s.take(k))) by (nonlinear_arith)
            requires
                decimal_value(s.take(k + 1)) == decimal_value(s.take(k)) * 10 + digit_value(
                    s.take(k + 1).last(),
                ),
        ;
    } else {
        assert(s.take(k) =~= s);
    }
}

/// The number that a sequence of decimal digits denotes, where it is made
/// of digits only and the number fits 128 bits.
pub open spec fn decimal_of_model(s: Seq<char>) -> Option<nat> {
    if all_digits(s) && decimal_value(s) <= u128::MAX {
        Some(decimal_value(s))
    } else {
        None
    }
}

/// Reads a sequence of decimal digits as an unsigned integer.
#[verifier::loop_isolation(false)]
pub fn decimal_of(digits: &Vec<char>) -> (r: Option<u128>)
    ensures
        decimal_of_model(digits@) == match r {
            Some(n) => Some(n as nat),
            None => None,
        },
{
    let mut acc: u128 = 0;
    let mut i: usize = 0;
    assert(digits@.take(0) =~= Seq::<char>::empty());
    while i < digits.len()
        invariant
            i <= digits.len(),
            forall|k: int| 0 <= k < i ==> is_digit(#[trigger] digits@[k]),
            acc == decimal_value(digits@.take(i as int)),
        decreases digits.len() - i,
    {
        let c = digits[i];
        if !('0' <= c && c <= '9') {
            return None;
        }
        let d: u128 = (c as u32 - '0' as u32) as u128;
        proof {
            assert(digits@.take(i + 1).drop_last() =~= digits@.take(i as int));
            assert(digits@.take(i + 1).last() == c);
            assert(d == digit_value(c));
            lemma_decimal_prefix(digits@, i + 1);
        }
        let tenfold = match acc.checked_mul(10) {
            Some(x) => x,
            None => {
                return None;
            },
        };
        acc = match tenfold.checked_add(d) {
            Some(x) => x,
            None => {
                return None;
            },
        };
        i += 1;
    }
    assert(digits@.take(i as int) =~= digits@);
    Some(acc)
}

/// The unsigned integer that a text denotes: decimal digits, at least one,
/// after an optional `+`.
pub open spec fn nat_of_text(s: Seq<char>) -> Option<nat> {
    let body = if s.len() > 0 && s[0] == '+' {
        s.skip(1)
    } else {
        s
    };
    if body.len() > 0 {
        decimal_of_model(body)
    } else {
        None
    }
}

/// The signed integer that a text denotes: decimal digits, at least one,
/// after an optional `+` or `-`.
pub open spec fn int_of_text(s: Seq<char>) -> Option<int> {
    let negative = s.len() > 0 && s[0] == '-';
    let body = if s.len() > 0 && (s[0] == '+' || s[0] == '-') {
        s.skip(1)
    } else {
        s
    };
    if body.len() > 0 && all_digits(body) {
        let n = if negative {
            -(decimal_value(body) as int)
        } else {
            decimal_value(body) as int
        };
        if i128::MIN <= n <= i128::MAX {
            Some(n)
        } else {
            None
        }
    } else {
        None
    }
}

/// The characters of `chars` from `from` on.
#[verifier::loop_isolation(false)]
pub(crate) fn chars_from(chars: &Vec<char>, from: usize) -> (r: Vec<char>)
    requires
        from <= chars.len(),
    ensures
        r@ == chars@.skip(from as int),
{
    let mut out: Vec<char> = Vec::new();
    let mut i: usize = from;
    while i < chars.len()
        invariant
            from <= i <= chars.len(),
            out@ == chars@.subrange(from as int, i as int),
        decreases chars.len() - i,
    {
        out.push(chars[i]);
        assert(chars@.subrange(from as int, i + 1) =~= chars@.subrange(from as int, i as int).push(
            chars@[i as int],
        ));
        i += 1;
    }
    assert(chars@.subrange(from as int, chars.len() as int) =~= chars@.skip(from as int));
    out
}

/// Reads a text as an unsigned integer.
pub fn parse_nat_text(s: &str) -> (r: Option<u128>)
    ensures
        nat_of_text(s@) == match r {
            Some(n) => Some(n as nat),
            None => None,
        },
{
    let chars = chars_of(s);
    let start: usize = if chars.len() > 0 && chars[0] == '+' {
        1
    } else {
        0
    };
    let body = chars_from(&chars, start);
    if body.len() == 0 {
        return None;
    }
    assert(chars@.skip(0) =~= chars@);
    decimal_of(&body)
}

/// Reads a text as a signed integer.
pub fn parse_int_text(s: &str) -> (r: Option<i128>)
    ensures
        int_of_text(s@) == match r {
            Some(n) => Some(n as int),
            None => None,
        },
{
    let chars = chars_of(s);
    let negative = chars.len() > 0 && chars[0] == '-';
    let start: usize = if chars.len() > 0 && (chars[0] == '+' || chars[0] == '-') {
        1
    } else {
        0
    };
    let body = chars_from(&chars, start);
    assert(chars@.skip(0) =~= chars@);
    if body.len() == 0 {
        return None;
    }
    match decimal_of(&body) {
        Some(n) => {
            if negative {
                if n <= 0x7fff_ffff_ffff_ffff_ffff_ffff_ffff_ffffu128 {
                    Some(-(n as i128))
                } else if n == 0x8000_0000_0000_0000_0000_0000_0000_0000u128 {
                    Some(i128::MIN)
                } else {
                    None
                }
            } else {
                if n <= 0x7fff_ffff_ffff_ffff_ffff_ffff_ffff_ffffu128 {
                    Some(n as i128)
                } else {
                    None
                }
            }
        },
        None => None,
    }
}

/// Whether `tag` stands in `input` at position `pos`.
pub open spec fn tag_at(input: Seq<char>, pos: int, tag: Seq<char>) -> bool {
    0 <= pos && pos + tag.len() <= input.len() && input.subrange(pos, pos + tag.len()) == tag
}

/// Tells whether `tag` stands in `input` at position `pos`.
#[verifier::loop_isolation(false)]
pub fn has_tag(input: &Vec<char>, pos: usize, tag: &[char]) -> (r: bool)
    ensures
        r == tag_at(input@, pos as int, tag@),
{
    if pos > input.len() || tag.len() > input.len() - pos {
        return false;
    }
    let mut i: usize = 0;
    while i < tag.len()
        invariant
            i <= tag.len(),
            pos + tag.len() <= input.len(),
            forall|k: int| 0 <= k < i ==> input@[pos + k] == tag@[k],
        decreases tag.len() - i,
    {
        if input[pos + i] != tag[i] {
            assert(input@.subrange(pos as int, pos + tag.len())[i as int] != tag@[i as int]);
            return false;
        }
        i += 1;
    }
    assert(input@.subrange(pos as int, pos + tag.len()) =~= tag@);
    true
}

/// Whether the character `c` stands in `input` at position `pos`.
pub open spec fn char_at(input: Seq<char>, pos: int, c: char) -> bool {
    0 <= pos < input.len() && input[pos] == c
}

/// Tells whether the character `c` stands in `input` at position `pos`.
pub fn has_char(input: &Vec<char>, pos: usize, c: char) -> (r: bool)
    ensures
        r == char_at(input@, pos as int, c),
{
    pos < input.len() && input[pos] == c
}

/// Tells whether two character sequences are the same.
pub fn same_chars(a: &Vec<char>, b: &[char]) -> (r: bool)
    ensures
        r == (a@ == b@),
{
    if a.len() != b.len() {
        return false;
    }
    let r = has_tag(a, 0, b);
    assert(a@.subrange(0, a.len() as int) =~= a@);
    r
}

/// The word `true`.
pub open spec fn word_true() -> Seq<char> {
    seq!['t', 'r', 'u', 'e']
}

/// The word `false`.
pub open spec fn word_false() -> Seq<char> {
    seq!['f', 'a', 'l', 's', 'e']
}

/// The decimal text of an unsigned integer.
pub fn nat_text(n: u128) -> (r: String)
    ensures
        r@ == nat_digits(n as nat),
{
    let mut rev: Vec<char> = Vec::new();
    let mut m: u128 = n;
    let ghost mut tail: Seq<char> = Seq::empty();
    loop
        invariant_except_break
            nat_digits(n as nat) == if rev.len() == 0 {
                nat_digits(m as nat)
            } else {
                nat_digits(m as nat) + tail
            },
            rev.len() > 0 ==> m > 0,
        invariant
            rev.len() == tail.len(),
            forall|k: int| 0 <= k < rev.len() ==> rev[k] == tail[tail.len() - 1 - k],
        ensures
            nat_digits(n as nat) == tail,
            rev.len() == tail.len(),
            forall|k: int| 0 <= k < rev.len() ==> rev[k] == tail[tail.len() - 1 - k],
        decreases m + (if rev.len() == 0 { 1nat } else { 0nat }),
    {
        let d: u8 = (m % 10) as u8;
        let c: char = (d + 48u8) as char;
        assert(c == digit_char((m % 10) as nat));
        proof {
            let first = rev.len() == 0;
            let old_tail = tail;
            tail = seq![c] + tail;
            if m >= 10 {
                assert(nat_digits(m as nat) == nat_digits((m / 10) as nat).push(c));
                assert(nat_digits((m / 10) as nat).push(c) + old_tail =~= nat_digits(
                    (m / 10) as nat,
                ) + tail);
                assert(nat_digits((m / 10) as nat).push(c) =~= nat_digits((m / 10) as nat) + seq![c]);
            } else {
                assert(nat_digits(m as nat) == seq![c]);
                assert(seq![c] + old_tail =~= tail);
            }
        }
        rev.push(c);
        m = m / 10;
        if m == 0 {
            break;
        }
    }
    let mut out = String::new();
    let mut i: usize = rev.len();
    while i > 0
        invariant
            i <= rev.len(),
            rev.len() == tail.len(),
            forall|k: int| 0 <= k < rev.len() ==> rev[k] == tail[tail.len() - 1 - k],
            out@ == tail.take(rev.len() - i),
        decreases i,
    {
        i -= 1;
        push_char(&mut out, rev[i]);
        assert(tail.take(rev.len() - i) =~= tail.take(rev.len() - i - 1).push(rev[i as int]));
    }
    assert(tail.take(rev.len() as int) =~= tail);
    out
}

/// The decimal text of a signed integer.
pub fn int_text(n: i128) -> (r: String)
    ensures
        r@ == int_digits(n as int),
{
    if n < 0 {
        let magnitude: u128 = if n == i128::MIN {
            0x8000_0000_0000_0000_0000_0000_0000_0000u128
        } else {
            (-n) as u128
        };
        let digits = nat_text(magnitude);
        let mut out = String::new();
        push_char(&mut out, '-');
        out.append(digits.as_str());
        assert(out@ =~= seq!['-'] + nat_digits((-n) as nat));
        out
    } else {
        nat_text(n as u128)
    }
}

} // verus!
