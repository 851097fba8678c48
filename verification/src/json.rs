//! JSON values: the projection of values to them, and their compact text.

use crate::errors::{EvalError, EvalErrorModel};
use crate::host::{answer_to, Answer, AnswerModel, Host, Request, RequestModel};
use crate::parser::value::{field_views, value_views, Value, ValueModel};
use crate::text::{chars_of, int_digits, int_text, nat_digits, nat_text, push_char};
use vstd::prelude::*;

verus! {

/// A JSON value. A floating-point number is held as its text.
#[derive(Debug, PartialEq)]
pub enum JSON {
    Nat(u128),
    Int(i128),
    Float(String),
    Bool(bool),
    Str(String),
    Array(Vec<JSON>),
    Dict(Vec<(String, JSON)>),
    Null,
}

/// The mathematical value of a [`JSON`].
pub enum JsonModel {
    Nat(nat),
    Int(int),
    Float(Seq<char>),
    Bool(bool),
    Str(Seq<char>),
    Array(Seq<JsonModel>),
    Dict(Seq<(Seq<char>, JsonModel)>),
    Null,
}

impl JSON {
    /// The mathematical value of this JSON value.
    pub open spec fn model(&self) -> JsonModel
        decreases self,
    {
        match self {
            JSON::Nat(n) => JsonModel::Nat(*n as nat),
            JSON::Int(n) => JsonModel::Int(*n as int),
            JSON::Float(s) => JsonModel::Float(s@),
            JSON::Bool(b) => JsonModel::Bool(*b),
            JSON::Str(s) => JsonModel::Str(s@),
            JSON::Array(xs) => JsonModel::Array(json_views(xs@)),
            JSON::Dict(fs) => JsonModel::Dict(member_views(fs@)),
            JSON::Null => JsonModel::Null,
        }
    }
}

/// The models of a sequence of JSON values, position by position.
pub open spec fn json_views(xs: Seq<JSON>) -> Seq<JsonModel>
    decreases xs,
{
    Seq::new(xs.len(), |i: int| if 0 <= i < xs.len() { xs[i].model() } else { JsonModel::Null })
}

/// The models of the members of an object, position by position.
pub open spec fn member_views(xs: Seq<(String, JSON)>) -> Seq<(Seq<char>, JsonModel)>
    decreases xs,
{
    Seq::new(
        xs.len(),
        |i: int|
            if 0 <= i < xs.len() {
                (xs[i].0@, xs[i].1.model())
            } else {
                (Seq::empty(), JsonModel::Null)
            },
    )
}

impl View for JSON {
    type V = JsonModel;

    open spec fn view(&self) -> JsonModel {
        self.model()
    }
}

/// The model of the outcome of a projection.
pub open spec fn json_result_view(r: Result<JSON, EvalError>) -> Result<JsonModel, EvalErrorModel> {
    match r {
        Ok(j) => Ok(j@),
        Err(e) => Err(e@),
    }
}

/// The JSON value of a value. Numbers, truth values and texts stay what
/// they are; the text of a floating-point number comes from the host. A
/// dict is an object with its fields in order, an enum variant the text
/// of its name, an array or a tuple an array. An option is its value or
/// `null`, a wrapped value its value. A reference to the environment
/// that was not resolved is a `NameError`.
pub open spec fn project_model(v: ValueModel, host: Seq<(RequestModel, AnswerModel)>) -> Result<
    JsonModel,
    EvalErrorModel,
>
    decreases v, 0nat,
{
    match v {
        ValueModel::Nat(n) => Ok(JsonModel::Nat(n)),
        ValueModel::Int(n) => Ok(JsonModel::Int(n)),
        ValueModel::Float(x) => match answer_to(host, RequestModel::FloatText(x)) {
            Some(AnswerModel::Text(s)) => Ok(JsonModel::Float(s)),
            _ => Err(EvalErrorModel::Pending(RequestModel::FloatText(x))),
        },
        ValueModel::Bool(b) => Ok(JsonModel::Bool(b)),
        ValueModel::Str(s) => Ok(JsonModel::Str(s)),
        ValueModel::Env(_, _) => Err(EvalErrorModel::NameError),
        ValueModel::Dict(_, fields) => match project_members(fields, host, 0) {
            Ok(members) => Ok(JsonModel::Dict(members)),
            Err(e) => Err(e),
        },
        ValueModel::EnumVariant(_, variant) => Ok(JsonModel::Str(variant)),
        ValueModel::Array(_, xs) => match project_items(xs, host, 0) {
            Ok(items) => Ok(JsonModel::Array(items)),
            Err(e) => Err(e),
        },
        ValueModel::Tuple(xs) => match project_items(xs, host, 0) {
            Ok(items) => Ok(JsonModel::Array(items)),
            Err(e) => Err(e),
        },
        ValueModel::Optional(_, Some(x)) => project_model(*x, host),
        ValueModel::Optional(_, None) => Ok(JsonModel::Null),
        ValueModel::Wrapped(_, x) => project_model(*x, host),
    }
}

/// The JSON values of the values of `xs` from position `i` on, in order.
pub open spec fn project_items(xs: Seq<ValueModel>, host: Seq<(RequestModel, AnswerModel)>, i: int) -> Result<
    Seq<JsonModel>,
    EvalErrorModel,
>
    decreases xs, xs.len() - i,
{
    if i < 0 || i >= xs.len() {
        Ok(Seq::empty())
    } else {
        match project_model(xs[i], host) {
            Ok(j) => match project_items(xs, host, i + 1) {
                Ok(rest) => Ok(seq![j] + rest),
                Err(e) => Err(e),
            },
            Err(e) => Err(e),
        }
    }
}

/// The members of the fields of `xs` from position `i` on, in order.
pub open spec fn project_members(
    xs: Seq<(Seq<char>, ValueModel)>,
    host: Seq<(RequestModel, AnswerModel)>,
    i: int,
) -> Result<Seq<(Seq<char>, JsonModel)>, EvalErrorModel>
    decreases xs, xs.len() - i,
{
    if i < 0 || i >= xs.len() {
        Ok(Seq::empty())
    } else {
        match project_model(xs[i].1, host) {
            Ok(j) => match project_members(xs, host, i + 1) {
                Ok(rest) => Ok(seq![(xs[i].0, j)] + rest),
                Err(e) => Err(e),
            },
            Err(e) => Err(e),
        }
    }
}

/// The digit of base sixteen that stands for a number below sixteen.
pub open spec fn hex_digit(d: nat) -> char {
    if d < 10 {
        ((d + '0' as nat) as u8) as char
    } else {
        ((d - 10 + 'a' as nat) as u8) as char
    }
}

/// How a character stands in a JSON string.
pub open spec fn escaped_char(c: char) -> Seq<char> {
    if c == '"' {
        seq!['\\', '"']
    } else if c == '\\' {
        seq!['\\', '\\']
    } else if c == '\n' {
        seq!['\\', 'n']
    } else if c == '\r' {
        seq!['\\', 'r']
    } else if c == '\t' {
        seq!['\\', 't']
    } else if (c as nat) < 32 {
        seq!['\\', 'u', '0', '0', hex_digit(c as nat / 16), hex_digit(c as nat % 16)]
    } else {
        seq![c]
    }
}

/// How the characters of `s` from position `i` on stand in a JSON string.
pub open spec fn escaped_from(s: Seq<char>, i: int) -> Seq<char>
    decreases s.len() - i,
{
    if i < 0 || i >= s.len() {
        Seq::empty()
    } else {
        escaped_char(s[i]) + escaped_from(s, i + 1)
    }
}

/// A text as a JSON string: between double quotes, with the quote, the
/// backslash and the control characters escaped.
pub open spec fn quoted(s: Seq<char>) -> Seq<char> {
    seq!['"'] + escaped_from(s, 0) + seq!['"']
}

/// The number that a digit of base sixteen stands for.
pub open spec fn hex_value(c: char) -> Option<nat> {
    if '0' <= c <= '9' {
        Some((c as nat - '0' as nat) as nat)
    } else if 'a' <= c <= 'f' {
        Some((c as nat - 'a' as nat + 10) as nat)
    } else if 'A' <= c <= 'F' {
        Some((c as nat - 'A' as nat + 10) as nat)
    } else {
        None
    }
}

/// The character that the escape sequence of one letter stands for.
pub open spec fn escape_meaning(c: char) -> Option<char> {
    if c == '"' {
        Some('"')
    } else if c == '\\' {
        Some('\\')
    } else if c == '/' {
        Some('/')
    } else if c == 'b' {
        Some('\u{8}')
    } else if c == 'f' {
        Some('\u{c}')
    } else if c == 'n' {
        Some('\n')
    } else if c == 'r' {
        Some('\r')
    } else if c == 't' {
        Some('\t')
    } else {
        None
    }
}

/// The number that the four digits of base sixteen at `i` stand for.
pub open spec fn hex4_at(t: Seq<char>, i: int) -> Option<nat> {
    if 0 <= i && i + 4 <= t.len() {
        match (hex_value(t[i]), hex_value(t[i + 1]), hex_value(t[i + 2]), hex_value(t[i + 3])) {
            (Some(a), Some(b), Some(c), Some(d)) => Some(((a * 16 + b) * 16 + c) * 16 + d),
            _ => None,
        }
    } else {
        None
    }
}

/// What a reader of JSON makes of the inside of a string from position
/// `i` on: the text up to the closing quote, with the position of that
/// quote. Escape sequences with `u` are read where they stand for one
/// character below the surrogates.
pub open spec fn read_from(t: Seq<char>, i: int) -> Option<(Seq<char>, int)>
    decreases t.len() - i,
{
    if i < 0 || i >= t.len() {
        None
    } else if t[i] == '"' {
        Some((Seq::empty(), i))
    } else if t[i] == '\\' {
        if i + 1 < t.len() && t[i + 1] == 'u' {
            match hex4_at(t, i + 2) {
                Some(code) => if code < 0xd800 {
                    match read_from(t, i + 6) {
                        Some((rest, end)) => Some((seq![(code as u32) as char] + rest, end)),
                        None => None,
                    }
                } else {
                    None
                },
                None => None,
            }
        } else if i + 1 < t.len() && escape_meaning(t[i + 1]) is Some {
            match read_from(t, i + 2) {
                Some((rest, end)) => Some((seq![escape_meaning(t[i + 1])->0] + rest, end)),
                None => None,
            }
        } else {
            None
        }
    } else if (t[i] as nat) < 32 {
        None
    } else {
        match read_from(t, i + 1) {
            Some((rest, end)) => Some((seq![t[i]] + rest, end)),
            None => None,
        }
    }
}

/// What a reader of JSON makes of a string: the text between its quotes.
pub open spec fn read_back(t: Seq<char>) -> Option<Seq<char>> {
    if t.len() > 0 && t[0] == '"' {
        match read_from(t, 1) {
            Some((text, end)) => if end == t.len() - 1 {
                Some(text)
            } else {
                None
            },
            None => None,
        }
    } else {
        None
    }
}

/// The word `true`.
pub open spec fn text_true() -> Seq<char> {
    seq!['t', 'r', 'u', 'e']
}

/// The word `false`.
pub open spec fn text_false() -> Seq<char> {
    seq!['f', 'a', 'l', 's', 'e']
}

/// The word `null`.
pub open spec fn text_null() -> Seq<char> {
    seq!['n', 'u', 'l', 'l']
}

/// The compact text of a JSON value.
pub open spec fn json_text(j: JsonModel) -> Seq<char>
    decreases j, 0nat,
{
    match j {
        JsonModel::Nat(n) => nat_digits(n),
        JsonModel::Int(n) => int_digits(n),
        JsonModel::Float(s) => s,
        JsonModel::Bool(b) => if b {
            text_true()
        } else {
            text_false()
        },
        JsonModel::Str(s) => quoted(s),
        JsonModel::Array(xs) => seq!['['] + items_text(xs, 0) + seq![']'],
        JsonModel::Dict(fs) => seq!['{'] + members_text(fs, 0) + seq!['}'],
        JsonModel::Null => text_null(),
    }
}

/// The texts of the values of `xs` from position `i` on, with commas between them.
pub open spec fn items_text(xs: Seq<JsonModel>, i: int) -> Seq<char>
    decreases xs, xs.len() - i,
{
    if i < 0 || i >= xs.len() {
        Seq::empty()
    } else {
        (if i > 0 {
            seq![',']
        } else {
            Seq::empty()
        }) + json_text(xs[i]) + items_text(xs, i + 1)
    }
}

/// The texts of the members of `xs` from position `i` on, with commas between them.
pub open spec fn members_text(xs: Seq<(Seq<char>, JsonModel)>, i: int) -> Seq<char>
    decreases xs, xs.len() - i,
{
    if i < 0 || i >= xs.len() {
        Seq::empty()
    } else {
        (if i > 0 {
            seq![',']
        } else {
            Seq::empty()
        }) + quoted(xs[i].0) + seq![':'] + json_text(xs[i].1) + members_text(xs, i + 1)
    }
}

/// Appends a character of a JSON string to `out`.
fn push_escaped(out: &mut String, c: char)
    ensures
        final(out)@ == old(out)@ + escaped_char(c),
{
    let ghost before = out@;
    if c == '"' {
        push_char(out, '\\');
        push_char(out, '"');
        assert(out@ =~= before + escaped_char(c));
    } else if c == '\\' {
        push_char(out, '\\');
        push_char(out, '\\');
        assert(out@ =~= before + escaped_char(c));
    } else if c == '\n' {
        push_char(out, '\\');
        push_char(out, 'n');
        assert(out@ =~= before + escaped_char(c));
    } else if c == '\r' {
        push_char(out, '\\');
        push_char(out, 'r');
        assert(out@ =~= before + escaped_char(c));
    } else if c == '\t' {
        push_char(out, '\\');
        push_char(out, 't');
        assert(out@ =~= before + escaped_char(c));
    } else if (c as u32) < 32 {
        let code: u8 = c as u8;
        let high: u8 = code / 16;
        let low: u8 = code % 16;
        let h: char = if high < 10 {
            (high + 48u8) as char
        } else {
            (high - 10 + 97u8) as char
        };
        let l: char = if low < 10 {
            (low + 48u8) as char
        } else {
            (low - 10 + 97u8) as char
        };
        push_char(out, '\\');
        push_char(out, 'u');
        push_char(out, '0');
        push_char(out, '0');
        push_char(out, h);
        push_char(out, l);
        assert(h == hex_digit(c as nat / 16));
        assert(l == hex_digit(c as nat % 16));
        assert(out@ =~= before + escaped_char(c));
    } else {
        push_char(out, c);
        assert(out@ =~= before + escaped_char(c));
    }
}

/// Appends a text as a JSON string to `out`.
#[verifier::loop_isolation(false)]
fn push_quoted(out: &mut String, s: &String)
    ensures
        final(out)@ == old(out)@ + quoted(s@),
{
    let ghost before = out@;
    let chars = chars_of(s.as_str());
    push_char(out, '"');
    let mut i: usize = 0;
    while i < chars.len()
        invariant
            i <= chars.len(),
            out@ + escaped_from(s@, i as int) == before + seq!['"'] + escaped_from(s@, 0),
        decreases chars.len() - i,
    {
        let ghost old_out = out@;
        push_escaped(out, chars[i]);
        assert(old_out + (escaped_char(s@[i as int]) + escaped_from(s@, i + 1)) =~= old_out
            + escaped_char(s@[i as int]) + escaped_from(s@, i + 1));
        i += 1;
    }
    assert(out@ + Seq::<char>::empty() =~= out@);
    push_char(out, '"');
    assert(out@ =~= before + quoted(s@));
}

/// Appends the characters of `word` to `out`.
#[verifier::loop_isolation(false)]
fn push_word(out: &mut String, word: &[char])
    ensures
        final(out)@ == old(out)@ + word@,
{
    let ghost before = out@;
    let mut i: usize = 0;
    while i < word.len()
        invariant
            i <= word.len(),
            out@ == before + word@.take(i as int),
        decreases word.len() - i,
    {
        push_char(out, word[i]);
        assert(before + word@.take(i + 1) =~= (before + word@.take(i as int)).push(
            word@[i as int],
        ));
        i += 1;
    }
    assert(word@.take(word.len() as int) =~= word@);
}

/// Appends the texts of some values to `out`, with commas between them.
#[verifier::loop_isolation(false)]
fn write_items(xs: &Vec<JSON>, out: &mut String)
    ensures
        final(out)@ == old(out)@ + items_text(json_views(xs@), 0),
    decreases xs,
{
    let ghost before = out@;
    let ghost items = json_views(xs@);
    let mut i: usize = 0;
    while i < xs.len()
        invariant
            i <= xs.len(),
            out@ + items_text(items, i as int) == before + items_text(items, 0),
        decreases xs.len() - i,
    {
        let ghost start = out@;
        assert(items[i as int] == xs[i as int]@);
        if i > 0 {
            push_char(out, ',');
        }
        let ghost middle = out@;
        xs[i].write(out);
        proof {
            let sep = if i > 0 {
                seq![',']
            } else {
                Seq::<char>::empty()
            };
            let value = json_text(items[i as int]);
            let rest = items_text(items, i + 1);
            assert(middle =~= start + sep);
            assert(out@ == middle + value);
            assert(items_text(items, i as int) == sep + value + rest);
            assert(start + (sep + value + rest) =~= (start + sep + value) + rest);
        }
        i += 1;
    }
    assert(out@ + Seq::<char>::empty() =~= out@);
}

/// Appends the texts of some members to `out`, with commas between them.
#[verifier::loop_isolation(false)]
fn write_members(fs: &Vec<(String, JSON)>, out: &mut String)
    ensures
        final(out)@ == old(out)@ + members_text(member_views(fs@), 0),
    decreases fs,
{
    let ghost before = out@;
    let ghost members = member_views(fs@);
    let mut i: usize = 0;
    while i < fs.len()
        invariant
            i <= fs.len(),
            out@ + members_text(members, i as int) == before + members_text(members, 0),
        decreases fs.len() - i,
    {
        let ghost start = out@;
        assert(members[i as int] == (fs[i as int].0@, fs[i as int].1@));
        if i > 0 {
            push_char(out, ',');
        }
        let ghost s1 = out@;
        push_quoted(out, &fs[i].0);
        let ghost s2 = out@;
        push_char(out, ':');
        let ghost s3 = out@;
        fs[i].1.write(out);
        proof {
            let sep = if i > 0 {
                seq![',']
            } else {
                Seq::<char>::empty()
            };
            let key = quoted(members[i as int].0);
            let value = json_text(members[i as int].1);
            let rest = members_text(members, i + 1);
            assert(s1 =~= start + sep);
            assert(s2 == s1 + key);
            assert(s3 =~= s2 + seq![':']);
            assert(out@ == s3 + value);
            assert(members_text(members, i as int) == sep + key + seq![':'] + value + rest);
            assert(start + (sep + key + seq![':'] + value + rest) =~= (start + sep + key + seq![
                ':',
            ] + value) + rest);
        }
        i += 1;
    }
    assert(out@ + Seq::<char>::empty() =~= out@);
}

impl JSON {
    /// Appends the compact text of this value to `out`.
    fn write(&self, out: &mut String)
        ensures
            final(out)@ == old(out)@ + json_text(self@),
        decreases self,
    {
        let ghost before = out@;
        match self {
            JSON::Nat(n) => {
                out.append(nat_text(*n).as_str());
            },
            JSON::Int(n) => {
                out.append(int_text(*n).as_str());
            },
            JSON::Float(s) => {
                out.append(s.as_str());
            },
            JSON::Bool(b) => {
                if *b {
                    let word = ['t', 'r', 'u', 'e'];
                    assert(word@ =~= text_true());
                    push_word(out, &word);
                } else {
                    let word = ['f', 'a', 'l', 's', 'e'];
                    assert(word@ =~= text_false());
                    push_word(out, &word);
                }
            },
            JSON::Str(s) => {
                push_quoted(out, s);
            },
            JSON::Array(xs) => {
                push_char(out, '[');
                write_items(xs, out);
                push_char(out, ']');
                assert(out@ =~= before + (seq!['['] + items_text(json_views(xs@), 0) + seq![']']));
            },
            JSON::Dict(fs) => {
                push_char(out, '{');
                write_members(fs, out);
                push_char(out, '}');
                assert(out@ =~= before + (seq!['{'] + members_text(member_views(fs@), 0) + seq![
                    '}',
                ]));
            },
            JSON::Null => {
                let word = ['n', 'u', 'l', 'l'];
                assert(word@ =~= text_null());
                push_word(out, &word);
            },
        }
    }

    /// The compact text of this value.
    pub fn stringify(&self) -> (r: String)
        ensures
            r@ == json_text(self@),
    {
        let mut out = String::new();
        self.write(&mut out);
        assert(Seq::<char>::empty() + json_text(self@) =~= json_text(self@));
        out
    }

    /// The JSON value of a value.
    pub fn from_cumin(val: Value, host: &Host) -> (r: Result<JSON, EvalError>)
        ensures
            json_result_view(r) == project_model(val@, host@),
    {
        project(&val, host)
    }
}

/// The JSON value of a value.
#[verifier::loop_isolation(false)]
pub fn project(val: &Value, host: &Host) -> (r: Result<JSON, EvalError>)
    ensures
        json_result_view(r) == project_model(val@, host@),
    decreases val,
{
    match val {
        Value::Nat(n) => Ok(JSON::Nat(*n)),
        Value::Int(n) => Ok(JSON::Int(*n)),
        Value::Float(x) => {
            let request = Request::FloatText(x.clone());
            match host.answer(&request) {
                Some(Answer::Text(s)) => Ok(JSON::Float(s.clone())),
                _ => Err(EvalError::Pending(request)),
            }
        },
        Value::Bool(b) => Ok(JSON::Bool(*b)),
        Value::Str(s) => Ok(JSON::Str(s.clone())),
        Value::Env(_, _) => Err(EvalError::NameError),
        Value::Dict(_, fields) => {
            let ghost fs = field_views(fields@);
            let mut out: Vec<(String, JSON)> = Vec::new();
            let mut i: usize = 0;
            assert(member_views(out@) + project_members(fs, host@, 0)->Ok_0 =~= project_members(
                fs,
                host@,
                0,
            )->Ok_0);
            while i < fields.len()
                invariant
                    i <= fields.len(),
                    project_members(fs, host@, 0) == match project_members(fs, host@, i as int) {
                        Ok(rest) => Ok(member_views(out@) + rest),
                        Err(e) => Err(e),
                    },
                decreases fields.len() - i,
            {
                assert(fs[i as int] == (fields[i as int].0@, fields[i as int].1@));
                let ghost before = member_views(out@);
                match project(&fields[i].1, host) {
                    Ok(j) => {
                        let ghost item = (fields[i as int].0@, j@);
                        out.push((fields[i].0.clone(), j));
                        proof {
                            assert(member_views(out@) =~= before.push(item));
                            if project_members(fs, host@, i + 1) is Ok {
                                let rest = project_members(fs, host@, i + 1)->Ok_0;
                                assert(before + (seq![item] + rest) =~= before.push(item) + rest);
                            }
                        }
                    },
                    Err(e) => {
                        return Err(e);
                    },
                }
                i += 1;
            }
            assert(member_views(out@) + Seq::<(Seq<char>, JsonModel)>::empty() =~= member_views(
                out@,
            ));
            Ok(JSON::Dict(out))
        },
        Value::EnumVariant(_, variant) => Ok(JSON::Str(variant.clone())),
        Value::Array(_, xs) => {
            match project_all(xs, host) {
                Ok(items) => Ok(JSON::Array(items)),
                Err(e) => Err(e),
            }
        },
        Value::Tuple(xs) => {
            match project_all(xs, host) {
                Ok(items) => Ok(JSON::Array(items)),
                Err(e) => Err(e),
            }
        },
        Value::Optional(_, x) => {
            match &**x {
                Some(v) => project(v, host),
                None => Ok(JSON::Null),
            }
        },
        Value::Wrapped(_, x) => project(x, host),
    }
}

/// The JSON values of some values.
#[verifier::loop_isolation(false)]
fn project_all(xs: &Vec<Value>, host: &Host) -> (r: Result<Vec<JSON>, EvalError>)
    ensures
        project_items(value_views(xs@), host@, 0) == match r {
            Ok(items) => Ok::<Seq<JsonModel>, EvalErrorModel>(json_views(items@)),
            Err(e) => Err::<Seq<JsonModel>, EvalErrorModel>(e@),
        },
    decreases xs,
{
    let ghost vs = value_views(xs@);
    let mut out: Vec<JSON> = Vec::new();
    let mut i: usize = 0;
    assert(json_views(out@) + project_items(vs, host@, 0)->Ok_0 =~= project_items(
        vs,
        host@,
        0,
    )->Ok_0);
    while i < xs.len()
        invariant
            i <= xs.len(),
            project_items(vs, host@, 0) == match project_items(vs, host@, i as int) {
                Ok(rest) => Ok(json_views(out@) + rest),
                Err(e) => Err(e),
            },
        decreases xs.len() - i,
    {
        assert(vs[i as int] == xs[i as int]@);
        let ghost before = json_views(out@);
        match project(&xs[i], host) {
            Ok(j) => {
                out.push(j);
                proof {
                    assert(json_views(out@) =~= before.push(j@));
                    if project_items(vs, host@, i + 1) is Ok {
                        let rest = project_items(vs, host@, i + 1)->Ok_0;
                        assert(before + (seq![j@] + rest) =~= before.push(j@) + rest);
                    }
                }
            },
            Err(e) => {
                return Err(e);
            },
        }
        i += 1;
    }
    assert(json_views(out@) + Seq::<JsonModel>::empty() =~= json_views(out@));
    Ok(out)
}

} // verus!
