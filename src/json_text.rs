//! Writing values as JSON text into a string buffer.

use vstd::prelude::*;
use vstd::string::*;
use crate::text::{chars_of, string_of};

verus! {

pub open spec fn hex_digits() -> Seq<char> {
    seq!['0', '1', '2', '3', '4', '5', '6', '7', '8', '9', 'a', 'b', 'c', 'd', 'e', 'f']
}

/// The JSON escape of one character: quote, backslash and the control
/// characters are escaped, any other character stands for itself.
pub open spec fn escape_char(c: char) -> Seq<char> {
    if c == '"' {
        seq!['\\', '"']
    } else if c == '\\' {
        seq!['\\', '\\']
    } else if c == '\n' {
        seq!['\\', 'n']
    } else if c == '\r' {
        seq!['\\', 'r']
    } else if c == '\t' {
        seq!['\\', 't']
    } else if (c as u32) < 32 {
        seq![
            '\\',
            'u',
            '0',
            '0',
            hex_digits()[((c as u32) / 16) as int],
            hex_digits()[((c as u32) % 16) as int],
        ]
    } else {
        seq![c]
    }
}

/// The JSON escape of a text, character by character.
pub open spec fn escape_spec(s: Seq<char>) -> Seq<char>
    decreases s.len(),
{
    if s.len() == 0 {
        Seq::empty()
    } else {
        escape_spec(s.drop_last()) + escape_char(s.last())
    }
}

/// The decimal digits of `n`, without leading zeros.
pub open spec fn digits(n: nat) -> Seq<char>
    decreases n,
{
    if n < 10 {
        seq![hex_digits()[n as int]]
    } else {
        digits(n / 10) + seq![hex_digits()[(n % 10) as int]]
    }
}

/// The decimal text of an integer.
pub open spec fn decimal(n: int) -> Seq<char> {
    if n < 0 {
        seq!['-'] + digits((-n) as nat)
    } else {
        digits(n as nat)
    }
}

fn hex_digit(n: u32) -> (r: char)
    requires
        n < 16,
    ensures
        r == hex_digits()[n as int],
{
    let table = vec!['0', '1', '2', '3', '4', '5', '6', '7', '8', '9', 'a', 'b', 'c', 'd', 'e', 'f'];
    assert(table@ =~= hex_digits());
    table[n as usize]
}

fn push_all(out: &mut Vec<char>, s: &Vec<char>)
    ensures
        final(out)@ == old(out)@ + s@,
{
    let ghost start = out@;
    let mut i: usize = 0;
    while i < s.len()
        invariant
            i <= s@.len(),
            out@ == start + s@.take(i as int),
        decreases s@.len() - i,
    {
        out.push(s[i]);
        i += 1;
        assert(out@ =~= start + s@.take(i as int));
    }
    assert(s@.take(s@.len() as int) =~= s@);
}

fn escape_char_exec(c: char) -> (r: Vec<char>)
    ensures
        r@ == escape_char(c),
{
    let r = if c == '"' {
        vec!['\\', '"']
    } else if c == '\\' {
        vec!['\\', '\\']
    } else if c == '\n' {
        vec!['\\', 'n']
    } else if c == '\r' {
        vec!['\\', 'r']
    } else if c == '\t' {
        vec!['\\', 't']
    } else if (c as u32) < 32 {
        let n = c as u32;
        vec!['\\', 'u', '0', '0', hex_digit(n / 16), hex_digit(n % 16)]
    } else {
        vec![c]
    };
    assert(r@ =~= escape_char(c));
    r
}

/// Appends the JSON escape of `s` (without surrounding quotes) to `buf`.
pub fn json_escape_into(s: &str, buf: &mut String)
    ensures
        final(buf)@ == old(buf)@ + escape_spec(s@),
{
    let escaped = json_escape(s);
    buf.append(escaped.as_str());
}

/// The JSON escape of `s`, without surrounding quotes.
pub fn json_escape(s: &str) -> (r: String)
    ensures
        r@ == escape_spec(s@),
{
    let chars = chars_of(s);
    let mut out: Vec<char> = Vec::new();
    let mut i: usize = 0;
    while i < chars.len()
        invariant
            i <= chars@.len(),
            chars@ == s@,
            out@ == escape_spec(chars@.take(i as int)),
        decreases chars@.len() - i,
    {
        let e = escape_char_exec(chars[i]);
        push_all(&mut out, &e);
        assert(chars@.take(i + 1).drop_last() =~= chars@.take(i as int));
        i += 1;
    }
    assert(chars@.take(chars@.len() as int) =~= chars@);
    string_of(out.as_slice())
}

fn push_digits(n: u64, out: &mut Vec<char>)
    ensures
        final(out)@ == old(out)@ + digits(n as nat),
    decreases n,
{
    let ghost start = out@;
    if n >= 10 {
        push_digits(n / 10, out);
    }
    out.push(hex_digit((n % 10) as u32));
    assert(out@ =~= start + digits(n as nat));
}

fn unsigned_text(n: u64) -> (r: String)
    ensures
        r@ == decimal(n as int),
{
    let mut out: Vec<char> = Vec::new();
    push_digits(n, &mut out);
    assert(out@ =~= decimal(n as int));
    string_of(out.as_slice())
}

fn signed_text(n: i64) -> (r: String)
    ensures
        r@ == decimal(n as int),
{
    let mut out: Vec<char> = Vec::new();
    if n < 0 {
        out.push('-');
        let m: u64 = ((-(n + 1)) as u64) + 1;
        push_digits(m, &mut out);
    } else {
        push_digits(n as u64, &mut out);
    }
    assert(out@ =~= decimal(n as int));
    string_of(out.as_slice())
}

/// A value that can be written as JSON text.
pub trait JsonValue {
    /// The JSON text of the value.
    spec fn json_text(&self) -> Seq<char>;

    /// Appends the JSON text of the value to `buf`.
    fn write_json(&self, buf: &mut String)
        ensures
            final(buf)@ == old(buf)@ + self.json_text(),
    ;
}

/// A JSON string literal: the escaped text between double quotes.
pub open spec fn quoted(s: Seq<char>) -> Seq<char> {
    seq!['"'] + escape_spec(s) + seq!['"']
}

fn write_quoted(s: &str, buf: &mut String)
    ensures
        final(buf)@ == old(buf)@ + quoted(s@),
{
    let ghost start = buf@;
    proof {
        reveal_strlit("\"");
    }
    buf.append("\"");
    json_escape_into(s, buf);
    buf.append("\"");
    assert(buf@ =~= start + quoted(s@));
}

impl<'a> JsonValue for &'a str {
    open spec fn json_text(&self) -> Seq<char> {
        quoted((*self)@)
    }

    fn write_json(&self, buf: &mut String) {
        write_quoted(*self, buf);
    }
}

impl JsonValue for String {
    open spec fn json_text(&self) -> Seq<char> {
        quoted(self@)
    }

    fn write_json(&self, buf: &mut String) {
        write_quoted(self.as_str(), buf);
    }
}

impl JsonValue for bool {
    open spec fn json_text(&self) -> Seq<char> {
        if *self {
            seq!['t', 'r', 'u', 'e']
        } else {
            seq!['f', 'a', 'l', 's', 'e']
        }
    }

    fn write_json(&self, buf: &mut String) {
        proof {
            reveal_strlit("true");
            reveal_strlit("false");
        }
        if *self {
            assert("true"@ =~= seq!['t', 'r', 'u', 'e']);
            buf.append("true");
        } else {
            assert("false"@ =~= seq!['f', 'a', 'l', 's', 'e']);
            buf.append("false");
        }
    }
}

impl JsonValue for usize {
    open spec fn json_text(&self) -> Seq<char> {
        decimal(*self as int)
    }

    fn write_json(&self, buf: &mut String) {
        buf.append(unsigned_text(*self as u64).as_str());
    }
}

impl JsonValue for u32 {
    open spec fn json_text(&self) -> Seq<char> {
        decimal(*self as int)
    }

    fn write_json(&self, buf: &mut String) {
        buf.append(unsigned_text(*self as u64).as_str());
    }
}

impl JsonValue for u64 {
    open spec fn json_text(&self) -> Seq<char> {
        decimal(*self as int)
    }

    fn write_json(&self, buf: &mut String) {
        buf.append(unsigned_text(*self).as_str());
    }
}

impl JsonValue for i32 {
    open spec fn json_text(&self) -> Seq<char> {
        decimal(*self as int)
    }

    fn write_json(&self, buf: &mut String) {
        buf.append(signed_text(*self as i64).as_str());
    }
}

impl JsonValue for i64 {
    open spec fn json_text(&self) -> Seq<char> {
        decimal(*self as int)
    }

    fn write_json(&self, buf: &mut String) {
        buf.append(signed_text(*self).as_str());
    }
}

} // verus!
