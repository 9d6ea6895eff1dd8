//! Text-safety escaping for the generated documentation comments, done by
//! the `marksman_escape` crate behind one trusted wrapper with an exact
//! character-level contract.

use vstd::prelude::*;

use marksman_escape::Escape;

verus! {

/// What one character becomes: the eighteen characters that
/// `marksman_escape::Escape` rewrites go to their entity forms, every other
/// character passes through unchanged.
pub open spec fn escape_char_seq(c: char) -> Seq<char> {
    if c == '&' {
        "&amp;"@
    } else if c == '>' {
        "&gt;"@
    } else if c == '<' {
        "&lt;"@
    } else if c == '"' {
        "&#34;"@
    } else if c == '\'' {
        "&#39;"@
    } else if c == '`' {
        "&#96;"@
    } else if c == '!' {
        "&#33;"@
    } else if c == '$' {
        "&#36;"@
    } else if c == '%' {
        "&#37;"@
    } else if c == '(' {
        "&#40;"@
    } else if c == ')' {
        "&#41;"@
    } else if c == '+' {
        "&#43;"@
    } else if c == '=' {
        "&#61;"@
    } else if c == '@' {
        "&#64;"@
    } else if c == '[' {
        "&#91;"@
    } else if c == ']' {
        "&#93;"@
    } else if c == '{' {
        "&#123;"@
    } else if c == '}' {
        "&#125;"@
    } else {
        seq![c]
    }
}

pub open spec fn escape_acc(s: Seq<char>, i: int, out: Seq<char>) -> Seq<char>
    decreases s.len() - i,
{
    if i < 0 || i >= s.len() {
        out
    } else {
        escape_acc(s, i + 1, out + escape_char_seq(s[i]))
    }
}

/// The whole text escaped, character by character.
pub open spec fn escape_seq(s: Seq<char>) -> Seq<char> {
    escape_acc(s, 0, Seq::empty())
}

/// Relies on `marksman_escape::Escape`: it maps each input byte to itself,
/// except the eighteen bytes of its escape table, which it replaces by the
/// entity forms written out in `escape_char_seq`. The table touches only
/// ASCII bytes and emits only ASCII bytes, so on the UTF-8 bytes of a
/// string the byte map is exactly the character map `escape_seq`, and the
/// output is again valid UTF-8.
#[verifier::external_body]
pub fn escape_chars(v: &Vec<char>) -> (r: Vec<char>)
    ensures
        r@ == escape_seq(v@),
{
    let s: String = v.iter().collect();
    let bytes: Vec<u8> = Escape::new(s.bytes()).collect();
    String::from_utf8(bytes).unwrap().chars().collect()
}

} // verus!
