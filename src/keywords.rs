//! The reserved words of the language.

use vstd::prelude::*;

verus! {

/// The reserved words of the language, a subset of JavaScript's.
pub open spec fn is_keyword_spec(s: Seq<char>) -> bool {
    ||| s == "let"@
    ||| s == "for"@
    ||| s == "while"@
    ||| s == "if"@
    ||| s == "else"@
    ||| s == "function"@
    ||| s == "return"@
    ||| s == "break"@
    ||| s == "do"@
    ||| s == "switch"@
    ||| s == "typeof"@
    ||| s == "of"@
    ||| s == "in"@
    ||| s == "const"@
    ||| s == "var"@
    ||| s == "class"@
    ||| s == "constructor"@
}

fn same_text(a: &str, b: &str) -> (r: bool)
    ensures
        r == (a@ == b@),
{
    String::from_str(a) == String::from_str(b)
}

/// Whether `input` is a reserved word.
pub fn is_keyword(input: &str) -> (r: bool)
    ensures
        r == is_keyword_spec(input@),
{
    same_text(input, "let") || same_text(input, "for") || same_text(input, "while") || same_text(input, "if")
        || same_text(input, "else") || same_text(input, "function") || same_text(input, "return")
        || same_text(input, "break") || same_text(input, "do") || same_text(input, "switch")
        || same_text(input, "typeof") || same_text(input, "of") || same_text(input, "in")
        || same_text(input, "const") || same_text(input, "var") || same_text(input, "class")
        || same_text(input, "constructor")
}

} // verus!
