//! The lexical parser for interchanges.
pub mod order;
pub mod value;

use crate::text::chars_of;
use vstd::prelude::*;

verus! {

/// Lexes the text `input` into its service characters and its raw
/// segments. The text is lexed as a whole: a text that does not consist of
/// segments up to its end yields the one error of the place where the lexer
/// had to stop.
pub fn parse(input: &str) -> (r: Result<value::Interchange, value::ParseError>)
    requires
        input@.len() < i32::MAX,
    ensures
        (match r {
            Ok(interchange) => Ok(interchange@),
            Err(e) => Err(e),
        }) == value::lex(input@),
{
    let contents = chars_of(input);
    value::Interchange::parser(contents.as_slice())
}

} // verus!
