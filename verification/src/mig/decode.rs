//! Decoding an interchange: lexing its text and matching the raw segments
//! against a description.
pub mod parser;
pub mod rules;
pub mod value;
pub mod walk;

use crate::mig::decode::parser::value::{lex, ParseError};
use crate::mig::decode::value::{result_views, spec_match_interchange, InterchangeView};
use crate::mig::description;
use crate::mig::error::{InterchangeError, InterchangeErrorView};
use vstd::prelude::*;

verus! {

/// Why a text could not be decoded: it is no interchange, or it is one
/// that does not follow its description.
#[derive(Debug)]
pub enum Error {
    Parse(ParseError),
    Mig(InterchangeError),
}

/// What an `Error` holds, as plain values.
pub enum ErrorView {
    Parse(ParseError),
    Mig(InterchangeErrorView),
}

impl View for Error {
    type V = ErrorView;

    open spec fn view(&self) -> ErrorView {
        match self {
            Error::Parse(e) => ErrorView::Parse(*e),
            Error::Mig(e) => ErrorView::Mig(e@),
        }
    }
}

impl Error {
    /// This error as text: the text of the error of the lexer; an error of
    /// matching is a tree, and has no text.
    pub fn to_string(&self) -> (r: String)
        ensures
            r@ == (match self {
                Error::Parse(e) => e.text(),
                Error::Mig(_) => Seq::<char>::empty(),
            }),
    {
        match self {
            Error::Parse(e) => e.to_string(),
            Error::Mig(_) => String::new(),
        }
    }
}

impl From<InterchangeError> for Error {
    fn from(e: InterchangeError) -> (r: Self)
    {
        Error::Mig(e)
    }
}

impl vstd::std_specs::convert::FromSpecImpl<InterchangeError> for Error {
    open spec fn obeys_from_spec() -> bool {
        true
    }

    open spec fn from_spec(e: InterchangeError) -> Self {
        Error::Mig(e)
    }
}

impl From<ParseError> for Error {
    fn from(e: ParseError) -> (r: Self)
    {
        Error::Parse(e)
    }
}

impl vstd::std_specs::convert::FromSpecImpl<ParseError> for Error {
    open spec fn obeys_from_spec() -> bool {
        true
    }

    open spec fn from_spec(e: ParseError) -> Self {
        Error::Parse(e)
    }
}

/// The result of decoding the text `input` against the description `d`:
/// the error of the lexer, if the text is no interchange; else the result
/// of matching the interchange against `d`.
pub open spec fn spec_decode(d: description::InterchangeView, input: Seq<char>) -> Result<
    InterchangeView,
    ErrorView,
> {
    match lex(input) {
        Err(e) => Err(ErrorView::Parse(e)),
        Ok(interchange) => match spec_match_interchange(d, interchange) {
            Ok(matched) => Ok(matched),
            Err(e) => Err(ErrorView::Mig(e)),
        },
    }
}

/// Decodes the text `input` against the first of the descriptions `known`.
pub fn decode(known: Vec<description::Interchange>, input: &str) -> (r: Result<
    value::Interchange,
    Error,
>)
    requires
        known@.len() > 0,
        input@.len() < i32::MAX,
    ensures
        result_views(r) == spec_decode(known@[0]@, input@),
{
    let interchange = match parser::parse(input) {
        Ok(interchange) => interchange,
        Err(e) => {
            return Err(Error::Parse(e));
        },
    };
    match value::match_interchange(&known[0], interchange) {
        Ok(result) => Ok(result),
        Err(e) => Err(Error::Mig(e)),
    }
}

} // verus!
