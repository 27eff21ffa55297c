use combine::error::ParseError;
use combine::parser::char::{char, spaces, string};
use combine::parser::combinator::recognize;
use combine::parser::range::take_while1;
use combine::parser::repeat::{escaped, repeat_until};
use combine::parser::token::value;
use combine::stream::position::{SourcePosition, Stream as Positioned};
use combine::stream::Range;
use combine::{any, attempt, eof, position, sep_by, sep_by1, EasyParser, Parser, RangeStream, Stream};
use edifact::mig::decode::parser::parse;
use edifact::mig::decode::parser::value::{DataElement, Interchange, UNA};
use edifact::mig::either::Either;

type Element = (String, (i32, i32), (i32, i32));
type Segment = (Element, Vec<Vec<Element>>);

fn advice<Input>() -> impl Parser<Input, Output = UNA>
where
    Input: Stream<Token = char>,
    Input::Error: ParseError<Input::Token, Input::Range, Input::Position>,
{
    let announced = (string("UNA"), any(), any(), any(), any(), any(), any())
        .map(|(_, csep, esep, dec, esc, res, ssep)| UNA::new(csep, esep, dec, esc, res, ssep));
    attempt(announced).or(value(UNA::default()))
}

fn element<Input>(una: UNA) -> impl Parser<Input, Output = Element>
where
    Input: RangeStream<Token = char, Position = SourcePosition>,
    Input::Range: Range,
    Input::Error: ParseError<Input::Token, Input::Range, Input::Position>,
{
    let text = recognize(escaped(
        take_while1(move |c| !una.is_escape(c) && !una.is_separator(c)),
        una.escape,
        any(),
    ));
    (position(), text, position()).map(
        move |(start, value, end): (SourcePosition, String, SourcePosition)| {
            (unescaped(&value, una.escape), (start.line, start.column), (end.line, end.column))
        },
    )
}

fn composite<Input>(una: UNA) -> impl Parser<Input, Output = Vec<Element>>
where
    Input: RangeStream<Token = char, Position = SourcePosition>,
    Input::Range: Range,
    Input::Error: ParseError<Input::Token, Input::Range, Input::Position>,
{
    (element(una), char(una.component_sep), sep_by1(element(una), char(una.component_sep))).map(
        |(first, _, rest): (Element, char, Vec<Element>)| {
            let mut elements = rest;
            elements.insert(0, first);
            elements
        },
    )
}

fn segment<Input>(una: UNA) -> impl Parser<Input, Output = Segment>
where
    Input: RangeStream<Token = char, Position = SourcePosition>,
    Input::Range: Range,
    Input::Error: ParseError<Input::Token, Input::Range, Input::Position>,
{
    let slot = attempt(composite(una)).or(element(una).map(|x| vec![x]));
    (
        element(una),
        char(una.element_sep),
        sep_by(slot, char(una.element_sep)),
        char(una.segment_sep),
        attempt(spaces()),
    )
        .map(|(tag, _, elements, _, _)| (tag, elements))
}

fn interchange<Input>() -> impl Parser<Input, Output = (UNA, Vec<Segment>)>
where
    Input: RangeStream<Token = char, Position = SourcePosition>,
    Input::Range: Range,
    Input::Error: ParseError<Input::Token, Input::Range, Input::Position>,
{
    advice().then(|una| {
        repeat_until(attempt(segment(una)), eof()).map(move |segments| (una, segments))
    })
}

fn unescaped(value: &str, escape: char) -> String {
    let mut text = String::new();
    let mut chars = value.chars();
    while let Some(c) = chars.next() {
        if c == escape {
            if let Some(literal) = chars.next() {
                text.push(literal);
            }
        } else {
            text.push(c);
        }
    }
    text
}

fn by_combinators(input: &str) -> Option<(UNA, Vec<Segment>)> {
    match interchange().easy_parse(Positioned::new(input)) {
        Ok((read, _)) => Some(read),
        Err(_) => None,
    }
}

fn flat(element: &DataElement) -> Element {
    (
        element.value.clone(),
        (element.start.line, element.start.column),
        (element.end.line, element.end.column),
    )
}

fn by_library(input: &str) -> Option<(UNA, Vec<Segment>)> {
    let lexed: Interchange = match parse(input) {
        Ok(lexed) => lexed,
        Err(_) => return None,
    };
    let segments = lexed
        .segments
        .iter()
        .map(|segment| {
            let slots = segment
                .elements
                .iter()
                .map(|slot| match slot {
                    Either::Left(composite) => {
                        assert!(composite.elements.len() >= 2);
                        composite.elements.iter().map(flat).collect()
                    }
                    Either::Right(element) => vec![flat(element)],
                })
                .collect();
            (flat(&segment.tag), slots)
        })
        .collect();
    Some((lexed.una, segments))
}

fn texts(alphabet: &[char], length: usize) -> Vec<String> {
    let mut all = vec![String::new()];
    let mut last = vec![String::new()];
    for _ in 0..length {
        let mut next = Vec::new();
        for text in &last {
            for c in alphabet {
                let mut longer = text.clone();
                longer.push(*c);
                next.push(longer);
            }
        }
        all.extend(next.iter().cloned());
        last = next;
    }
    all
}

#[test]
fn lexer_agrees_with_the_grammar_of_combinators_on_interchanges() {
    let inputs = [
        "UNB+UNOC:3+A+B+200307:0705+REF'UNH+1+APERAK:D:07B:UN:2.1d'BGM+313+X'UNT+3+1'UNZ+1+REF'",
        "UNA:+.? 'UNB+UNOC:3+A+B+200307:0705+REF'\nUNH+1+APERAK:D:07B:UN:2.1d'\r\nUNZ+1+REF'\n",
        "UNA;*,! #UNB*A;B*C!*D#  UNZ*1#",
        "UNA++++++UNB+1+",
        "UNA:::???UNB:1?",
        "UNA:+.?\n\nUNB+1\n\n\nUNZ+2\n",
        "FTX+AAO+++LOC Datenelement 3225 ung\u{fc}ltiger Wert'FTX+Z02+++10'",
        "NAD+MS+9900467000000::293'",
        "AB?+CD+?'??'",
        "UNB+1'UNZ",
        "UNB+A:B?",
        "UNB",
        " UNB+1'",
        "UNB+1'x",
        "+'",
        "':+",
        "UNA",
        "UNA:+.? ",
    ];
    for input in inputs {
        assert_eq!(by_library(input), by_combinators(input), "{:?}", input);
    }
}

#[test]
fn lexer_agrees_with_the_grammar_of_combinators_on_all_short_texts() {
    for input in texts(&['A', ':', '+', '?', '\'', '\n'], 5) {
        assert_eq!(by_library(&input), by_combinators(&input), "{:?}", input);
    }
}

#[test]
fn lexer_agrees_with_the_grammar_of_combinators_behind_any_advice() {
    let advices = ["UNA:+.? '", "UNA\n+.?:'", "UNA:+.+ '", "UNA::.? :", "UNA'+.'  ", "UNA:+.? ?"];
    for advice in advices {
        for body in texts(&['A', ':', '+', '?', '\'', ' ', '\n'], 4) {
            let input = format!("{}{}", advice, body);
            assert_eq!(by_library(&input), by_combinators(&input), "{:?}", input);
        }
    }
}
