use std::ops::{Range, RangeFrom, RangeTo};

use edifact::mig::guide;
use nom::bytes::complete::{tag, take_while, take_while1};
use nom::character::complete::{line_ending, multispace0, not_line_ending, space0};
use nom::error::VerboseError;
use nom::multi::many_till;
use nom::sequence::{delimited, tuple};
use nom::{
    AsChar, Compare, IResult, InputIter, InputLength, InputTake, InputTakeAtPosition, Slice,
};

type ParseResult<I, O, E = VerboseError<I>> = IResult<I, O, E>;

fn whole(input: &str) -> ParseResult<&str, Vec<String>> {
    nom::combinator::map(
        tuple((
            many_till(line, contents_entry),
            many_till(line, heading("Nachrichtenstruktur")),
            many_till(delimited(space0, not_line_ending, line_ending), heading("Diagramm")),
        )),
        |(_, _, (lines, _)): (_, _, (Vec<&str>, ()))| {
            lines.iter().map(|l| l.to_string()).collect()
        },
    )(input)
}

fn line(input: &str) -> ParseResult<&str, &str> {
    nom::combinator::map(tuple((take_while(|c: char| c != '\n'), line_ending)), |(r, _)| r)(input)
}

fn heading<T, I>(section_name: T) -> impl FnMut(I) -> ParseResult<I, ()>
where
    I: InputTake + Compare<T>,
    I: Slice<Range<usize>> + Slice<RangeFrom<usize>> + Slice<RangeTo<usize>>,
    I: InputIter + InputLength,
    I: Compare<&'static str>,
    I: InputTakeAtPosition,
    I: Clone,
    <I as InputTakeAtPosition>::Item: AsChar + Clone,
    T: InputLength + Clone,
{
    nom::combinator::map(tuple((multispace0, tag(section_name), line_ending)), |_| ())
}

fn contents_entry(input: &str) -> ParseResult<&str, ()> {
    nom::combinator::map(
        tuple((
            multispace0,
            tag("Nachrichtenstruktur"),
            space0,
            take_while1(|c| c == '.'),
            space0,
            take_while1(|c: char| c.is_ascii_digit()),
            line_ending,
        )),
        |_| (),
    )(input)
}

fn two_words(input: &str) -> ParseResult<&str, ()> {
    nom::combinator::map(tuple((tuple((space0, tag("Standard"))), tuple((space0, tag("BDEW"))))), |_| ())(input)
}

fn nine_words(input: &str) -> ParseResult<&str, ()> {
    nom::combinator::map(
        tuple((
            tuple((space0, tag("Z\u{e4}hler"))),
            tuple((space0, tag("Nr"))),
            tuple((space0, tag("Bez"))),
            tuple((space0, tag("St"))),
            tuple((space0, tag("MaxWdh"))),
            tuple((space0, tag("St"))),
            tuple((space0, tag("MaxWdh"))),
            tuple((space0, tag("Ebene"))),
            tuple((space0, tag("Name"))),
        )),
        |_| (),
    )(input)
}

fn chars(text: &str) -> Vec<char> {
    text.chars().collect()
}

fn taken<O>(input: &str, result: ParseResult<&str, O>) -> Option<usize> {
    match result {
        Ok((rest, _)) => Some(input.chars().count() - rest.chars().count()),
        Err(_) => None,
    }
}

fn joined(parts: &[&[&str]]) -> Vec<String> {
    let mut all = vec![String::new()];
    for options in parts {
        let mut next = Vec::new();
        for text in &all {
            for option in *options {
                next.push(format!("{}{}", text, option));
            }
        }
        all = next;
    }
    all
}

#[test]
fn headings_are_found_as_by_the_combinators() {
    let texts = joined(&[
        &["", " ", "\n\t ", "\r\n", "x"],
        &["Diagramm", "Diagram", "Diagrammm", "diagramm", ""],
        &["", "\n", "\r\n", "\r", " \n", "\n\n", "\rx\n"],
    ]);
    for text in texts {
        let input = chars(&text);
        assert_eq!(guide::start_of("Diagramm", &input), taken(&text, heading("Diagramm")(&text[..])), "{:?}", text);
        assert_eq!(guide::start_of_diagram(&input, 0), taken(&text, heading("Diagramm")(&text[..])), "{:?}", text);
        assert_eq!(guide::start_of("", &input), taken(&text, heading("")(&text[..])), "{:?}", text);
        assert_eq!(guide::line(&input, 0), taken(&text, line(&text)), "{:?}", text);
    }
    let text = "\n \u{c4}nderungshistorie\nSegmentlayout\r\nNachrichtenstruktur\n";
    let input = chars(text);
    assert_eq!(guide::start_of_changelog(&input, 0), Some(20));
    assert_eq!(guide::start_of_segment_layout(&input, 0), None);
    assert_eq!(guide::start_of_segment_layout(&input, 20), Some(35));
    assert_eq!(guide::start_of_message_structure(&input, 35), Some(55));
    assert_eq!(guide::start_of_message_structure(&input, 55), None);
}

#[test]
fn entry_in_the_table_of_contents_is_found_as_by_the_combinators() {
    let texts = joined(&[
        &["", " \r\n\t", "x"],
        &["Nachrichtenstruktur", "Nachrichtenstruktu"],
        &["", " ", "\t "],
        &["", ".", "....", ". ."],
        &["", " ", "\n"],
        &["", "3", "12", "1a", "x"],
        &["", "\n", "\r\n", " \n", "\r"],
    ]);
    for text in texts {
        let input = chars(&text);
        assert_eq!(guide::start_of_toc(&input, 0), taken(&text, contents_entry(&text)), "{:?}", text);
    }
}

#[test]
fn column_headers_are_found_as_by_the_combinators() {
    let texts = joined(&[
        &["", " ", "\t  ", "\n"],
        &["Standard", "Standar", "Z\u{e4}hler", "Z\u{e4}hler Nr\tBez  St"],
        &["", " ", "\n", "x"],
        &["BDEW", "BDE", "MaxWdh St MaxWdh Ebene Name", "MaxWdhStMaxWdhEbeneName", "MaxWdh St MaxWdh Ebene"],
        &["", "x", " "],
    ]);
    for text in texts {
        let input = chars(&text);
        assert_eq!(guide::standard_bdew_line(&input, 0), taken(&text, two_words(&text)), "{:?}", text);
        assert_eq!(guide::segment_column_headers(&input, 0), taken(&text, nine_words(&text)), "{:?}", text);
    }
    let input = chars("  Standard\tBDEW x");
    assert_eq!(guide::standard_bdew_line(&input, 0), Some(15));
    assert_eq!(guide::standard_bdew_line(&input, 15), None);
}

#[test]
fn message_structure_is_read_as_by_the_combinators() {
    let texts = joined(&[
        &["", "Titel\n", " \r\n Inhalt\n"],
        &["Nachrichtenstruktur ..... 3\n", " Nachrichtenstruktur.12\r\n", "Nachrichtenstruktur 3\n", ""],
        &["", "Diagramm ... 9\n", "Nachrichtenstruktur\nx"],
        &["Nachrichtenstruktur\n", "\n\n  Nachrichtenstruktur\r\n", "Nachrichtenstruktur x\n", ""],
        &[
            "",
            "Z\u{e4}hler Nr\n0010 1 UNH\n   0020 2 BGM Beginn\n      der Nachricht\n\nBez = x\n",
            "0010 1 UNH\r\n \t0020 2 BGM\r\n",
            "0010 1 UNH\rx\n",
            "0010\n\n",
        ],
        &["Diagramm\n", "Diagramm", "  Diagramm\r\nRest", "Diagramm \n", ""],
    ]);
    let mut read = 0;
    for text in texts {
        let expected = match whole(&text) {
            Ok((_, lines)) => Some(guide::message_structure(&lines)),
            Err(_) => None,
        };
        if expected.is_some() {
            read += 1;
        }
        assert_eq!(guide::mig(&chars(&text)), expected, "{:?}", text);
    }
    assert!(read > 100);
    let text = "Inhalt\nNachrichtenstruktur ... 3\nNachrichtenstruktur\n0010 1 UNH\n 0020 2 BGM \
                Beginn\n   der Nachricht\nEDI@Energy\nDiagramm\n";
    assert_eq!(
        guide::mig(&chars(text)),
        Some("\n0010 1 UNH\n0020 2 BGM Beginn der Nachricht".to_string())
    );
    assert_eq!(guide::mig(&chars("Nachrichtenstruktur\nDiagramm\n")), None);
    assert_eq!(guide::mig(&chars("")), None);
}
