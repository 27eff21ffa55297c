use edifact::mig::decode::parser::parse;
use edifact::mig::decode::parser::value::{
    Composite, Cursor, DataElement, Expected, Interchange, Position, Segment, UNA,
};
use edifact::mig::either::Either;
use edifact::text::is_blank;

fn chars(text: &str) -> Vec<char> {
    text.chars().collect()
}

fn texts(segment: &Segment) -> Vec<Vec<String>> {
    segment
        .elements
        .iter()
        .map(|slot| match slot {
            Either::Left(composite) => composite.elements.iter().map(|e| e.value.clone()).collect(),
            Either::Right(element) => vec![element.value.clone()],
        })
        .collect()
}

#[test]
fn default_una_has_the_standard_characters() {
    let una = UNA::default();
    assert_eq!(una.component_sep, ':');
    assert_eq!(una.element_sep, '+');
    assert_eq!(una.decimal_char, '.');
    assert_eq!(una.escape, '?');
    assert_eq!(una.reserved, ' ');
    assert_eq!(una.segment_sep, '\'');
    assert_eq!(una, UNA::new(':', '+', '.', '?', ' ', '\''));
}

#[test]
fn una_is_read_from_the_head_of_the_text() {
    let input = chars("UNA;*,! #UNB*1#");
    let (una, next) = UNA::parser(&input);
    assert_eq!(una, UNA::new(';', '*', ',', '!', ' ', '#'));
    assert_eq!(next.offset, 9);
    assert_eq!(next.position, Position { line: 1, column: 10 });
}

#[test]
fn una_of_letters_or_equal_characters_is_taken_as_it_stands() {
    let input = chars("UNAabcdefX");
    let (una, next) = UNA::parser(&input);
    assert_eq!(una, UNA::new('a', 'b', 'c', 'd', 'e', 'f'));
    assert_eq!(next.offset, 9);
    let input = chars("UNA::::::");
    let (una, next) = UNA::parser(&input);
    assert_eq!(una, UNA::new(':', ':', ':', ':', ':', ':'));
    assert_eq!(next.offset, 9);
}

#[test]
fn text_without_una_keeps_the_standard_characters() {
    for text in ["", "UNB+1'", "UNA:+.? ", "UN", "XUNA:+.? '"] {
        let input = chars(text);
        let (una, next) = UNA::parser(&input);
        assert_eq!(una, UNA::default());
        assert_eq!(next, Cursor { offset: 0, position: Position { line: 1, column: 1 } });
    }
}

#[test]
fn una_with_line_feed_moves_to_the_next_line() {
    let input = chars("UNA:+.? \nUNB+1\n");
    let (una, next) = UNA::parser(&input);
    assert_eq!(una.segment_sep, '\n');
    assert_eq!(next.position, Position { line: 2, column: 1 });
    let interchange = Interchange::parser(&input).unwrap();
    assert_eq!(interchange.segments.len(), 1);
    assert_eq!(interchange.segments[0].tag.start, Position { line: 2, column: 1 });
    assert_eq!(interchange.segments[0].tag.end, Position { line: 2, column: 4 });
}

#[test]
fn escape_in_value() {
    let input = chars("AB?+CD+X'");
    let (element, next) = DataElement::parser(UNA::default(), &input, Cursor::start()).unwrap();
    assert_eq!(element.value, "AB+CD");
    assert_eq!(element.start, Position { line: 1, column: 1 });
    assert_eq!(element.end, Position { line: 1, column: 7 });
    assert_eq!(next.offset, 6);
}

#[test]
fn escape_takes_any_character() {
    for (text, value) in
        [("a??b'", "a?b"), ("a?'b'", "a'b"), ("a?:b'", "a:b"), ("a?+b'", "a+b"), ("a?xb'", "axb")]
    {
        let input = chars(text);
        let (element, next) =
            DataElement::parser(UNA::default(), &input, Cursor::start()).unwrap();
        assert_eq!(element.value, value);
        assert_eq!(next.offset, 4);
    }
}

#[test]
fn escape_at_the_end_of_the_text_is_an_error() {
    let input = chars("AB?");
    let error = DataElement::parser(UNA::default(), &input, Cursor::start()).unwrap_err();
    assert_eq!(error.expected, Expected::EscapedCharacter);
    assert_eq!(error.unexpected, None);
    assert_eq!(error.position, Position { line: 1, column: 4 });
    let error = parse("UNB+A:B?").unwrap_err();
    assert_eq!(error.expected, Expected::EscapedCharacter);
    assert_eq!(error.position, Position { line: 1, column: 9 });
}

#[test]
fn composite_needs_a_component_separator() {
    let una = UNA::default();
    let input = chars("A::C+");
    let (composite, next) = Composite::parser(&una, &input, Cursor::start()).unwrap();
    let values: Vec<&str> = composite.elements.iter().map(|e| e.value.as_str()).collect();
    assert_eq!(values, vec!["A", "", "C"]);
    assert_eq!(next.offset, 4);
    let input = chars("AC+");
    let error = Composite::parser(&una, &input, Cursor::start()).unwrap_err();
    assert_eq!(error.expected, Expected::ComponentSeparator);
    assert_eq!(error.unexpected, Some('+'));
    assert_eq!(error.position, Position { line: 1, column: 3 });
}

#[test]
fn slot_with_component_separator_is_a_composite() {
    let interchange = parse("TAG+A::C+B+?:+:'").unwrap();
    let segment = &interchange.segments[0];
    assert_eq!(segment.tag.value, "TAG");
    assert!(matches!(segment.elements[0], Either::Left(_)));
    assert!(matches!(segment.elements[1], Either::Right(_)));
    assert!(matches!(segment.elements[2], Either::Right(_)));
    assert!(matches!(segment.elements[3], Either::Left(_)));
    assert_eq!(
        texts(segment),
        vec![
            vec!["A".to_string(), "".to_string(), "C".to_string()],
            vec!["B".to_string()],
            vec![":".to_string()],
            vec!["".to_string(), "".to_string()],
        ]
    );
}

#[test]
fn segment_without_elements_holds_one_empty_element() {
    let interchange = parse("TAG+'").unwrap();
    assert_eq!(texts(&interchange.segments[0]), vec![vec!["".to_string()]]);
}

#[test]
fn segment_needs_the_element_separator_behind_its_tag() {
    let error = parse("UNZ'").unwrap_err();
    assert_eq!(error.expected, Expected::ElementSeparator);
    assert_eq!(error.unexpected, Some('\''));
    assert_eq!(error.position, Position { line: 1, column: 4 });
    let error = parse("UNZ").unwrap_err();
    assert_eq!(error.expected, Expected::ElementSeparator);
    assert_eq!(error.unexpected, None);
    let error = parse(" ").unwrap_err();
    assert_eq!(error.expected, Expected::ElementSeparator);
}

#[test]
fn segment_needs_its_separator() {
    let error = parse("UNB+1+2").unwrap_err();
    assert_eq!(error.expected, Expected::Separator);
    assert_eq!(error.unexpected, None);
    assert_eq!(error.position, Position { line: 1, column: 8 });
}

#[test]
fn white_space_between_segments_is_skipped() {
    let interchange = parse("UNB+1'\n  UNH+2+X' \t\r\nUNT+3'\n").unwrap();
    assert_eq!(interchange.segments.len(), 3);
    assert_eq!(interchange.segments[1].tag.value, "UNH");
    assert_eq!(interchange.segments[1].tag.start, Position { line: 2, column: 3 });
    assert_eq!(interchange.segments[2].tag.start, Position { line: 3, column: 1 });
    let slot = &interchange.segments[1].elements[1];
    match slot {
        Either::Right(element) => {
            assert_eq!(element.start, Position { line: 2, column: 9 });
            assert_eq!(element.end, Position { line: 2, column: 10 });
        }
        Either::Left(_) => panic!("a bare data element was expected"),
    }
}

#[test]
fn empty_text_is_an_interchange_without_segments() {
    let interchange = parse("").unwrap();
    assert_eq!(interchange.una, UNA::default());
    assert!(interchange.segments.is_empty());
    let interchange = parse("UNA:+.? '").unwrap();
    assert!(interchange.segments.is_empty());
}

#[test]
fn explicit_una_changes_the_separators() {
    let interchange = parse("UNA;*,! #UNB*A;B*C!*D#UNZ*1#").unwrap();
    assert_eq!(interchange.una.element_sep, '*');
    assert_eq!(interchange.segments.len(), 2);
    assert_eq!(
        texts(&interchange.segments[0]),
        vec![vec!["A".to_string(), "B".to_string()], vec!["C*D".to_string()]]
    );
}

#[test]
fn reserved_character_is_an_ordinary_character() {
    let interchange = parse("UNB+a b+c'").unwrap();
    assert_eq!(
        texts(&interchange.segments[0]),
        vec![vec!["a b".to_string()], vec!["c".to_string()]]
    );
}

#[test]
fn blank_agrees_with_the_white_space_of_the_standard_library() {
    let mut n: u32 = 0;
    while n <= 0x10ffff {
        if let Some(c) = char::from_u32(n) {
            assert_eq!(is_blank(c), c.is_whitespace(), "U+{:04X}", n);
        }
        n += 1;
    }
}

#[test]
fn positions_do_not_go_back() {
    let interchange = parse("UNB+UNOC:3+A?+:B'\nUNH+1+APERAK:D'UNT++'").unwrap();
    let mut all: Vec<(i32, i32)> = Vec::new();
    for segment in &interchange.segments {
        all.push((segment.tag.start.line, segment.tag.start.column));
        all.push((segment.tag.end.line, segment.tag.end.column));
        for slot in &segment.elements {
            let elements: Vec<&DataElement> = match slot {
                Either::Left(composite) => composite.elements.iter().collect(),
                Either::Right(element) => vec![element],
            };
            for element in elements {
                all.push((element.start.line, element.start.column));
                all.push((element.end.line, element.end.column));
            }
        }
    }
    for pair in all.windows(2) {
        assert!(pair[0] <= pair[1]);
    }
    assert_eq!(all.first(), Some(&(1, 1)));
    assert_eq!(all.last(), Some(&(2, 21)));
}
