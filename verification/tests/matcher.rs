use edifact::mig::decode::parser::parse;
use edifact::mig::decode::parser::value::Segment as RawSegment;
use edifact::mig::decode::value::{
    check_format, check_size, check_st, get_counter, match_composite, match_composite_help,
    match_data_element, match_interchange, match_segment, matches_segment, matches_segmentgroup,
    Interchange, Matched, Segment, Segmentgroup,
};
use edifact::mig::decode::walk::matching;
use edifact::mig::decode::{decode, Error};
use edifact::mig::description::{
    Choice, Composite, DataElement, Format, Interchange as Guide, Message, Segment as SegmentDesc,
    Segmentgroup as GroupDesc, Size, St, Usage,
};
use edifact::mig::either::Either;
use edifact::mig::error::{CompositeError, DataElementError, SegmentError, SyntaxError};

const BODY: &str =
    "UNB+UNOC:3+A+B+200307:0705+REF'UNH+1+APERAK:D:07B:UN:2.1d'BGM+313+X'UNT+3+1'UNZ+1+REF'";

fn element(name: &str, st: St, format: Format, length: usize, usage: Usage) -> DataElement {
    DataElement {
        label: "0000".to_string(),
        name: name.to_string(),
        st,
        format,
        length,
        usage,
    }
}

fn text(name: &str, st: St, length: usize) -> DataElement {
    element(name, st, Format::Alphanumeric(Size::AtMost), length, Usage::Text { comment: None })
}

fn fixed(value: &str) -> Usage {
    Usage::Static {
        value: Choice { value: value.to_string(), semantics: None, comment: None },
        comment: None,
    }
}

fn one_of(values: &[&str]) -> Usage {
    Usage::OneOf {
        choices: values
            .iter()
            .map(|v| Choice { value: v.to_string(), semantics: None, comment: None })
            .collect(),
        comment: None,
    }
}

fn composite(name: &str, st: St, elements: Vec<DataElement>) -> Composite {
    Composite { label: "C000".to_string(), name: name.to_string(), st, elements }
}

fn segment(
    counter: &str,
    tag: &str,
    max_reps: u64,
    elements: Vec<Either<Composite, DataElement>>,
) -> SegmentDesc {
    SegmentDesc {
        counter: counter.to_string(),
        number: 1,
        tag: tag.to_string(),
        st: St::M,
        max_reps,
        level: 0,
        name: tag.to_string(),
        comment: None,
        elements,
    }
}

fn group(
    counter: &str,
    label: &str,
    max_reps: u64,
    segments: Vec<Either<GroupDesc, SegmentDesc>>,
) -> GroupDesc {
    GroupDesc {
        counter: counter.to_string(),
        label: label.to_string(),
        st: St::C,
        max_reps,
        level: 1,
        name: label.to_string(),
        comment: Some("a group".to_string()),
        segments,
    }
}

fn bgm() -> SegmentDesc {
    segment(
        "0020",
        "BGM",
        1,
        vec![
            Either::Right(text("Dokumentenname", St::M, 3)),
            Either::Right(text("Dokumentennummer", St::M, 35)),
        ],
    )
}

fn aperak(body: Vec<Either<GroupDesc, SegmentDesc>>) -> Guide {
    let unb = segment(
        "0000",
        "UNB",
        1,
        vec![
            Either::Left(composite(
                "Syntax",
                St::M,
                vec![text("Syntax-Kennung", St::M, 4), text("Syntax-Version", St::M, 1)],
            )),
            Either::Left(composite(
                "Absender",
                St::M,
                vec![text("Absender", St::M, 35), text("Art", St::C, 4)],
            )),
            Either::Left(composite(
                "Empfaenger",
                St::M,
                vec![text("Empfaenger", St::M, 35), text("Art", St::C, 4)],
            )),
            Either::Left(composite(
                "Erstellung",
                St::M,
                vec![
                    element(
                        "Datum",
                        St::M,
                        Format::Numeric(Size::Exactly),
                        6,
                        Usage::Integer { comment: None },
                    ),
                    element(
                        "Zeit",
                        St::M,
                        Format::Numeric(Size::Exactly),
                        4,
                        Usage::Integer { comment: None },
                    ),
                ],
            )),
            Either::Right(text("Referenz", St::M, 14)),
        ],
    );
    let unh = segment(
        "0010",
        "UNH",
        1,
        vec![
            Either::Right(text("Nachrichtenreferenz", St::M, 14)),
            Either::Left(composite(
                "Nachrichtenkennung",
                St::M,
                vec![
                    text("Typ", St::M, 6),
                    text("Version", St::M, 3),
                    text("Freigabe", St::M, 3),
                    text("Organisation", St::M, 2),
                    text("Anwendungscode", St::M, 6),
                ],
            )),
        ],
    );
    let unt = segment(
        "0030",
        "UNT",
        1,
        vec![
            Either::Right(text("Anzahl", St::M, 6)),
            Either::Right(text("Nachrichtenreferenz", St::M, 14)),
        ],
    );
    let unz = segment(
        "0040",
        "UNZ",
        1,
        vec![
            Either::Right(text("Zaehler", St::M, 6)),
            Either::Right(text("Referenz", St::M, 14)),
        ],
    );
    Guide { unb, message: Message { unh, segments: body, unt }, unz }
}

fn raw(text: &str) -> RawSegment {
    let mut interchange = parse(text).unwrap();
    assert_eq!(interchange.segments.len(), 1);
    interchange.segments.remove(0)
}

fn tags(interchange: &Interchange) -> Vec<(String, usize)> {
    interchange
        .segments
        .iter()
        .map(|node| match node {
            Either::Right(segment) => (segment.tag.clone(), segment.index),
            Either::Left(group) => (format!("[{}]", group.label), 0),
        })
        .collect()
}

fn leaf(error: &Either<CompositeError, DataElementError>) -> (usize, u64) {
    match error {
        Either::Right(e) => (e.pos, e.syntax_error.get_code()),
        Either::Left(_) => panic!("a data element error was expected"),
    }
}

fn segment_ok(result: Result<Segment, SegmentError>) -> Segment {
    match result {
        Ok(segment) => segment,
        Err(error) => panic!("no error was expected: {:?}", error),
    }
}

fn segment_err(result: Result<Segment, SegmentError>) -> SegmentError {
    match result {
        Ok(segment) => panic!("an error was expected: {:?}", segment),
        Err(error) => error,
    }
}

#[test]
fn default_una() {
    let matched = decode(vec![aperak(vec![Either::Right(bgm())])], BODY).unwrap();
    assert_eq!(matched.segments.len(), 5);
    assert_eq!(
        tags(&matched),
        vec![
            ("UNB".to_string(), 0),
            ("UNH".to_string(), 1),
            ("BGM".to_string(), 2),
            ("UNT".to_string(), 3),
            ("UNZ".to_string(), 4),
        ]
    );
    let unb = match &matched.segments[0] {
        Either::Right(segment) => segment,
        Either::Left(_) => panic!("a segment was expected"),
    };
    assert_eq!(unb.elements.len(), 5);
    match &unb.elements[1] {
        Either::Left(sender) => {
            assert_eq!(sender.index, 1);
            assert_eq!(sender.name, "Absender");
            assert_eq!(sender.elements.len(), 1);
            assert_eq!(sender.elements[0].index, 0);
            assert!(matches!(&sender.elements[0].value, Some(Matched::Text(v)) if v == "A"));
        }
        Either::Right(_) => panic!("a composite was expected"),
    }
    match &unb.elements[4] {
        Either::Right(reference) => {
            assert_eq!(reference.index, 4);
            assert_eq!(reference.description.name, "Referenz");
            assert!(matches!(&reference.value, Some(Matched::Text(v)) if v == "REF"));
        }
        Either::Left(_) => panic!("a data element was expected"),
    }
}

#[test]
fn explicit_una() {
    let plain = decode(vec![aperak(vec![Either::Right(bgm())])], BODY).unwrap();
    let input = format!("UNA:+.? '{}", BODY);
    let announced = decode(vec![aperak(vec![Either::Right(bgm())])], &input).unwrap();
    assert_eq!(format!("{:?}", plain), format!("{:?}", announced));
    let lexed = parse(&input).unwrap();
    assert_eq!(lexed.una, edifact::mig::decode::parser::value::UNA::default());
    assert_eq!(lexed.segments.len(), 5);
}

#[test]
fn missing_mandatory() {
    let error = segment_err(match_segment(7, &bgm(), &raw("BGM++X'")));
    assert_eq!(error.pos, 7);
    assert!(error.syntax_error.is_none());
    assert_eq!(error.errors.len(), 1);
    assert_eq!(leaf(&error.errors[0]), (0, 13));
}

#[test]
fn too_many_parts() {
    let error = segment_err(match_segment(2, &bgm(), &raw("BGM+313+X+extra'")));
    assert_eq!(error.pos, 2);
    assert_eq!(error.syntax_error.map(|e| e.get_code()), Some(16));
    assert!(error.errors.is_empty());
}

#[test]
fn every_invalid_slot_leaves_its_error() {
    let error = segment_err(match_segment(0, &bgm(), &raw("BGM++'")));
    assert_eq!(error.errors.len(), 2);
    assert_eq!(leaf(&error.errors[0]), (0, 13));
    assert_eq!(leaf(&error.errors[1]), (1, 13));
    let error = segment_err(match_segment(0, &bgm(), &raw("BGM+3133+A:B'")));
    assert_eq!(error.errors.len(), 2);
    assert_eq!(leaf(&error.errors[0]), (0, 39));
    assert_eq!(leaf(&error.errors[1]), (1, 12));
}

#[test]
fn described_elements_without_value() {
    let desc = segment(
        "0001",
        "DTM",
        1,
        vec![
            Either::Right(text("a", St::M, 3)),
            Either::Right(text("b", St::O, 3)),
            Either::Right(text("c", St::R, 3)),
            Either::Left(composite("d", St::D, vec![text("e", St::M, 3)])),
            Either::Left(composite("f", St::M, vec![text("g", St::M, 3)])),
        ],
    );
    let error = segment_err(match_segment(0, &desc, &raw("DTM+1'")));
    assert!(error.syntax_error.is_none());
    assert_eq!(error.errors.len(), 2);
    assert_eq!(leaf(&error.errors[0]), (2, 13));
    assert_eq!(leaf(&error.errors[1]), (4, 13));
}

#[test]
fn composite_description_takes_a_bare_element() {
    let desc = segment(
        "0001",
        "NAD",
        1,
        vec![
            Either::Left(composite("unused", St::N, vec![text("x", St::N, 3)])),
            Either::Left(composite("party", St::M, vec![text("id", St::M, 3), text("k", St::O, 3)])),
            Either::Left(composite("other", St::O, vec![text("id", St::M, 3), text("k", St::M, 3)])),
        ],
    );
    let matched = segment_ok(match_segment(3, &desc, &raw("NAD++MS:1'")));
    assert_eq!(matched.index, 3);
    assert_eq!(matched.elements.len(), 1);
    let error = segment_err(match_segment(3, &desc, &raw("NAD++MS+XY'")));
    assert_eq!(error.errors.len(), 1);
    match &error.errors[0] {
        Either::Left(composite_error) => {
            assert_eq!(composite_error.pos, 2);
            assert!(composite_error.syntax_error.is_none());
            assert_eq!(composite_error.errors.len(), 1);
            assert_eq!(composite_error.errors[0].pos, 1);
            assert_eq!(composite_error.errors[0].syntax_error.get_code(), 13);
        }
        Either::Right(_) => panic!("a composite error was expected"),
    }
}

#[test]
fn composite_with_too_many_elements() {
    let desc = composite("party", St::M, vec![text("id", St::M, 3)]);
    let value = match raw("NAD+A:B:C'").elements.remove(0) {
        Either::Left(c) => c,
        Either::Right(_) => panic!("a composite was expected"),
    };
    let error = match_composite(4, &desc, &value).unwrap_err();
    assert_eq!(error.pos, 4);
    assert_eq!(error.syntax_error.map(|e| e.get_code()), Some(16));
    assert!(error.errors.is_empty());
    let none = edifact::mig::decode::parser::value::Composite { elements: vec![] };
    let error = match_composite(4, &desc, &none).unwrap_err();
    assert_eq!(error.syntax_error.map(|e| e.get_code()), Some(13));
    assert!(error.errors.is_empty());
    let matched = match_composite_help(4, &desc.elements, &value.elements[..1].to_vec()).unwrap();
    assert_eq!(matched.len(), 1);
    assert_eq!(matched[0].index, 0);
}

#[test]
fn status_rule() {
    assert_eq!(check_st(St::M, String::new()).unwrap_err().get_code(), 13);
    assert_eq!(check_st(St::R, String::new()).unwrap_err().get_code(), 13);
    assert_eq!(check_st(St::N, "x".to_string()).unwrap_err().get_code(), 12);
    assert_eq!(check_st(St::N, String::new()).unwrap(), "");
    assert_eq!(check_st(St::O, String::new()).unwrap(), "");
    assert_eq!(check_st(St::M, "x".to_string()).unwrap(), "x");
    for st in [St::M, St::R, St::O, St::D, St::C, St::N] {
        for input in ["", "x"] {
            if let Ok(checked) = check_st(st, input.to_string()) {
                assert_eq!(check_st(st, checked.clone()).unwrap(), checked);
            }
        }
    }
}

#[test]
fn length_rule() {
    let check = |size, length, input: &str| check_size(St::M, size, length, input.to_string());
    assert_eq!(check(Size::Exactly, 3, "ABC").unwrap(), "ABC");
    assert_eq!(check(Size::Exactly, 3, "AB").unwrap_err().get_code(), 40);
    assert_eq!(check(Size::Exactly, 3, "ABCD").unwrap_err().get_code(), 39);
    assert_eq!(check(Size::AtMost, 3, "ABC").unwrap(), "ABC");
    assert_eq!(check(Size::AtMost, 3, "").unwrap(), "");
    assert_eq!(check(Size::AtMost, 3, "ABCD").unwrap_err().get_code(), 39);
    assert_eq!(check(Size::Exactly, 3, "").unwrap_err().get_code(), 40);
    assert_eq!(check_size(St::O, Size::Exactly, 3, String::new()).unwrap(), "");
    assert_eq!(check_size(St::N, Size::Exactly, 3, String::new()).unwrap(), "");
    assert_eq!(check_size(St::O, Size::Exactly, 3, "A".to_string()).unwrap_err().get_code(), 40);
}

#[test]
fn length_is_counted_in_bytes() {
    assert_eq!(check_size(St::M, Size::Exactly, 2, "\u{fc}".to_string()).unwrap(), "\u{fc}");
    assert_eq!(
        check_size(St::M, Size::Exactly, 1, "\u{fc}".to_string()).unwrap_err().get_code(),
        39
    );
}

#[test]
fn format_rule_checks_the_length_only() {
    let formats: [fn(Size) -> Format; 3] = [Format::Alphanumeric, Format::Alpha, Format::Numeric];
    for format in formats {
        assert_eq!(check_format(St::M, format(Size::Exactly), 2, "a1".to_string()).unwrap(), "a1");
        assert_eq!(
            check_format(St::M, format(Size::AtMost), 1, "a1".to_string())
                .unwrap_err()
                .get_code(),
            39
        );
    }
}

#[test]
fn data_element_is_matched_as_text() {
    let value = |v: &str| match raw(&format!("X+{}'", v)).elements.remove(0) {
        Either::Right(e) => e,
        Either::Left(_) => panic!("a data element was expected"),
    };
    let desc = element(
        "Menge",
        St::M,
        Format::Numeric(Size::AtMost),
        5,
        Usage::Decimal { comment: None },
    );
    let matched = match_data_element(2, desc.clone(), value("12.5")).unwrap();
    assert_eq!(matched.index, 2);
    assert_eq!(matched.description, desc);
    assert!(matches!(&matched.value, Some(Matched::Text(v)) if v == "12.5"));
    let error = match_data_element(2, desc.clone(), value("")).unwrap_err();
    assert_eq!((error.pos, error.syntax_error.get_code()), (2, 13));
    let error = match_data_element(2, desc.clone(), value("123456")).unwrap_err();
    assert_eq!((error.pos, error.syntax_error.get_code()), (2, 39));
    let optional = text("Zusatz", St::O, 5);
    let matched = match_data_element(1, optional, value("")).unwrap();
    assert!(matched.value.is_none());
    let unused = text("Leer", St::N, 5);
    let error = match_data_element(1, unused, value("x")).unwrap_err();
    assert_eq!((error.pos, error.syntax_error.get_code()), (1, 12));
}

fn rff(qualifier: Usage, name: &str) -> SegmentDesc {
    segment(
        "0060",
        "RFF",
        1,
        vec![Either::Left(composite(
            "Referenz",
            St::M,
            vec![
                element(name, St::M, Format::Alphanumeric(Size::AtMost), 3, qualifier),
                text("Nummer", St::M, 70),
            ],
        ))],
    )
}

#[test]
fn qualifier_decides_between_descriptions_of_one_tag() {
    let ace = rff(fixed("ACE"), "Referenz, Qualifier");
    let ago = rff(fixed("AGO"), "Referenzqualifier");
    let first = raw("RFF+ACE:O1583553607732'");
    let second = raw("RFF+AGO:9904590000002ORD1583553607706'");
    assert!(matches_segment(&ace, true, &first));
    assert!(!matches_segment(&ago, true, &first));
    assert!(!matches_segment(&ace, true, &second));
    assert!(matches_segment(&ago, true, &second));
    assert!(matches_segment(&ace, false, &second));
    assert!(!matches_segment(&ace, false, &raw("DTM+ACE:1'")));
    assert!(!matches_segment(&ace, true, &raw("DTM+ACE:1'")));
}

#[test]
fn qualifier_branching() {
    let mut ago = rff(fixed("AGO"), "Referenz, Qualifier");
    ago.name = "second".to_string();
    let mut ace = rff(fixed("ACE"), "Referenz, Qualifier");
    ace.name = "first".to_string();
    let guide = aperak(vec![Either::Right(ace), Either::Right(ago)]);
    let input = "UNB+UNOC:3+A+B+200307:0705+REF'UNH+1+APERAK:D:07B:UN:2.1d'\
                 RFF+AGO:9904590000002ORD1583553607706'RFF+ACE:O1583553607732'\
                 UNT+3+1'UNZ+1+REF'";
    let matched = decode(vec![guide], input).unwrap();
    assert_eq!(matched.segments.len(), 6);
    let names: Vec<String> = matched
        .segments
        .iter()
        .map(|node| match node {
            Either::Right(segment) => segment.name.clone(),
            Either::Left(group) => group.name.clone(),
        })
        .collect();
    assert_eq!(names, vec!["UNB", "UNH", "second", "first", "UNT", "UNZ"]);
}

#[test]
fn qualifier_needs_a_name_and_a_usage_that_tell() {
    let value = raw("RFF+ACE:1'");
    assert!(matches_segment(&rff(one_of(&["AGO", "ACE"]), "Qualifier"), true, &value));
    assert!(!matches_segment(&rff(one_of(&["AGO", "ACW"]), "Qualifier"), true, &value));
    assert!(!matches_segment(&rff(one_of(&[]), "Qualifier"), true, &value));
    assert!(!matches_segment(&rff(fixed("ACE"), "QUALIFIER"), true, &value));
    assert!(!matches_segment(&rff(fixed("ACE"), "Art"), true, &value));
    assert!(!matches_segment(&rff(Usage::Text { comment: None }, "Qualifier"), true, &value));
    assert!(matches_segment(&rff(fixed("ACE"), "Art"), false, &value));
    let bare = segment(
        "0001",
        "RFF",
        1,
        vec![Either::Right(element(
            "qualifier",
            St::M,
            Format::Alpha(Size::Exactly),
            3,
            fixed("ACE"),
        ))],
    );
    assert!(matches_segment(&bare, true, &value));
    assert!(matches_segment(&bare, true, &raw("RFF+ACE'")));
    assert!(!matches_segment(&segment("0001", "RFF", 1, vec![]), true, &value));
    assert!(text("Segmentqualifier", St::M, 1).is_qualifier());
    assert!(text("Qualifier der Referenz", St::M, 1).is_qualifier());
    assert!(!text("Qualifer", St::M, 1).is_qualifier());
    assert!(!text("", St::M, 1).is_qualifier());
}

#[test]
fn group_starts_with_its_first_segment() {
    let inner = group("0070", "SG2", 1, vec![Either::Right(bgm())]);
    assert!(matches_segmentgroup(&inner, false, &raw("BGM+1+2'")));
    assert!(!matches_segmentgroup(&inner, false, &raw("DTM+1+2'")));
    assert!(!matches_segmentgroup(&inner, true, &raw("BGM+1+2'")));
    let empty = group("0070", "SG2", 1, vec![]);
    assert!(!matches_segmentgroup(&empty, false, &raw("BGM+1+2'")));
    let nested = group("0080", "SG3", 1, vec![Either::Left(inner)]);
    assert!(!matches_segmentgroup(&nested, false, &raw("BGM+1+2'")));
    assert_eq!(get_counter(&Either::Left(nested)), "0080");
    assert_eq!(get_counter(&Either::Right(bgm())), "0020");
}

fn stack(text: &str) -> Vec<RawSegment> {
    let mut segments = parse(text).unwrap().segments;
    segments.reverse();
    segments
}

fn dtm(counter: &str, max_reps: u64) -> SegmentDesc {
    segment(counter, "DTM", max_reps, vec![Either::Right(text("Datum", St::M, 8))])
}

#[test]
fn repeated_segment_stays_in_its_run() {
    let descs = vec![Either::Right(dtm("0010", 9)), Either::Right(bgm())];
    let mut raw_stack = stack("DTM+1'DTM+2'DTM+'BGM+1+2'DTM+3'");
    let (next, result) = matching(5, &descs, &mut raw_stack);
    assert_eq!(next, 9);
    assert_eq!(raw_stack.len(), 1);
    let errors = result.unwrap_err();
    assert_eq!(errors.len(), 1);
    assert_eq!(errors[0].pos, 7);
    assert_eq!(leaf(&errors[0].errors[0]), (0, 13));
}

#[test]
fn single_segment_leaves_its_run() {
    let descs = vec![Either::Right(dtm("0010", 1)), Either::Right(bgm())];
    let mut raw_stack = stack("DTM+1'DTM+2'BGM+1+2'");
    let (next, result) = matching(0, &descs, &mut raw_stack);
    assert_eq!(next, 1);
    assert_eq!(raw_stack.len(), 2);
    assert_eq!(raw_stack[1].tag.value, "DTM");
    let matches = result.unwrap();
    assert_eq!(matches.len(), 1);
}

#[test]
fn walk_over_nothing() {
    let descs = vec![Either::Right(bgm())];
    let mut raw_stack: Vec<RawSegment> = Vec::new();
    let (next, result) = matching(3, &descs, &mut raw_stack);
    assert_eq!(next, 3);
    assert!(result.unwrap().is_empty());
    let mut raw_stack = stack("BGM+1+2'");
    let (next, result) = matching(3, &Vec::new(), &mut raw_stack);
    assert_eq!(next, 3);
    assert!(result.unwrap().is_empty());
    assert_eq!(raw_stack.len(), 1);
}

fn members(group: &Segmentgroup) -> Vec<(String, usize)> {
    group
        .segments
        .iter()
        .map(|node| match node {
            Either::Right(segment) => (segment.tag.clone(), segment.index),
            Either::Left(inner) => (format!("[{}]", inner.label), 0),
        })
        .collect()
}

#[test]
fn group_takes_the_segment_that_chose_it() {
    let sg = group(
        "0050",
        "SG1",
        1,
        vec![
            Either::Right(segment("0051", "NAD", 1, vec![Either::Right(text("Id", St::M, 3))])),
            Either::Right(segment("0052", "CTA", 1, vec![Either::Right(text("Id", St::M, 3))])),
        ],
    );
    let descs = vec![Either::Left(sg)];
    let mut raw_stack = stack("NAD+MS'CTA+IC'");
    let (next, result) = matching(0, &descs, &mut raw_stack);
    assert!(raw_stack.is_empty());
    assert_eq!(next, 2);
    let matches = result.unwrap();
    assert_eq!(matches.len(), 1);
    match &matches[0] {
        Either::Left(matched) => {
            assert_eq!(members(matched), vec![("NAD".to_string(), 0), ("CTA".to_string(), 1)]);
        }
        Either::Right(_) => panic!("a group was expected"),
    }
}

#[test]
fn group_is_walked_again_for_each_segment_that_chooses_it() {
    let sg = group(
        "0050",
        "SG1",
        9,
        vec![
            Either::Right(segment("0051", "NAD", 1, vec![Either::Right(text("Id", St::M, 3))])),
            Either::Right(dtm("0052", 1)),
        ],
    );
    let descs = vec![Either::Left(sg), Either::Right(bgm())];
    let mut raw_stack = stack("NAD+A'NAD+B'DTM+1'BGM+1+2'");
    let (next, result) = matching(1, &descs, &mut raw_stack);
    assert!(raw_stack.is_empty());
    assert_eq!(next, 5);
    let matches = result.unwrap();
    assert_eq!(matches.len(), 3);
    match &matches[0] {
        Either::Left(matched) => {
            assert_eq!(matched.label, "SG1");
            assert_eq!(matched.counter, "0050");
            assert_eq!(matched.max_reps, 9);
            assert_eq!(matched.comment.as_deref(), Some("a group"));
            assert_eq!(members(matched), vec![("NAD".to_string(), 1)]);
        }
        Either::Right(_) => panic!("a group was expected"),
    }
    match &matches[1] {
        Either::Left(matched) => {
            assert_eq!(members(matched), vec![("NAD".to_string(), 2), ("DTM".to_string(), 3)]);
        }
        Either::Right(_) => panic!("a group was expected"),
    }
    match &matches[2] {
        Either::Right(matched) => assert_eq!((matched.tag.as_str(), matched.index), ("BGM", 4)),
        Either::Left(_) => panic!("a segment was expected"),
    }
}

#[test]
fn group_whose_body_takes_nothing_ends_its_run() {
    let sg = group(
        "0050",
        "SG1",
        9,
        vec![
            Either::Right(rff(fixed("ACE"), "Referenz, Qualifier")),
            Either::Right(rff(fixed("AGO"), "Referenz, Qualifier")),
        ],
    );
    let descs = vec![Either::Left(sg), Either::Right(dtm("0070", 1))];
    let mut raw_stack = stack("RFF+XXX:1'DTM+1'");
    let (next, result) = matching(4, &descs, &mut raw_stack);
    assert_eq!(next, 4);
    assert_eq!(raw_stack.len(), 2);
    assert_eq!(raw_stack[1].tag.value, "RFF");
    assert!(result.unwrap().is_empty());
    let mut raw_stack = stack("RFF+AGO:1'RFF+XXX:1'DTM+1'");
    let (next, result) = matching(4, &descs, &mut raw_stack);
    assert_eq!(next, 5);
    assert_eq!(raw_stack.len(), 2);
    let matches = result.unwrap();
    assert_eq!(matches.len(), 1);
    match &matches[0] {
        Either::Left(matched) => assert_eq!(members(matched), vec![("RFF".to_string(), 4)]),
        Either::Right(_) => panic!("a group was expected"),
    }
}

#[test]
fn errors_of_a_group_are_those_of_the_walk() {
    let sg = group("0050", "SG1", 1, vec![Either::Right(dtm("0051", 1))]);
    let descs = vec![Either::Left(sg), Either::Right(bgm())];
    let mut raw_stack = stack("DTM+1'DTM+'FTX+1'");
    let (next, result) = matching(0, &descs, &mut raw_stack);
    assert_eq!(next, 2);
    assert_eq!(raw_stack.len(), 1);
    let errors = result.unwrap_err();
    assert_eq!(errors.len(), 1);
    assert_eq!(errors[0].pos, 1);
    assert_eq!(leaf(&errors[0].errors[0]), (0, 13));
}

#[test]
fn segments_that_are_left_are_no_error() {
    let input = format!("{}FTX+x'", BODY);
    let matched = decode(vec![aperak(vec![Either::Right(bgm())])], &input).unwrap();
    assert_eq!(matched.segments.len(), 5);
    let matched = decode(vec![aperak(vec![Either::Right(bgm())])], "FTX+x'").unwrap();
    assert!(matched.segments.is_empty());
}

#[test]
fn errors_of_segments_are_gathered_in_one_message_error() {
    let input = "UNB+UNOC:3+A+B+200307:0705+'UNH+1+APERAK:D:07B:UN:2.1d'BGM+3133+X'UNT+3+1'UNZ+1+REF+Z'";
    let error = match decode(vec![aperak(vec![Either::Right(bgm())])], input) {
        Err(Error::Mig(error)) => error,
        other => panic!("an error of matching was expected: {:?}", other),
    };
    assert_eq!(error.pos, 0);
    assert!(error.service_segment_error.is_none());
    assert_eq!(error.message_errors.len(), 1);
    let message = &error.message_errors[0];
    assert_eq!(message.pos, 0);
    assert!(message.service_segment_error.is_none());
    let found: Vec<(usize, Option<u64>, usize)> = message
        .segment_errors
        .iter()
        .map(|e| (e.pos, e.syntax_error.map(|s| s.get_code()), e.errors.len()))
        .collect();
    assert_eq!(found, vec![(0, None, 1), (2, None, 1), (4, Some(16), 0)]);
}

#[test]
fn text_that_is_no_interchange_is_a_parse_error() {
    match decode(vec![aperak(vec![])], "UNB+1") {
        Err(Error::Parse(error)) => {
            assert_eq!(error.position.column, 6);
            assert_eq!(error.unexpected, None);
        }
        other => panic!("a parse error was expected: {:?}", other),
    }
    match decode(vec![aperak(vec![])], "UNB") {
        Err(Error::Parse(_)) => {}
        other => panic!("a parse error was expected: {:?}", other),
    }
}

#[test]
fn only_the_first_description_is_used() {
    let mut other = aperak(vec![]);
    other.unb.tag = "XXX".to_string();
    let matched = decode(vec![aperak(vec![Either::Right(bgm())]), other], BODY).unwrap();
    assert_eq!(matched.segments.len(), 5);
}

#[test]
fn segments_are_numbered_as_they_are_taken() {
    let sg = group("0050", "SG1", 99, vec![Either::Right(dtm("0051", 1))]);
    let guide = aperak(vec![Either::Left(sg)]);
    let mut input = String::from("UNB+UNOC:3+A+B+200307:0705+REF'UNH+1+APERAK:D:07B:UN:2.1d'");
    for _ in 0..70 {
        input.push_str("DTM+1'DTM+2'");
    }
    input.push_str("UNT+3+1'UNZ+1+REF'");
    let matched = decode(vec![guide.clone()], &input).unwrap();
    assert_eq!(matched.segments.len(), 2 + 140 + 2);
    let indices: Vec<usize> = matched
        .segments
        .iter()
        .map(|node| match node {
            Either::Left(group) => {
                assert_eq!(group.segments.len(), 1);
                match &group.segments[0] {
                    Either::Right(segment) => segment.index,
                    Either::Left(_) => panic!("a segment was expected"),
                }
            }
            Either::Right(segment) => segment.index,
        })
        .collect();
    assert_eq!(indices, (0..144).collect::<Vec<usize>>());
    let matched = match_interchange(&guide, parse(&input).unwrap()).unwrap();
    assert_eq!(matched.segments.len(), 144);
}

#[test]
fn catalogue_of_syntax_errors() {
    let all = [
        (SyntaxError::syntax_version_or_level_not_supported(), 2),
        (SyntaxError::receiver_is_not_actual_receiver(), 7),
        (SyntaxError::invalid_value(), 12),
        (SyntaxError::missing(), 13),
        (SyntaxError::not_supported_at_this_position(), 15),
        (SyntaxError::too_many_parts(), 16),
        (SyntaxError::invalid_service_chars(), 20),
        (SyntaxError::invalid_characters(), 21),
        (SyntaxError::unknown_sender(), 23),
        (SyntaxError::test_not_supported(), 25),
        (SyntaxError::duplicate_found(), 26),
        (SyntaxError::references_not_equal(), 28),
        (SyntaxError::counter_not_equal(), 29),
        (SyntaxError::lower_levels_empty(), 32),
        (SyntaxError::too_many_segment_repetitions(), 35),
        (SyntaxError::too_many_segmentgroup_repetitions(), 36),
        (SyntaxError::invalid_format(), 37),
        (SyntaxError::missing_digit_in_front_of_decimal(), 38),
        (SyntaxError::data_element_too_long(), 39),
        (SyntaxError::data_element_too_short(), 40),
    ];
    for (error, code) in all {
        assert_eq!(error.get_code(), code);
        assert!(!error.get_name().is_empty());
        assert!(error.get_message().starts_with("Mitteilung, dass "));
    }
    assert_eq!(SyntaxError::missing().get_name(), "Fehlt");
    assert_eq!(SyntaxError::invalid_value().get_name(), "Ung\u{fc}ltiger Wert");
    assert_eq!(SyntaxError::too_many_parts().get_name(), "Zuviele Bestandteile");
    assert_eq!(
        SyntaxError::too_many_segment_repetitions().get_message(),
        "Mitteilung, dass ein Segment zu oft wiederholt wurde"
    );
    assert_eq!(
        SyntaxError::lower_levels_empty().get_message(),
        "Mitteilung, dass die \u{dc}bertragungsdatei keine Nachrichtenenthielt."
    );
    let error = DataElementError::new(3, SyntaxError::missing());
    assert_eq!((error.pos, error.syntax_error.get_code()), (3, 13));
    let error = CompositeError::syntax_error(5, SyntaxError::too_many_parts());
    assert_eq!(error.pos, 5);
    assert_eq!(error.syntax_error.map(|e| e.get_code()), Some(16));
    assert!(error.errors.is_empty());
}

#[test]
fn status_classes() {
    let classes = [
        (St::M, true, false, false),
        (St::R, true, false, false),
        (St::O, false, true, false),
        (St::D, false, true, false),
        (St::C, false, true, false),
        (St::N, false, false, true),
    ];
    for (st, required, optional, not_used) in classes {
        assert_eq!(st.is_required(), required);
        assert_eq!(st.is_optional(), optional);
        assert_eq!(st.is_not_used(), not_used);
    }
}

#[test]
fn format_codes() {
    let codes = [
        ("an", Format::Alphanumeric(Size::Exactly)),
        ("an..", Format::Alphanumeric(Size::AtMost)),
        ("a", Format::Alpha(Size::Exactly)),
        ("a..", Format::Alpha(Size::AtMost)),
        ("n", Format::Numeric(Size::Exactly)),
        ("n..", Format::Numeric(Size::AtMost)),
    ];
    for (code, format) in codes {
        assert_eq!(Format::from_code(code), Some(format));
        assert_eq!(format.as_code(), code);
    }
    for code in ["", "an.", "AN", "n...", "x", " an"] {
        assert_eq!(Format::from_code(code), None);
    }
}
