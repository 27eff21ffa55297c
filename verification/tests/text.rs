use edifact::mig::decode::parser::parse;
use edifact::mig::decode::parser::value::{Expected, ParseError, Position, UNA};
use edifact::mig::decode::Error;
use edifact::mig::error::{DataElementError, InterchangeError, SyntaxError};
use edifact::mig::guide::{
    is_part_of_footer, is_part_of_message_structure_header, message_structure, start_of,
};
use edifact::text::{chars_of, contains, equal, starts_with, trim, trim_start};

#[test]
fn una_as_text() {
    assert_eq!(UNA::default().to_string(), "UNA:+.? '");
    assert_eq!(UNA::new(';', '*', ',', '!', '\n', '#').to_string(), "UNA;*,!\n#");
    let una = UNA::new('a', 'b', 'c', 'd', 'e', 'f');
    assert_eq!(parse(&format!("{}UNBbXf", una.to_string())).unwrap().una, una);
}

#[test]
fn syntax_error_as_text() {
    assert_eq!(
        SyntaxError::missing().to_string(),
        "13: Fehlt\n\nMitteilung, dass ein mit M oder R gekennzeichnetes Service-oder \
         Nutzdaten-Segment, Datenelement, eineDatenelementgruppe oderein Gruppendatenelement \
         fehlt."
    );
    assert_eq!(
        SyntaxError::syntax_version_or_level_not_supported().to_string(),
        "2: Syntax-Version oder -ebene nicht unterst\u{fc}tzt\n\nMitteilung, dass die \
         Syntax-Version und/oder -ebene vomEmpf\u{e4}nger nicht unterst\u{fc}tzt wird."
    );
    let text = SyntaxError::data_element_too_short().to_string();
    assert!(text.starts_with("40: Datenelement zu lang\n\n"));
}

#[test]
fn data_element_error_as_text() {
    let error = DataElementError::new(120, SyntaxError::too_many_segment_repetitions());
    assert_eq!(
        error.to_string(),
        "120:35: Zu viele Segment-Wiederholungen\n\nMitteilung, dass ein Segment zu oft \
         wiederholt wurde"
    );
    let error = DataElementError::new(0, SyntaxError::missing());
    assert!(error.to_string().starts_with("0:13: Fehlt\n\n"));
}

#[test]
fn parse_error_as_text() {
    let error = parse("UNB+1'\nUNZ'").unwrap_err();
    assert_eq!(
        error.to_string(),
        "Parse error at line: 2, column: 4\nUnexpected `'`\nExpected the element separator\n"
    );
    let error = parse("UNB+1?").unwrap_err();
    assert_eq!(
        error.to_string(),
        "Parse error at line: 1, column: 7\nUnexpected end of input\nExpected a character \
         behind the escape character\n"
    );
    let error = ParseError {
        position: Position { line: -12, column: 2147483647 },
        unexpected: Some('x'),
        expected: Expected::Separator,
    };
    assert_eq!(
        error.to_string(),
        "Parse error at line: -12, column: 2147483647\nUnexpected `x`\nExpected a separator\n"
    );
    let error = ParseError {
        position: Position { line: i32::MIN, column: 0 },
        unexpected: None,
        expected: Expected::ComponentSeparator,
    };
    assert_eq!(
        error.to_string(),
        "Parse error at line: -2147483648, column: 0\nUnexpected end of input\nExpected the \
         component separator\n"
    );
}

#[test]
fn decode_error_as_text() {
    let error = Error::from(parse("UNB").unwrap_err());
    assert!(matches!(error, Error::Parse(_)));
    assert_eq!(
        error.to_string(),
        "Parse error at line: 1, column: 4\nUnexpected end of input\nExpected the element \
         separator\n"
    );
    let error = Error::from(InterchangeError {
        pos: 0,
        service_segment_error: None,
        message_errors: Vec::new(),
    });
    assert!(matches!(error, Error::Mig(_)));
    assert_eq!(error.to_string(), "");
}

#[test]
fn headers_of_the_message_structure() {
    assert!(is_part_of_message_structure_header("Nachrichtenstruktur"));
    assert!(is_part_of_message_structure_header("   Nachrichtenstruktur APERAK"));
    assert!(is_part_of_message_structure_header("\tZ\u{e4}hler   Nr   Bez"));
    assert!(is_part_of_message_structure_header("Status   MaxWdh"));
    assert!(is_part_of_message_structure_header("  Status Standard MaxWdh BDEW"));
    assert!(!is_part_of_message_structure_header("Status"));
    assert!(!is_part_of_message_structure_header("MaxWdh Status"));
    assert!(!is_part_of_message_structure_header("0010 1 UNH"));
    assert!(!is_part_of_message_structure_header(""));
    assert!(!is_part_of_message_structure_header("Die Nachrichtenstruktur"));
}

#[test]
fn footer_of_a_page() {
    for line in [
        "Z\u{e4}hler = Nummer der Segmente",
        "  Bez = Objekt-Bezeichner  ",
        "Nr = Laufende Segmentnummer",
        "MaxWdh = Maximale Wiederholung",
        "EDI@Energy APERAK",
        "Version: 2.1d",
        "UTILMD-Anwendungshandbuch",
        "Strom",
        "  Strom \t",
    ] {
        assert!(is_part_of_footer(line), "{}", line);
    }
    for line in ["", "Strom und Gas", "Z\u{e4}hler", "Bez", "0010 1 UNH", "Die Version"] {
        assert!(!is_part_of_footer(line), "{}", line);
    }
}

#[test]
fn lines_of_the_message_structure_are_joined() {
    let lines: Vec<String> = [
        "Nachrichtenstruktur",
        "  Z\u{e4}hler  Nr  Bez  St  MaxWdh",
        "0010  1  UNH  M  1  Nachrichten-Kopfsegment",
        "   0020  2  BGM  M  1  Beginn der",
        "         Nachricht",
        "",
        "Bez = Objekt-Bezeichner",
        "BDEW Bundesverband",
        "EDI@Energy APERAK",
        "0030  3  DTM  M  1  Datum",
        "   ",
    ]
    .iter()
    .map(|l| l.to_string())
    .collect();
    assert_eq!(
        message_structure(&lines),
        "\n0010  1  UNH  M  1  Nachrichten-Kopfsegment\n0020  2  BGM  M  1  Beginn der \
         Nachricht\n0030  3  DTM  M  1  Datum"
    );
    assert_eq!(message_structure(&Vec::new()), "");
    assert_eq!(message_structure(&vec!["x".to_string(), "y".to_string()]), " x y");
}

#[test]
fn helpers_on_text() {
    assert!(contains("Segmentqualifier", "qualifier"));
    assert!(contains("abc", ""));
    assert!(contains("", ""));
    assert!(!contains("", "a"));
    assert!(!contains("abc", "abcd"));
    assert!(contains("aab", "ab"));
    assert!(equal("an..", "an.."));
    assert!(!equal("an..", "an."));
    assert!(!equal("a", "b"));
    let line = chars_of(" \t a b \n");
    assert_eq!(trim_start(&line), chars_of("a b \n"));
    assert_eq!(trim(&line), chars_of("a b"));
    assert_eq!(trim(&chars_of("  \u{a0} ")), chars_of(""));
    assert_eq!(trim(&chars_of("")), chars_of(""));
    assert!(starts_with(&chars_of("Status x"), "Status"));
    assert!(starts_with(&chars_of("Status"), ""));
    assert!(!starts_with(&chars_of("Stat"), "Status"));
    assert!(!starts_with(&chars_of("xStatus"), "Status"));
}

#[test]
fn test_start_of() {
    let input = chars_of(" [my_section]\n");
    assert_eq!(start_of("[my_section]", &input), Some(input.len()));
    assert_eq!(start_of("[my_section]", &input), Some(14));
}

#[test]
fn section_starts_behind_its_heading() {
    let at = |name: &str, text: &str| start_of(name, &chars_of(text));
    assert_eq!(at("Diagramm", "Diagramm\nx"), Some(9));
    assert_eq!(at("Diagramm", " \t\r\n\n  Diagramm\r\nx"), Some(17));
    assert_eq!(at("Diagramm", "Diagramm"), None);
    assert_eq!(at("Diagramm", "Diagramm \n"), None);
    assert_eq!(at("Diagramm", "Diagramm\r"), None);
    assert_eq!(at("Diagramm", "Diagramm\rx"), None);
    assert_eq!(at("Diagramm", "Das Diagramm\n"), None);
    assert_eq!(at("Diagramm", "Diagram\n"), None);
    assert_eq!(at("Diagramm", ""), None);
    assert_eq!(at("", "\n"), None);
    assert_eq!(at("", " \nx\n"), None);
    assert_eq!(at("", "  x\n"), None);
    assert_eq!(at(" x", " x\n"), None);
    assert_eq!(at("\u{c4}nderungshistorie", "\n\u{c4}nderungshistorie\n"), Some(19));
}
