//! This module contains types for errors, which may happen during parsing and
//! matching of messages.
use crate::mig::either::Either;
use crate::text::{decimal, push_decimal, push_text, views};
use vstd::prelude::*;

verus! {

/// A `SyntaxError` is one of the error codes defined in a CONTRL message: a
/// code with its short name and its long message. Only the errors of the
/// catalogue exist.
#[derive(Clone, Copy, Debug)]
pub struct SyntaxError {
    code: u64,
    name: &'static str,
    message: &'static str,
}

impl SyntaxError {
    /// Whether the catalogue defines an error of the code `code`.
    pub open spec fn defined(code: u64) -> bool {
        code == 2
        || code == 7
        || code == 12
        || code == 13
        || code == 15
        || code == 16
        || code == 20
        || code == 21
        || code == 23
        || code == 25
        || code == 26
        || code == 28
        || code == 29
        || code == 32
        || code == 35
        || code == 36
        || code == 37
        || code == 38
        || code == 39
        || code == 40
    }

    /// The short name of the error of the code `code`.
    pub open spec fn name_text(code: u64) -> &'static str {
        if code == 2 {
            "Syntax-Version oder -ebene nicht unterstützt"
        }         else if code == 7 {
            "Empfänger der Übertragungsdatei ist nicht der tatsächliche Empfänger"
        }         else if code == 12 {
            "Ungültiger Wert"
        }         else if code == 13 {
            "Fehlt"
        }         else if code == 15 {
            "Nicht unterstützt an dieser Position"
        }         else if code == 16 {
            "Zuviele Bestandteile"
        }         else if code == 20 {
            "Zeichen ungültig als Service-Zeichen"
        }         else if code == 21 {
            "Ungültige(s) Zeichen"
        }         else if code == 23 {
            "Ungültige(s) Zeichen"
        }         else if code == 25 {
            "Test-Kennzeichen nicht unterstützt"
        }         else if code == 26 {
            "Duplikat gefunden"
        }         else if code == 28 {
            "Referenzen stimmen nicht überein"
        }         else if code == 29 {
            "Kontrollzähler entspricht nicht der Anzahlempfangender Fälle"
        }         else if code == 32 {
            "Tiefere Ebene leer"
        }         else if code == 35 {
            "Zu viele Segment-Wiederholungen"
        }         else if code == 36 {
            "Zu viele Segmentgruppen-Wiederholungen"
        }         else if code == 37 {
            "Ungültige Zeichenart"
        }         else if code == 38 {
            "Fehlende Ziffer vor dem Dezimalzeichen"
        }         else if code == 39 {
            "Datenelement zu lang"
        }         else if code == 40 {
            "Datenelement zu lang"
        } else {
            ""
        }
    }

    /// The long message of the error of the code `code`.
    pub open spec fn message_text(code: u64) -> &'static str {
        if code == 2 {
            "Mitteilung, dass die Syntax-Version und/oder -ebene vomEmpfänger nicht unterstützt wird."
        }         else if code == 7 {
            "Mitteilung, dass der Empfänger der Übertragungsdatei(S003) vom tatsächlichen Empfänger abweicht."
        }         else if code == 12 {
            "Mitteilung, dass der Wert eines einfachen Datenelements, einer Datenelementgruppe oder eines Gruppendatenelements nicht den entsprechendenSpezifikationen entspricht."
        }         else if code == 13 {
            "Mitteilung, dass ein mit M oder R gekennzeichnetes Service-oder Nutzdaten-Segment, Datenelement, eineDatenelementgruppe oderein Gruppendatenelement fehlt."
        }         else if code == 15 {
            "Mitteilung, dass der Empfänger die Verwendung des Typs von Segment, an der identifizierten Position nicht unterstützt."
        }         else if code == 16 {
            "Mitteilung, dass das identifizierte Segment zu vieleDatenelemente oder Datenelementgruppen enthält."
        }         else if code == 20 {
            "Mitteilung, dass ein im UNA angezeigtes Zeichen als Service-Zeichen ungültig ist."
        }         else if code == 21 {
            "Mitteilung, dass ein oder mehrere in der Übertragungsdateiverwendete Zeichen nach der definierten Syntax-Ebene imSegment UNB ungültig sind. Das ungültige Zeichen ist Teilder Bezugsebene oder folgt unmittelbar dem identifizierten Teil der Übertragungsdatei."
        }         else if code == 23 {
            "Mitteilung, dass ein oder mehrere in der Übertragungsdateiverwendete Zeichen nach der definierten Syntax-Ebene imSegment UNB ungültig sind. Das ungültige Zeichen ist Teilder Bezugsebene oder folgt unmittelbar dem identifizierten Teil der Übertragungsdatei."
        }         else if code == 25 {
            "Mitteilung, dass die Test-Verarbeitung für die angegebene Übertragungsdatei, Nachrichtengruppe oder Nachricht nichtdurchgeführt werden konnte."
        }         else if code == 26 {
            "Mitteilung, dass ein mögliches Duplikat einer früherempfangenen Übertragungsdatei gefunden wurde. Diefrühere Übertragung kann zurückgewiesen worden sein (Datenaustauschreferenz des Absenders bei Empfängerbereits bekannt)."
        }         else if code == 28 {
            "Mitteilung, dass die Prüfreferenzen im Segment UNB nicht denen in den Segment UNZ entsprechen."
        }         else if code == 29 {
            "Mitteilung, dass die Anzahl der Nachrichten nichtder imSegment UNZ angegebenen Anzahl entspricht."
        }         else if code == 32 {
            "Mitteilung, dass die Übertragungsdatei keine Nachrichtenenthielt."
        }         else if code == 35 {
            "Mitteilung, dass ein Segment zu oft wiederholt wurde"
        }         else if code == 36 {
            "Mitteilung, dass eine Segmentgruppe zu oft wiederholt wurde."
        }         else if code == 37 {
            "Mitteilung, dass ein oder mehrere numerische Zeichen in einem alphabetischen (Gruppen-)Datenelement oder einoder mehrere alphabetische Zeichen in einem numerischen (Gruppen-)Datenelement verwendet wurden."
        }         else if code == 38 {
            "Mitteilung, dass vor einem Dezimalzeichen nicht eine oder mehrere Ziffern stehen."
        }         else if code == 39 {
            "Mitteilung, dass die Länge eines empfangenen Datenelements die maximale Länge nach derDatenelementbeschreibung überschreitet."
        }         else if code == 40 {
            "Mitteilung, dass die Länge eines empfangenen Datenelements die maximale Länge nach der Datenelementbeschreibung überschreitet."
        } else {
            ""
        }
    }

    /// The error of the code `code`, for a code that the catalogue defines.
    pub closed spec fn of(code: u64) -> SyntaxError {
        SyntaxError { code, name: Self::name_text(code), message: Self::message_text(code) }
    }

    /// The code of this error.
    pub closed spec fn code(self) -> u64 {
        self.code
    }

    /// The short name of this error.
    pub closed spec fn name(self) -> Seq<char> {
        self.name@
    }

    /// The long message of this error.
    pub closed spec fn message(self) -> Seq<char> {
        self.message@
    }

    /// Every error is one of the catalogue.
    #[verifier::type_invariant]
    closed spec fn in_catalogue(self) -> bool {
        Self::defined(self.code) && self == Self::of(self.code)
    }

    /// The catalogue's error of a code has that code, and the name and the
    /// message that the catalogue gives for it.
    pub proof fn lemma_of(code: u64)
        ensures
            Self::of(code).code() == code,
            Self::of(code).name() == Self::name_text(code)@,
            Self::of(code).message() == Self::message_text(code)@,
    {
    }

    /// The syntax version or level is not supported by the receiver.
    pub fn syntax_version_or_level_not_supported() -> (r: Self)
        ensures
            r == Self::of(2),
            r.code() == 2,
    {
        SyntaxError {
            code: 2,
            name: "Syntax-Version oder -ebene nicht unterstützt",
            message: "Mitteilung, dass die Syntax-Version und/oder -ebene vomEmpfänger nicht unterstützt wird.",
        }
    }

    /// The receiver named in the interchange is not the one that got it.
    pub fn receiver_is_not_actual_receiver() -> (r: Self)
        ensures
            r == Self::of(7),
            r.code() == 7,
    {
        SyntaxError {
            code: 7,
            name: "Empfänger der Übertragungsdatei ist nicht der tatsächliche Empfänger",
            message: "Mitteilung, dass der Empfänger der Übertragungsdatei(S003) vom tatsächlichen Empfänger abweicht.",
        }
    }

    /// A value does not meet its specification.
    pub fn invalid_value() -> (r: Self)
        ensures
            r == Self::of(12),
            r.code() == 12,
    {
        SyntaxError {
            code: 12,
            name: "Ungültiger Wert",
            message: "Mitteilung, dass der Wert eines einfachen Datenelements, einer Datenelementgruppe oder eines Gruppendatenelements nicht den entsprechendenSpezifikationen entspricht.",
        }
    }

    /// A mandatory or required part is missing.
    pub fn missing() -> (r: Self)
        ensures
            r == Self::of(13),
            r.code() == 13,
    {
        SyntaxError {
            code: 13,
            name: "Fehlt",
            message: "Mitteilung, dass ein mit M oder R gekennzeichnetes Service-oder Nutzdaten-Segment, Datenelement, eineDatenelementgruppe oderein Gruppendatenelement fehlt.",
        }
    }

    /// The receiver does not support this kind of segment at this position.
    pub fn not_supported_at_this_position() -> (r: Self)
        ensures
            r == Self::of(15),
            r.code() == 15,
    {
        SyntaxError {
            code: 15,
            name: "Nicht unterstützt an dieser Position",
            message: "Mitteilung, dass der Empfänger die Verwendung des Typs von Segment, an der identifizierten Position nicht unterstützt.",
        }
    }

    /// A segment or composite holds more parts than are described.
    pub fn too_many_parts() -> (r: Self)
        ensures
            r == Self::of(16),
            r.code() == 16,
    {
        SyntaxError {
            code: 16,
            name: "Zuviele Bestandteile",
            message: "Mitteilung, dass das identifizierte Segment zu vieleDatenelemente oder Datenelementgruppen enthält.",
        }
    }

    /// A character announced in the UNA is no valid service character.
    pub fn invalid_service_chars() -> (r: Self)
        ensures
            r == Self::of(20),
            r.code() == 20,
    {
        SyntaxError {
            code: 20,
            name: "Zeichen ungültig als Service-Zeichen",
            message: "Mitteilung, dass ein im UNA angezeigtes Zeichen als Service-Zeichen ungültig ist.",
        }
    }

    /// A character is not valid at the syntax level of the interchange.
    pub fn invalid_characters() -> (r: Self)
        ensures
            r == Self::of(21),
            r.code() == 21,
    {
        SyntaxError {
            code: 21,
            name: "Ungültige(s) Zeichen",
            message: "Mitteilung, dass ein oder mehrere in der Übertragungsdateiverwendete Zeichen nach der definierten Syntax-Ebene imSegment UNB ungültig sind. Das ungültige Zeichen ist Teilder Bezugsebene oder folgt unmittelbar dem identifizierten Teil der Übertragungsdatei.",
        }
    }

    /// The sender of the interchange is not known.
    pub fn unknown_sender() -> (r: Self)
        ensures
            r == Self::of(23),
            r.code() == 23,
    {
        SyntaxError {
            code: 23,
            name: "Ungültige(s) Zeichen",
            message: "Mitteilung, dass ein oder mehrere in der Übertragungsdateiverwendete Zeichen nach der definierten Syntax-Ebene imSegment UNB ungültig sind. Das ungültige Zeichen ist Teilder Bezugsebene oder folgt unmittelbar dem identifizierten Teil der Übertragungsdatei.",
        }
    }

    /// Test processing could not be done for the interchange or message.
    pub fn test_not_supported() -> (r: Self)
        ensures
            r == Self::of(25),
            r.code() == 25,
    {
        SyntaxError {
            code: 25,
            name: "Test-Kennzeichen nicht unterstützt",
            message: "Mitteilung, dass die Test-Verarbeitung für die angegebene Übertragungsdatei, Nachrichtengruppe oder Nachricht nichtdurchgeführt werden konnte.",
        }
    }

    /// The interchange seems to repeat an earlier one.
    pub fn duplicate_found() -> (r: Self)
        ensures
            r == Self::of(26),
            r.code() == 26,
    {
        SyntaxError {
            code: 26,
            name: "Duplikat gefunden",
            message: "Mitteilung, dass ein mögliches Duplikat einer früherempfangenen Übertragungsdatei gefunden wurde. Diefrühere Übertragung kann zurückgewiesen worden sein (Datenaustauschreferenz des Absenders bei Empfängerbereits bekannt).",
        }
    }

    /// The control references of UNB and UNZ differ.
    pub fn references_not_equal() -> (r: Self)
        ensures
            r == Self::of(28),
            r.code() == 28,
    {
        SyntaxError {
            code: 28,
            name: "Referenzen stimmen nicht überein",
            message: "Mitteilung, dass die Prüfreferenzen im Segment UNB nicht denen in den Segment UNZ entsprechen.",
        }
    }

    /// The number of messages differs from the count in UNZ.
    pub fn counter_not_equal() -> (r: Self)
        ensures
            r == Self::of(29),
            r.code() == 29,
    {
        SyntaxError {
            code: 29,
            name: "Kontrollzähler entspricht nicht der Anzahlempfangender Fälle",
            message: "Mitteilung, dass die Anzahl der Nachrichten nichtder imSegment UNZ angegebenen Anzahl entspricht.",
        }
    }

    /// The interchange holds no message.
    pub fn lower_levels_empty() -> (r: Self)
        ensures
            r == Self::of(32),
            r.code() == 32,
    {
        SyntaxError {
            code: 32,
            name: "Tiefere Ebene leer",
            message: "Mitteilung, dass die Übertragungsdatei keine Nachrichtenenthielt.",
        }
    }

    /// A segment is repeated too often.
    pub fn too_many_segment_repetitions() -> (r: Self)
        ensures
            r == Self::of(35),
            r.code() == 35,
    {
        SyntaxError {
            code: 35,
            name: "Zu viele Segment-Wiederholungen",
            message: "Mitteilung, dass ein Segment zu oft wiederholt wurde",
        }
    }

    /// A segment group is repeated too often.
    pub fn too_many_segmentgroup_repetitions() -> (r: Self)
        ensures
            r == Self::of(36),
            r.code() == 36,
    {
        SyntaxError {
            code: 36,
            name: "Zu viele Segmentgruppen-Wiederholungen",
            message: "Mitteilung, dass eine Segmentgruppe zu oft wiederholt wurde.",
        }
    }

    /// A character is not of the class that the data element allows.
    pub fn invalid_format() -> (r: Self)
        ensures
            r == Self::of(37),
            r.code() == 37,
    {
        SyntaxError {
            code: 37,
            name: "Ungültige Zeichenart",
            message: "Mitteilung, dass ein oder mehrere numerische Zeichen in einem alphabetischen (Gruppen-)Datenelement oder einoder mehrere alphabetische Zeichen in einem numerischen (Gruppen-)Datenelement verwendet wurden.",
        }
    }

    /// No digit stands in front of a decimal mark.
    pub fn missing_digit_in_front_of_decimal() -> (r: Self)
        ensures
            r == Self::of(38),
            r.code() == 38,
    {
        SyntaxError {
            code: 38,
            name: "Fehlende Ziffer vor dem Dezimalzeichen",
            message: "Mitteilung, dass vor einem Dezimalzeichen nicht eine oder mehrere Ziffern stehen.",
        }
    }

    /// A data element is longer than described.
    pub fn data_element_too_long() -> (r: Self)
        ensures
            r == Self::of(39),
            r.code() == 39,
    {
        SyntaxError {
            code: 39,
            name: "Datenelement zu lang",
            message: "Mitteilung, dass die Länge eines empfangenen Datenelements die maximale Länge nach derDatenelementbeschreibung überschreitet.",
        }
    }

    /// A data element is shorter than described.
    pub fn data_element_too_short() -> (r: Self)
        ensures
            r == Self::of(40),
            r.code() == 40,
    {
        SyntaxError {
            code: 40,
            name: "Datenelement zu lang",
            message: "Mitteilung, dass die Länge eines empfangenen Datenelements die maximale Länge nach der Datenelementbeschreibung überschreitet.",
        }
    }

    /// The code of this error, which is one of the catalogue.
    pub fn get_code(&self) -> (r: u64)
        ensures
            r == self.code(),
            Self::defined(r),
            *self == Self::of(r),
    {
        proof {
            use_type_invariant(self);
        }
        self.code
    }

    /// The short name of this error.
    pub fn get_name(&self) -> (r: &'static str)
        ensures
            r@ == self.name(),
            r@ == Self::name_text(self.code())@,
    {
        proof {
            use_type_invariant(self);
        }
        self.name
    }

    /// The text of the error of the code `code`: the code, the name, and
    /// behind an empty line the message.
    pub open spec fn text_of(code: u64) -> Seq<char> {
        decimal(code as nat) + ": "@ + Self::name_text(code)@ + "\n\n"@ + Self::message_text(
            code,
        )@
    }

    /// This error as text: its code, its name, and behind an empty line its
    /// message.
    pub fn to_string(&self) -> (r: String)
        ensures
            r@ == Self::text_of(self.code()),
    {
        proof {
            use_type_invariant(self);
        }
        let mut r = String::new();
        push_decimal(&mut r, self.code);
        push_text(&mut r, ": ");
        push_text(&mut r, self.name);
        push_text(&mut r, "\n\n");
        push_text(&mut r, self.message);
        assert(r@ =~= Self::text_of(self.code()));
        r
    }

    /// The long message of this error.
    pub fn get_message(&self) -> (r: &'static str)
        ensures
            r@ == self.message(),
            r@ == Self::message_text(self.code())@,
    {
        proof {
            use_type_invariant(self);
        }
        self.message
    }
}

/// A data element that broke a rule: its position among its siblings and the
/// rule it broke.
#[derive(Debug, Clone, Copy)]
pub struct DataElementError {
    pub pos: usize,
    pub syntax_error: SyntaxError,
}

impl View for DataElementError {
    type V = DataElementError;

    open spec fn view(&self) -> DataElementError {
        *self
    }
}

impl DataElementError {
    /// The error of the data element at the position `pos` that broke the
    /// rule `syntax_error`.
    pub fn new(pos: usize, syntax_error: SyntaxError) -> (r: Self)
        ensures
            r == (DataElementError { pos, syntax_error }),
    {
        DataElementError { pos, syntax_error }
    }

    /// This error as text: its position, a colon, and the text of the rule
    /// that was broken.
    pub fn to_string(&self) -> (r: String)
        ensures
            r@ == decimal(self.pos as nat) + ":"@ + SyntaxError::text_of(self.syntax_error.code()),
    {
        let mut r = String::new();
        push_decimal(&mut r, self.pos as u64);
        push_text(&mut r, ":");
        let rule = self.syntax_error.to_string();
        push_text(&mut r, rule.as_str());
        assert(r@ =~= decimal(self.pos as nat) + ":"@ + SyntaxError::text_of(
            self.syntax_error.code(),
        ));
        r
    }
}

/// A composite that broke a rule itself, or whose data elements did.
#[derive(Debug, Clone)]
pub struct CompositeError {
    pub pos: usize,
    pub syntax_error: Option<SyntaxError>,
    pub errors: Vec<DataElementError>,
}

/// What a `CompositeError` holds, as plain values.
pub struct CompositeErrorView {
    pub pos: usize,
    pub syntax_error: Option<SyntaxError>,
    pub errors: Seq<DataElementError>,
}

impl View for CompositeError {
    type V = CompositeErrorView;

    open spec fn view(&self) -> CompositeErrorView {
        CompositeErrorView {
            pos: self.pos,
            syntax_error: self.syntax_error,
            errors: self.errors@,
        }
    }
}

impl CompositeError {
    /// The error of a composite that broke the rule `syntax_error` itself.
    pub fn syntax_error(pos: usize, syntax_error: SyntaxError) -> (r: Self)
        ensures
            r@ == (CompositeErrorView {
                pos,
                syntax_error: Some(syntax_error),
                errors: Seq::<DataElementError>::empty(),
            }),
    {
        CompositeError { pos, syntax_error: Some(syntax_error), errors: Vec::new() }
    }
}

/// What went wrong in one element slot of a segment, as plain values.
pub type SlotError = Either<CompositeErrorView, DataElementError>;

/// A segment that broke a rule itself, or whose elements did.
#[derive(Debug, Clone)]
pub struct SegmentError {
    pub pos: usize,
    pub syntax_error: Option<SyntaxError>,
    pub errors: Vec<Either<CompositeError, DataElementError>>,
}

/// What a `SegmentError` holds, as plain values.
pub struct SegmentErrorView {
    pub pos: usize,
    pub syntax_error: Option<SyntaxError>,
    pub errors: Seq<SlotError>,
}

impl View for SegmentError {
    type V = SegmentErrorView;

    open spec fn view(&self) -> SegmentErrorView {
        SegmentErrorView {
            pos: self.pos,
            syntax_error: self.syntax_error,
            errors: views(self.errors@),
        }
    }
}

/// An error in a service segment, named by its tag.
#[derive(Debug, Clone)]
pub struct ServiceSegmentError {
    pub tag: String,
    pub error: Either<CompositeError, DataElementError>,
}

/// What a `ServiceSegmentError` holds, as plain values.
pub struct ServiceSegmentErrorView {
    pub tag: Seq<char>,
    pub error: SlotError,
}

impl View for ServiceSegmentError {
    type V = ServiceSegmentErrorView;

    open spec fn view(&self) -> ServiceSegmentErrorView {
        ServiceSegmentErrorView { tag: self.tag@, error: self.error@ }
    }
}

/// What an optional `ServiceSegmentError` holds, as plain values.
pub open spec fn opt_service_view(o: Option<ServiceSegmentError>) -> Option<
    ServiceSegmentErrorView,
> {
    match o {
        Some(e) => Some(e@),
        None => None,
    }
}

/// The errors of the segments of one message.
#[derive(Debug, Clone)]
pub struct MessageError {
    pub pos: usize,
    pub service_segment_error: Option<ServiceSegmentError>,
    pub segment_errors: Vec<SegmentError>,
}

/// What a `MessageError` holds, as plain values.
pub struct MessageErrorView {
    pub pos: usize,
    pub service_segment_error: Option<ServiceSegmentErrorView>,
    pub segment_errors: Seq<SegmentErrorView>,
}

impl View for MessageError {
    type V = MessageErrorView;

    open spec fn view(&self) -> MessageErrorView {
        MessageErrorView {
            pos: self.pos,
            service_segment_error: opt_service_view(self.service_segment_error),
            segment_errors: views(self.segment_errors@),
        }
    }
}

/// The errors of the messages of one interchange.
#[derive(Debug, Clone)]
pub struct InterchangeError {
    pub pos: usize,
    pub service_segment_error: Option<ServiceSegmentError>,
    pub message_errors: Vec<MessageError>,
}

/// What an `InterchangeError` holds, as plain values.
pub struct InterchangeErrorView {
    pub pos: usize,
    pub service_segment_error: Option<ServiceSegmentErrorView>,
    pub message_errors: Seq<MessageErrorView>,
}

impl View for InterchangeError {
    type V = InterchangeErrorView;

    open spec fn view(&self) -> InterchangeErrorView {
        InterchangeErrorView {
            pos: self.pos,
            service_segment_error: opt_service_view(self.service_segment_error),
            message_errors: views(self.message_errors@),
        }
    }
}

} // verus!
