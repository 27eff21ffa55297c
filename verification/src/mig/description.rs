//! This module contains data types, which represent the description of
//! EDIFACT messages in the subset edi@energy, which is used in the German
//! energy market.
//!
//! The specifications for the descriptions are published by the BDEW, usually
//! in a 6 month cycle. They are not machine readable; the data types in this
//! module formalize them.
use crate::mig::either::Either;
use crate::text::{contains, copy_opt, equal, has_substring, lemma_views_push, opt_text, views};
use vstd::prelude::*;

verus! {

/// The status of a segment (group), composite or data element.
#[derive(Eq, PartialEq, Debug, Clone, Copy, Structural)]
pub enum St {
    /// M (Mandatory) means that a data element is mandatory. A data element
    /// is considered missing, if it does not contain any characters. A
    /// composite is considered missing, if it does not contain any data
    /// elements. A segment is considered missing, if does not exist.
    M,
    /// R (Required) means, that the segment, composite or data element is
    /// required. The same rules, as with M apply.
    R,
    /// O (Optional) means, that the segment, composite or data element is not
    /// required.
    O,
    /// D (Dependent) means, that the status of a segment, composite or data
    /// element depends on the use case or another segment, composite or data
    /// element.
    D,
    /// C (Conditional) means, that the status of a segment, composite or data
    /// element depends on the use case or another segment, composite or data
    /// element.
    C,
    /// N (NotUsed) means, that the segment, composite or data element should
    /// not be used.
    N,
}

impl St {
    /// The status is one of O, C and D.
    pub open spec fn optional(&self) -> bool {
        *self == St::O || *self == St::C || *self == St::D
    }

    /// The status is one of M and R.
    pub open spec fn required(&self) -> bool {
        *self == St::R || *self == St::M
    }

    /// The status is N.
    pub open spec fn not_used(&self) -> bool {
        *self == St::N
    }

    /// Returns whether this `St` means, that the segment, composite or
    /// data element in question is optional.
    ///
    /// From the perspective of a MIG, that is the case, when it is either
    /// O, C or D.
    #[verifier::when_used_as_spec(optional)]
    pub fn is_optional(&self) -> (r: bool)
        ensures
            r == self.optional(),
    {
        *self == St::O || *self == St::C || *self == St::D
    }

    /// Returns, whether this `St` means, that the segment, composite, or
    /// data element in question is required.
    ///
    /// From the perspective of a MIG, that is the case, when it is either
    /// M or R.
    #[verifier::when_used_as_spec(required)]
    pub fn is_required(&self) -> (r: bool)
        ensures
            r == self.required(),
    {
        *self == St::R || *self == St::M
    }

    /// Returns, whether this `St` means, that the segment, composite, or
    /// data element in question shall not be used.
    ///
    /// From the perspective of a MIG, that is the case, when it is N. For
    /// data elements and composites, this means the content may be empty.
    /// For segments, it means it shall not exist.
    #[verifier::when_used_as_spec(not_used)]
    pub fn is_not_used(&self) -> (r: bool)
        ensures
            r == self.not_used(),
    {
        *self == St::N
    }
}

/// Whether a declared length is exact or an upper bound.
#[derive(Debug, Eq, PartialEq, Clone, Copy, Structural)]
pub enum Size {
    Exactly,
    AtMost,
}

/// The character class of a data element together with the kind of its
/// declared length.
#[derive(Debug, Eq, PartialEq, Clone, Copy, Structural)]
pub enum Format {
    Alphanumeric(Size),
    Alpha(Size),
    Numeric(Size),
}

impl Format {
    /// The format that the code `code` of a guide stands for: `an`, `a` and
    /// `n` are of exact length, `an..`, `a..` and `n..` are bounded.
    pub open spec fn of_code(code: Seq<char>) -> Option<Format> {
        if code == "an"@ {
            Some(Format::Alphanumeric(Size::Exactly))
        } else if code == "an.."@ {
            Some(Format::Alphanumeric(Size::AtMost))
        } else if code == "a"@ {
            Some(Format::Alpha(Size::Exactly))
        } else if code == "a.."@ {
            Some(Format::Alpha(Size::AtMost))
        } else if code == "n"@ {
            Some(Format::Numeric(Size::Exactly))
        } else if code == "n.."@ {
            Some(Format::Numeric(Size::AtMost))
        } else {
            None
        }
    }

    /// The code that stands for this format in a guide.
    pub open spec fn code(self) -> Seq<char> {
        match self {
            Format::Alphanumeric(Size::Exactly) => "an"@,
            Format::Alphanumeric(Size::AtMost) => "an.."@,
            Format::Alpha(Size::Exactly) => "a"@,
            Format::Alpha(Size::AtMost) => "a.."@,
            Format::Numeric(Size::Exactly) => "n"@,
            Format::Numeric(Size::AtMost) => "n.."@,
        }
    }

    /// The kind of length that this format declares.
    pub open spec fn size(self) -> Size {
        match self {
            Format::Alphanumeric(size) => size,
            Format::Alpha(size) => size,
            Format::Numeric(size) => size,
        }
    }

    /// Reads a format from its code in a guide. Any other text than the six
    /// codes is no format.
    pub fn from_code(code: &str) -> (r: Option<Format>)
        ensures
            r == Format::of_code(code@),
    {
        if equal(code, "an") {
            Some(Format::Alphanumeric(Size::Exactly))
        } else if equal(code, "an..") {
            Some(Format::Alphanumeric(Size::AtMost))
        } else if equal(code, "a") {
            Some(Format::Alpha(Size::Exactly))
        } else if equal(code, "a..") {
            Some(Format::Alpha(Size::AtMost))
        } else if equal(code, "n") {
            Some(Format::Numeric(Size::Exactly))
        } else if equal(code, "n..") {
            Some(Format::Numeric(Size::AtMost))
        } else {
            None
        }
    }

    /// Writes this format as its code in a guide.
    pub fn as_code(&self) -> (r: &'static str)
        ensures
            r@ == self.code(),
    {
        match self {
            Format::Alphanumeric(Size::Exactly) => "an",
            Format::Alphanumeric(Size::AtMost) => "an..",
            Format::Alpha(Size::Exactly) => "a",
            Format::Alpha(Size::AtMost) => "a..",
            Format::Numeric(Size::Exactly) => "n",
            Format::Numeric(Size::AtMost) => "n..",
        }
    }
}

/// One admissible value of a data element, with its meaning.
#[derive(Debug, Eq, PartialEq)]
pub struct Choice {
    pub value: String,
    pub semantics: Option<String>,
    pub comment: Option<String>,
}

/// What a `Choice` holds, as plain values.
pub struct ChoiceView {
    pub value: Seq<char>,
    pub semantics: Option<Seq<char>>,
    pub comment: Option<Seq<char>>,
}

impl View for Choice {
    type V = ChoiceView;

    open spec fn view(&self) -> ChoiceView {
        ChoiceView {
            value: self.value@,
            semantics: opt_text(self.semantics),
            comment: opt_text(self.comment),
        }
    }
}

impl Clone for Choice {
    fn clone(&self) -> (r: Self)
        ensures
            r@ == self@,
    {
        Choice {
            value: self.value.clone(),
            semantics: copy_opt(&self.semantics),
            comment: copy_opt(&self.comment),
        }
    }
}

/// How the value of a data element is to be read.
#[derive(Debug, Eq, PartialEq)]
pub enum Usage {
    Text { comment: Option<String> },
    Integer { comment: Option<String> },
    Decimal { comment: Option<String> },
    OneOf { choices: Vec<Choice>, comment: Option<String> },
    Static { value: Choice, comment: Option<String> },
}

/// What a `Usage` holds, as plain values.
pub enum UsageView {
    Text { comment: Option<Seq<char>> },
    Integer { comment: Option<Seq<char>> },
    Decimal { comment: Option<Seq<char>> },
    OneOf { choices: Seq<ChoiceView>, comment: Option<Seq<char>> },
    Static { value: ChoiceView, comment: Option<Seq<char>> },
}

impl View for Usage {
    type V = UsageView;

    open spec fn view(&self) -> UsageView {
        match self {
            Usage::Text { comment } => UsageView::Text { comment: opt_text(*comment) },
            Usage::Integer { comment } => UsageView::Integer { comment: opt_text(*comment) },
            Usage::Decimal { comment } => UsageView::Decimal { comment: opt_text(*comment) },
            Usage::OneOf { choices, comment } => UsageView::OneOf {
                choices: views(choices@),
                comment: opt_text(*comment),
            },
            Usage::Static { value, comment } => UsageView::Static {
                value: value@,
                comment: opt_text(*comment),
            },
        }
    }
}

/// A copy of the choices `v`.
fn copy_choices(v: &Vec<Choice>) -> (r: Vec<Choice>)
    ensures
        views(r@) == views(v@),
{
    let mut r: Vec<Choice> = Vec::new();
    let mut i: usize = 0;
    while i < v.len()
        invariant
            i <= v.len(),
            views(r@) == views(v@.take(i as int)),
        decreases v.len() - i,
    {
        let ghost before = r@;
        r.push(v[i].clone());
        proof {
            lemma_views_push(before, r@.last(), v@.take(i as int), v@[i as int]);
            assert(v@.take(i + 1) =~= v@.take(i as int).push(v@[i as int]));
            assert(r@ =~= before.push(r@.last()));
        }
        i = i + 1;
    }
    assert(v@.take(i as int) =~= v@);
    r
}

impl Clone for Usage {
    fn clone(&self) -> (r: Self)
        ensures
            r@ == self@,
    {
        match self {
            Usage::Text { comment } => Usage::Text { comment: copy_opt(comment) },
            Usage::Integer { comment } => Usage::Integer { comment: copy_opt(comment) },
            Usage::Decimal { comment } => Usage::Decimal { comment: copy_opt(comment) },
            Usage::OneOf { choices, comment } => Usage::OneOf {
                choices: copy_choices(choices),
                comment: copy_opt(comment),
            },
            Usage::Static { value, comment } => Usage::Static {
                value: value.clone(),
                comment: copy_opt(comment),
            },
        }
    }
}

/// A description, representing a data element as defined in a message
/// integration guide.
///
/// # Example
///
/// The following example has been taken from the UCI segment in the CONTRL
/// MIG.
///
/// ```text
/// 0020 | Datenaustauschreferenz | M | an..14 | Eindeutige Referenz...
/// ^^^^   ^^^^^^^^^^^^^^^^^^^^^^   ^   ^^^^^^   ^^^^^^^^^^^^^^^^^^^^^^
///   1              2              3     4                5
/// ```
/// Here is a break-down of the different parts.
///
/// 1. is a counter/label for the data element.
/// 2. is a human readable name for the value in that data element.
/// 3. is a status, which defines, whether a data element is required.
/// 4. defines the format, in this case alphanumeric and at most 14
///    characters long.
/// 5. is a comment describing the meaning and content of the element further.
#[derive(Debug, Eq, PartialEq)]
pub struct DataElement {
    pub label: String,
    pub name: String,
    pub st: St,
    pub format: Format,
    pub length: usize,
    pub usage: Usage,
}

/// What a `DataElement` holds, as plain values.
pub struct DataElementView {
    pub label: Seq<char>,
    pub name: Seq<char>,
    pub st: St,
    pub format: Format,
    pub length: usize,
    pub usage: UsageView,
}

impl View for DataElement {
    type V = DataElementView;

    open spec fn view(&self) -> DataElementView {
        DataElementView {
            label: self.label@,
            name: self.name@,
            st: self.st,
            format: self.format,
            length: self.length,
            usage: self.usage@,
        }
    }
}

impl Clone for DataElement {
    fn clone(&self) -> (r: Self)
        ensures
            r@ == self@,
    {
        DataElement {
            label: self.label.clone(),
            name: self.name.clone(),
            st: self.st,
            format: self.format,
            length: self.length,
            usage: self.usage.clone(),
        }
    }
}

/// Whether a data element of the name `name` is a qualifier: the name holds
/// `Qualifier` or `qualifier`.
pub open spec fn names_qualifier(name: Seq<char>) -> bool {
    has_substring(name, "Qualifier"@) || has_substring(name, "qualifier"@)
}

impl DataElement {
    /// Returns whether this element is a qualifier data element.
    ///
    /// This is gathered from the name of the data element.
    pub fn is_qualifier(&self) -> (r: bool)
        ensures
            r == names_qualifier(self@.name),
    {
        contains(self.name.as_str(), "Qualifier") || contains(self.name.as_str(), "qualifier")
    }
}

/// A group of data elements that fill one element slot of a segment.
#[derive(Debug)]
pub struct Composite {
    pub label: String,
    pub name: String,
    pub st: St,
    pub elements: Vec<DataElement>,
}

/// What a `Composite` holds, as plain values.
pub struct CompositeView {
    pub label: Seq<char>,
    pub name: Seq<char>,
    pub st: St,
    pub elements: Seq<DataElementView>,
}

impl View for Composite {
    type V = CompositeView;

    open spec fn view(&self) -> CompositeView {
        CompositeView {
            label: self.label@,
            name: self.name@,
            st: self.st,
            elements: views(self.elements@),
        }
    }
}

/// A copy of the data elements `v`.
fn copy_data_elements(v: &Vec<DataElement>) -> (r: Vec<DataElement>)
    ensures
        views(r@) == views(v@),
{
    let mut r: Vec<DataElement> = Vec::new();
    let mut i: usize = 0;
    while i < v.len()
        invariant
            i <= v.len(),
            views(r@) == views(v@.take(i as int)),
        decreases v.len() - i,
    {
        let ghost before = r@;
        r.push(v[i].clone());
        proof {
            lemma_views_push(before, r@.last(), v@.take(i as int), v@[i as int]);
            assert(v@.take(i + 1) =~= v@.take(i as int).push(v@[i as int]));
            assert(r@ =~= before.push(r@.last()));
        }
        i = i + 1;
    }
    assert(v@.take(i as int) =~= v@);
    r
}

impl Clone for Composite {
    fn clone(&self) -> (r: Self)
        ensures
            r@ == self@,
    {
        Composite {
            label: self.label.clone(),
            name: self.name.clone(),
            st: self.st,
            elements: copy_data_elements(&self.elements),
        }
    }
}

/// A set of composites or data elements.
///
/// A `Segment` always starts with a data element consisting of three
/// capitalized letters. This data element is called a tag or segment tag. If
/// a tag starts with a 'U', it means, that the `Segment` is a service
/// segment.
#[derive(Debug)]
pub struct Segment {
    pub counter: String,
    pub number: u64,
    pub tag: String,
    pub st: St,
    pub max_reps: u64,
    pub level: u64,
    pub name: String,
    pub comment: Option<String>,
    pub elements: Vec<Either<Composite, DataElement>>,
}

/// What a `Segment` holds, as plain values.
pub struct SegmentView {
    pub counter: Seq<char>,
    pub number: u64,
    pub tag: Seq<char>,
    pub st: St,
    pub max_reps: u64,
    pub level: u64,
    pub name: Seq<char>,
    pub comment: Option<Seq<char>>,
    pub elements: Seq<Either<CompositeView, DataElementView>>,
}

impl View for Segment {
    type V = SegmentView;

    open spec fn view(&self) -> SegmentView {
        SegmentView {
            counter: self.counter@,
            number: self.number,
            tag: self.tag@,
            st: self.st,
            max_reps: self.max_reps,
            level: self.level,
            name: self.name@,
            comment: opt_text(self.comment),
            elements: views(self.elements@),
        }
    }
}

/// A copy of the element slots `v`.
fn copy_slots(v: &Vec<Either<Composite, DataElement>>) -> (r: Vec<Either<Composite, DataElement>>)
    ensures
        views(r@) == views(v@),
{
    let mut r: Vec<Either<Composite, DataElement>> = Vec::new();
    let mut i: usize = 0;
    while i < v.len()
        invariant
            i <= v.len(),
            views(r@) == views(v@.take(i as int)),
        decreases v.len() - i,
    {
        let slot = match &v[i] {
            Either::Left(composite) => Either::Left(composite.clone()),
            Either::Right(element) => Either::Right(element.clone()),
        };
        let ghost before = r@;
        r.push(slot);
        proof {
            lemma_views_push(before, slot, v@.take(i as int), v@[i as int]);
            assert(v@.take(i + 1) =~= v@.take(i as int).push(v@[i as int]));
        }
        i = i + 1;
    }
    assert(v@.take(i as int) =~= v@);
    r
}

impl Clone for Segment {
    fn clone(&self) -> (r: Self)
        ensures
            r@ == self@,
    {
        Segment {
            counter: self.counter.clone(),
            number: self.number,
            tag: self.tag.clone(),
            st: self.st,
            max_reps: self.max_reps,
            level: self.level,
            name: self.name.clone(),
            comment: copy_opt(&self.comment),
            elements: copy_slots(&self.elements),
        }
    }
}

/// A group of segments.
///
/// A `Segmentgroup` must consist of at least one segment.
#[derive(Debug)]
pub struct Segmentgroup {
    pub counter: String,
    pub label: String,
    pub st: St,
    pub max_reps: u64,
    pub level: u64,
    pub name: String,
    pub comment: Option<String>,
    pub segments: Vec<Either<Segmentgroup, Segment>>,
}

/// What a `Segmentgroup` holds, as plain values.
pub struct SegmentgroupView {
    pub counter: Seq<char>,
    pub label: Seq<char>,
    pub st: St,
    pub max_reps: u64,
    pub level: u64,
    pub name: Seq<char>,
    pub comment: Option<Seq<char>>,
    pub segments: Seq<Item>,
}

/// One member of a message body or of a segment group, as plain values.
pub type Item = Either<SegmentgroupView, SegmentView>;

/// What the member `e` of a body holds, as plain values.
pub open spec fn item_view(e: Either<Segmentgroup, Segment>) -> Item
    decreases e,
{
    match e {
        Either::Left(group) => Either::Left(group_view(group)),
        Either::Right(segment) => Either::Right(segment@),
    }
}

/// What the members `s` of a body hold, as plain values.
pub open spec fn items_view(s: Seq<Either<Segmentgroup, Segment>>) -> Seq<Item>
    decreases s,
{
    Seq::new(
        s.len(),
        |i: int|
            if 0 <= i < s.len() {
                item_view(s[i])
            } else {
                arbitrary()
            },
    )
}

/// What the segment group `g` holds, as plain values.
pub open spec fn group_view(g: Segmentgroup) -> SegmentgroupView
    decreases g,
{
    SegmentgroupView {
        counter: g.counter@,
        label: g.label@,
        st: g.st,
        max_reps: g.max_reps,
        level: g.level,
        name: g.name@,
        comment: opt_text(g.comment),
        segments: items_view(g.segments@),
    }
}

impl View for Segmentgroup {
    type V = SegmentgroupView;

    open spec fn view(&self) -> SegmentgroupView {
        group_view(*self)
    }
}

/// Members with equal views, pushed onto bodies with equal views, give
/// bodies with equal views.
pub proof fn lemma_items_push(
    a: Seq<Either<Segmentgroup, Segment>>,
    x: Either<Segmentgroup, Segment>,
    b: Seq<Either<Segmentgroup, Segment>>,
    y: Either<Segmentgroup, Segment>,
)
    requires
        items_view(a) == items_view(b),
        item_view(x) == item_view(y),
    ensures
        items_view(a.push(x)) == items_view(b.push(y)),
{
    assert(items_view(a.push(x)) =~= items_view(a).push(item_view(x)));
    assert(items_view(b.push(y)) =~= items_view(b).push(item_view(y)));
}

/// A copy of the members `v` of a body.
pub fn copy_items(v: &Vec<Either<Segmentgroup, Segment>>) -> (r: Vec<Either<Segmentgroup, Segment>>)
    ensures
        items_view(r@) == items_view(v@),
    decreases v,
{
    let mut r: Vec<Either<Segmentgroup, Segment>> = Vec::new();
    let mut i: usize = 0;
    while i < v.len()
        invariant
            i <= v.len(),
            items_view(r@) == items_view(v@.take(i as int)),
        decreases v.len() - i,
    {
        let item = match &v[i] {
            Either::Left(group) => Either::Left(copy_group(group)),
            Either::Right(segment) => Either::Right(segment.clone()),
        };
        let ghost before = r@;
        r.push(item);
        proof {
            lemma_items_push(before, item, v@.take(i as int), v@[i as int]);
            assert(v@.take(i + 1) =~= v@.take(i as int).push(v@[i as int]));
        }
        i = i + 1;
    }
    assert(v@.take(i as int) =~= v@);
    r
}

/// A copy of the segment group `g`.
pub fn copy_group(g: &Segmentgroup) -> (r: Segmentgroup)
    ensures
        r@ == g@,
    decreases g,
{
    Segmentgroup {
        counter: g.counter.clone(),
        label: g.label.clone(),
        st: g.st,
        max_reps: g.max_reps,
        level: g.level,
        name: g.name.clone(),
        comment: copy_opt(&g.comment),
        segments: copy_items(&g.segments),
    }
}

impl Clone for Segmentgroup {
    fn clone(&self) -> (r: Self)
        ensures
            r@ == self@,
    {
        copy_group(self)
    }
}

/// An envelope around a set of segments.
///
/// A `Message` always starts with a UNH segment and ends with a UNT segment.
/// The UNH segment identifies the kind of message, e.g. APERAK, MSCONS,
/// CONTRL or any other kind of message.
#[derive(Debug)]
pub struct Message {
    pub unh: Segment,
    pub segments: Vec<Either<Segmentgroup, Segment>>,
    pub unt: Segment,
}

/// What a `Message` holds, as plain values.
pub struct MessageView {
    pub unh: SegmentView,
    pub segments: Seq<Item>,
    pub unt: SegmentView,
}

impl View for Message {
    type V = MessageView;

    open spec fn view(&self) -> MessageView {
        MessageView { unh: self.unh@, segments: items_view(self.segments@), unt: self.unt@ }
    }
}

impl Clone for Message {
    fn clone(&self) -> (r: Self)
        ensures
            r@ == self@,
    {
        Message {
            unh: self.unh.clone(),
            segments: copy_items(&self.segments),
            unt: self.unt.clone(),
        }
    }
}

/// An envelope around a set of messages.
///
/// An `Interchange` may start with a UNA, always followed by a UNB segment
/// and ends with a UNZ segment. In the German energy market, interchanges
/// are homogeneous, meaning, they only contain messages of the same type.
#[derive(Debug)]
pub struct Interchange {
    pub unb: Segment,
    pub message: Message,
    pub unz: Segment,
}

/// What an `Interchange` holds, as plain values.
pub struct InterchangeView {
    pub unb: SegmentView,
    pub message: MessageView,
    pub unz: SegmentView,
}

impl View for Interchange {
    type V = InterchangeView;

    open spec fn view(&self) -> InterchangeView {
        InterchangeView { unb: self.unb@, message: self.message@, unz: self.unz@ }
    }
}

impl Clone for Interchange {
    fn clone(&self) -> (r: Self)
        ensures
            r@ == self@,
    {
        Interchange {
            unb: self.unb.clone(),
            message: self.message.clone(),
            unz: self.unz.clone(),
        }
    }
}

} // verus!
