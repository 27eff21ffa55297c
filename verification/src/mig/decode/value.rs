//! Matching the raw segments of an interchange against the description of a
//! message integration guide.
use crate::mig::decode::parser::value as raw;
use crate::mig::decode::walk::{left_of, matching, walk_items, Walk};
use crate::mig::description as desc;
use crate::mig::description::{Format, Size, St};
use crate::mig::either::Either;
use crate::mig::error::{
    CompositeError, CompositeErrorView, DataElementError, InterchangeError, InterchangeErrorView,
    MessageError, MessageErrorView, SegmentError, SegmentErrorView, SlotError, SyntaxError,
};
use crate::text::{copy_opt, opt_text, views};
use vstd::prelude::*;
use vstd::utf8::encode_utf8;

verus! {

/// The value of a matched data element, read as its usage asks.
#[derive(Debug)]
pub enum Matched {
    Text(String),
    Int(u64),
    /// A decimal number, as its digits with `.` as the decimal mark.
    Decimal(String),
}

/// What a `Matched` holds, as plain values.
pub enum MatchedView {
    Text(Seq<char>),
    Int(u64),
    Decimal(Seq<char>),
}

impl View for Matched {
    type V = MatchedView;

    open spec fn view(&self) -> MatchedView {
        match self {
            Matched::Text(s) => MatchedView::Text(s@),
            Matched::Int(n) => MatchedView::Int(*n),
            Matched::Decimal(s) => MatchedView::Decimal(s@),
        }
    }
}

/// What an optional `Matched` holds, as plain values.
pub open spec fn opt_matched(o: Option<Matched>) -> Option<MatchedView> {
    match o {
        Some(m) => Some(m@),
        None => None,
    }
}

/// A data element of an interchange together with its description.
#[derive(Debug)]
pub struct DataElement {
    pub description: desc::DataElement,
    pub index: usize,
    pub value: Option<Matched>,
}

/// What a `DataElement` holds, as plain values.
pub struct DataElementView {
    pub description: desc::DataElementView,
    pub index: usize,
    pub value: Option<MatchedView>,
}

impl View for DataElement {
    type V = DataElementView;

    open spec fn view(&self) -> DataElementView {
        DataElementView {
            description: self.description@,
            index: self.index,
            value: opt_matched(self.value),
        }
    }
}

/// A composite of an interchange together with what its description says
/// of it.
#[derive(Debug)]
pub struct Composite {
    pub index: usize,
    pub label: String,
    pub name: String,
    pub st: St,
    pub elements: Vec<DataElement>,
}

/// What a `Composite` holds, as plain values.
pub struct CompositeView {
    pub index: usize,
    pub label: Seq<char>,
    pub name: Seq<char>,
    pub st: St,
    pub elements: Seq<DataElementView>,
}

impl View for Composite {
    type V = CompositeView;

    open spec fn view(&self) -> CompositeView {
        CompositeView {
            index: self.index,
            label: self.label@,
            name: self.name@,
            st: self.st,
            elements: views(self.elements@),
        }
    }
}

/// What one matched element slot of a segment holds, as plain values.
pub type Slot = Either<CompositeView, DataElementView>;

/// A segment of an interchange together with what its description says of
/// it.
#[derive(Debug)]
pub struct Segment {
    pub index: usize,
    pub counter: String,
    pub number: u64,
    pub tag: String,
    pub st: St,
    pub max_reps: u64,
    pub level: u64,
    pub name: String,
    pub comment: Option<String>,
    pub elements: Vec<Either<Composite, DataElement>>,
}

/// What a `Segment` holds, as plain values.
pub struct SegmentView {
    pub index: usize,
    pub counter: Seq<char>,
    pub number: u64,
    pub tag: Seq<char>,
    pub st: St,
    pub max_reps: u64,
    pub level: u64,
    pub name: Seq<char>,
    pub comment: Option<Seq<char>>,
    pub elements: Seq<Slot>,
}

impl View for Segment {
    type V = SegmentView;

    open spec fn view(&self) -> SegmentView {
        SegmentView {
            index: self.index,
            counter: self.counter@,
            number: self.number,
            tag: self.tag@,
            st: self.st,
            max_reps: self.max_reps,
            level: self.level,
            name: self.name@,
            comment: opt_text(self.comment),
            elements: views(self.elements@),
        }
    }
}

/// A segment group of an interchange together with what its description
/// says of it.
#[derive(Debug)]
pub struct Segmentgroup {
    pub counter: String,
    pub label: String,
    pub st: St,
    pub max_reps: u64,
    pub level: u64,
    pub name: String,
    pub comment: Option<String>,
    pub segments: Vec<Either<Segmentgroup, Segment>>,
}

/// What a `Segmentgroup` holds, as plain values.
pub struct SegmentgroupView {
    pub counter: Seq<char>,
    pub label: Seq<char>,
    pub st: St,
    pub max_reps: u64,
    pub level: u64,
    pub name: Seq<char>,
    pub comment: Option<Seq<char>>,
    pub segments: Seq<Node>,
}

/// One matched member of a message body or of a segment group, as plain
/// values.
pub type Node = Either<SegmentgroupView, SegmentView>;

/// What the matched member `e` holds, as plain values.
pub open spec fn node_view(e: Either<Segmentgroup, Segment>) -> Node
    decreases e,
{
    match e {
        Either::Left(group) => Either::Left(group_view(group)),
        Either::Right(segment) => Either::Right(segment@),
    }
}

/// What the matched members `s` hold, as plain values.
pub open spec fn nodes_view(s: Seq<Either<Segmentgroup, Segment>>) -> Seq<Node>
    decreases s,
{
    Seq::new(
        s.len(),
        |i: int|
            if 0 <= i < s.len() {
                node_view(s[i])
            } else {
                arbitrary()
            },
    )
}

/// What the matched segment group `g` holds, as plain values.
pub open spec fn group_view(g: Segmentgroup) -> SegmentgroupView
    decreases g,
{
    SegmentgroupView {
        counter: g.counter@,
        label: g.label@,
        st: g.st,
        max_reps: g.max_reps,
        level: g.level,
        name: g.name@,
        comment: opt_text(g.comment),
        segments: nodes_view(g.segments@),
    }
}

impl View for Segmentgroup {
    type V = SegmentgroupView;

    open spec fn view(&self) -> SegmentgroupView {
        group_view(*self)
    }
}

/// A message of an interchange: its header, its body and its trailer.
#[derive(Debug)]
pub struct Message {
    pub unh: Segment,
    pub segments: Vec<Either<Segmentgroup, Segment>>,
    pub unt: Segment,
}

/// What a `Message` holds, as plain values.
pub struct MessageView {
    pub unh: SegmentView,
    pub segments: Seq<Node>,
    pub unt: SegmentView,
}

impl View for Message {
    type V = MessageView;

    open spec fn view(&self) -> MessageView {
        MessageView { unh: self.unh@, segments: nodes_view(self.segments@), unt: self.unt@ }
    }
}

/// A matched interchange: the matched segments and segment groups from its
/// first service segment to its last, in order.
#[derive(Debug)]
pub struct Interchange {
    pub segments: Vec<Either<Segmentgroup, Segment>>,
}

/// What an `Interchange` holds, as plain values.
pub struct InterchangeView {
    pub segments: Seq<Node>,
}

impl View for Interchange {
    type V = InterchangeView;

    open spec fn view(&self) -> InterchangeView {
        InterchangeView { segments: nodes_view(self.segments@) }
    }
}

// CHECKING

/// The length by which declared lengths are measured: the number of bytes
/// that the text takes in UTF-8.
pub open spec fn byte_len(text: Seq<char>) -> usize {
    encode_utf8(text).len() as usize
}

/// The text of a successful check, or its error.
pub open spec fn checked_text(r: Result<String, SyntaxError>) -> Result<Seq<char>, SyntaxError> {
    match r {
        Ok(s) => Ok(s@),
        Err(e) => Err(e),
    }
}

/// The status rule: a required value must not be empty, and a value that is
/// not used must be; any other value passes unchanged.
pub open spec fn spec_check_st(st: St, input: Seq<char>) -> Result<Seq<char>, SyntaxError> {
    if input.len() == 0 && st.required() {
        Err(SyntaxError::of(13))
    } else if input.len() != 0 && st.not_used() {
        Err(SyntaxError::of(12))
    } else {
        Ok(input)
    }
}

/// The length rule. A value of exact size must have the declared length,
/// unless it is empty and not required; a bounded value must not be longer
/// than declared.
pub open spec fn spec_check_size(st: St, size: Size, length: usize, input: Seq<char>) -> Result<
    Seq<char>,
    SyntaxError,
> {
    match size {
        Size::Exactly => {
            if (st.optional() || st.not_used()) && input.len() == 0 {
                Ok(input)
            } else if byte_len(input) < length {
                Err(SyntaxError::of(40))
            } else if byte_len(input) > length {
                Err(SyntaxError::of(39))
            } else {
                Ok(input)
            }
        },
        Size::AtMost => {
            if byte_len(input) > length {
                Err(SyntaxError::of(39))
            } else {
                Ok(input)
            }
        },
    }
}

/// The format rule: of a format only its kind of length is held against the
/// value, whatever its character class.
pub open spec fn spec_check_format(st: St, format: Format, length: usize, input: Seq<char>) -> Result<
    Seq<char>,
    SyntaxError,
> {
    spec_check_size(st, format.size(), length, input)
}

/// Checks the value `input` against the status `st`.
pub fn check_st(st: St, input: String) -> (r: Result<String, SyntaxError>)
    ensures
        checked_text(r) == spec_check_st(st, input@),
{
    if input.as_str().is_empty() && st.is_required() {
        Err(SyntaxError::missing())
    } else if !input.as_str().is_empty() && st.is_not_used() {
        Err(SyntaxError::invalid_value())
    } else {
        Ok(input)
    }
}

/// Checks the value `input` against the format `format` and the declared
/// length `length`.
pub fn check_format(st: St, format: Format, length: usize, input: String) -> (r: Result<
    String,
    SyntaxError,
>)
    ensures
        checked_text(r) == spec_check_format(st, format, length, input@),
{
    match format {
        Format::Alphanumeric(size) => check_size(st, size, length, input),
        Format::Alpha(size) => check_size(st, size, length, input),
        Format::Numeric(size) => check_size(st, size, length, input),
    }
}

/// Checks the length of the value `input` against the declared length
/// `length`.
pub fn check_size(st: St, size: Size, length: usize, input: String) -> (r: Result<
    String,
    SyntaxError,
>)
    ensures
        checked_text(r) == spec_check_size(st, size, length, input@),
{
    match size {
        Size::Exactly => {
            if (st.is_optional() || st.is_not_used()) && input.as_str().is_empty() {
                Ok(input)
            } else if input.as_str().len() < length {
                Err(SyntaxError::data_element_too_short())
            } else if input.as_str().len() > length {
                Err(SyntaxError::data_element_too_long())
            } else {
                Ok(input)
            }
        },
        Size::AtMost => {
            if input.as_str().len() > length {
                Err(SyntaxError::data_element_too_long())
            } else {
                Ok(input)
            }
        },
    }
}

// MATCHING OF ELEMENTS

/// The views of a result of matching.
pub open spec fn result_views<T: View, E: View>(r: Result<T, E>) -> Result<T::V, E::V> {
    match r {
        Ok(t) => Ok(t@),
        Err(e) => Err(e@),
    }
}

/// What matching finds at one described position: nothing to record
/// (`None`), a match, or an error.
pub type Found<M, E> = Option<Result<M, E>>;

/// The matches among what was found at the described positions, in order.
pub open spec fn matched_of<M, E>(found: Seq<Found<M, E>>) -> Seq<M> {
    found.filter_map(
        |f: Found<M, E>|
            match f {
                Some(Ok(m)) => Some(m),
                _ => None,
            },
    )
}

/// The errors among what was found at the described positions, in order.
pub open spec fn failed_of<M, E>(found: Seq<Found<M, E>>) -> Seq<E> {
    found.filter_map(
        |f: Found<M, E>|
            match f {
                Some(Err(e)) => Some(e),
                _ => None,
            },
    )
}

/// The error of a segment or composite that holds more parts than are
/// described.
pub open spec fn surplus(described: nat, given: nat) -> Option<SyntaxError> {
    if given > described {
        Some(SyntaxError::of(16))
    } else {
        None
    }
}

/// Going one position further adds what was found there to the matches or
/// to the errors.
pub proof fn lemma_found_step<M, E>(found: Seq<Found<M, E>>, p: int)
    requires
        0 <= p < found.len(),
    ensures
        matched_of(found.take(p + 1)) == (match found[p] {
            Some(Ok(m)) => matched_of(found.take(p)).push(m),
            _ => matched_of(found.take(p)),
        }),
        failed_of(found.take(p + 1)) == (match found[p] {
            Some(Err(e)) => failed_of(found.take(p)).push(e),
            _ => failed_of(found.take(p)),
        }),
{
    let next = found.take(p + 1);
    assert(next.drop_last() =~= found.take(p));
    assert(next.last() == found[p]);
    match found[p] {
        Some(Ok(m)) => {
            assert(matched_of(next) =~= matched_of(found.take(p)).push(m));
        },
        Some(Err(e)) => {
            assert(failed_of(next) =~= failed_of(found.take(p)).push(e));
        },
        None => {},
    }
}

/// The result of matching the value `value` against the description `d`:
/// first the status rule, then, for a value that is not empty, the format
/// rule. A value that passes is kept as text; an empty one leaves no value.
pub open spec fn spec_match_data_element(
    pos: usize,
    d: desc::DataElementView,
    value: Seq<char>,
) -> Result<DataElementView, DataElementError> {
    match spec_check_st(d.st, value) {
        Err(e) => Err(DataElementError { pos, syntax_error: e }),
        Ok(checked) => {
            if checked.len() == 0 {
                Ok(DataElementView { description: d, index: pos, value: None })
            } else {
                match spec_check_format(d.st, d.format, d.length, checked) {
                    Err(e) => Err(DataElementError { pos, syntax_error: e }),
                    Ok(text) => Ok(
                        DataElementView {
                            description: d,
                            index: pos,
                            value: Some(MatchedView::Text(text)),
                        },
                    ),
                }
            }
        },
    }
}

/// Matches the data element `element`, which stands at position `pos` among
/// its siblings, against its description.
pub fn match_data_element(pos: usize, desc: desc::DataElement, element: raw::DataElement) -> (r:
    Result<DataElement, DataElementError>)
    ensures
        result_views(r) == spec_match_data_element(pos, desc@, element@.value),
{
    let checked = match check_st(desc.st, element.value) {
        Ok(text) => text,
        Err(e) => {
            return Err(DataElementError::new(pos, e));
        },
    };
    if checked.as_str().is_empty() {
        Ok(DataElement { index: pos, description: desc, value: None })
    } else {
        match check_format(desc.st, desc.format, desc.length, checked) {
            Ok(text) => Ok(
                DataElement { index: pos, description: desc, value: Some(Matched::Text(text)) },
            ),
            Err(e) => Err(DataElementError::new(pos, e)),
        }
    }
}

/// What matching finds at position `i` of a composite: a described data
/// element that has no value is an error if it is required, and nothing
/// otherwise; one that has a value is matched against it.
pub open spec fn component_found(
    i: int,
    d: desc::DataElementView,
    value: Option<raw::DataElementView>,
) -> Found<DataElementView, DataElementError> {
    match value {
        None => {
            if d.st.required() {
                Some(Err(DataElementError { pos: i as usize, syntax_error: SyntaxError::of(13) }))
            } else {
                None
            }
        },
        Some(v) => Some(spec_match_data_element(i as usize, d, v.value)),
    }
}

/// The item of `s` at `i`, if there is one.
pub open spec fn item_at<T>(s: Seq<T>, i: int) -> Option<T> {
    if 0 <= i < s.len() {
        Some(s[i])
    } else {
        None
    }
}

/// What matching finds at each described position of a composite.
pub open spec fn components_found(
    descs: Seq<desc::DataElementView>,
    values: Seq<raw::DataElementView>,
) -> Seq<Found<DataElementView, DataElementError>> {
    Seq::new(descs.len(), |i: int| component_found(i, descs[i], item_at(values, i)))
}

/// The result of matching the data elements `values` of a composite against
/// their descriptions, position by position. All errors are collected; more
/// values than descriptions are an error of the composite itself.
pub open spec fn spec_match_composite_help(
    pos: usize,
    descs: Seq<desc::DataElementView>,
    values: Seq<raw::DataElementView>,
) -> Result<Seq<DataElementView>, CompositeErrorView> {
    let found = components_found(descs, values);
    let errors = failed_of(found);
    let syntax_error = surplus(descs.len(), values.len());
    if errors.len() > 0 || syntax_error is Some {
        Err(CompositeErrorView { pos, syntax_error, errors })
    } else {
        Ok(matched_of(found))
    }
}

/// Matches the data elements `values_vec` of the composite at position `pos`
/// against their descriptions.
pub fn match_composite_help(
    pos: usize,
    descs_vec: &Vec<desc::DataElement>,
    values_vec: &Vec<raw::DataElement>,
) -> (r: Result<Vec<DataElement>, CompositeError>)
    ensures
        (match r {
            Ok(matches) => Ok(views(matches@)),
            Err(e) => Err(e@),
        }) == spec_match_composite_help(pos, views(descs_vec@), views(values_vec@)),
{
    let described = descs_vec.len();
    let given = values_vec.len();
    let ghost found = components_found(views(descs_vec@), views(values_vec@));
    let mut position: usize = 0;
    let mut matches: Vec<DataElement> = Vec::new();
    let mut errors: Vec<DataElementError> = Vec::new();
    assert(found.take(0) =~= Seq::empty());
    while position < described
        invariant
            position <= described,
            described == descs_vec.len(),
            given == values_vec.len(),
            found == components_found(views(descs_vec@), views(values_vec@)),
            views(matches@) == matched_of(found.take(position as int)),
            errors@ == failed_of(found.take(position as int)),
        decreases described - position,
    {
        proof {
            lemma_found_step(found, position as int);
        }
        let ghost old_matches = matches@;
        if position < given {
            match match_data_element(
                position,
                descs_vec[position].clone(),
                values_vec[position].clone(),
            ) {
                Ok(matched) => {
                    matches.push(matched);
                    assert(views(matches@) =~= views(old_matches).push(matched@));
                },
                Err(error) => errors.push(error),
            }
        } else if descs_vec[position].st.is_required() {
            errors.push(DataElementError::new(position, SyntaxError::missing()));
        }
        position += 1;
    }
    assert(found.take(position as int) =~= found);
    let syntax_error = if given > described {
        Some(SyntaxError::too_many_parts())
    } else {
        None
    };
    if !errors.is_empty() || syntax_error.is_some() {
        Err(CompositeError { pos, syntax_error, errors })
    } else {
        Ok(matches)
    }
}

/// The result of matching the composite `c` against its description `d`. A
/// required composite without any data element is missing; otherwise its
/// data elements are matched position by position.
pub open spec fn spec_match_composite(
    pos: usize,
    d: desc::CompositeView,
    c: raw::CompositeView,
) -> Result<CompositeView, CompositeErrorView> {
    if d.st.required() && c.elements.len() == 0 {
        Err(
            CompositeErrorView {
                pos,
                syntax_error: Some(SyntaxError::of(13)),
                errors: Seq::empty(),
            },
        )
    } else {
        match spec_match_composite_help(pos, d.elements, c.elements) {
            Ok(elements) => Ok(
                CompositeView { index: pos, label: d.label, name: d.name, st: d.st, elements },
            ),
            Err(e) => Err(e),
        }
    }
}

/// Matches the composite `composite`, which stands at position `pos` of its
/// segment, against its description.
pub fn match_composite(pos: usize, desc: &desc::Composite, composite: &raw::Composite) -> (r:
    Result<Composite, CompositeError>)
    ensures
        result_views(r) == spec_match_composite(pos, desc@, composite@),
{
    if desc.st.is_required() && composite.elements.is_empty() {
        Err(CompositeError::syntax_error(pos, SyntaxError::missing()))
    } else {
        let result = match_composite_help(pos, &desc.elements, &composite.elements);
        match result {
            Ok(matches) => Ok(
                Composite {
                    index: pos,
                    label: desc.label.clone(),
                    st: desc.st,
                    name: desc.name.clone(),
                    elements: matches,
                },
            ),
            Err(error) => Err(error),
        }
    }
}

/// A composite that holds the single data element `v`.
pub open spec fn single(v: raw::DataElementView) -> raw::CompositeView {
    raw::CompositeView { elements: seq![v] }
}

/// What matching finds at position `i` of a segment.
///
/// | described | given | found |
/// |---|---|---|
/// | anything required | nothing | the error `missing` |
/// | anything else | nothing | nothing |
/// | data element | composite | the error `invalid value` |
/// | composite, not used | empty data element | nothing |
/// | composite | data element | the match of the composite with it alone |
/// | composite | composite | their match |
/// | data element | data element | their match |
pub open spec fn element_found(
    i: int,
    d: Either<desc::CompositeView, desc::DataElementView>,
    given: Option<raw::Slot>,
) -> Found<Slot, SlotError> {
    let pos = i as usize;
    match (d, given) {
        (Either::Right(element), None) => {
            if element.st.required() {
                Some(
                    Err(
                        Either::Right(
                            DataElementError { pos, syntax_error: SyntaxError::of(13) },
                        ),
                    ),
                )
            } else {
                None
            }
        },
        (Either::Left(composite), None) => {
            if composite.st.required() {
                Some(
                    Err(
                        Either::Right(
                            DataElementError { pos, syntax_error: SyntaxError::of(13) },
                        ),
                    ),
                )
            } else {
                None
            }
        },
        (Either::Right(_), Some(Either::Left(_))) => Some(
            Err(Either::Right(DataElementError { pos, syntax_error: SyntaxError::of(12) })),
        ),
        (Either::Left(composite), Some(Either::Right(value))) => {
            if value.value.len() == 0 && composite.st == St::N {
                None
            } else {
                Some(
                    match spec_match_composite(pos, composite, single(value)) {
                        Ok(m) => Ok(Either::Left(m)),
                        Err(e) => Err(Either::Left(e)),
                    },
                )
            }
        },
        (Either::Left(composite), Some(Either::Left(value))) => Some(
            match spec_match_composite(pos, composite, value) {
                Ok(m) => Ok(Either::Left(m)),
                Err(e) => Err(Either::Left(e)),
            },
        ),
        (Either::Right(element), Some(Either::Right(value))) => Some(
            match spec_match_data_element(pos, element, value.value) {
                Ok(m) => Ok(Either::Right(m)),
                Err(e) => Err(Either::Right(e)),
            },
        ),
    }
}

/// What matching finds at each described position of a segment.
pub open spec fn elements_found(
    descs: Seq<Either<desc::CompositeView, desc::DataElementView>>,
    given: Seq<raw::Slot>,
) -> Seq<Found<Slot, SlotError>> {
    Seq::new(descs.len(), |i: int| element_found(i, descs[i], item_at(given, i)))
}

/// The result of matching the elements of the segment `segment` against the
/// description `d`, position by position. All errors are collected; more
/// elements than descriptions are an error of the segment itself. Without
/// any error the segment is matched, and carries what its description says
/// of it.
pub open spec fn spec_match_segment(
    pos: usize,
    d: desc::SegmentView,
    segment: raw::SegmentView,
) -> Result<SegmentView, SegmentErrorView> {
    let found = elements_found(d.elements, segment.elements);
    let errors = failed_of(found);
    let syntax_error = surplus(d.elements.len(), segment.elements.len());
    if errors.len() > 0 || syntax_error is Some {
        Err(SegmentErrorView { pos, syntax_error, errors })
    } else {
        Ok(
            SegmentView {
                index: pos,
                counter: d.counter,
                number: d.number,
                tag: d.tag,
                st: d.st,
                max_reps: d.max_reps,
                level: d.level,
                name: d.name,
                comment: d.comment,
                elements: matched_of(found),
            },
        )
    }
}

/// Matches the elements of the segment `segment`, which is the segment
/// number `pos` of the walk, against the description `desc`.
pub fn match_segment(pos: usize, desc: &desc::Segment, segment: &raw::Segment) -> (r: Result<
    Segment,
    SegmentError,
>)
    ensures
        result_views(r) == spec_match_segment(pos, desc@, segment@),
{
    let described = desc.elements.len();
    let given = segment.elements.len();
    let ghost found = elements_found(desc@.elements, segment@.elements);

    // Essentially, we are zipping descriptions and values here
    let mut position: usize = 0;
    let mut matches: Vec<Either<Composite, DataElement>> = Vec::new();
    let mut errors: Vec<Either<CompositeError, DataElementError>> = Vec::new();
    assert(found.take(0) =~= Seq::empty());
    while position < described
        invariant
            position <= described,
            described == desc.elements.len(),
            given == segment.elements.len(),
            found == elements_found(desc@.elements, segment@.elements),
            views(matches@) == matched_of(found.take(position as int)),
            views(errors@) == failed_of(found.take(position as int)),
        decreases described - position,
    {
        proof {
            lemma_found_step(found, position as int);
        }
        let ghost old_matches = matches@;
        let ghost old_errors = errors@;
        if position >= given {
            // Found a description, but no corresponding value. This is
            // fine, if the element is not required.
            let required = match &desc.elements[position] {
                Either::Left(composite) => composite.st.is_required(),
                Either::Right(element) => element.st.is_required(),
            };
            if required {
                errors.push(
                    Either::Right(DataElementError::new(position, SyntaxError::missing())),
                );
            }
        } else {
            match (&desc.elements[position], &segment.elements[position]) {
                (Either::Right(_), Either::Left(_)) => {
                    // Expecting a data element, but finding a composite
                    // is completely wrong.
                    errors.push(
                        Either::Right(
                            DataElementError::new(position, SyntaxError::invalid_value()),
                        ),
                    );
                },
                (Either::Left(composite), Either::Right(value)) => {
                    // Found a composite description, but a data element
                    // value. This is only okay, if the composite has one
                    // element or is not used and the value is empty.
                    if !(value.value.as_str().is_empty() && composite.st == St::N) {
                        let mut elements: Vec<raw::DataElement> = Vec::new();
                        elements.push(value.clone());
                        let composite_value = raw::Composite { elements };
                        assert(composite_value@.elements =~= single(value@).elements);
                        match match_composite(position, composite, &composite_value) {
                            Ok(matched) => matches.push(Either::Left(matched)),
                            Err(error) => errors.push(Either::Left(error)),
                        }
                    }
                },
                (Either::Left(composite), Either::Left(value)) => {
                    match match_composite(position, composite, value) {
                        Ok(matched) => matches.push(Either::Left(matched)),
                        Err(error) => errors.push(Either::Left(error)),
                    }
                },
                (Either::Right(element), Either::Right(value)) => {
                    match match_data_element(position, element.clone(), value.clone()) {
                        Ok(matched) => matches.push(Either::Right(matched)),
                        Err(error) => errors.push(Either::Right(error)),
                    }
                },
            }
        }
        proof {
            if matches@.len() > old_matches.len() {
                assert(views(matches@) =~= views(old_matches).push(matches@.last()@));
            }
            if errors@.len() > old_errors.len() {
                assert(views(errors@) =~= views(old_errors).push(errors@.last()@));
            }
        }
        position += 1;
    }
    assert(found.take(position as int) =~= found);
    // Too many elements. edi@energy does not support repetition, therefore
    // no descriptions are available for them.
    let syntax_error = if given > described {
        Some(SyntaxError::too_many_parts())
    } else {
        None
    };

    if !errors.is_empty() || syntax_error.is_some() {
        Err(SegmentError { pos, syntax_error, errors })
    } else {
        Ok(
            Segment {
                index: pos,
                counter: desc.counter.clone(),
                number: desc.number,
                tag: desc.tag.clone(),
                st: desc.st,
                max_reps: desc.max_reps,
                level: desc.level,
                name: desc.name.clone(),
                comment: copy_opt(&desc.comment),
                elements: matches,
            },
        )
    }
}

// MATCHING OF SEGMENTS

/// The first data element that the segment description `d` describes: its
/// first element, or the first data element of that, if it is a composite.
pub open spec fn first_described(d: desc::SegmentView) -> Option<desc::DataElementView> {
    if d.elements.len() == 0 {
        None
    } else {
        match d.elements[0] {
            Either::Left(composite) => item_at(composite.elements, 0),
            Either::Right(element) => Some(element),
        }
    }
}

/// The first data element of the raw segment `v`.
pub open spec fn first_given(v: raw::SegmentView) -> Option<raw::DataElementView> {
    if v.elements.len() == 0 {
        None
    } else {
        match v.elements[0] {
            Either::Left(composite) => item_at(composite.elements, 0),
            Either::Right(element) => Some(element),
        }
    }
}

/// Whether the usage `usage` admits the qualifier `value`: it is one of the
/// choices, or the one static value. Any other usage admits nothing.
pub open spec fn admits(usage: desc::UsageView, value: Seq<char>) -> bool {
    match usage {
        desc::UsageView::OneOf { choices, comment } => exists|i: int|
            0 <= i < choices.len() && (#[trigger] choices[i]).value == value,
        desc::UsageView::Static { value: choice, comment } => choice.value == value,
        _ => false,
    }
}

/// Whether the raw segment `v` matches the segment description `d`. The
/// tags must be equal. Where qualifiers are checked, the first described
/// data element must also be a qualifier whose usage admits the first data
/// element of the segment.
pub open spec fn segment_matches(d: desc::SegmentView, check_qualifier: bool, v: raw::SegmentView) -> bool {
    &&& d.tag == v.tag.value
    &&& check_qualifier ==> {
        &&& first_described(d) matches Some(element)
        &&& desc::names_qualifier(element.name)
        &&& first_given(v) matches Some(value)
        &&& admits(element.usage, value.value)
    }
}

/// Whether the raw segment `v` starts the segment group `g`: the group
/// begins with a segment that `v` matches.
pub open spec fn group_matches(g: desc::SegmentgroupView, check_qualifier: bool, v: raw::SegmentView) -> bool {
    &&& g.segments.len() > 0
    &&& g.segments[0] matches Either::Right(segment)
    &&& segment_matches(segment, check_qualifier, v)
}

/// Whether the raw segment `v` matches the member `item` of a body.
pub open spec fn item_matches(item: desc::Item, check_qualifier: bool, v: raw::SegmentView) -> bool {
    match item {
        Either::Left(group) => group_matches(group, check_qualifier, v),
        Either::Right(segment) => segment_matches(segment, check_qualifier, v),
    }
}

/// The counter of the member `item` of a body.
pub open spec fn counter_of(item: desc::Item) -> Seq<char> {
    match item {
        Either::Left(group) => group.counter,
        Either::Right(segment) => segment.counter,
    }
}

/// Whether one of `choices` has the value `value`.
fn any_choice(choices: &Vec<desc::Choice>, value: &String) -> (r: bool)
    ensures
        r == exists|i: int| 0 <= i < choices.len() && (#[trigger] views(choices@)[i]).value == value@,
{
    let mut i: usize = 0;
    while i < choices.len()
        invariant
            i <= choices.len(),
            forall|j: int| 0 <= j < i ==> (#[trigger] views(choices@)[j]).value != value@,
        decreases choices.len() - i,
    {
        if choices[i].value == *value {
            assert(views(choices@)[i as int].value == value@);
            return true;
        }
        i = i + 1;
    }
    false
}

/// Returns, whether the given value matches this segment description.
pub fn matches_segment(desc: &desc::Segment, check_qualifier: bool, value: &raw::Segment) -> (r:
    bool)
    ensures
        r == segment_matches(desc@, check_qualifier, value@),
{
    if !check_qualifier {
        return desc.tag == value.tag.value;
    } else if !(desc.tag == value.tag.value) {
        return false;
    }
    let described: Option<&desc::DataElement> = if desc.elements.len() == 0 {
        None
    } else {
        match &desc.elements[0] {
            Either::Left(composite) => {
                if composite.elements.len() > 0 {
                    Some(&composite.elements[0])
                } else {
                    None
                }
            },
            Either::Right(data_element) => Some(data_element),
        }
    };
    let qualifier: Option<&desc::Usage> = match described {
        Some(data_element) => {
            if data_element.is_qualifier() {
                Some(&data_element.usage)
            } else {
                None
            }
        },
        None => None,
    };
    let option_data_element: Option<&raw::DataElement> = if value.elements.len() == 0 {
        None
    } else {
        match &value.elements[0] {
            Either::Left(composite) => {
                if composite.elements.len() > 0 {
                    Some(&composite.elements[0])
                } else {
                    None
                }
            },
            Either::Right(data_element) => Some(data_element),
        }
    };
    assert(match described {
        Some(d) => first_described(desc@) == Some(d@),
        None => first_described(desc@) is None,
    });
    assert(match option_data_element {
        Some(d) => first_given(value@) == Some(d@),
        None => first_given(value@) is None,
    });
    match (qualifier, option_data_element) {
        (Some(desc::Usage::OneOf { choices, comment: _ }), Some(data_element)) => any_choice(
            choices,
            &data_element.value,
        ),
        (Some(desc::Usage::Static { value, comment: _ }), Some(data_element)) => value.value
            == data_element.value,
        _ => false,
    }
}

/// Returns, if this segmentgroup starts with the given value.
pub fn matches_segmentgroup(desc: &desc::Segmentgroup, check_qualifier: bool, value: &raw::Segment) -> (r:
    bool)
    ensures
        r == group_matches(desc@, check_qualifier, value@),
{
    if desc.segments.len() == 0 {
        false
    } else {
        match &desc.segments[0] {
            Either::Right(segment) => matches_segment(segment, check_qualifier, value),
            Either::Left(_) => false,
        }
    }
}

/// The counter of a member of a body.
pub fn get_counter(desc: &Either<desc::Segmentgroup, desc::Segment>) -> (r: String)
    ensures
        r@ == counter_of(desc::item_view(*desc)),
{
    match desc {
        Either::Left(v) => v.counter.clone(),
        Either::Right(v) => v.counter.clone(),
    }
}

// MATCHING OF INTERCHANGES

/// The descriptions of an interchange in the order in which its segments
/// come: the header of the interchange, the header of the message, the body
/// of the message, its trailer, and the trailer of the interchange.
pub open spec fn flat(d: desc::InterchangeView) -> Seq<desc::Item> {
    seq![Either::Right(d.unb), Either::Right(d.message.unh)] + d.message.segments + seq![
        Either::Right(d.message.unt),
        Either::Right(d.unz),
    ]
}

/// The walk of the description `d` over the segments of the raw interchange
/// `value`, counting segments from zero.
pub open spec fn interchange_walk(d: desc::InterchangeView, value: raw::InterchangeView) -> Walk {
    walk_items(0, flat(d), value.segments)
}

/// The result of matching the raw interchange `value` against the
/// description `d`: the matches of the walk, if it found no error, else its
/// errors as those of the one message of the interchange. Raw segments that
/// the walk leaves are no error.
pub open spec fn spec_match_interchange(d: desc::InterchangeView, value: raw::InterchangeView) -> Result<
    InterchangeView,
    InterchangeErrorView,
> {
    match interchange_walk(d, value).result() {
        Ok(segments) => Ok(InterchangeView { segments }),
        Err(errors) => Err(
            InterchangeErrorView {
                pos: 0,
                service_segment_error: None,
                message_errors: seq![
                    MessageErrorView { pos: 0, service_segment_error: None, segment_errors: errors },
                ],
            },
        ),
    }
}

/// The raw segments `v` in reverse order.
fn reversed(v: Vec<raw::Segment>) -> (r: Vec<raw::Segment>)
    ensures
        r@ == v@.reverse(),
{
    let mut v = v;
    let ghost all = v@;
    let mut r: Vec<raw::Segment> = Vec::new();
    while v.len() > 0
        invariant
            v@.len() + r@.len() == all.len(),
            v@ == all.take(v@.len() as int),
            forall|i: int| 0 <= i < r@.len() ==> r@[i] == all[all.len() - 1 - i],
        decreases v@.len(),
    {
        let last = v.len() - 1;
        r.push(v.remove(last));
    }
    assert(r@ =~= all.reverse());
    r
}

/// The descriptions of an interchange in the order in which its segments
/// come.
fn flatten(desc: &desc::Interchange) -> (r: Vec<Either<desc::Segmentgroup, desc::Segment>>)
    ensures
        desc::items_view(r@) == flat(desc@),
{
    let mut segments: Vec<Either<desc::Segmentgroup, desc::Segment>> = Vec::new();
    segments.push(Either::Right(desc.unb.clone()));
    segments.push(Either::Right(desc.message.unh.clone()));
    let mut s = desc::copy_items(&desc.message.segments);
    segments.append(&mut s);
    segments.push(Either::Right(desc.message.unt.clone()));
    segments.push(Either::Right(desc.unz.clone()));
    assert(desc::items_view(segments@) =~= flat(desc@));
    segments
}

/// Matches the raw interchange `value` against the description `desc`.
pub fn match_interchange(desc: &desc::Interchange, value: raw::Interchange) -> (r: Result<
    Interchange,
    InterchangeError,
>)
    ensures
        result_views(r) == spec_match_interchange(desc@, value@),
{
    let segments = flatten(desc);
    let mut values = reversed(value.segments);
    assert(left_of(values@) =~= value@.segments);
    assert(values@.len() == values.len());
    match matching(0, &segments, &mut values) {
        (_, Ok(result)) => Ok(Interchange { segments: result }),
        (_, Err(error)) => {
            let msg_error = MessageError {
                pos: 0,
                service_segment_error: None,
                segment_errors: error,
            };
            let mut message_errors: Vec<MessageError> = Vec::new();
            message_errors.push(msg_error);
            let failure = InterchangeError { pos: 0, message_errors, service_segment_error: None };
            assert(failure@.message_errors =~= seq![msg_error@]);
            Err(failure)
        },
    }
}

} // verus!
