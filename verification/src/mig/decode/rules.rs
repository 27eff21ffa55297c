//! What holds of every check of a value and of every match of a segment.
use crate::mig::decode::parser::value as raw;
use crate::mig::decode::value::{
    byte_len, components_found, elements_found, failed_of, matched_of, spec_check_size,
    spec_check_st, spec_match_composite_help, spec_match_segment, Found,
};
use crate::mig::description as desc;
use crate::mig::description::{Size, St};
use vstd::prelude::*;

verus! {

/// A value that has passed the status rule passes it again, unchanged.
pub proof fn lemma_check_st_idempotent(st: St, input: Seq<char>)
    ensures
        spec_check_st(st, input) matches Ok(checked) ==> spec_check_st(st, checked) == Ok::<
            Seq<char>,
            crate::mig::error::SyntaxError,
        >(checked),
{
}

/// The errors of the checks are those of the catalogue: a required value
/// that is empty is missing (13), a value in a place that is not used is
/// invalid (12), and a value of the wrong length is too long (39) or too
/// short (40).
pub proof fn lemma_check_codes(st: St, size: Size, length: usize, input: Seq<char>)
    ensures
        spec_check_st(st, input) matches Err(e) ==> (if input.len() == 0 {
            st.required() && e.code() == 13
        } else {
            st.not_used() && e.code() == 12
        }),
        spec_check_size(st, size, length, input) matches Err(e) ==> (if byte_len(input) > length {
            e.code() == 39
        } else {
            size == Size::Exactly && byte_len(input) < length && e.code() == 40
        }),
{
    crate::mig::error::SyntaxError::lemma_of(12);
    crate::mig::error::SyntaxError::lemma_of(13);
    crate::mig::error::SyntaxError::lemma_of(39);
    crate::mig::error::SyntaxError::lemma_of(40);
}

/// A required value that is not empty passes the length rule of an exact
/// size exactly if it has the declared length, and that of a bounded size
/// exactly if it is not longer than declared.
pub proof fn lemma_length_checking(st: St, length: usize, input: Seq<char>)
    requires
        st.required(),
        input.len() > 0,
    ensures
        spec_check_size(st, Size::Exactly, length, input) is Ok <==> byte_len(input) == length,
        spec_check_size(st, Size::AtMost, length, input) is Ok <==> byte_len(input) <= length,
        spec_check_size(st, Size::Exactly, length, input) is Ok ==> spec_check_size(
            st,
            Size::Exactly,
            length,
            input,
        ) == Ok::<Seq<char>, crate::mig::error::SyntaxError>(input),
        spec_check_size(st, Size::AtMost, length, input) is Ok ==> spec_check_size(
            st,
            Size::AtMost,
            length,
            input,
        ) == Ok::<Seq<char>, crate::mig::error::SyntaxError>(input),
{
}

/// The number of described positions at which an error was found.
pub open spec fn invalid<M, E>(found: Seq<Found<M, E>>) -> nat
    decreases found.len(),
{
    if found.len() == 0 {
        0
    } else {
        invalid(found.drop_last()) + (match found.last() {
            Some(Err(_)) => 1nat,
            _ => 0nat,
        })
    }
}

/// Every error that was found is kept: there are as many errors as there
/// are positions at which one was found. Where an error was found at every
/// position, there are as many errors as positions.
pub proof fn lemma_errors_kept<M, E>(found: Seq<Found<M, E>>)
    ensures
        failed_of(found).len() == invalid(found),
        invalid(found) <= found.len(),
        (forall|i: int| 0 <= i < found.len() ==> (#[trigger] found[i]) matches Some(Err(_)))
            ==> invalid(found) == found.len(),
        matched_of(found).len() + failed_of(found).len() <= found.len(),
    decreases found.len(),
{
    if found.len() > 0 {
        let rest = found.drop_last();
        lemma_errors_kept(rest);
        assert forall|i: int| 0 <= i < rest.len() implies rest[i] == found[i] by {}
        if forall|i: int| 0 <= i < found.len() ==> (#[trigger] found[i]) matches Some(Err(_)) {
            assert(found.last() == found[found.len() - 1]);
            assert forall|i: int| 0 <= i < rest.len() implies (#[trigger] rest[i]) matches Some(
                Err(_),
            ) by {
                assert(rest[i] == found[i]);
            }
        }
    }
}

/// Matching a segment collects the errors of all its element slots. The
/// error of the segment holds one error for each slot at which one was
/// found; where every described slot is found invalid, and there is one,
/// the match fails with as many errors as slots are described.
pub proof fn lemma_error_aggregation(pos: usize, d: desc::SegmentView, segment: raw::SegmentView)
    ensures
        spec_match_segment(pos, d, segment) matches Err(e) ==> e.errors.len() == invalid(
            elements_found(d.elements, segment.elements),
        ),
        spec_match_segment(pos, d, segment) is Ok ==> invalid(
            elements_found(d.elements, segment.elements),
        ) == 0,
        (d.elements.len() > 0 && forall|i: int|
            0 <= i < d.elements.len() ==> (#[trigger] elements_found(
                d.elements,
                segment.elements,
            )[i]) matches Some(Err(_))) ==> (spec_match_segment(pos, d, segment) matches Err(e)
            && e.errors.len() == d.elements.len()),
{
    lemma_errors_kept(elements_found(d.elements, segment.elements));
}

/// Matching the data elements of a composite collects the errors of all of
/// them, as matching a segment does for its slots.
pub proof fn lemma_composite_error_aggregation(
    pos: usize,
    descs: Seq<desc::DataElementView>,
    values: Seq<raw::DataElementView>,
)
    ensures
        spec_match_composite_help(pos, descs, values) matches Err(e) ==> e.errors.len() == invalid(
            components_found(descs, values),
        ),
        spec_match_composite_help(pos, descs, values) is Ok ==> invalid(
            components_found(descs, values),
        ) == 0,
        (descs.len() > 0 && forall|i: int|
            0 <= i < descs.len() ==> (#[trigger] components_found(descs, values)[i]) matches Some(
                Err(_),
            )) ==> (spec_match_composite_help(pos, descs, values) matches Err(e) && e.errors.len()
            == descs.len()),
{
    lemma_errors_kept(components_found(descs, values));
}

} // verus!
