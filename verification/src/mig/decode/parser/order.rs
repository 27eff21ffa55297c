//! What holds of every lexed interchange: how the service characters are
//! found, how the escape character and the component separator act, and
//! that the positions of the data elements follow the text.
use crate::mig::decode::parser::value::{
    announces, column_at, components_at, dangling, lemma_position_bounds, lemma_value_end, lex,
    line_at, position_at, segment_at, segments_at, slot_at, slots_at, una_len, una_of, value_at,
    value_end, value_text, DataElementView, InterchangeView, Position, SegmentView,
    Slot, UNA,
};
use crate::mig::either::Either;
use crate::text::{after_blanks, lemma_after_blanks_bounds};
use vstd::prelude::*;

verus! {

/// A text that starts with `UNA` and six more characters has exactly these
/// six as its service characters, whatever they are, and its segments
/// start behind them. Any other text has the standard service characters,
/// and its segments start with its first character.
pub proof fn lemma_una_identity(s: Seq<char>)
    ensures
        announces(s) ==> una_of(s) == (UNA {
            component_sep: s[3],
            element_sep: s[4],
            decimal_char: s[5],
            escape: s[6],
            reserved: s[7],
            segment_sep: s[8],
        }) && una_len(s) == 9,
        !announces(s) ==> una_of(s) == UNA::standard() && una_len(s) == 0,
{
}

/// Whether the characters of `s` from the offset `i` up to the offset `j`
/// are neither the escape character nor a separator.
pub open spec fn plain(una: UNA, s: Seq<char>, i: int, j: int) -> bool {
    forall|k: int| i <= k < j ==> !una.escapes(#[trigger] s[k]) && !una.separates(s[k])
}

/// Characters that are neither the escape character nor a separator stand
/// in the value as they are.
pub proof fn lemma_plain_prefix(una: UNA, s: Seq<char>, i: int, j: int)
    requires
        0 <= i <= j <= s.len(),
        plain(una, s, i, j),
    ensures
        value_text(una, s, i) == s.subrange(i, j) + value_text(una, s, j),
        value_end(una, s, i) == value_end(una, s, j),
    decreases j - i,
{
    if i < j {
        assert(!una.escapes(s[i]) && !una.separates(s[i]));
        lemma_plain_prefix(una, s, i + 1, j);
        assert(seq![s[i]] + (s.subrange(i + 1, j) + value_text(una, s, j)) =~= s.subrange(i, j)
            + value_text(una, s, j));
    } else {
        assert(s.subrange(i, j) + value_text(una, s, j) =~= value_text(una, s, j));
    }
}

/// The escape character, inside a data element, makes the character behind
/// it a part of the value, whatever that character is: a separator, the
/// escape character itself, or any other. The value goes on behind it.
pub proof fn lemma_escape_transparency(una: UNA, s: Seq<char>, i: int, j: int)
    requires
        0 <= i <= j,
        j + 1 < s.len(),
        plain(una, s, i, j),
        una.escapes(s[j]),
    ensures
        value_text(una, s, i) == s.subrange(i, j).push(s[j + 1]) + value_text(una, s, j + 2),
        value_end(una, s, i) == value_end(una, s, j + 2),
{
    lemma_plain_prefix(una, s, i, j);
    assert(s.subrange(i, j) + (seq![s[j + 1]] + value_text(una, s, j + 2)) =~= s.subrange(
        i,
        j,
    ).push(s[j + 1]) + value_text(una, s, j + 2));
}

/// A slot that can be read holds at least one data element.
pub proof fn lemma_components_exist(una: UNA, s: Seq<char>, i: int)
    requires
        0 <= i <= s.len(),
    ensures
        components_at(una, s, i) matches Ok((elements, end)) ==> elements.len() >= 1 && i <= end
            <= s.len(),
        components_at(una, s, i) matches Ok((elements, end)) ==> (elements.len() >= 2
            <==> value_end(una, s, i) < s.len() && s[value_end(una, s, i)] == una.component_sep),
    decreases s.len() - i,
{
    lemma_value_end(una, s, i);
    let e = value_end(una, s, i);
    if !dangling(una, s, e) && e < s.len() && s[e] == una.component_sep {
        lemma_components_exist(una, s, e + 1);
    }
}

/// A slot is lexed as a composite exactly if a component separator
/// follows its first data element, and as a bare data element otherwise. A
/// composite holds at least two data elements.
pub proof fn lemma_composite_arity(una: UNA, s: Seq<char>, i: int)
    requires
        0 <= i <= s.len(),
    ensures
        slot_at(una, s, i) matches Ok((slot, _)) ==> (slot is Left <==> value_end(una, s, i)
            < s.len() && s[value_end(una, s, i)] == una.component_sep),
        slot_at(una, s, i) matches Ok((Either::Left(composite), _)) ==> composite.elements.len()
            >= 2,
{
    lemma_components_exist(una, s, i);
}

/// The number of characters `c` between the offsets `i` and `j` of the
/// text `s` that are not escaped.
pub open spec fn unescaped(una: UNA, s: Seq<char>, i: int, j: int, c: char) -> nat
    decreases j - i,
{
    if i >= j {
        0
    } else if una.escapes(s[i]) {
        if i + 2 <= j {
            unescaped(una, s, i + 2, j, c)
        } else {
            0
        }
    } else if s[i] == c {
        1 + unescaped(una, s, i + 1, j, c)
    } else {
        unescaped(una, s, i + 1, j, c)
    }
}

/// Where the element slot that starts at the offset `i` ends in the text:
/// at the first element or segment separator that is not escaped, at the
/// end of the text, or at an escape character that is its last character.
pub open spec fn slot_end(una: UNA, s: Seq<char>, i: int) -> int
    decreases s.len() - i,
{
    if i >= s.len() {
        s.len() as int
    } else if una.escapes(s[i]) {
        if i + 1 < s.len() {
            slot_end(una, s, i + 2)
        } else {
            i
        }
    } else if s[i] == una.element_sep || s[i] == una.segment_sep {
        i
    } else {
        slot_end(una, s, i + 1)
    }
}

/// Where the element slot number `k` starts, counted from the slot that
/// starts at the offset `from`: behind the end of the slot before it.
pub open spec fn slot_start(una: UNA, s: Seq<char>, from: int, k: nat) -> int
    decreases k,
{
    if k == 0 {
        from
    } else {
        slot_start(una, s, slot_end(una, s, from) + 1, (k - 1) as nat)
    }
}

/// Whether the slot `slot`, which starts at the offset `a`, has the shape
/// that its text asks for: a composite of one data element more than the
/// text of the slot holds component separators that are not escaped, if it
/// holds one, and a bare data element if it holds none.
pub open spec fn shaped(una: UNA, s: Seq<char>, slot: Slot, a: int) -> bool {
    let separators = unescaped(una, s, a, slot_end(una, s, a), una.component_sep);
    match slot {
        Either::Left(composite) => separators >= 1 && composite.elements.len() == separators + 1,
        Either::Right(_) => separators == 0,
    }
}

/// A value holds no separator that is not escaped, and ends at a separator,
/// at the end of the text, or at an escape character.
pub proof fn lemma_value_holds_no_separator(una: UNA, s: Seq<char>, i: int, j: int, c: char)
    requires
        0 <= i <= s.len(),
        value_end(una, s, i) <= j,
        una.separates(c),
    ensures
        unescaped(una, s, i, j, c) == unescaped(una, s, value_end(una, s, i), j, c),
        slot_end(una, s, i) == slot_end(una, s, value_end(una, s, i)),
        value_end(una, s, i) < s.len() ==> una.escapes(s[value_end(una, s, i)]) || una.separates(
            s[value_end(una, s, i)],
        ),
    decreases s.len() - i,
{
    if i < s.len() {
        if una.escapes(s[i]) {
            if i + 1 < s.len() {
                lemma_value_end(una, s, i + 2);
                lemma_value_holds_no_separator(una, s, i + 2, j, c);
            }
        } else if !una.separates(s[i]) {
            lemma_value_end(una, s, i + 1);
            lemma_value_holds_no_separator(una, s, i + 1, j, c);
        }
    }
}

/// The data elements of a slot are one more than the component separators
/// in its text that are not escaped, and the slot ends where its text ends.
pub proof fn lemma_components_count(una: UNA, s: Seq<char>, i: int)
    requires
        0 <= i <= s.len(),
        una.component_sep != una.element_sep,
        una.component_sep != una.segment_sep,
    ensures
        components_at(una, s, i) matches Ok((elements, end)) ==> end == slot_end(una, s, i)
            && elements.len() == 1 + unescaped(una, s, i, end, una.component_sep),
    decreases s.len() - i,
{
    lemma_value_end(una, s, i);
    lemma_components_exist(una, s, i);
    let e = value_end(una, s, i);
    match components_at(una, s, i) {
        Ok((elements, end)) => {
            if e < s.len() && s[e] == una.component_sep {
                lemma_components_count(una, s, e + 1);
                lemma_components_exist(una, s, e + 1);
            }
            lemma_value_holds_no_separator(una, s, i, end, una.component_sep);
        },
        Err(_) => {},
    }
}

/// Every slot behind the offset `from` has the shape that its text asks
/// for.
pub proof fn lemma_slots_arity(una: UNA, s: Seq<char>, from: int, k: int)
    requires
        0 <= from <= s.len(),
        una.component_sep != una.element_sep,
        una.component_sep != una.segment_sep,
        slots_at(una, s, from) matches Ok((slots, _)) && 0 <= k < slots.len(),
    ensures
        slots_at(una, s, from) matches Ok((slots, _)) && shaped(
            una,
            s,
            slots[k],
            slot_start(una, s, from, k as nat),
        ),
    decreases k,
{
    lemma_components_count(una, s, from);
    lemma_components_exist(una, s, from);
    match slot_at(una, s, from) {
        Ok((first, e)) => {
            if k > 0 {
                match slots_at(una, s, e + 1) {
                    Ok((others, _)) => {
                        let slots = seq![first] + others;
                        assert(slots[k] == others[k - 1]);
                        lemma_slots_arity(una, s, e + 1, k - 1);
                    },
                    Err(_) => {},
                }
            }
        },
        Err(_) => {},
    }
}

/// In a lexed segment every element slot has the shape that its text asks
/// for, as long as the component separator is neither the element nor the
/// segment separator: a slot whose text holds component separators that
/// are not escaped is a composite of one data element more than it holds of
/// them, and any other slot is a bare data element. A segment has at least
/// one slot.
pub proof fn lemma_segment_arity(una: UNA, s: Seq<char>, i: int, k: int)
    requires
        0 <= i <= s.len(),
        una.component_sep != una.element_sep,
        una.component_sep != una.segment_sep,
        segment_at(una, s, i) matches Ok((segment, _)) && 0 <= k < segment.elements.len(),
    ensures
        segment_at(una, s, i) matches Ok((segment, _)) && segment.elements.len() >= 1 && shaped(
            una,
            s,
            segment.elements[k],
            slot_start(una, s, value_end(una, s, i) + 1, k as nat),
        ),
{
    lemma_value_end(una, s, i);
    lemma_slots_arity(una, s, value_end(una, s, i) + 1, k);
}

/// Whether the position `a` is the position `b` or stands before it.
pub open spec fn not_behind(a: Position, b: Position) -> bool {
    a.line < b.line || (a.line == b.line && a.column <= b.column)
}

/// Whether no position in `ps` stands before one that comes earlier in
/// `ps`.
pub open spec fn ascending(ps: Seq<Position>) -> bool {
    forall|i: int, j: int| 0 <= i <= j < ps.len() ==> not_behind(#[trigger] ps[i], #[trigger] ps[j])
}

/// The positions of the data elements `elements`, start and end of each,
/// in order.
pub open spec fn elements_positions(elements: Seq<DataElementView>) -> Seq<Position>
    decreases elements.len(),
{
    if elements.len() == 0 {
        Seq::empty()
    } else {
        seq![elements[0].start, elements[0].end] + elements_positions(elements.drop_first())
    }
}

/// The positions of the data elements of the slot `slot`.
pub open spec fn slot_positions(slot: Slot) -> Seq<Position> {
    match slot {
        Either::Left(composite) => elements_positions(composite.elements),
        Either::Right(element) => seq![element.start, element.end],
    }
}

/// The positions of the data elements of the slots `slots`, slot by slot.
pub open spec fn slots_positions(slots: Seq<Slot>) -> Seq<Position>
    decreases slots.len(),
{
    if slots.len() == 0 {
        Seq::empty()
    } else {
        slot_positions(slots[0]) + slots_positions(slots.drop_first())
    }
}

/// The positions of the data elements of the segment `segment`: those of
/// its tag, then those of its slots.
pub open spec fn segment_positions(segment: SegmentView) -> Seq<Position> {
    seq![segment.tag.start, segment.tag.end] + slots_positions(segment.elements)
}

/// The positions of the data elements of the segments `segments`, segment
/// by segment.
pub open spec fn segments_positions(segments: Seq<SegmentView>) -> Seq<Position>
    decreases segments.len(),
{
    if segments.len() == 0 {
        Seq::empty()
    } else {
        segment_positions(segments[0]) + segments_positions(segments.drop_first())
    }
}

/// The positions of the data elements of the interchange `interchange`, in
/// the order in which a walk through its segments, slots and data elements
/// meets them.
pub open spec fn interchange_positions(interchange: InterchangeView) -> Seq<Position> {
    segments_positions(interchange.segments)
}

/// Whether the positions `ps` ascend, and all stand between the offsets
/// `lo` and `hi` of the text `s`.
pub open spec fn spanned(ps: Seq<Position>, s: Seq<char>, lo: int, hi: int) -> bool {
    &&& ascending(ps)
    &&& forall|k: int|
        0 <= k < ps.len() ==> not_behind(position_at(s, lo), #[trigger] ps[k]) && not_behind(
            ps[k],
            position_at(s, hi),
        )
}

/// A later offset of a text has no earlier position.
pub proof fn lemma_position_order(s: Seq<char>, i: int, j: int)
    requires
        0 <= i <= j <= s.len() < i32::MAX,
    ensures
        not_behind(position_at(s, i), position_at(s, j)),
    decreases j - i,
{
    lemma_position_bounds(s, i);
    lemma_position_bounds(s, j);
    if i < j {
        lemma_position_order(s, i, j - 1);
        lemma_position_bounds(s, j - 1);
    }
}

/// Positions that ascend between two offsets, followed by positions that
/// ascend between the second of them and a third, ascend between the first
/// and the third.
pub proof fn lemma_spanned_join(
    a: Seq<Position>,
    b: Seq<Position>,
    s: Seq<char>,
    lo: int,
    mid: int,
    hi: int,
)
    requires
        0 <= lo <= mid <= hi <= s.len() < i32::MAX,
        spanned(a, s, lo, mid),
        spanned(b, s, mid, hi),
    ensures
        spanned(a + b, s, lo, hi),
{
    let all = a + b;
    lemma_position_order(s, lo, mid);
    lemma_position_order(s, mid, hi);
    assert forall|k: int| 0 <= k < all.len() implies not_behind(
        position_at(s, lo),
        #[trigger] all[k],
    ) && not_behind(all[k], position_at(s, hi)) by {
        if k < a.len() {
            assert(all[k] == a[k]);
        } else {
            assert(all[k] == b[k - a.len()]);
        }
    }
    assert forall|i: int, j: int| 0 <= i <= j < all.len() implies not_behind(
        #[trigger] all[i],
        #[trigger] all[j],
    ) by {
        if j < a.len() {
            assert(all[i] == a[i] && all[j] == a[j]);
        } else if i >= a.len() {
            assert(all[i] == b[i - a.len()] && all[j] == b[j - a.len()]);
        } else {
            assert(all[i] == a[i] && all[j] == b[j - a.len()]);
            assert(not_behind(a[i], position_at(s, mid)));
            assert(not_behind(position_at(s, mid), b[j - a.len()]));
        }
    }
}

/// Positions that ascend between two offsets also ascend between offsets
/// that lie further apart.
pub proof fn lemma_spanned_widen(ps: Seq<Position>, s: Seq<char>, lo: int, hi: int, lower: int, higher: int)
    requires
        0 <= lower <= lo <= hi <= higher <= s.len() < i32::MAX,
        spanned(ps, s, lo, hi),
    ensures
        spanned(ps, s, lower, higher),
{
    lemma_position_order(s, lower, lo);
    lemma_position_order(s, hi, higher);
    assert forall|k: int| 0 <= k < ps.len() implies not_behind(
        position_at(s, lower),
        #[trigger] ps[k],
    ) && not_behind(ps[k], position_at(s, higher)) by {
        assert(not_behind(position_at(s, lo), ps[k]));
        assert(not_behind(ps[k], position_at(s, hi)));
    }
}

/// The positions of a data element are those of the offsets at which it
/// starts and ends.
pub proof fn lemma_value_spanned(una: UNA, s: Seq<char>, i: int)
    requires
        0 <= i <= s.len() < i32::MAX,
    ensures
        value_at(una, s, i) matches Ok((element, end)) ==> i <= end <= s.len() && spanned(
            seq![element.start, element.end],
            s,
            i,
            end,
        ),
{
    lemma_value_end(una, s, i);
    let end = value_end(una, s, i);
    lemma_position_order(s, i, end);
    lemma_position_order(s, i, i);
    lemma_position_order(s, end, end);
}

/// The positions of the data elements of a slot ascend between the offsets
/// at which the slot starts and ends.
pub proof fn lemma_components_spanned(una: UNA, s: Seq<char>, i: int)
    requires
        0 <= i <= s.len() < i32::MAX,
    ensures
        components_at(una, s, i) matches Ok((elements, end)) ==> i <= end <= s.len() && spanned(
            elements_positions(elements),
            s,
            i,
            end,
        ),
    decreases s.len() - i,
{
    lemma_value_spanned(una, s, i);
    match value_at(una, s, i) {
        Err(_) => {},
        Ok((first, e)) => {
            let head = seq![first.start, first.end];
            if e < s.len() && s[e] == una.component_sep {
                lemma_components_spanned(una, s, e + 1);
                match components_at(una, s, e + 1) {
                    Ok((others, end)) => {
                        let elements = seq![first] + others;
                        assert(elements.drop_first() =~= others);
                        lemma_spanned_widen(elements_positions(others), s, e + 1, end, e, end);
                        lemma_spanned_join(head, elements_positions(others), s, i, e, end);
                    },
                    Err(_) => {},
                }
            } else {
                let elements = seq![first];
                assert(elements.drop_first() =~= Seq::<DataElementView>::empty());
                assert(elements_positions(elements.drop_first()) =~= Seq::<Position>::empty());
                assert(elements_positions(elements) =~= head);
            }
        },
    }
}

/// The positions of the data elements of a slot, bare or composite, ascend
/// between the offsets at which the slot starts and ends.
pub proof fn lemma_slot_spanned(una: UNA, s: Seq<char>, i: int)
    requires
        0 <= i <= s.len() < i32::MAX,
    ensures
        slot_at(una, s, i) matches Ok((slot, end)) ==> i <= end <= s.len() && spanned(
            slot_positions(slot),
            s,
            i,
            end,
        ),
{
    lemma_components_spanned(una, s, i);
    lemma_components_exist(una, s, i);
    match components_at(una, s, i) {
        Ok((elements, end)) => {
            if elements.len() == 1 {
                assert(elements.drop_first() =~= Seq::<DataElementView>::empty());
                assert(elements_positions(elements.drop_first()) =~= Seq::<Position>::empty());
                assert(elements_positions(elements) =~= seq![elements[0].start, elements[0].end]);
            }
        },
        Err(_) => {},
    }
}

/// The positions of the data elements of the slots of a segment ascend
/// between the offsets at which the slots start and end.
pub proof fn lemma_slots_spanned(una: UNA, s: Seq<char>, i: int)
    requires
        0 <= i <= s.len() < i32::MAX,
    ensures
        slots_at(una, s, i) matches Ok((slots, end)) ==> i <= end <= s.len() && spanned(
            slots_positions(slots),
            s,
            i,
            end,
        ),
    decreases s.len() - i,
{
    lemma_slot_spanned(una, s, i);
    match slot_at(una, s, i) {
        Err(_) => {},
        Ok((first, e)) => {
            if e < s.len() && s[e] == una.element_sep {
                lemma_slots_spanned(una, s, e + 1);
                match slots_at(una, s, e + 1) {
                    Ok((others, end)) => {
                        let slots = seq![first] + others;
                        assert(slots.drop_first() =~= others);
                        lemma_spanned_widen(slots_positions(others), s, e + 1, end, e, end);
                        lemma_spanned_join(
                            slot_positions(first),
                            slots_positions(others),
                            s,
                            i,
                            e,
                            end,
                        );
                    },
                    Err(_) => {},
                }
            } else {
                let slots = seq![first];
                assert(slots.drop_first() =~= Seq::<Slot>::empty());
                assert(slots_positions(slots.drop_first()) =~= Seq::<Position>::empty());
                assert(slots_positions(slots) =~= slot_positions(first));
            }
        },
    }
}

/// The positions of the data elements of a segment ascend between the
/// offset at which the segment starts and the offset behind it. A segment
/// takes at least its two separators.
pub proof fn lemma_segment_spanned(una: UNA, s: Seq<char>, i: int)
    requires
        0 <= i <= s.len() < i32::MAX,
    ensures
        segment_at(una, s, i) matches Ok((segment, next)) ==> i + 2 <= next <= s.len() && spanned(
            segment_positions(segment),
            s,
            i,
            next,
        ),
{
    lemma_value_spanned(una, s, i);
    match value_at(una, s, i) {
        Err(_) => {},
        Ok((tag, t)) => {
            if 0 <= t < s.len() && s[t] == una.element_sep {
                lemma_slots_spanned(una, s, t + 1);
                match slots_at(una, s, t + 1) {
                    Err(_) => {},
                    Ok((elements, e)) => {
                        if 0 <= e < s.len() && s[e] == una.segment_sep {
                            let next = after_blanks(s, e + 1);
                            lemma_after_blanks_bounds(s, e + 1);
                            lemma_spanned_widen(slots_positions(elements), s, t + 1, e, t, next);
                            lemma_spanned_join(
                                seq![tag.start, tag.end],
                                slots_positions(elements),
                                s,
                                i,
                                t,
                                next,
                            );
                        }
                    },
                }
            }
        },
    }
}

/// The positions of the data elements of the segments of a text ascend
/// from the offset at which the first segment starts.
pub proof fn lemma_segments_spanned(una: UNA, s: Seq<char>, i: int)
    requires
        0 <= i <= s.len() < i32::MAX,
    ensures
        segments_at(una, s, i) matches Ok(segments) ==> spanned(
            segments_positions(segments),
            s,
            i,
            s.len() as int,
        ),
    decreases s.len() - i,
{
    if i < s.len() {
        lemma_segment_spanned(una, s, i);
        match segment_at(una, s, i) {
            Err(_) => {},
            Ok((first, next)) => {
                lemma_segments_spanned(una, s, next);
                match segments_at(una, s, next) {
                    Ok(others) => {
                        let segments = seq![first] + others;
                        assert(segments.drop_first() =~= others);
                        lemma_spanned_join(
                            segment_positions(first),
                            segments_positions(others),
                            s,
                            i,
                            next,
                            s.len() as int,
                        );
                    },
                    Err(_) => {},
                }
            },
        }
    }
}

/// In a lexed interchange no data element starts before an earlier one
/// ends, and none ends before it starts: the positions of the data
/// elements, in the order of a walk through segments, slots and data
/// elements, never go back.
pub proof fn lemma_positions_ascend(s: Seq<char>)
    requires
        s.len() < i32::MAX,
    ensures
        lex(s) matches Ok(interchange) ==> ascending(interchange_positions(interchange)),
{
    lemma_segments_spanned(una_of(s), s, una_len(s));
}

} // verus!
