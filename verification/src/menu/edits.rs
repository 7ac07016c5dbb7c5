//! Applying the edits of a fix to a text buffer.
//!
//! The edits of one fix carry offsets into the same snapshot. They are applied
//! from the highest start offset down, so that an edit never moves the bytes
//! that an edit still to come refers to.

use super::diagnostic_fix_menu::{TextEditInfo, TextEditInfoView};
use crate::text::{
    clamp, lemma_between_boundaries, lemma_boundary_in_concat, replace_range, splice_ok, spliced,
};
use vstd::prelude::*;
use vstd::utf8::*;

verus! {

/// Index of the first edit from `i` on that starts below `start`, or the
/// length of `edits` when there is none.
pub open spec fn first_below(edits: Seq<TextEditInfoView>, start: usize, i: int) -> int
    decreases edits.len() - i,
{
    if i < 0 || i >= edits.len() {
        edits.len() as int
    } else if edits[i].span.start < start {
        i
    } else {
        first_below(edits, start, i + 1)
    }
}

/// `edits`, with `edit` put behind every edit that starts at or above its start.
pub open spec fn insert_descending(edits: Seq<TextEditInfoView>, edit: TextEditInfoView) -> Seq<
    TextEditInfoView,
> {
    edits.insert(first_below(edits, edit.span.start, 0), edit)
}

/// The order of application: by descending start offset, edits with the same
/// start in the order in which they were given.
pub open spec fn descending(edits: Seq<TextEditInfoView>) -> Seq<TextEditInfoView>
    decreases edits.len(),
{
    if edits.len() == 0 {
        Seq::empty()
    } else {
        insert_descending(descending(edits.drop_last()), edits.last())
    }
}

/// Whether the starts of `edits` never rise.
pub open spec fn starts_descend(edits: Seq<TextEditInfoView>) -> bool {
    forall|i: int, j: int| 0 <= i <= j < edits.len() ==> edits[i].span.start >= edits[j].span.start
}

proof fn lemma_first_below(edits: Seq<TextEditInfoView>, start: usize, i: int)
    requires
        0 <= i <= edits.len(),
    ensures
        i <= first_below(edits, start, i) <= edits.len(),
        forall|k: int| i <= k < first_below(edits, start, i) ==> edits[k].span.start >= start,
        first_below(edits, start, i) < edits.len() ==> edits[first_below(
            edits,
            start,
            i,
        )].span.start < start,
    decreases edits.len() - i,
{
    if i < edits.len() && edits[i].span.start >= start {
        lemma_first_below(edits, start, i + 1);
    }
}

/// Putting an edit into a descending sequence keeps it descending, adds that
/// edit and no other, and leaves the edits that were there in their order.
pub proof fn lemma_insert_descending(edits: Seq<TextEditInfoView>, edit: TextEditInfoView)
    requires
        starts_descend(edits),
    ensures
        starts_descend(insert_descending(edits, edit)),
        insert_descending(edits, edit).to_multiset() == edits.to_multiset().insert(edit),
        insert_descending(edits, edit).len() == edits.len() + 1,
{
    let p = first_below(edits, edit.span.start, 0);
    lemma_first_below(edits, edit.span.start, 0);
    let out = insert_descending(edits, edit);
    assert forall|i: int, j: int| 0 <= i <= j < out.len() implies out[i].span.start
        >= out[j].span.start by {
        if j < p {
        } else if i > p {
            assert(out[i] == edits[i - 1]);
            assert(out[j] == edits[j - 1]);
        } else if i == p {
            if j > p {
                assert(out[j] == edits[j - 1]);
                assert(edits[p].span.start >= edits[j - 1].span.start);
            }
        } else {
            if j > p {
                assert(out[j] == edits[j - 1]);
            }
        }
    }
    vstd::seq_lib::to_multiset_insert(edits, p, edit);
}

/// The order of application holds exactly the edits given, each as often as
/// it was given, and its starts never rise.
pub proof fn lemma_descending(edits: Seq<TextEditInfoView>)
    ensures
        starts_descend(descending(edits)),
        descending(edits).to_multiset() == edits.to_multiset(),
        descending(edits).len() == edits.len(),
    decreases edits.len(),
{
    if edits.len() == 0 {
        assert(edits =~= Seq::empty());
    } else {
        lemma_descending(edits.drop_last());
        lemma_insert_descending(descending(edits.drop_last()), edits.last());
        assert(edits.drop_last().push(edits.last()) =~= edits);
        vstd::seq_lib::to_multiset_build(edits.drop_last(), edits.last());
    }
}

/// The edits among `edits` that start at `start`, in their order.
pub open spec fn starting_at(edits: Seq<TextEditInfoView>, start: usize) -> Seq<TextEditInfoView> {
    edits.filter(|edit: TextEditInfoView| edit.span.start == start)
}

proof fn lemma_none_starting_at(edits: Seq<TextEditInfoView>, start: usize)
    requires
        forall|i: int| 0 <= i < edits.len() ==> edits[i].span.start != start,
    ensures
        starting_at(edits, start) =~= Seq::empty(),
    decreases edits.len(),
{
    reveal(Seq::filter);
    if edits.len() > 0 {
        lemma_none_starting_at(edits.drop_last(), start);
    }
}

/// The order of application is stable: edits that start at the same offset
/// stay in the order in which they were given.
pub proof fn lemma_descending_is_stable(edits: Seq<TextEditInfoView>, start: usize)
    ensures
        starting_at(descending(edits), start) == starting_at(edits, start),
    decreases edits.len(),
{
    reveal(Seq::filter);
    if edits.len() > 0 {
        let given = edits.drop_last();
        let last = edits.last();
        let sorted = descending(given);
        let slot = first_below(sorted, last.span.start, 0);
        let here = |edit: TextEditInfoView| edit.span.start == start;
        lemma_descending_is_stable(given, start);
        lemma_descending(given);
        lemma_first_below(sorted, last.span.start, 0);
        let head = sorted.take(slot);
        let tail = sorted.skip(slot);
        assert(sorted =~= head + tail);
        assert(descending(edits) =~= head + seq![last] + tail);
        assert(edits =~= given + seq![last]);
        Seq::filter_distributes_over_add(head, tail, here);
        Seq::filter_distributes_over_add(head, seq![last], here);
        Seq::filter_distributes_over_add(head + seq![last], tail, here);
        Seq::filter_distributes_over_add(given, seq![last], here);
        assert(seq![last].drop_last() =~= Seq::<TextEditInfoView>::empty());
        if last.span.start == start {
            assert forall|i: int| 0 <= i < tail.len() implies tail[i].span.start != start by {
                assert(tail[i] == sorted[slot + i]);
                assert(sorted[slot].span.start >= sorted[slot + i].span.start);
            }
            lemma_none_starting_at(tail, start);
            assert(starting_at(descending(edits), start) =~= starting_at(edits, start));
        } else {
            assert(seq![last].filter(here) =~= Seq::empty());
            assert(starting_at(descending(edits), start) =~= starting_at(edits, start));
        }
    }
}

/// Sorts the edits into their order of application.
pub fn sort_descending(edits: &Vec<TextEditInfo>) -> (sorted: Vec<TextEditInfo>)
    ensures
        sorted.deep_view() == descending(edits.deep_view()),
{
    let mut sorted: Vec<TextEditInfo> = Vec::new();
    let mut i: usize = 0;
    while i < edits.len()
        invariant
            i <= edits.len(),
            sorted.deep_view() == descending(edits.deep_view().take(i as int)),
        decreases edits.len() - i,
    {
        let edit = edits[i].clone();
        let mut slot: usize = 0;
        proof {
            lemma_first_below(sorted.deep_view(), edit.span.start, 0);
        }
        let ghost before = sorted.deep_view();
        while slot < sorted.len() && sorted[slot].span.start >= edit.span.start
            invariant
                slot <= sorted.len(),
                before == sorted.deep_view(),
                first_below(before, edit.span.start, 0) == first_below(
                    before,
                    edit.span.start,
                    slot as int,
                ),
            decreases sorted.len() - slot,
        {
            slot = slot + 1;
        }
        sorted.insert(slot, edit);
        proof {
            let given = edits.deep_view();
            assert(sorted.deep_view() =~= before.insert(slot as int, edit@));
            assert(given.take(i + 1).drop_last() =~= given.take(i as int));
            assert(given.take(i + 1).last() == edit@);
        }
        i = i + 1;
    }
    proof {
        assert(edits.deep_view().take(edits.len() as int) =~= edits.deep_view());
    }
    sorted
}

/// The buffer after one edit, whose bounds are first limited to the buffer's
/// length; `None` when the limited range cannot be cut.
pub open spec fn apply_edit(buf: Seq<u8>, edit: TextEditInfoView) -> Option<Seq<u8>> {
    let start = clamp(edit.span.start as int, buf.len() as int);
    let end = clamp(edit.span.end as int, buf.len() as int);
    if splice_ok(buf, start, end) {
        Some(spliced(buf, start, end, encode_utf8(edit.replacement)))
    } else {
        None
    }
}

/// The buffer after the first `count` of `edits`, applied one after the other
/// in the order given; `None` as soon as one of them cannot be applied.
pub open spec fn apply_first(buf: Seq<u8>, edits: Seq<TextEditInfoView>, count: nat) -> Option<
    Seq<u8>,
>
    decreases count,
{
    if count == 0 {
        Some(buf)
    } else {
        match apply_first(buf, edits, (count - 1) as nat) {
            Some(before) => apply_edit(before, edits[count - 1]),
            None => None,
        }
    }
}

/// The buffer after all of `edits`, applied in the order given.
pub open spec fn apply_all(buf: Seq<u8>, edits: Seq<TextEditInfoView>) -> Option<Seq<u8>> {
    apply_first(buf, edits, edits.len())
}

/// Where the cursor goes: behind the replacement of the edit applied last,
/// which is the one that starts lowest, or to `fallback` when there is no
/// edit; in either case no further than the end of the new buffer.
pub open spec fn cursor_after(ordered: Seq<TextEditInfoView>, fallback: usize, new_len: nat) -> int {
    if ordered.len() == 0 {
        clamp(fallback as int, new_len as int)
    } else {
        clamp(
            ordered.last().span.start + encode_utf8(ordered.last().replacement).len(),
            new_len as int,
        )
    }
}

/// Applies the edits of one fix to `buffer`.
///
/// The edits are applied by descending start offset, each with its bounds
/// limited to the length that the buffer has by then. The result is the new
/// text and the new offset of the cursor, which stood at `insertion_point`.
/// Nothing is returned when one of the edits cannot be applied: its limited
/// range is out of order or splits a character.
pub fn apply_text_edits(buffer: &str, insertion_point: usize, edits: &Vec<TextEditInfo>) -> (out:
    Option<(String, usize)>)
    ensures
        out is Some <==> apply_all(encode_utf8(buffer@), descending(edits.deep_view())) is Some,
        out matches Some((text, cursor)) ==> {
            &&& Some(encode_utf8(text@)) == apply_all(
                encode_utf8(buffer@),
                descending(edits.deep_view()),
            )
            &&& cursor == cursor_after(
                descending(edits.deep_view()),
                insertion_point,
                encode_utf8(text@).len(),
            )
        },
{
    let ordered = sort_descending(edits);
    let mut text: String = buffer.to_owned();
    let mut i: usize = 0;
    while i < ordered.len()
        invariant
            i <= ordered.len(),
            ordered.deep_view() == descending(edits.deep_view()),
            Some(encode_utf8(text@)) == apply_first(
                encode_utf8(buffer@),
                ordered.deep_view(),
                i as nat,
            ),
        decreases ordered.len() - i,
    {
        let len = text.as_str().as_bytes().len();
        let edit = &ordered[i];
        let start = if edit.span.start <= len {
            edit.span.start
        } else {
            len
        };
        let end = if edit.span.end <= len {
            edit.span.end
        } else {
            len
        };
        match replace_range(text.as_str(), start, end, edit.replacement.as_str()) {
            Some(next) => {
                proof {
                    assert(ordered.deep_view()[i as int] == ordered@[i as int]@);
                }
                text = next;
            },
            None => {
                proof {
                    let order = ordered.deep_view();
                    assert(order[i as int] == ordered@[i as int]@);
                    assert(apply_edit(encode_utf8(text@), order[i as int]) is None);
                    assert(apply_first(encode_utf8(buffer@), order, (i + 1) as nat) is None);
                    lemma_apply_first_none(
                        encode_utf8(buffer@),
                        order,
                        (i + 1) as nat,
                        order.len(),
                    );
                }
                return None;
            },
        }
        i = i + 1;
    }
    let new_len = text.as_str().as_bytes().len();
    let cursor = if ordered.len() == 0 {
        if insertion_point <= new_len {
            insertion_point
        } else {
            new_len
        }
    } else {
        let last = &ordered[ordered.len() - 1];
        proof {
            assert(ordered.deep_view().last() == ordered@[ordered.len() - 1]@);
        }
        let added = last.replacement.as_str().as_bytes().len();
        if last.span.start > new_len || added > new_len - last.span.start {
            new_len
        } else {
            last.span.start + added
        }
    };
    Some((text, cursor))
}

/// An edit with an empty replacement is applied like any other: the bytes
/// of its range are gone from the buffer, and nothing has come in their
/// place.
pub proof fn lemma_deletion_is_applied(buf: Seq<u8>, edit: TextEditInfoView)
    requires
        edit.replacement.len() == 0,
        splice_ok(buf, edit.span.start as int, edit.span.end as int),
    ensures
        apply_edit(buf, edit) == Some(
            buf.subrange(0, edit.span.start as int) + buf.subrange(
                edit.span.end as int,
                buf.len() as int,
            ),
        ),
        apply_edit(buf, edit)->0.len() == buf.len() - (edit.span.end - edit.span.start),
{
    assert(encode_utf8(edit.replacement) =~= Seq::<u8>::empty());
    assert(spliced(buf, edit.span.start as int, edit.span.end as int, Seq::empty())
        =~= buf.subrange(0, edit.span.start as int) + buf.subrange(
        edit.span.end as int,
        buf.len() as int,
    ));
}

/// Once an edit has failed, the edits behind it change nothing.
pub proof fn lemma_apply_first_none(
    buf: Seq<u8>,
    edits: Seq<TextEditInfoView>,
    failed: nat,
    count: nat,
)
    requires
        failed <= count,
        apply_first(buf, edits, failed) is None,
    ensures
        apply_first(buf, edits, count) is None,
    decreases count,
{
    if count > failed {
        lemma_apply_first_none(buf, edits, failed, (count - 1) as nat);
    }
}

/// Whether the edits, in their order of application, can be made to `buf`
/// without getting in each other's way: each names a range of `buf` that can
/// be cut, and each lies wholly before the one applied before it.
pub open spec fn apart(buf: Seq<u8>, ordered: Seq<TextEditInfoView>) -> bool {
    &&& forall|i: int|
        0 <= i < ordered.len() ==> splice_ok(
            buf,
            (#[trigger] ordered[i]).span.start as int,
            ordered[i].span.end as int,
        )
    &&& forall|i: int, j: int|
        0 <= i < j < ordered.len() ==> (#[trigger] ordered[j]).span.end
            <= (#[trigger] ordered[i]).span.start
}

/// Where the part of `buf` begins that the first `count` edits have touched:
/// at the start of the last of them, and at the end of `buf` when no edit
/// has been applied.
pub open spec fn touched_from(buf: Seq<u8>, ordered: Seq<TextEditInfoView>, count: nat) -> int {
    if count == 0 {
        buf.len() as int
    } else {
        ordered[count - 1].span.start as int
    }
}

/// What the first `count` edits make of the part of `buf` that they have
/// touched, put together from the replacements and from the stretches of
/// `buf` between the edits.
pub open spec fn touched(buf: Seq<u8>, ordered: Seq<TextEditInfoView>, count: nat) -> Seq<u8>
    decreases count,
{
    if count == 0 {
        Seq::empty()
    } else {
        let before = (count - 1) as nat;
        encode_utf8(ordered[count - 1].replacement) + buf.subrange(
            ordered[count - 1].span.end as int,
            touched_from(buf, ordered, before),
        ) + touched(buf, ordered, before)
    }
}

/// `buf` with the first `count` edits made to it all at once: each range as
/// it stands in `buf` gives way to its replacement, and what lies between
/// the ranges stays.
pub open spec fn patched(buf: Seq<u8>, ordered: Seq<TextEditInfoView>, count: nat) -> Seq<u8> {
    buf.subrange(0, touched_from(buf, ordered, count)) + touched(buf, ordered, count)
}

/// What edits that lie apart have touched is a text.
proof fn lemma_touched_is_text(buf: Seq<u8>, ordered: Seq<TextEditInfoView>, count: nat)
    requires
        valid_utf8(buf),
        apart(buf, ordered),
        count <= ordered.len(),
    ensures
        valid_utf8(touched(buf, ordered, count)),
        0 <= touched_from(buf, ordered, count) <= buf.len(),
        is_char_boundary(buf, touched_from(buf, ordered, count)),
    decreases count,
{
    is_char_boundary_start_end_of_seq(buf);
    if count > 0 {
        let before = (count - 1) as nat;
        lemma_touched_is_text(buf, ordered, before);
        let edit = ordered[count - 1];
        let upper = touched_from(buf, ordered, before);
        if before > 0 {
            assert(ordered[count - 1].span.end <= ordered[before - 1].span.start);
        }
        lemma_between_boundaries(buf, edit.span.end as int, upper);
        encode_utf8_valid_utf8(edit.replacement);
        valid_utf8_concat(encode_utf8(edit.replacement), buf.subrange(edit.span.end as int, upper));
        valid_utf8_concat(
            encode_utf8(edit.replacement) + buf.subrange(edit.span.end as int, upper),
            touched(buf, ordered, before),
        );
    }
}

/// Edits that lie apart do not disturb each other when they are applied from
/// the highest down: each can be applied, each finds at its offsets the very
/// bytes that stood there in `buf`, and what comes of applying them one
/// after the other is what comes of making them all at once.
pub proof fn lemma_descending_keeps_offsets(
    buf: Seq<u8>,
    ordered: Seq<TextEditInfoView>,
    count: nat,
)
    requires
        valid_utf8(buf),
        apart(buf, ordered),
        count <= ordered.len(),
    ensures
        apply_first(buf, ordered, count) == Some(patched(buf, ordered, count)),
        valid_utf8(patched(buf, ordered, count)),
    decreases count,
{
    lemma_touched_is_text(buf, ordered, count);
    let from = touched_from(buf, ordered, count);
    valid_utf8_split(buf, from);
    valid_utf8_concat(buf.subrange(0, from), touched(buf, ordered, count));
    if count == 0 {
        assert(patched(buf, ordered, 0) =~= buf);
    } else {
        let before = (count - 1) as nat;
        lemma_descending_keeps_offsets(buf, ordered, before);
        lemma_touched_is_text(buf, ordered, before);
        let edit = ordered[count - 1];
        let upper = touched_from(buf, ordered, before);
        let start = edit.span.start as int;
        let end = edit.span.end as int;
        if before > 0 {
            assert(ordered[count - 1].span.end <= ordered[before - 1].span.start);
        }
        let current = patched(buf, ordered, before);
        let head = buf.subrange(0, upper);
        let tail = touched(buf, ordered, before);
        valid_utf8_split(buf, upper);
        crate::text::lemma_boundary_in_prefix(buf, start, upper);
        crate::text::lemma_boundary_in_prefix(buf, end, upper);
        lemma_boundary_in_concat(head, tail, start);
        lemma_boundary_in_concat(head, tail, end);
        assert(clamp(start, current.len() as int) == start);
        assert(clamp(end, current.len() as int) == end);
        assert(splice_ok(current, start, end));
        assert(spliced(current, start, end, encode_utf8(edit.replacement)) =~= patched(
            buf,
            ordered,
            count,
        ));
    }
}

/// The edits of a fix that lie apart in the buffer always apply, and give
/// the buffer with all of them made at once.
pub proof fn lemma_edits_apart_apply(buf: Seq<u8>, edits: Seq<TextEditInfoView>)
    requires
        valid_utf8(buf),
        apart(buf, descending(edits)),
    ensures
        apply_all(buf, descending(edits)) == Some(
            patched(buf, descending(edits), descending(edits).len()),
        ),
{
    lemma_descending_keeps_offsets(buf, descending(edits), descending(edits).len());
}

/// Whether two edits of one fix leave each other alone: one ends where the
/// other starts or before, and they start at the same offset only if both
/// are bare insertions there.
pub open spec fn compatible(one: TextEditInfoView, other: TextEditInfoView) -> bool {
    &&& one.span.end <= other.span.start || other.span.end <= one.span.start
    &&& one.span.start == other.span.start ==> one.span.end == one.span.start && other.span.end
        == other.span.start
}

/// Whether the edits of a fix, in whatever order they were given, name
/// ranges of `buf` that can be cut and leave each other alone.
pub open spec fn disjoint(buf: Seq<u8>, edits: Seq<TextEditInfoView>) -> bool {
    &&& forall|i: int|
        0 <= i < edits.len() ==> splice_ok(
            buf,
            (#[trigger] edits[i]).span.start as int,
            edits[i].span.end as int,
        )
    &&& forall|i: int, j: int|
        0 <= i < j < edits.len() ==> compatible(#[trigger] edits[i], #[trigger] edits[j])
}

/// Each edit in the order of application is one of the edits given.
proof fn lemma_descending_holds_given(edits: Seq<TextEditInfoView>, k: int)
    requires
        0 <= k < descending(edits).len(),
    ensures
        edits.contains(descending(edits)[k]),
    decreases edits.len(),
{
    if edits.len() > 0 {
        let given = edits.drop_last();
        let sorted = descending(given);
        let slot = first_below(sorted, edits.last().span.start, 0);
        lemma_first_below(sorted, edits.last().span.start, 0);
        if k == slot {
            assert(edits[edits.len() - 1] == edits.last());
        } else {
            let from = if k < slot {
                k
            } else {
                k - 1
            };
            lemma_descending_holds_given(given, from);
            let m = choose|m: int| 0 <= m < given.len() && given[m] == sorted[from];
            assert(edits[m] == given[m]);
        }
    }
}

/// Edits that leave each other alone lie apart in their order of
/// application, in whatever order they were given.
pub proof fn lemma_disjoint_edits_lie_apart(buf: Seq<u8>, edits: Seq<TextEditInfoView>)
    requires
        disjoint(buf, edits),
    ensures
        apart(buf, descending(edits)),
    decreases edits.len(),
{
    if edits.len() > 0 {
        let given = edits.drop_last();
        let last = edits.last();
        let sorted = descending(given);
        let slot = first_below(sorted, last.span.start, 0);
        let order = descending(edits);
        assert forall|i: int, j: int| 0 <= i < j < given.len() implies compatible(
            #[trigger] given[i],
            #[trigger] given[j],
        ) by {
            assert(compatible(edits[i], edits[j]));
        }
        assert forall|i: int| 0 <= i < given.len() implies splice_ok(
            buf,
            (#[trigger] given[i]).span.start as int,
            given[i].span.end as int,
        ) by {
            assert(given[i] == edits[i]);
        }
        lemma_disjoint_edits_lie_apart(buf, given);
        lemma_descending(given);
        lemma_first_below(sorted, last.span.start, 0);
        assert forall|k: int| 0 <= k < sorted.len() implies compatible(
            #[trigger] sorted[k],
            last,
        ) by {
            lemma_descending_holds_given(given, k);
            let m = choose|m: int| 0 <= m < given.len() && given[m] == sorted[k];
            assert(compatible(edits[m], edits[edits.len() - 1]));
        }
        assert forall|i: int| 0 <= i < order.len() implies splice_ok(
            buf,
            (#[trigger] order[i]).span.start as int,
            order[i].span.end as int,
        ) by {
            if i < slot {
                assert(order[i] == sorted[i]);
            } else if i == slot {
                assert(order[i] == edits[edits.len() - 1]);
            } else {
                assert(order[i] == sorted[i - 1]);
            }
        }
        assert forall|i: int, j: int| 0 <= i < j < order.len() implies (#[trigger] order[j]).span.end
            <= (#[trigger] order[i]).span.start by {
            if j < slot {
                assert(order[i] == sorted[i] && order[j] == sorted[j]);
            } else if i > slot {
                assert(order[i] == sorted[i - 1] && order[j] == sorted[j - 1]);
            } else if i == slot {
                assert(order[j] == sorted[j - 1]);
                assert(sorted[slot].span.start >= sorted[j - 1].span.start);
                assert(compatible(sorted[j - 1], last));
            } else if j == slot {
                assert(order[i] == sorted[i]);
                assert(compatible(sorted[i], last));
            } else {
                assert(order[i] == sorted[i] && order[j] == sorted[j - 1]);
            }
        }
    }
}

/// The edits of a fix that leave each other alone always apply, in whatever
/// order they were given, and give the buffer with all of them made at once.
pub proof fn lemma_disjoint_edits_apply(buf: Seq<u8>, edits: Seq<TextEditInfoView>)
    requires
        valid_utf8(buf),
        disjoint(buf, edits),
    ensures
        apply_all(buf, descending(edits)) == Some(
            patched(buf, descending(edits), descending(edits).len()),
        ),
{
    lemma_disjoint_edits_lie_apart(buf, edits);
    lemma_edits_apart_apply(buf, edits);
}

} // verus!
