//! Laws of the graph, proved of the state machine in [`crate::model`].
use crate::gradient::{lemma_channels_in_range, lemma_higher_is_redder};
use crate::model::{end_cursor, highest, lowest, GraphView, Op, SlotView};
use crate::row::{Cell, Glyph};
use vstd::prelude::*;

verus! {

/// The lowest sample is a sample, and no sample is lower. Without samples
/// there is none.
pub proof fn lemma_lowest(slots: Seq<SlotView>)
    ensures
        lowest(slots) is None ==> forall|i: int|
            0 <= i < slots.len() ==> (#[trigger] slots[i].sample()) is None,
        lowest(slots) matches Some(low) ==> {
            &&& exists|i: int| 0 <= i < slots.len() && #[trigger] slots[i].sample() == Some(low)
            &&& forall|i: int|
                0 <= i < slots.len() ==> (#[trigger] slots[i].sample() matches Some(v) ==> low <= v)
        },
    decreases slots.len(),
{
    if slots.len() > 0 {
        let rest = slots.drop_last();
        let n = rest.len() as int;
        lemma_lowest(rest);
        match lowest(slots) {
            None => {
                assert forall|i: int| 0 <= i < slots.len() implies (
                #[trigger] slots[i].sample()) is None by {
                    if i < n {
                        assert(rest[i] == slots[i]);
                    }
                }
            },
            Some(low) => {
                if lowest(rest) == Some(low) {
                    let i = choose|i: int| 0 <= i < n && #[trigger] rest[i].sample() == Some(low);
                    assert(slots[i].sample() == Some(low));
                }
                assert forall|i: int| 0 <= i < slots.len() implies (
                #[trigger] slots[i].sample() matches Some(v) ==> low <= v) by {
                    if i < n {
                        assert(rest[i] == slots[i]);
                    }
                }
            },
        }
    }
}

/// The highest sample is a sample, and no sample is higher. Without samples
/// there is none.
pub proof fn lemma_highest(slots: Seq<SlotView>)
    ensures
        highest(slots) is None ==> forall|i: int|
            0 <= i < slots.len() ==> (#[trigger] slots[i].sample()) is None,
        highest(slots) matches Some(high) ==> {
            &&& exists|i: int| 0 <= i < slots.len() && #[trigger] slots[i].sample() == Some(high)
            &&& forall|i: int|
                0 <= i < slots.len() ==> (#[trigger] slots[i].sample() matches Some(v) ==> v <= high)
        },
    decreases slots.len(),
{
    if slots.len() > 0 {
        let rest = slots.drop_last();
        let n = rest.len() as int;
        lemma_highest(rest);
        match highest(slots) {
            None => {
                assert forall|i: int| 0 <= i < slots.len() implies (
                #[trigger] slots[i].sample()) is None by {
                    if i < n {
                        assert(rest[i] == slots[i]);
                    }
                }
            },
            Some(high) => {
                if highest(rest) == Some(high) {
                    let i = choose|i: int| 0 <= i < n && #[trigger] rest[i].sample() == Some(high);
                    assert(slots[i].sample() == Some(high));
                }
                assert forall|i: int| 0 <= i < slots.len() implies (
                #[trigger] slots[i].sample() matches Some(v) ==> v <= high) by {
                    if i < n {
                        assert(rest[i] == slots[i]);
                    }
                }
            },
        }
    }
}

/// The latest value of every line lies within the bounds of the frame.
pub proof fn lemma_latest_within_bounds(g: GraphView, i: int)
    requires
        g.wf(),
        0 <= i < g.slots.len(),
        g.slots[i] is Occupied,
    ensures
        g.low() <= g.slots[i]->Occupied_0.latest() <= g.high(),
{
    lemma_lowest(g.slots);
    lemma_highest(g.slots);
    assert(g.slots[i].sample() == Some(g.slots[i]->Occupied_0.latest()));
}

/// The bounds of a frame are ordered.
pub proof fn lemma_low_le_high(g: GraphView)
    ensures
        g.low() <= g.high(),
{
    lemma_lowest(g.slots);
    lemma_highest(g.slots);
}

/// Under unique names the slot that holds a name is its position.
pub proof fn lemma_position(g: GraphView, name: Seq<char>, i: int)
    requires
        g.names_unique(),
        0 <= i < g.slots.len(),
        g.slots[i].holds(name),
    ensures
        g.has_line(name),
        g.position(name) == i,
{
    assert(g.slots[g.position(name)].holds(name));
}

/// There is exactly one lowest free slot.
pub proof fn lemma_lowest_free(g: GraphView, i: int)
    requires
        g.is_lowest_free(i),
    ensures
        g.lowest_free() == i,
{
    assert(g.is_lowest_free(g.lowest_free()));
}

/// Some slot is the lowest free one, and it lies within or just after the
/// slots.
pub proof fn lemma_lowest_free_exists(g: GraphView)
    ensures
        g.is_lowest_free(g.lowest_free()),
{
    lemma_lowest_free_from(g, 0);
}

proof fn lemma_lowest_free_from(g: GraphView, k: int)
    requires
        0 <= k <= g.slots.len(),
        forall|j: int| 0 <= j < k ==> #[trigger] g.slots[j] is Occupied,
    ensures
        g.is_lowest_free(g.lowest_free()),
    decreases g.slots.len() - k,
{
    if k == g.slots.len() || g.slots[k] is Free {
        assert(g.is_lowest_free(k));
    } else {
        lemma_lowest_free_from(g, k + 1);
    }
}

/// Adding a value keeps the invariant.
pub proof fn lemma_add_wf(g: GraphView, name: Seq<char>, value: int)
    requires
        g.wf(),
    ensures
        g.add(name, value).wf(),
        g.add(name, value).has_line(name),
{
    let after = g.add(name, value);
    if g.has_line(name) {
        let i = g.position(name);
        assert(after.slots[i].holds(name));
        assert forall|k: int, other: Seq<char>| 0 <= k < after.slots.len() implies (
        #[trigger] after.slots[k].holds(other) <==> g.slots[k].holds(other)) by {}
        assert forall|other: Seq<char>| after.pending.contains(other) implies after.has_line(
            other,
        ) by {
            let k = g.position(other);
            assert(after.slots[k].holds(other));
        }
    } else {
        lemma_lowest_free_exists(g);
        let i = g.lowest_free();
        assert(after.slots[i].holds(name));
        assert forall|k: int, other: Seq<char>|
            0 <= k < after.slots.len() && k != i implies (#[trigger] after.slots[k].holds(other)
            <==> g.slots[k].holds(other)) by {}
        assert forall|k: int, l: int, other: Seq<char>|
            0 <= k < l < after.slots.len() && #[trigger] after.slots[k].holds(
                other,
            ) implies !(#[trigger] after.slots[l].holds(other)) by {
            assert(k != i ==> g.slots[k].holds(other));
            assert(l != i ==> (after.slots[l].holds(other) <==> g.slots[l].holds(other)));
        }
        assert forall|other: Seq<char>| after.pending.contains(other) implies after.has_line(
            other,
        ) by {
            let k = g.position(other);
            assert(after.slots[k].holds(other));
        }
    }
}

/// Marking a line for removal keeps the invariant.
pub proof fn lemma_remove_wf(g: GraphView, name: Seq<char>)
    requires
        g.wf(),
        g.has_line(name),
    ensures
        g.remove(name).wf(),
{
    let after = g.remove(name);
    assert forall|other: Seq<char>| after.pending.contains(other) implies after.has_line(
        other,
    ) by {
        let k = g.position(other);
        assert(after.slots[k].holds(other));
    }
}

/// Drawing a row keeps the invariant.
pub proof fn lemma_render_wf(g: GraphView, width: int)
    requires
        g.wf(),
    ensures
        g.after_render(width).wf(),
{
    let after = g.after_render(width);
    assert forall|k: int, name: Seq<char>|
        0 <= k < after.slots.len() && #[trigger] after.slots[k].holds(name) implies g.slots[k].holds(
        name,
    ) by {}
    assert forall|k: int, l: int, name: Seq<char>|
        0 <= k < l < after.slots.len() && #[trigger] after.slots[k].holds(name) implies !(
        #[trigger] after.slots[l].holds(name)) by {
        assert(g.slots[k].holds(name));
    }
}

/// Uniqueness: whatever values are added, lines removed and rows drawn,
/// starting from a graph that satisfies the invariant, the invariant holds
/// afterwards; in particular no two occupied slots share an identifier.
pub proof fn lemma_names_stay_unique(g: GraphView, ops: Seq<Op>)
    requires
        g.wf(),
    ensures
        g.run(ops).wf(),
        g.run(ops).names_unique(),
    decreases ops.len(),
{
    if ops.len() > 0 {
        lemma_names_stay_unique(g, ops.drop_last());
        let before = g.run(ops.drop_last());
        match ops.last() {
            Op::Add { name, value } => {
                lemma_add_wf(before, name, value);
            },
            Op::Remove { name } => {
                if before.can_remove(name) {
                    lemma_remove_wf(before, name);
                }
            },
            Op::Render { width } => {
                lemma_render_wf(before, width);
            },
        }
    }
}

/// An empty graph satisfies the invariant, so every graph built from it by
/// adding, removing and drawing has unique names.
pub proof fn lemma_names_unique_from_empty(prefix_len: nat, ops: Seq<Op>)
    requires
        prefix_len >= 3,
    ensures
        GraphView::empty(prefix_len).run(ops).names_unique(),
{
    lemma_names_stay_unique(GraphView::empty(prefix_len), ops);
}

/// Adding a value never moves or drops a line: every line stays in its slot.
pub proof fn lemma_add_keeps_positions(
    g: GraphView,
    name: Seq<char>,
    value: int,
    k: int,
    other: Seq<char>,
)
    requires
        g.wf(),
        0 <= k < g.slots.len(),
        g.slots[k].holds(other),
    ensures
        k < g.add(name, value).slots.len(),
        g.add(name, value).slots[k].holds(other),
{
    if g.has_line(name) {
        assert(g.slots[g.position(name)].holds(name));
    } else {
        lemma_lowest_free_exists(g);
    }
}

/// Slot reuse: when the line in slot `i` is removed and one row is drawn
/// that shows it, and no slot before `i` is free or freed by that row, then
/// the next new line takes slot `i`, and the number of slots stays the same.
pub proof fn lemma_freed_slot_is_reused(
    g: GraphView,
    i: int,
    removed: Seq<char>,
    width: int,
    name: Seq<char>,
    value: int,
)
    requires
        g.wf(),
        0 <= i < g.fitting(width),
        g.slots[i].holds(removed),
        g.can_remove(removed),
        forall|j: int|
            0 <= j < i ==> (#[trigger] g.slots[j] matches SlotView::Occupied(line)
                && !g.pending.contains(line.name)),
        forall|j: int| 0 <= j < g.slots.len() && j != i ==> !(#[trigger] g.slots[j]).holds(name),
    ensures
        g.remove(removed).after_render(width).add(name, value).slots.len() == g.slots.len(),
        g.remove(removed).after_render(width).add(name, value).slots[i].holds(name),
{
    let marked = g.remove(removed);
    let drawn = marked.after_render(width);
    assert forall|j: int| 0 <= j < i implies #[trigger] drawn.slots[j] is Occupied by {
        assert(!g.slots[j].holds(removed));
    }
    lemma_lowest_free(drawn, i);
    if drawn.has_line(name) {
        assert(g.slots[drawn.position(name)].holds(name));
    }
}

/// Removal is rejected the second time: after a request to remove a line,
/// granted or not, the same request cannot be granted unless a row is drawn
/// or the line is added in between.
pub proof fn lemma_second_remove_is_rejected(g: GraphView, name: Seq<char>)
    ensures
        !g.try_remove(name).can_remove(name),
{
    if g.can_remove(name) {
        assert(g.remove(name).slots[g.position(name)].holds(name));
    }
}

/// Adding a value to a line that awaits removal does not lift the request:
/// removal is still rejected.
pub proof fn lemma_add_keeps_removal_pending(g: GraphView, name: Seq<char>, value: int)
    requires
        g.pending.contains(name),
    ensures
        !g.add(name, value).can_remove(name),
{
}

/// After a value is added there is something new to show.
pub proof fn lemma_add_is_new_output(g: GraphView, name: Seq<char>, value: int)
    requires
        g.wf(),
    ensures
        g.add(name, value).has_pending_output(),
{
    let after = g.add(name, value);
    if g.has_line(name) {
        let i = g.position(name);
        assert(after.slots[i].has_new_data());
    } else {
        lemma_lowest_free_exists(g);
        let i = g.lowest_free();
        assert(after.slots[i].has_new_data());
    }
}

/// After a line is marked for removal there is something new to show.
pub proof fn lemma_remove_is_new_output(g: GraphView, name: Seq<char>)
    ensures
        g.remove(name).has_pending_output(),
{
    assert(g.remove(name).pending.contains(name));
}

/// After a row that shows every slot there is nothing new to show.
pub proof fn lemma_render_settles(g: GraphView, width: int)
    requires
        !g.truncated(width),
    ensures
        !g.after_render(width).has_pending_output(),
{
    let after = g.after_render(width);
    assert forall|i: int| 0 <= i < after.slots.len() implies !(
    #[trigger] after.slots[i]).has_new_data() by {
        assert(after.slots[i] == g.drawn_slot(i));
    }
}

/// Change detection: of two rows drawn on demand one after the other, with
/// no value added and no line removed in between, the second is not drawn,
/// provided the first one showed every slot.
pub proof fn lemma_second_render_is_idle(g: GraphView, width: int, again: int)
    requires
        !g.truncated(width),
    ensures
        !g.after_render_if_new(width).has_pending_output(),
        g.after_render_if_new(width).after_render_if_new(again) == g.after_render_if_new(width),
{
    if g.has_pending_output() {
        lemma_render_settles(g, width);
    }
}

/// Change detection, the other way round: a row drawn on demand right after
/// a value was added or a line was marked for removal is drawn.
pub proof fn lemma_change_is_drawn(g: GraphView, name: Seq<char>, value: int, width: int)
    requires
        g.wf(),
    ensures
        g.add(name, value).after_render_if_new(width) == g.add(name, value).after_render(width),
        g.can_remove(name) ==> g.try_remove(name).after_render_if_new(width) == g.remove(
            name,
        ).after_render(width),
{
    lemma_add_is_new_output(g, name, value);
    lemma_remove_is_new_output(g, name);
}

/// The cells of the first `n` slots are two per slot.
pub proof fn lemma_column_cells_len(g: GraphView, n: int)
    requires
        0 <= n,
    ensures
        g.column_cells(n).len() == 2 * n,
    decreases n,
{
    if n > 0 {
        lemma_column_cells_len(g, n - 1);
    }
}

/// A label is as wide as the label column.
pub proof fn lemma_label_len(g: GraphView, n: int)
    requires
        g.prefix_len >= 3,
    ensures
        g.label_upto(n) matches Some(label) ==> label.len() == g.prefix_len,
    decreases n,
{
    reveal_strlit(" → ");
    reveal_strlit(" ← ");
    if n > 0 {
        lemma_label_len(g, n - 1);
    }
}

/// A row is exactly as wide as the terminal, label column included, if the
/// terminal is wider than the label column. The columns drawn never reach
/// into the cells kept for the truncation mark.
pub proof fn lemma_row_fills_width(g: GraphView, width: int)
    requires
        g.wf(),
        g.prefix_len < width,
    ensures
        g.row(width).prefix.len() == g.prefix_len,
        g.row(width).prefix.len() + g.row(width).cells.len() == width,
        g.prefix_len + 2 * g.fitting(width) <= end_cursor(width) || g.fitting(width) == 0,
{
    lemma_column_cells_len(g, g.fitting(width));
    lemma_label_len(g, g.fitting(width));
}

/// A row shows the truncation mark exactly if slots are left out, and then
/// the mark follows the columns drawn.
pub proof fn lemma_truncation_mark(g: GraphView, width: int)
    ensures
        g.truncated(width) <==> g.capacity(width) < g.slots.len(),
        g.truncated(width) ==> g.row(width).cells[2 * g.fitting(width)] == Cell::Truncation,
        !g.truncated(width) ==> forall|k: int|
            0 <= k < g.row(width).cells.len() ==> #[trigger] g.row(width).cells[k]
                != Cell::Truncation,
{
    let n = g.fitting(width);
    lemma_column_cells_len(g, n);
    if !g.truncated(width) {
        assert forall|k: int| 0 <= k < g.row(width).cells.len() implies #[trigger] g.row(
            width,
        ).cells[k] != Cell::Truncation by {
            if k < 2 * n {
                lemma_column_cells_never_truncation(g, n, k);
            }
        }
    }
}

proof fn lemma_column_cells_never_truncation(g: GraphView, n: int, k: int)
    requires
        0 <= k < 2 * n,
        n <= g.slots.len(),
    ensures
        g.column_cells(n).len() == 2 * n,
        g.column_cells(n)[k] != Cell::Truncation,
    decreases n,
{
    lemma_column_cells_len(g, n);
    lemma_column_cells_len(g, n - 1);
    if k < 2 * (n - 1) {
        lemma_column_cells_never_truncation(g, n - 1, k);
    }
}

/// The cells of slot `k` stand at positions `2 * k` and `2 * k + 1` of a row
/// that shows the slot: the mark of the line or a filler, then a filler.
pub proof fn lemma_cells_of_slot(g: GraphView, width: int, k: int)
    requires
        0 <= k < g.fitting(width),
    ensures
        2 * k + 1 < g.row(width).cells.len(),
        g.row(width).cells[2 * k] == g.slot_cells(k)[0],
        g.row(width).cells[2 * k + 1] == Cell::Filler,
{
    lemma_column_cells_index(g, g.fitting(width), k);
    lemma_column_cells_len(g, g.fitting(width));
}

proof fn lemma_column_cells_index(g: GraphView, n: int, k: int)
    requires
        0 <= k < n,
    ensures
        g.column_cells(n).len() == 2 * n,
        g.column_cells(n)[2 * k] == g.slot_cells(k)[0],
        g.column_cells(n)[2 * k + 1] == Cell::Filler,
    decreases n,
{
    lemma_column_cells_len(g, n);
    lemma_column_cells_len(g, n - 1);
    if k < n - 1 {
        lemma_column_cells_index(g, n - 1, k);
    }
}

/// A slot is freed only by a row that shows it, only if its line awaited
/// removal, and that row draws the line's last glyph in the slot's place.
pub proof fn lemma_freed_only_after_last_glyph(g: GraphView, width: int, k: int)
    requires
        0 <= k < g.slots.len(),
        g.slots[k] is Occupied,
        g.after_render(width).slots[k] is Free,
    ensures
        k < g.fitting(width),
        g.pending.contains(g.slots[k]->Occupied_0.name),
        g.row(width).cells[2 * k] matches Cell::Mark { glyph, .. } && glyph == Glyph::End,
{
    lemma_cells_of_slot(g, width, k);
}

/// Adding a value and asking for a removal free no slot, and a new line
/// never replaces another.
pub proof fn lemma_only_render_frees(g: GraphView, name: Seq<char>, value: int, k: int)
    requires
        g.wf(),
        0 <= k < g.slots.len(),
        g.slots[k] is Occupied,
    ensures
        g.add(name, value).slots[k] is Occupied,
        g.add(name, value).slots[k]->Occupied_0.name == g.slots[k]->Occupied_0.name,
        g.try_remove(name).slots[k] == g.slots[k],
{
    lemma_add_keeps_positions(g, name, value, k, g.slots[k]->Occupied_0.name);
}

/// Within one row a line with a higher latest value is never less red and
/// never more blue than a line with a lower one.
pub proof fn lemma_higher_line_is_redder(g: GraphView, i: int, j: int)
    requires
        g.wf(),
        0 <= i < g.slots.len(),
        0 <= j < g.slots.len(),
        g.slots[i] is Occupied,
        g.slots[j] is Occupied,
        g.slots[i]->Occupied_0.latest() <= g.slots[j]->Occupied_0.latest(),
    ensures
        g.mark_of(g.slots[i]->Occupied_0)->red <= g.mark_of(g.slots[j]->Occupied_0)->red,
        g.mark_of(g.slots[i]->Occupied_0)->blue >= g.mark_of(g.slots[j]->Occupied_0)->blue,
{
    let (low, high) = (g.low(), g.high());
    let a = g.slots[i]->Occupied_0.latest();
    let b = g.slots[j]->Occupied_0.latest();
    lemma_low_le_high(g);
    lemma_channels_in_range(low, high, a);
    lemma_channels_in_range(low, high, b);
    if low < high {
        lemma_higher_is_redder(low, high, a, b);
    }
}

} // verus!
