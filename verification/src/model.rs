//! The graph as a mathematical state machine.
//!
//! Every operation of the executable graph is described here as a function
//! from one state to the next, and the laws at the end of the file are proved
//! of these functions.
use crate::gradient::rgb_of;
use crate::label::{fitted, new_arrow, removed_arrow, spaces};
use crate::row::{Cell, Glyph, RowView};
use vstd::prelude::*;

verus! {

/// A named line of values.
pub struct LineView {
    /// The identifier of the line.
    pub name: Seq<char>,
    /// The values added so far, oldest first.
    pub values: Seq<int>,
    /// Whether a value was added since the line was last drawn.
    pub got_data: bool,
    /// Whether the line was drawn before.
    pub started: bool,
}

/// One horizontal position of the graph.
pub enum SlotView {
    /// No line lives here.
    Free,
    /// The line that lives here.
    Occupied(LineView),
}

/// The whole graph.
pub struct GraphView {
    /// The slots, left to right. Slots are never moved or dropped.
    pub slots: Seq<SlotView>,
    /// The identifiers of the lines that the next row removes.
    pub pending: Set<Seq<char>>,
    /// Width of the label column, separator included.
    pub prefix_len: nat,
}

impl LineView {
    /// A line without values that was never drawn.
    pub open spec fn fresh(name: Seq<char>) -> LineView {
        LineView { name, values: Seq::empty(), got_data: false, started: false }
    }

    /// The line after `value` was added.
    pub open spec fn append(self, value: int) -> LineView {
        LineView { values: self.values.push(value), got_data: true, ..self }
    }

    /// The line after it was drawn.
    pub open spec fn drawn(self) -> LineView {
        LineView { got_data: false, started: true, ..self }
    }

    /// The value added last; 0 for a line without values.
    pub open spec fn latest(self) -> int {
        if self.values.len() > 0 {
            self.values.last()
        } else {
            0
        }
    }
}

impl SlotView {
    /// Whether the slot is occupied by the line called `name`.
    pub open spec fn holds(self, name: Seq<char>) -> bool {
        self matches SlotView::Occupied(line) && line.name == name
    }

    /// The value that the slot contributes to the bounds of a frame.
    pub open spec fn sample(self) -> Option<int> {
        match self {
            SlotView::Occupied(line) => if line.values.len() > 0 {
                Some(line.values.last())
            } else {
                None
            },
            SlotView::Free => None,
        }
    }

    /// Whether the slot is occupied by a line with fresh data.
    pub open spec fn has_new_data(self) -> bool {
        self matches SlotView::Occupied(line) && line.got_data
    }
}

/// The lowest sample among `slots`, if there is any sample.
pub open spec fn lowest(slots: Seq<SlotView>) -> Option<int>
    decreases slots.len(),
{
    if slots.len() == 0 {
        None
    } else {
        match (lowest(slots.drop_last()), slots.last().sample()) {
            (None, sample) => sample,
            (Some(low), None) => Some(low),
            (Some(low), Some(v)) => Some(
                if v < low {
                    v
                } else {
                    low
                },
            ),
        }
    }
}

/// The highest sample among `slots`, if there is any sample.
pub open spec fn highest(slots: Seq<SlotView>) -> Option<int>
    decreases slots.len(),
{
    if slots.len() == 0 {
        None
    } else {
        match (highest(slots.drop_last()), slots.last().sample()) {
            (None, sample) => sample,
            (Some(high), None) => Some(high),
            (Some(high), Some(v)) => Some(
                if v > high {
                    v
                } else {
                    high
                },
            ),
        }
    }
}

/// The rightmost cell position that a column may end at on a row of `width`
/// cells: the last one or two cells are kept for the truncation mark.
pub open spec fn end_cursor(width: int) -> int {
    if width % 2 == 0 {
        width - 2
    } else {
        width - 1
    }
}

/// `count` filler cells; none if `count` is negative.
pub open spec fn fillers(count: int) -> Seq<Cell> {
    Seq::new(
        if count < 0 {
            0nat
        } else {
            count as nat
        },
        |i: int| Cell::Filler,
    )
}

impl GraphView {
    /// A graph without slots.
    pub open spec fn empty(prefix_len: nat) -> GraphView {
        GraphView { slots: Seq::empty(), pending: Set::empty(), prefix_len }
    }

    /// Whether some slot is occupied by the line called `name`.
    pub open spec fn has_line(self, name: Seq<char>) -> bool {
        exists|i: int| 0 <= i < self.slots.len() && #[trigger] self.slots[i].holds(name)
    }

    /// The slot of the line called `name`.
    pub open spec fn position(self, name: Seq<char>) -> int
        recommends
            self.has_line(name),
    {
        choose|i: int| 0 <= i < self.slots.len() && #[trigger] self.slots[i].holds(name)
    }

    /// No two occupied slots hold lines of the same name.
    pub open spec fn names_unique(self) -> bool {
        forall|i: int, j: int, name: Seq<char>|
            0 <= i < j < self.slots.len() && #[trigger] self.slots[i].holds(name) ==> !(
            #[trigger] self.slots[j].holds(name))
    }

    /// The invariant of a graph: names are unique, only existing lines await
    /// removal, every line has a value, and the label column has room for its
    /// separator.
    pub open spec fn wf(self) -> bool {
        &&& self.names_unique()
        &&& forall|name: Seq<char>| #[trigger] self.pending.contains(name) ==> self.has_line(name)
        &&& forall|i: int|
            0 <= i < self.slots.len() ==> (#[trigger] self.slots[i] matches SlotView::Occupied(line)
                ==> line.values.len() > 0)
        &&& self.prefix_len >= 3
    }

    /// Whether `i` is the lowest free slot, or the number of slots if none is
    /// free.
    pub open spec fn is_lowest_free(self, i: int) -> bool {
        &&& 0 <= i <= self.slots.len()
        &&& i < self.slots.len() ==> self.slots[i] is Free
        &&& forall|j: int| 0 <= j < i ==> #[trigger] self.slots[j] is Occupied
    }

    /// The slot that the next new line gets.
    pub open spec fn lowest_free(self) -> int {
        choose|i: int| self.is_lowest_free(i)
    }

    /// The graph with `line` placed in slot `i`, which is a new slot if `i`
    /// is the number of slots.
    pub open spec fn place(self, i: int, line: LineView) -> GraphView {
        GraphView {
            slots: if i < self.slots.len() {
                self.slots.update(i, SlotView::Occupied(line))
            } else {
                self.slots.push(SlotView::Occupied(line))
            },
            ..self
        }
    }

    /// The graph after `value` was added to the line called `name`: an
    /// existing line gets the value, a new line is placed in the lowest free
    /// slot.
    pub open spec fn add(self, name: Seq<char>, value: int) -> GraphView {
        if self.has_line(name) {
            let i = self.position(name);
            self.place(i, self.slots[i]->Occupied_0.append(value))
        } else {
            self.place(self.lowest_free(), LineView::fresh(name).append(value))
        }
    }

    /// Whether the line called `name` can be marked for removal: it exists
    /// and is not marked yet.
    pub open spec fn can_remove(self, name: Seq<char>) -> bool {
        self.has_line(name) && !self.pending.contains(name)
    }

    /// The graph after the line called `name` was marked for removal.
    pub open spec fn remove(self, name: Seq<char>) -> GraphView {
        GraphView { pending: self.pending.insert(name), ..self }
    }

    /// The graph after a request to remove the line called `name`: a request
    /// that cannot be granted changes nothing.
    pub open spec fn try_remove(self, name: Seq<char>) -> GraphView {
        if self.can_remove(name) {
            self.remove(name)
        } else {
            self
        }
    }

    /// Whether a row drawn now would show anything new: a line has fresh
    /// data, or a removal is pending.
    pub open spec fn has_pending_output(self) -> bool {
        ||| exists|name: Seq<char>| self.pending.contains(name)
        ||| exists|i: int| 0 <= i < self.slots.len() && #[trigger] self.slots[i].has_new_data()
    }

    /// The lowest latest value of all lines; 0 without lines.
    pub open spec fn low(self) -> int {
        match lowest(self.slots) {
            Some(low) => low,
            None => 0,
        }
    }

    /// The highest latest value of all lines; 0 without lines.
    pub open spec fn high(self) -> int {
        match highest(self.slots) {
            Some(high) => high,
            None => 0,
        }
    }

    /// The number of columns that a row of `width` cells has room for after
    /// the label column.
    pub open spec fn capacity(self, width: int) -> int {
        let room = end_cursor(width) - self.prefix_len;
        if room < 0 {
            0
        } else {
            room / 2
        }
    }

    /// The number of slots that a row of `width` cells shows.
    pub open spec fn fitting(self, width: int) -> int {
        if self.capacity(width) < self.slots.len() {
            self.capacity(width)
        } else {
            self.slots.len() as int
        }
    }

    /// Whether a row of `width` cells leaves slots out.
    pub open spec fn truncated(self, width: int) -> bool {
        self.fitting(width) < self.slots.len()
    }

    /// The glyph that `line` is drawn with.
    pub open spec fn glyph_of(self, line: LineView) -> Glyph {
        if self.pending.contains(line.name) {
            Glyph::End
        } else if !line.started {
            Glyph::Start
        } else if line.got_data {
            Glyph::Data
        } else {
            Glyph::NoData
        }
    }

    /// The cell that `line` is drawn as: its glyph in the colour of its
    /// latest value within the bounds of the frame.
    pub open spec fn mark_of(self, line: LineView) -> Cell {
        let colour = rgb_of(self.low(), self.high(), line.latest());
        Cell::Mark {
            glyph: self.glyph_of(line),
            red: colour.0 as u8,
            green: colour.1 as u8,
            blue: colour.2 as u8,
        }
    }

    /// The two cells of slot `i`.
    pub open spec fn slot_cells(self, i: int) -> Seq<Cell> {
        match self.slots[i] {
            SlotView::Free => seq![Cell::Filler, Cell::Filler],
            SlotView::Occupied(line) => seq![self.mark_of(line), Cell::Filler],
        }
    }

    /// The cells of the first `n` slots.
    pub open spec fn column_cells(self, n: int) -> Seq<Cell>
        decreases n,
    {
        if n <= 0 {
            Seq::empty()
        } else {
            self.column_cells(n - 1) + self.slot_cells(n - 1)
        }
    }

    /// The label that slot `i` asks for: a line that is removed or drawn for
    /// the first time wants its name shown.
    pub open spec fn slot_label(self, i: int) -> Option<Seq<char>> {
        match self.slots[i] {
            SlotView::Occupied(line) => if self.pending.contains(line.name) {
                Some(fitted(line.name, self.prefix_len - 3) + removed_arrow())
            } else if !line.started {
                Some(fitted(line.name, self.prefix_len - 3) + new_arrow())
            } else {
                None
            },
            SlotView::Free => None,
        }
    }

    /// The label of a row over the first `n` slots: that of the lowest slot
    /// that asks for one.
    pub open spec fn label_upto(self, n: int) -> Option<Seq<char>>
        decreases n,
    {
        if n <= 0 {
            None
        } else {
            match self.label_upto(n - 1) {
                Some(label) => Some(label),
                None => self.slot_label(n - 1),
            }
        }
    }

    /// The cell position after the columns and the truncation mark of a row
    /// of `width` cells.
    pub open spec fn cursor_end(self, width: int) -> int {
        self.prefix_len + 2 * self.fitting(width) + if self.truncated(width) {
            1int
        } else {
            0int
        }
    }

    /// The row that is drawn on a terminal `width` cells wide.
    pub open spec fn row(self, width: int) -> RowView {
        RowView {
            prefix: match self.label_upto(self.fitting(width)) {
                Some(label) => label,
                None => spaces(self.prefix_len as int),
            },
            cells: self.column_cells(self.fitting(width)) + if self.truncated(width) {
                seq![Cell::Truncation]
            } else {
                Seq::empty()
            } + fillers(width - self.cursor_end(width)),
        }
    }

    /// Slot `i` after it was drawn: a line that awaited removal is gone, any
    /// other line is started and has no fresh data.
    pub open spec fn drawn_slot(self, i: int) -> SlotView {
        match self.slots[i] {
            SlotView::Occupied(line) => if self.pending.contains(line.name) {
                SlotView::Free
            } else {
                SlotView::Occupied(line.drawn())
            },
            SlotView::Free => SlotView::Free,
        }
    }

    /// The graph after a row was drawn on a terminal `width` cells wide:
    /// the slots shown are drawn, the others are untouched, and no removal is
    /// pending any more.
    pub open spec fn after_render(self, width: int) -> GraphView {
        GraphView {
            slots: Seq::new(
                self.slots.len(),
                |i: int|
                    if i < self.fitting(width) {
                        self.drawn_slot(i)
                    } else {
                        self.slots[i]
                    },
            ),
            pending: Set::empty(),
            prefix_len: self.prefix_len,
        }
    }
}

/// One step in the life of a graph.
pub enum Op {
    /// A value is added to a line.
    Add { name: Seq<char>, value: int },
    /// The removal of a line is requested.
    Remove { name: Seq<char> },
    /// A row is drawn on a terminal of the given width.
    Render { width: int },
}

impl GraphView {
    /// The graph after one step.
    pub open spec fn apply(self, op: Op) -> GraphView {
        match op {
            Op::Add { name, value } => self.add(name, value),
            Op::Remove { name } => self.try_remove(name),
            Op::Render { width } => self.after_render(width),
        }
    }

    /// The graph after the steps `ops`, taken in order.
    pub open spec fn run(self, ops: Seq<Op>) -> GraphView
        decreases ops.len(),
    {
        if ops.len() == 0 {
            self
        } else {
            self.run(ops.drop_last()).apply(ops.last())
        }
    }

    /// The graph after a row was drawn only if there was something new to
    /// show.
    pub open spec fn after_render_if_new(self, width: int) -> GraphView {
        if self.has_pending_output() {
            self.after_render(width)
        } else {
            self
        }
    }
}

} // verus!
