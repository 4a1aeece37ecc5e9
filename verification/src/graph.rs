//! The graph: named lines in stable columns, drawn one row at a time.
use crate::error::{bail, ErrorType, RainError, RainResult};
use crate::gradient::{gradient, rgb_of};
use crate::label::{fit, pad};
use crate::laws::{
    lemma_add_wf, lemma_low_le_high, lemma_lowest_free, lemma_position, lemma_remove_wf,
    lemma_render_wf,
};
use crate::model::{fillers, highest, lowest, GraphView, LineView, SlotView};
use crate::row::{Cell, Glyph, Row};
use crate::value::Value;
use vstd::prelude::*;
use vstd::string::StringExecFns;

verus! {

/// Description of the error for a line that cannot be removed.
pub const NO_SUCH_LINE: &'static str = "Line does not exist and can not be removed";

/// Description of the error for a terminal of unknown width.
pub const NO_TERMINAL: &'static str = "Could not retrieve the terminal dimensions";

/// A named line of values.
struct Line<V> {
    got_data: bool,
    name: String,
    started: bool,
    values: Vec<V>,
}

/// Specifies if a column can be used or not.
enum Column<V> {
    /// Column free for usage.
    Free,
    /// Column already in use.
    Used(Line<V>),
}

/// The graph drawing structure.
pub struct Graph<V> {
    lines_to_be_removed: Vec<String>,
    columns: Vec<Column<V>>,
    prefix_len: usize,
}

impl<V: Value> View for Line<V> {
    type V = LineView;

    closed spec fn view(&self) -> LineView {
        LineView {
            name: self.name@,
            values: Seq::new(self.values.len() as nat, |i: int| self.values[i].level()),
            got_data: self.got_data,
            started: self.started,
        }
    }
}

impl<V: Value> View for Column<V> {
    type V = SlotView;

    closed spec fn view(&self) -> SlotView {
        match self {
            Column::Free => SlotView::Free,
            Column::Used(line) => SlotView::Occupied(line@),
        }
    }
}

/// The names in `list`, as a set.
spec fn names_in(list: Seq<String>) -> Set<Seq<char>> {
    Set::new(|name: Seq<char>| exists|k: int| 0 <= k < list.len() && (#[trigger] list[k])@ == name)
}

impl<V: Value> View for Graph<V> {
    type V = GraphView;

    closed spec fn view(&self) -> GraphView {
        GraphView {
            slots: Seq::new(self.columns.len() as nat, |i: int| self.columns[i]@),
            pending: names_in(self.lines_to_be_removed@),
            prefix_len: self.prefix_len as nat,
        }
    }
}

/// Appending a name to a list adds it to the set of its names.
proof fn lemma_names_in_push(list: Seq<String>, name: String)
    ensures
        names_in(list.push(name)) == names_in(list).insert(name@),
{
    let longer = list.push(name);
    assert forall|other: Seq<char>| names_in(list).insert(name@).contains(other) implies names_in(
        longer,
    ).contains(other) by {
        if other == name@ {
            assert(longer[list.len() as int]@ == other);
        } else {
            let k = choose|k: int| 0 <= k < list.len() && (#[trigger] list[k])@ == other;
            assert(longer[k]@ == other);
        }
    }
    assert forall|other: Seq<char>| names_in(longer).contains(other) implies names_in(list).insert(
        name@,
    ).contains(other) by {
        let k = choose|k: int| 0 <= k < longer.len() && (#[trigger] longer[k])@ == other;
        if k < list.len() {
            assert(list[k]@ == other);
        }
    }
    assert(names_in(longer) =~= names_in(list).insert(name@));
}

/// Whether `name` is in `list`.
fn contains_name(list: &Vec<String>, name: &String) -> (found: bool)
    ensures
        found == names_in(list@).contains(name@),
{
    let mut i: usize = 0;
    while i < list.len()
        invariant
            i <= list.len(),
            forall|k: int| 0 <= k < i ==> (#[trigger] list@[k])@ != name@,
        decreases list.len() - i,
    {
        if list[i] == *name {
            return true;
        }
        i += 1;
    }
    false
}

impl<V: Value> Line<V> {
    /// The value added last; 0 for a line without values.
    fn latest(&self) -> (value: i64)
        ensures
            value == self@.latest(),
    {
        if self.values.len() > 0 {
            self.values[self.values.len() - 1].to_i64()
        } else {
            0
        }
    }

    /// Creates a new `Line`.
    fn new(name: &str) -> (line: Self)
        ensures
            line@ == LineView::fresh(name@),
    {
        let line = Line { got_data: false, name: name.to_owned(), started: false, values: Vec::new() };
        assert(line@.values =~= Seq::empty());
        line
    }

    /// Adds a value to a line.
    fn add_value(&mut self, value: V)
        ensures
            final(self)@ == old(self)@.append(value.level()),
    {
        self.values.push(value);
        self.got_data = true;
        assert(self@.values =~= old(self)@.values.push(value.level()));
    }
}

impl<V: Value> Graph<V> {
    /// Create a new `Graph` for drawing, with room for labels of 8
    /// characters.
    pub fn new() -> (graph: Self)
        ensures
            graph@ == GraphView::empty(11),
            graph@.wf(),
    {
        Self::with_prefix_length(8)
    }

    /// Create a new `Graph` for drawing with a custom length of the
    /// identifier (prefix). The label column is three characters wider, for
    /// the separator.
    pub fn with_prefix_length(length: usize) -> (graph: Self)
        requires
            length + 3 <= usize::MAX,
        ensures
            graph@ == GraphView::empty((length + 3) as nat),
            graph@.wf(),
    {
        let graph = Graph {
            lines_to_be_removed: Vec::new(),
            columns: Vec::new(),
            prefix_len: length + 3,
        };
        assert(graph@.slots =~= Seq::empty());
        assert(graph@.pending =~= Set::empty());
        graph
    }

    /// Returns the column of the line called `line_name`, if it exists.
    pub fn line_already_existing(&self, line_name: &str) -> (found: Option<usize>)
        requires
            self@.wf(),
        ensures
            found is Some <==> self@.has_line(line_name@),
            found matches Some(i) ==> i == self@.position(line_name@) && i < self@.slots.len()
                && self@.slots[i as int].holds(line_name@),
    {
        let line_string = line_name.to_owned();
        let mut i: usize = 0;
        while i < self.columns.len()
            invariant
                i <= self.columns.len(),
                line_string@ == line_name@,
                self@.wf(),
                forall|k: int| 0 <= k < i ==> !(#[trigger] self@.slots[k]).holds(line_name@),
            decreases self.columns.len() - i,
        {
            if let Column::Used(line) = &self.columns[i] {
                if line_string == line.name {
                    proof {
                        lemma_position(self@, line_name@, i as int);
                    }
                    return Some(i);
                }
            }
            i += 1;
        }
        None
    }

    /// Finds the lowest free column; if there is none, appends a free column.
    /// Returns its index.
    fn get_next_free_column(&mut self) -> (i: usize)
        ensures
            i == old(self)@.lowest_free(),
            old(self)@.is_lowest_free(i as int),
            final(self).lines_to_be_removed == old(self).lines_to_be_removed,
            final(self).prefix_len == old(self).prefix_len,
            final(self).columns@ == if i < old(self).columns.len() {
                old(self).columns@
            } else {
                old(self).columns@.push(Column::Free)
            },
            final(self).columns[i as int] is Free,
    {
        let mut i: usize = 0;
        while i < self.columns.len()
            invariant
                i <= self.columns.len(),
                *self == *old(self),
                forall|k: int| 0 <= k < i ==> #[trigger] self@.slots[k] is Occupied,
            decreases self.columns.len() - i,
        {
            if let Column::Free = &self.columns[i] {
                proof {
                    lemma_lowest_free(self@, i as int);
                }
                return i;
            }
            i += 1;
        }
        proof {
            lemma_lowest_free(self@, i as int);
        }
        self.columns.push(Column::Free);
        i
    }

    /// Add a data value to the graph by some identifier. An existing line
    /// gets the value; a new line takes the lowest free column. Returns the
    /// identifier.
    pub fn add<'a>(&mut self, identifier: &'a str, value: V) -> (res: RainResult<&'a str>)
        requires
            old(self)@.wf(),
        ensures
            final(self)@ == old(self)@.add(identifier@, value.level()),
            final(self)@.wf(),
            final(self)@.has_line(identifier@),
            res matches Ok(id) && id@ == identifier@,
    {
        proof {
            lemma_add_wf(self@, identifier@, value.level());
        }
        match self.line_already_existing(identifier) {
            Some(i) => {
                match &mut self.columns[i] {
                    Column::Used(line) => {
                        line.add_value(value);
                    },
                    Column::Free => {},
                }
                assert(self@.slots =~= old(self)@.add(identifier@, value.level()).slots);
            },
            None => {
                let i = self.get_next_free_column();
                let mut line = Line::new(identifier);
                line.add_value(value);
                self.columns[i] = Column::Used(line);
                assert(self@.slots =~= old(self)@.add(identifier@, value.level()).slots);
            },
        }
        Ok(identifier)
    }

    /// Remove a line from the graph. The line stays in its column until the
    /// next row is drawn, which shows it for the last time. Fails if no line
    /// has this identifier, or if the line already awaits removal.
    pub fn remove<'a>(&mut self, identifier: &'a str) -> (res: RainResult<&'a str>)
        requires
            old(self)@.wf(),
        ensures
            final(self)@.wf(),
            old(self)@.can_remove(identifier@) ==> (res matches Ok(id) && id@ == identifier@)
                && final(self)@ == old(self)@.remove(identifier@),
            !old(self)@.can_remove(identifier@) ==> (res matches Err(e) && e.code
                == ErrorType::LineDoesNotExist && e.description@ == NO_SUCH_LINE@ && e.cause is None)
                && final(self)@ == old(self)@,
    {
        let known = self.line_already_existing(identifier).is_some();
        if !known || self.is_pending(identifier) {
            return Err(bail(ErrorType::LineDoesNotExist, NO_SUCH_LINE));
        }
        proof {
            lemma_remove_wf(self@, identifier@);
        }
        let name = identifier.to_owned();
        proof {
            lemma_names_in_push(self.lines_to_be_removed@, name);
        }
        self.lines_to_be_removed.push(name);
        Ok(identifier)
    }

    /// Whether the line called `identifier` awaits removal.
    pub fn is_pending(&self, identifier: &str) -> (pending: bool)
        ensures
            pending == self@.pending.contains(identifier@),
    {
        let name = identifier.to_owned();
        contains_name(&self.lines_to_be_removed, &name)
    }

    /// The lowest and the highest latest value of all lines; both 0 without
    /// lines.
    fn bounds(&self) -> (b: (i64, i64))
        ensures
            b.0 == self@.low(),
            b.1 == self@.high(),
    {
        let mut low: Option<i64> = None;
        let mut high: Option<i64> = None;
        let mut i: usize = 0;
        while i < self.columns.len()
            invariant
                i <= self.columns.len(),
                match low {
                    Some(v) => lowest(self@.slots.take(i as int)) == Some(v as int),
                    None => lowest(self@.slots.take(i as int)) is None,
                },
                match high {
                    Some(v) => highest(self@.slots.take(i as int)) == Some(v as int),
                    None => highest(self@.slots.take(i as int)) is None,
                },
            decreases self.columns.len() - i,
        {
            proof {
                let upto = self@.slots.take(i as int + 1);
                assert(upto.drop_last() == self@.slots.take(i as int));
            }
            if let Column::Used(line) = &self.columns[i] {
                if line.values.len() > 0 {
                    let v = line.latest();
                    low = match low {
                        Some(l) => Some(
                            if v < l {
                                v
                            } else {
                                l
                            },
                        ),
                        None => Some(v),
                    };
                    high = match high {
                        Some(h) => Some(
                            if v > h {
                                v
                            } else {
                                h
                            },
                        ),
                        None => Some(v),
                    };
                }
            }
            i += 1;
        }
        assert(self@.slots.take(i as int) == self@.slots);
        (
            match low {
                Some(v) => v,
                None => 0,
            },
            match high {
                Some(v) => v,
                None => 0,
            },
        )
    }

    /// The number of columns that a row of `width` cells shows.
    fn fitting(&self, width: u16) -> (n: usize)
        ensures
            n == self@.fitting(width as int),
            n <= 0x7fff,
    {
        let reserve: u16 = if width % 2 == 0 {
            2
        } else {
            1
        };
        if width < reserve {
            return 0;
        }
        let end = (width - reserve) as usize;
        if end < self.prefix_len {
            return 0;
        }
        let capacity = (end - self.prefix_len) / 2;
        if capacity < self.columns.len() {
            capacity
        } else {
            self.columns.len()
        }
    }

    /// Draws one row for a terminal `width` cells wide. Lines that await
    /// removal are shown for the last time and leave their columns; all
    /// other lines shown lose their mark of fresh data.
    pub fn render(&mut self, width: u16) -> (row: Row)
        requires
            old(self)@.wf(),
        ensures
            row@ == old(self)@.row(width as int),
            final(self)@ == old(self)@.after_render(width as int),
            final(self)@.wf(),
    {
        let ghost before = self@;
        proof {
            lemma_low_le_high(before);
            lemma_render_wf(before, width as int);
        }
        let (low, high) = self.bounds();
        let shown = self.fitting(width);
        let label_width = self.prefix_len - 3;
        let mut cells: Vec<Cell> = Vec::new();
        let mut label: Option<String> = None;
        let mut i: usize = 0;
        while i < shown
            invariant
                i <= shown <= self.columns.len(),
                self.columns.len() == old(self).columns.len(),
                self.lines_to_be_removed == old(self).lines_to_be_removed,
                self.prefix_len == old(self).prefix_len,
                label_width == self.prefix_len - 3,
                before == old(self)@,
                before.wf(),
                low == before.low(),
                high == before.high(),
                low <= high,
                forall|k: int| 0 <= k < i ==> (#[trigger] self.columns[k])@ == before.drawn_slot(k),
                forall|k: int|
                    i <= k < self.columns.len() ==> #[trigger] self.columns[k] == old(
                        self,
                    ).columns[k],
                cells@ == before.column_cells(i as int),
                match label {
                    Some(text) => before.label_upto(i as int) == Some(text@),
                    None => before.label_upto(i as int) is None,
                },
            decreases shown - i,
        {
            let mut free_column = false;
            match &mut self.columns[i] {
                Column::Used(line) => {
                    let removing = contains_name(&self.lines_to_be_removed, &line.name);
                    let glyph = if removing {
                        free_column = true;
                        Glyph::End
                    } else if !line.started {
                        Glyph::Start
                    } else if line.got_data {
                        Glyph::Data
                    } else {
                        Glyph::NoData
                    };
                    if (removing || !line.started) && label.is_none() {
                        let mut text = fit(line.name.as_str(), label_width);
                        text.append(
                            if removing {
                                " ← "
                            } else {
                                " → "
                            },
                        );
                        label = Some(text);
                    }
                    let (red, green, blue) = gradient(low, high, line.latest());
                    cells.push(Cell::Mark { glyph, red, green, blue });
                    cells.push(Cell::Filler);
                    line.started = true;
                    line.got_data = false;
                    assert(cells@ == before.column_cells(i as int) + before.slot_cells(i as int));
                },
                Column::Free => {
                    cells.push(Cell::Filler);
                    cells.push(Cell::Filler);
                    assert(cells@ == before.column_cells(i as int) + before.slot_cells(i as int));
                },
            }
            if free_column {
                self.columns[i] = Column::Free;
            }
            i += 1;
        }
        if shown < self.columns.len() {
            cells.push(Cell::Truncation);
        }
        let ghost drawn = cells@;
        assert(drawn == before.column_cells(shown as int) + if before.truncated(width as int) {
            seq![Cell::Truncation]
        } else {
            Seq::empty()
        });
        let fill = self.fill(width, shown);
        let mut j: usize = 0;
        while j < fill
            invariant
                j <= fill,
                cells@ == drawn + fillers(j as int),
            decreases fill - j,
        {
            cells.push(Cell::Filler);
            j += 1;
        }
        let prefix = match label {
            Some(text) => text,
            None => {
                let mut blank = String::new();
                pad(&mut blank, self.prefix_len);
                blank
            },
        };
        self.lines_to_be_removed.clear();
        assert(self@.pending =~= Set::empty());
        assert(self@.slots =~= before.after_render(width as int).slots);
        Row { prefix, cells }
    }

    /// The number of filler cells that pad a row of `width` cells on which
    /// `shown` columns were drawn.
    fn fill(&self, width: u16, shown: usize) -> (count: usize)
        requires
            shown == self@.fitting(width as int),
            shown <= 0x7fff,
        ensures
            count == if width - self@.cursor_end(width as int) < 0 {
                0
            } else {
                width - self@.cursor_end(width as int)
            },
    {
        let width = width as usize;
        if self.prefix_len >= width {
            return 0;
        }
        let mark: usize = if shown < self.columns.len() {
            1
        } else {
            0
        };
        let cursor = self.prefix_len + 2 * shown + mark;
        if cursor < width {
            width - cursor
        } else {
            0
        }
    }

    /// Prints the graph: draws one row for a terminal of the given width and
    /// appends it to `out` as one line of text. Fails, changing nothing, if
    /// the width of the terminal is not known.
    pub fn print(&mut self, terminal_width: Option<u16>, out: &mut String) -> (res: RainResult<()>)
        requires
            old(self)@.wf(),
        ensures
            final(self)@.wf(),
            match terminal_width {
                Some(width) => {
                    &&& res is Ok
                    &&& final(self)@ == old(self)@.after_render(width as int)
                    &&& final(out)@ == old(out)@ + old(self)@.row(width as int).text() + "\n"@
                },
                None => {
                    &&& res matches Err(e) && e.code == ErrorType::TerminalDimensions
                        && e.description@ == NO_TERMINAL@ && e.cause is None
                    &&& final(self)@ == old(self)@
                    &&& final(out)@ == old(out)@
                },
            },
    {
        match terminal_width {
            Some(width) => {
                let row = self.render(width);
                let text = row.text();
                out.append(text.as_str());
                out.append("\n");
                Ok(())
            },
            None => Err(bail(ErrorType::TerminalDimensions, NO_TERMINAL)),
        }
    }

    /// Print only if new data is available. Returns an indicator if
    /// something was printed or not.
    pub fn print_if_new_data(&mut self, terminal_width: Option<u16>, out: &mut String) -> (res:
        RainResult<bool>)
        requires
            old(self)@.wf(),
        ensures
            final(self)@.wf(),
            terminal_width matches Some(width) ==> final(self)@ == old(self)@.after_render_if_new(
                width as int,
            ),
            !old(self)@.has_pending_output() ==> {
                &&& res == Ok::<bool, RainError>(false)
                &&& final(self)@ == old(self)@
                &&& final(out)@ == old(out)@
            },
            old(self)@.has_pending_output() ==> match terminal_width {
                Some(width) => {
                    &&& res == Ok::<bool, RainError>(true)
                    &&& final(self)@ == old(self)@.after_render(width as int)
                    &&& final(out)@ == old(out)@ + old(self)@.row(width as int).text() + "\n"@
                },
                None => {
                    &&& res matches Err(e) && e.code == ErrorType::TerminalDimensions
                        && e.description@ == NO_TERMINAL@ && e.cause is None
                    &&& final(self)@ == old(self)@
                    &&& final(out)@ == old(out)@
                },
            },
    {
        if self.has_pending_output() {
            match self.print(terminal_width, out) {
                Ok(()) => Ok(true),
                Err(e) => Err(e),
            }
        } else {
            Ok(false)
        }
    }

    /// Whether a row drawn now would show anything new: a line got data since
    /// the last row, or a removal is pending.
    pub fn has_pending_output(&self) -> (pending: bool)
        ensures
            pending == self@.has_pending_output(),
    {
        if self.lines_to_be_removed.len() > 0 {
            assert(self@.pending.contains(self.lines_to_be_removed@[0]@));
            return true;
        }
        let mut i: usize = 0;
        while i < self.columns.len()
            invariant
                i <= self.columns.len(),
                self.lines_to_be_removed.len() == 0,
                forall|k: int| 0 <= k < i ==> !(#[trigger] self@.slots[k]).has_new_data(),
            decreases self.columns.len() - i,
        {
            if let Column::Used(line) = &self.columns[i] {
                if line.got_data {
                    assert(self@.slots[i as int].has_new_data());
                    return true;
                }
            }
            i += 1;
        }
        false
    }

    /// The colour `(red, green, blue)` of `value` on the ramp from `minimum`
    /// (blue) to `maximum` (red).
    pub fn rgb(minimum: V, maximum: V, value: V) -> (c: (u8, u8, u8))
        requires
            minimum.level() <= maximum.level(),
        ensures
            (c.0 as int, c.1 as int, c.2 as int) == rgb_of(
                minimum.level(),
                maximum.level(),
                value.level(),
            ),
    {
        gradient(minimum.to_i64(), maximum.to_i64(), value.to_i64())
    }

    /// The number of columns, free ones included.
    pub fn column_count(&self) -> (count: usize)
        ensures
            count == self@.slots.len(),
    {
        self.columns.len()
    }
}

} // verus!
