//! One rendered row: a label and a sequence of cells, and its text form.
use crate::ansi::{light_black_fg, light_black_sequence, reset_fg, reset_sequence, rgb_fg, rgb_sequence};
use vstd::prelude::*;
use vstd::string::StringExecFns;

verus! {

/// The mark that a line leaves in its column.
#[derive(Clone, Copy, Debug, PartialEq, Eq)]
pub enum Glyph {
    /// First row of a line.
    Start,
    /// The line got data since the previous row.
    Data,
    /// The line got no data since the previous row.
    NoData,
    /// Last row of a line.
    End,
}

/// One character position of a row.
#[derive(Clone, Copy, Debug, PartialEq, Eq)]
pub enum Cell {
    /// Background filler, drawn dimmed.
    Filler,
    /// Marks that the row was cut: more columns exist than fit.
    Truncation,
    /// The mark of a line, in the colour of its latest value.
    Mark { glyph: Glyph, red: u8, green: u8, blue: u8 },
}

/// A row as a mathematical value.
pub struct RowView {
    /// The label column.
    pub prefix: Seq<char>,
    /// The cells after the label, left to right.
    pub cells: Seq<Cell>,
}

/// A rendered row.
#[derive(Debug)]
pub struct Row {
    /// The label column.
    pub prefix: String,
    /// The cells after the label, left to right.
    pub cells: Vec<Cell>,
}

impl View for Row {
    type V = RowView;

    open spec fn view(&self) -> RowView {
        RowView { prefix: self.prefix@, cells: self.cells@ }
    }
}

impl Glyph {
    /// The character drawn for the glyph.
    pub open spec fn text(self) -> Seq<char> {
        match self {
            Glyph::Start => "┬"@,
            Glyph::Data => "│"@,
            Glyph::NoData => "╎"@,
            Glyph::End => "┴"@,
        }
    }

    /// Returns the character drawn for the glyph.
    pub fn as_str(self) -> (s: &'static str)
        ensures
            s@ == self.text(),
    {
        match self {
            Glyph::Start => "┬",
            Glyph::Data => "│",
            Glyph::NoData => "╎",
            Glyph::End => "┴",
        }
    }
}

impl Cell {
    /// The text of the cell: its character, wrapped in the escape sequences
    /// that colour it.
    pub open spec fn text(self) -> Seq<char> {
        match self {
            Cell::Filler => light_black_fg() + "┈"@ + reset_fg(),
            Cell::Truncation => "…"@,
            Cell::Mark { glyph, red, green, blue } => rgb_fg(red, green, blue) + glyph.text()
                + reset_fg(),
        }
    }

    /// Appends the text of the cell to `out`.
    pub fn write(self, out: &mut String)
        ensures
            final(out)@ == old(out)@ + self.text(),
    {
        match self {
            Cell::Filler => {
                out.append(light_black_sequence());
                out.append("┈");
                out.append(reset_sequence());
            },
            Cell::Truncation => {
                out.append("…");
            },
            Cell::Mark { glyph, red, green, blue } => {
                let colour = rgb_sequence(red, green, blue);
                out.append(colour.as_str());
                out.append(glyph.as_str());
                out.append(reset_sequence());
            },
        }
    }
}

/// The texts of `cells`, joined.
pub open spec fn cells_text(cells: Seq<Cell>) -> Seq<char>
    decreases cells.len(),
{
    if cells.len() == 0 {
        Seq::empty()
    } else {
        cells_text(cells.drop_last()) + cells.last().text()
    }
}

impl RowView {
    /// The row as text: the label, then every cell.
    pub open spec fn text(self) -> Seq<char> {
        self.prefix + cells_text(self.cells)
    }
}

impl Row {
    /// Returns the row as text: the label, then every cell with its colour
    /// escape sequences.
    pub fn text(&self) -> (s: String)
        ensures
            s@ == self@.text(),
    {
        let mut s = self.prefix.clone();
        let mut i: usize = 0;
        while i < self.cells.len()
            invariant
                i <= self.cells.len(),
                s@ == self.prefix@ + cells_text(self.cells@.take(i as int)),
            decreases self.cells.len() - i,
        {
            self.cells[i].write(&mut s);
            proof {
                let upto = self.cells@.take(i as int + 1);
                assert(upto.drop_last() == self.cells@.take(i as int));
            }
            i += 1;
        }
        assert(self.cells@.take(i as int) == self.cells@);
        s
    }
}

} // verus!
