use rain::error::ErrorType;
use rain::row::{Cell, Glyph, Row};
use rain::Graph;

const FILLER: &str = "\x1b[38;5;8m┈\x1b[39m";

fn mark(glyph: Glyph, colour: (u8, u8, u8)) -> Cell {
    Cell::Mark { glyph, red: colour.0, green: colour.1, blue: colour.2 }
}

fn width_of(row: &Row) -> usize {
    row.prefix.chars().count() + row.cells.len()
}

#[test]
fn two_lines_are_drawn_removed_and_replaced() {
    let mut graph = Graph::new();
    assert_eq!(graph.add("A", 5).unwrap(), "A");
    assert_eq!(graph.add("B", 10).unwrap(), "B");

    let row = graph.render(80);
    assert_eq!(row.prefix, "       A → ");
    assert_eq!(row.cells.len(), 69);
    assert_eq!(row.cells[0], mark(Glyph::Start, (125, 125, 255)));
    assert_eq!(row.cells[1], Cell::Filler);
    assert_eq!(row.cells[2], mark(Glyph::Start, (255, 125, 125)));
    assert_eq!(row.cells[3], Cell::Filler);
    assert!(row.cells[4..].iter().all(|cell| *cell == Cell::Filler));
    match (row.cells[0], row.cells[2]) {
        (Cell::Mark { red: a, blue: a_blue, .. }, Cell::Mark { red: b, blue: b_blue, .. }) => {
            assert!(b > a);
            assert!(b_blue < a_blue);
        }
        _ => panic!("both columns are occupied"),
    }

    assert_eq!(graph.remove("A").unwrap(), "A");
    let row = graph.render(80);
    assert_eq!(row.prefix, "       A ← ");
    assert_eq!(row.cells[0], mark(Glyph::End, (125, 125, 255)));
    assert_eq!(row.cells[2], mark(Glyph::NoData, (255, 125, 125)));
    assert_eq!(row.cells.iter().filter(|cell| matches!(cell, Cell::Mark { glyph: Glyph::End, .. })).count(), 1);

    let row = graph.render(80);
    assert_eq!(row.prefix, "           ");
    assert_eq!(row.cells[0], Cell::Filler);
    assert_eq!(row.cells[1], Cell::Filler);
    assert_eq!(row.cells[2], mark(Glyph::NoData, (125, 125, 255)));
    assert_eq!(graph.line_already_existing("A"), None);
    assert_eq!(graph.column_count(), 2);

    assert!(graph.add("C", 1).is_ok());
    assert_eq!(graph.line_already_existing("C"), Some(0));
    assert_eq!(graph.line_already_existing("B"), Some(1));
    assert_eq!(graph.column_count(), 2);
}

#[test]
fn empty_graph_is_all_filler() {
    let mut graph: Graph<u8> = Graph::new();
    let row = graph.render(80);
    assert_eq!(row.prefix, " ".repeat(11));
    assert_eq!(row.cells, vec![Cell::Filler; 69]);
    assert_eq!(row.text(), format!("{}{}", " ".repeat(11), FILLER.repeat(69)));

    let mut out = String::new();
    assert!(graph.print(Some(80), &mut out).is_ok());
    assert_eq!(out, format!("{}{}\n", " ".repeat(11), FILLER.repeat(69)));
}

#[test]
fn narrow_terminal_truncates() {
    let mut graph = Graph::new();
    for (name, value) in [("a", 1), ("b", 2), ("c", 3)] {
        assert!(graph.add(name, value).is_ok());
    }
    // label 11, one column 2, truncation mark 1, padding 2
    let row = graph.render(16);
    assert_eq!(row.prefix, "       a → ");
    assert_eq!(
        row.cells,
        vec![mark(Glyph::Start, (125, 125, 255)), Cell::Filler, Cell::Truncation, Cell::Filler, Cell::Filler]
    );
    assert_eq!(width_of(&row), 16);

    // the columns that were left out are still to be drawn
    assert!(graph.has_pending_output());
    let row = graph.render(80);
    assert_eq!(row.prefix, "       b → ");
    assert_eq!(row.cells[0], mark(Glyph::NoData, (125, 125, 255)));
    assert_eq!(row.cells[2], mark(Glyph::Start, (125, 255, 125)));
    assert_eq!(row.cells[4], mark(Glyph::Start, (255, 125, 125)));
    assert!(!row.cells.contains(&Cell::Truncation));
    assert!(!graph.has_pending_output());
}

#[test]
fn widths_around_the_first_column() {
    let mut graph = Graph::new();
    assert!(graph.add("a", 1).is_ok());
    let first = mark(Glyph::Start, (125, 125, 255));
    // an even width keeps two cells back, an odd width one
    assert_eq!(graph.render(12).cells, vec![Cell::Truncation]);
    assert_eq!(graph.render(13).cells, vec![Cell::Truncation, Cell::Filler]);
    assert_eq!(graph.render(14).cells, vec![Cell::Truncation, Cell::Filler, Cell::Filler]);
    assert_eq!(graph.render(15).cells, vec![first, Cell::Filler, Cell::Filler, Cell::Filler]);
    assert!(graph.add("a", 1).is_ok());
    let data = mark(Glyph::Data, (125, 125, 255));
    assert_eq!(graph.render(14).cells, vec![Cell::Truncation, Cell::Filler, Cell::Filler]);
    assert_eq!(graph.render(16).cells, vec![data, Cell::Filler, Cell::Filler, Cell::Filler, Cell::Filler]);
}

#[test]
fn terminal_narrower_than_the_label() {
    let mut graph = Graph::new();
    let row = graph.render(0);
    assert_eq!(row.prefix, " ".repeat(11));
    assert!(row.cells.is_empty());
    assert!(graph.add("a", 1).is_ok());
    for width in [0, 1, 5, 11] {
        let row = graph.render(width);
        assert_eq!(row.prefix, " ".repeat(11));
        assert_eq!(row.cells, vec![Cell::Truncation]);
    }
    assert!(graph.has_pending_output());
}

#[test]
fn rows_fill_the_terminal() {
    let mut graph = Graph::new();
    for i in 0..40 {
        assert!(graph.add(&i.to_string(), i).is_ok());
    }
    for width in 12..200u16 {
        let row = graph.render(width);
        assert_eq!(width_of(&row), usize::from(width));
        let truncated = row.cells.contains(&Cell::Truncation);
        let columns = row.cells.iter().filter(|cell| matches!(cell, Cell::Mark { .. })).count();
        assert_eq!(truncated, columns < 40);
    }
}

#[test]
fn text_carries_the_colour_sequences() {
    let mut graph = Graph::new();
    assert!(graph.add("A", 5).is_ok());
    let mut out = String::from("> ");
    assert!(graph.print(Some(16), &mut out).is_ok());
    assert_eq!(
        out,
        format!("> {}{}{}\n", "       A → ", "\x1b[38;2;125;125;255m┬\x1b[39m", FILLER.repeat(4))
    );

    assert!(graph.add("B", 7).is_ok());
    assert!(graph.add("B", 9).is_ok());
    let row = graph.render(20);
    assert_eq!(
        row.text(),
        format!(
            "{}{}{}{}{}",
            "       B → ",
            "\x1b[38;2;125;125;255m╎\x1b[39m",
            FILLER,
            "\x1b[38;2;255;125;125m┬\x1b[39m",
            FILLER.repeat(6)
        )
    );
    assert!(graph.add("A", 6).is_ok());
    assert!(graph.remove("B").is_ok());
    let row = graph.render(15);
    assert_eq!(
        row.text(),
        format!(
            "{}{}{}{}{}",
            "           ",
            "\x1b[38;2;125;125;255m│\x1b[39m",
            FILLER,
            "…",
            FILLER
        )
    );
}

#[test]
fn colour_sequences_spell_every_channel() {
    let row = Row {
        prefix: String::new(),
        cells: vec![
            mark(Glyph::Data, (0, 7, 10)),
            mark(Glyph::Start, (99, 100, 255)),
            mark(Glyph::End, (201, 30, 9)),
            Cell::Truncation,
            Cell::Filler,
        ],
    };
    assert_eq!(
        row.text(),
        "\x1b[38;2;0;7;10m│\x1b[39m\x1b[38;2;99;100;255m┬\x1b[39m\x1b[38;2;201;30;9m┴\x1b[39m…\x1b[38;5;8m┈\x1b[39m"
    );
    let mut out = String::from("x");
    Cell::Filler.write(&mut out);
    Cell::Truncation.write(&mut out);
    assert_eq!(out, "x\x1b[38;5;8m┈\x1b[39m…");
    assert_eq!(Glyph::NoData.as_str(), "╎");
}

#[test]
fn labels_are_cut_and_padded() {
    let mut graph = Graph::new();
    assert!(graph.add("Too long line 3", 10).is_ok());
    assert_eq!(graph.render(80).prefix, "Too long → ");
    assert!(graph.remove("Too long line 3").is_ok());
    assert_eq!(graph.render(80).prefix, "Too long ← ");

    let mut graph = Graph::with_prefix_length(3);
    assert!(graph.add("äöüß", 1).is_ok());
    assert_eq!(graph.render(80).prefix, "äöü → ");

    let mut graph = Graph::with_prefix_length(0);
    assert!(graph.add("name", 1).is_ok());
    let row = graph.render(10);
    assert_eq!(row.prefix, " → ");
    assert_eq!(width_of(&row), 10);

    let mut graph = Graph::with_prefix_length(18);
    assert!(graph.add("Line 1", 0).is_ok());
    assert_eq!(graph.render(80).prefix, "            Line 1 → ");
    assert!(graph.add("A very long prefix", 0).is_ok());
    assert_eq!(graph.render(80).prefix, "A very long prefix → ");
}

#[test]
fn first_line_that_needs_a_label_gets_it() {
    let mut graph = Graph::new();
    assert!(graph.add("one", 1).is_ok());
    assert!(graph.add("two", 2).is_ok());
    assert!(graph.add("three", 3).is_ok());
    assert_eq!(graph.render(80).prefix, "     one → ");
    // all three are started although only one was announced
    assert_eq!(graph.render(80).prefix, "           ");

    assert!(graph.remove("two").is_ok());
    assert!(graph.remove("three").is_ok());
    assert!(graph.add("four", 4).is_ok());
    let row = graph.render(80);
    assert_eq!(row.prefix, "     two ← ");
    assert!(matches!(row.cells[2], Cell::Mark { glyph: Glyph::End, .. }));
    assert!(matches!(row.cells[4], Cell::Mark { glyph: Glyph::End, .. }));
    assert!(matches!(row.cells[6], Cell::Mark { glyph: Glyph::Start, .. }));
}

#[test]
fn line_removed_before_its_first_row_is_drawn_once() {
    let mut graph = Graph::new();
    assert!(graph.add("A", 1).is_ok());
    assert!(graph.remove("A").is_ok());
    let row = graph.render(80);
    assert_eq!(row.prefix, "       A ← ");
    assert!(matches!(row.cells[0], Cell::Mark { glyph: Glyph::End, .. }));
    assert_eq!(graph.line_already_existing("A"), None);
    assert_eq!(graph.render(80).cells[0], Cell::Filler);
}

#[test]
fn bounds_follow_the_latest_values() {
    let mut graph = Graph::new();
    assert!(graph.add("a", 0).is_ok());
    assert!(graph.add("b", 100).is_ok());
    assert!(graph.add("c", 50).is_ok());
    graph.render(80);
    // the old extremes no longer count once newer values arrived
    assert!(graph.add("a", 50).is_ok());
    assert!(graph.add("b", 60).is_ok());
    assert!(graph.add("c", 55).is_ok());
    let row = graph.render(80);
    assert_eq!(row.cells[0], mark(Glyph::Data, (125, 125, 255)));
    assert_eq!(row.cells[2], mark(Glyph::Data, (255, 125, 125)));
    assert_eq!(row.cells[4], mark(Glyph::Data, (125, 255, 125)));
}

#[test]
fn extreme_values_do_not_overflow() {
    let mut graph = Graph::new();
    assert!(graph.add("low", i64::MIN).is_ok());
    assert!(graph.add("mid", 0).is_ok());
    assert!(graph.add("high", i64::MAX).is_ok());
    let row = graph.render(80);
    assert_eq!(row.cells[0], mark(Glyph::Start, (125, 125, 255)));
    assert_eq!(row.cells[2], mark(Glyph::Start, (125, 255, 125)));
    assert_eq!(row.cells[4], mark(Glyph::Start, (255, 125, 125)));
}

#[test]
fn unknown_terminal_width_fails_and_changes_nothing() {
    let mut graph = Graph::new();
    assert!(graph.add("A", 1).is_ok());
    let mut out = String::from("kept");
    let error = graph.print(None, &mut out).unwrap_err();
    assert_eq!(error.code, ErrorType::TerminalDimensions);
    assert_eq!(error.description, "Could not retrieve the terminal dimensions");
    assert!(error.cause.is_none());
    assert_eq!(out, "kept");
    assert!(graph.has_pending_output());

    let error = graph.print_if_new_data(None, &mut out).unwrap_err();
    assert_eq!(error.code, ErrorType::TerminalDimensions);
    assert_eq!(out, "kept");
    assert!(graph.has_pending_output());
    // the line is still new when the terminal is back
    assert_eq!(graph.render(80).prefix, "       A → ");

    // with nothing to draw the width is not needed
    assert_eq!(graph.print_if_new_data(None, &mut out).unwrap(), false);
    assert_eq!(out, "kept");
}

#[test]
fn every_channel_value_is_written_in_base_ten() {
    for value in 0..=255u8 {
        let row = Row {
            prefix: String::new(),
            cells: vec![mark(Glyph::Data, (value, 255 - value, value / 2))],
        };
        assert_eq!(
            row.text(),
            format!("\x1b[38;2;{};{};{}m│\x1b[39m", value, 255 - value, value / 2)
        );
    }
}
