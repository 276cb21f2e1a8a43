use comfy_table::presets::UTF8_FULL;
use comfy_table::{Cell, ContentArrangement, Table};
use habit_tracker::clock::DATE_RANGE_SECS;
use habit_tracker::model::{Class, Data, Entry, Timestamp};
use habit_tracker::table::{row_cells, value_cell, GOOD, TABLE_WIDTH};

const DAY: i64 = 86_400;

fn class(name: &str, rows: &[(i64, u8)]) -> Class {
    Class {
        name: name.to_string(),
        entries: rows
            .iter()
            .map(|&(secs, value)| Entry { stamp: Timestamp { secs, nanos: 0 }, value })
            .collect(),
    }
}

fn sample() -> Data {
    Data {
        classes: vec![
            class("run", &[(1_000 * DAY, 10), (1_001 * DAY, 255)]),
            class("read", &[(1_000 * DAY, 95), (1_001 * DAY, 94)]),
        ],
    }
}

fn texts(cells: &[Cell]) -> Vec<String> {
    cells.iter().map(|c| c.content()).collect()
}

fn styled(cell: Cell) -> String {
    let mut table = Table::new();
    table.force_no_tty().enforce_styling();
    table.add_row(vec![cell]);
    table.to_string()
}

fn row_texts(table: &Table, n: usize) -> Vec<String> {
    table.row(n).unwrap().cell_iter().map(|c| c.content()).collect()
}

#[test]
fn thresholds_are_as_documented() {
    assert_eq!(GOOD, 95);
    assert_eq!(TABLE_WIDTH, 80);
}

#[test]
fn value_cell_shows_a_marker_for_an_unset_value() {
    assert_eq!(value_cell(255).content(), "[!]");
}

#[test]
fn value_cell_shows_the_number_of_a_set_value() {
    assert_eq!(value_cell(0).content(), "0");
    assert_eq!(value_cell(94).content(), "94");
    assert_eq!(value_cell(95).content(), "95");
    assert_eq!(value_cell(254).content(), "254");
}

#[test]
fn value_cell_colours_by_value() {
    assert_eq!(styled(value_cell(255)), styled(Cell::new("[!]").fg(comfy_table::Color::Red)));
    assert_eq!(styled(value_cell(95)), styled(Cell::new("95").fg(comfy_table::Color::Green)));
    assert_eq!(styled(value_cell(254)), styled(Cell::new("254").fg(comfy_table::Color::Green)));
    assert_eq!(styled(value_cell(94)), styled(Cell::new("94").fg(comfy_table::Color::Reset)));
    assert_eq!(styled(value_cell(0)), styled(Cell::new("0").fg(comfy_table::Color::Reset)));
    assert_ne!(styled(value_cell(255)), styled(Cell::new("[!]")));
    assert_ne!(styled(value_cell(95)), styled(Cell::new("95").fg(comfy_table::Color::Red)));
}

#[test]
fn row_cells_start_with_the_label() {
    let cells = row_cells("3".to_string(), &vec![1, 255, 100]);
    assert_eq!(texts(&cells), vec!["3", "1", "[!]", "100"]);
    assert_eq!(styled(cells[0].clone()), styled(Cell::new("3")));
}

#[test]
fn header_numbers_the_classes_by_default() {
    let cells = sample().header_cells(false);
    assert_eq!(texts(&cells), vec!["", "0", "1"]);
}

#[test]
fn header_names_the_classes_when_verbose() {
    let cells = sample().header_cells(true);
    assert_eq!(texts(&cells), vec!["", "run", "read"]);
}

#[test]
fn header_labels_are_bold_and_the_corner_is_not() {
    let cells = sample().header_cells(true);
    assert_eq!(
        styled(cells[1].clone()),
        styled(Cell::new("run").add_attribute(comfy_table::Attribute::Bold))
    );
    assert_ne!(styled(cells[1].clone()), styled(Cell::new("run")));
    assert_eq!(styled(cells[0].clone()), styled(Cell::new("")));
}

#[test]
fn showable_wants_a_class_and_no_class_shorter_than_the_first() {
    assert!(sample().showable());
    assert!(!Data { classes: vec![] }.showable());
    let short = Data { classes: vec![class("a", &[(1, 1), (2, 2)]), class("b", &[(1, 1)])] };
    assert!(!short.showable());
    let long = Data { classes: vec![class("a", &[(1, 1)]), class("b", &[(1, 1), (2, 2)])] };
    assert!(long.showable());
    assert!(Data { classes: vec![class("a", &[])] }.showable());
}

#[test]
fn table_holds_one_row_per_timestamp() {
    let mut table = sample().table(false, &vec![]);
    assert_eq!(texts(&table.header().unwrap().cell_iter().cloned().collect::<Vec<Cell>>()), vec!["", "0", "1"]);
    assert_eq!(table.row_count(), 2);
    assert_eq!(row_texts(&table, 0), vec!["0", "10", "95"]);
    assert_eq!(row_texts(&table, 1), vec!["1", "[!]", "94"]);
    assert_eq!(table.column_count(), 3);
}

#[test]
fn table_rows_carry_the_dates_when_verbose() {
    let dates = vec!["first".to_string(), "second".to_string()];
    let table = sample().table(true, &dates);
    assert_eq!(
        texts(&table.header().unwrap().cell_iter().cloned().collect::<Vec<Cell>>()),
        vec!["", "run", "read"]
    );
    assert_eq!(row_texts(&table, 0), vec!["first", "10", "95"]);
    assert_eq!(row_texts(&table, 1), vec!["second", "[!]", "94"]);
}

#[test]
fn table_ignores_rows_beyond_the_first_class() {
    let data = Data { classes: vec![class("a", &[(1, 1)]), class("b", &[(1, 2), (2, 3)])] };
    let table = data.table(false, &vec![]);
    assert_eq!(table.row_count(), 1);
    assert_eq!(row_texts(&table, 0), vec!["0", "1", "2"]);
}

#[test]
fn table_fits_its_columns_to_eighty_characters() {
    let mut table = sample().table(false, &vec![]);
    assert_eq!(table.width(), Some(80));
    assert!(matches!(table.content_arrangement(), ContentArrangement::Dynamic));
    assert_eq!(table.current_style_as_preset(), UTF8_FULL);
    assert_eq!(table.current_style_as_preset(), "││──╞═╪╡┆╌┼├┤┬┴┌┐└┘");
}

#[test]
fn table_styles_its_cells() {
    let mut ours = sample().table(false, &vec![]);
    ours.force_no_tty().enforce_styling();
    let mut plain = Table::new();
    plain
        .load_preset(UTF8_FULL)
        .set_content_arrangement(ContentArrangement::Dynamic)
        .set_width(80)
        .force_no_tty()
        .enforce_styling();
    plain.set_header(vec!["", "0", "1"]);
    plain.add_row(vec!["0", "10", "95"]);
    plain.add_row(vec!["1", "[!]", "94"]);
    assert_ne!(ours.to_string(), plain.to_string());
    ours = sample().table(false, &vec![]);
    ours.force_no_tty();
    plain = Table::new();
    plain
        .load_preset(UTF8_FULL)
        .set_content_arrangement(ContentArrangement::Dynamic)
        .set_width(80)
        .force_no_tty();
    plain.set_header(vec!["", "0", "1"]);
    plain.add_row(vec!["0", "10", "95"]);
    plain.add_row(vec!["1", "[!]", "94"]);
    assert_eq!(ours.to_string(), plain.to_string());
}

#[test]
fn print_draws_the_numbered_grid() {
    let table = sample().print(false).unwrap();
    assert_eq!(table.row_count(), 2);
    assert_eq!(row_texts(&table, 1), vec!["1", "[!]", "94"]);
    let text = table.to_string();
    assert!(text.contains("[!]"));
    assert!(text.contains("95"));
    assert!(text.contains('│'));
    assert!(text.contains('┌'));
    assert!(!text.contains("read"));
}

#[test]
fn print_names_classes_and_dates_when_verbose() {
    let table = sample().print(true).unwrap();
    assert_eq!(row_texts(&table, 0)[1..], ["10".to_string(), "95".to_string()]);
    assert!(row_texts(&table, 0)[0].starts_with("1972-09-2"));
    let text = table.to_string();
    assert!(text.contains("run"));
    assert!(text.contains("read"));
    assert!(text.contains("1972-"));
}

#[test]
fn print_has_nothing_to_show_without_classes() {
    assert!(Data { classes: vec![] }.print(false).is_none());
    assert!(Data { classes: vec![] }.print(true).is_none());
}

#[test]
fn print_refuses_a_class_shorter_than_the_first() {
    let data = Data { classes: vec![class("a", &[(1, 1), (2, 2)]), class("b", &[(1, 1)])] };
    assert!(data.print(false).is_none());
}

#[test]
fn print_refuses_a_row_without_a_date_only_when_verbose() {
    let data = Data { classes: vec![class("a", &[(DATE_RANGE_SECS + 1, 1)])] };
    assert!(data.print(true).is_none());
    assert!(data.print(false).is_some());
}

#[test]
fn date_label_is_a_calendar_date() {
    let label = Timestamp { secs: 1_000 * DAY + DAY / 2, nanos: 0 }.date_label().unwrap();
    assert!(label == "1972-09-27" || label == "1972-09-26" || label == "1972-09-28");
}

#[test]
fn date_label_is_missing_outside_the_date_range() {
    assert!(Timestamp { secs: DATE_RANGE_SECS + 1, nanos: 0 }.date_label().is_none());
    assert!(Timestamp { secs: -DATE_RANGE_SECS - 1, nanos: 0 }.date_label().is_none());
    assert!(Timestamp { secs: i64::MAX, nanos: 0 }.date_label().is_none());
    assert!(Timestamp { secs: DATE_RANGE_SECS, nanos: 0 }.date_label().is_some());
    assert!(Timestamp { secs: -DATE_RANGE_SECS, nanos: 0 }.date_label().is_some());
}

#[test]
fn date_label_is_missing_for_impossible_nanoseconds() {
    assert!(Timestamp { secs: 0, nanos: u32::MAX }.date_label().is_none());
    assert!(Timestamp { secs: 0, nanos: 2_000_000_000 }.date_label().is_none());
    assert!(Timestamp { secs: 0, nanos: 1_000_000_000 }.date_label().is_none());
    assert!(Timestamp { secs: 58, nanos: 1_500_000_000 }.date_label().is_none());
    assert!(Timestamp { secs: 0, nanos: 999_999_999 }.date_label().is_some());
}

#[test]
fn date_label_allows_a_leap_second_at_the_end_of_a_minute() {
    assert!(Timestamp { secs: 59, nanos: 1_500_000_000 }.date_label().is_some());
    assert!(Timestamp { secs: 119, nanos: 1_999_999_999 }.date_label().is_some());
    assert!(Timestamp { secs: -1, nanos: 1_000_000_000 }.date_label().is_some());
    assert!(Timestamp { secs: -61, nanos: 1_000_000_000 }.date_label().is_some());
    assert!(Timestamp { secs: -59, nanos: 1_000_000_000 }.date_label().is_none());
    assert!(Timestamp { secs: 59, nanos: 2_000_000_000 }.date_label().is_none());
}

#[test]
fn row_dates_gives_one_date_per_row_of_the_first_class() {
    let dates = sample().row_dates().unwrap();
    assert_eq!(dates.len(), 2);
    assert!(dates[0].starts_with("1972-09-2"));
    let far = Data { classes: vec![class("a", &[(0, 1), (DATE_RANGE_SECS + 1, 1)])] };
    assert!(far.row_dates().is_none());
}
