//! The grid as a table of styled cells.

use vstd::prelude::*;
use comfy_table::{Attribute, Cell, Color, ContentArrangement, Table};
use crate::clock::datable;
use crate::grid::{can_transpose, transpose, transposed};
use crate::model::{aligned, grid_of, rows_of, stamps_of, ClassView, Data, BLANK};
use crate::text::{decimal, decimal_text};

verus! {

/// `comfy_table`'s table, opaque here: the contracts speak of it through
/// `table_look`.
#[verifier::external_type_specification]
#[verifier::external_body]
pub struct ExTable(comfy_table::Table);

/// `comfy_table`'s cell, opaque here: the contracts speak of it through
/// `cell_look`.
#[verifier::external_type_specification]
#[verifier::external_body]
pub struct ExCell(comfy_table::Cell);

/// `comfy_table`'s colours, with their variants.
#[verifier::external_type_specification]
pub struct ExColor(comfy_table::Color);

/// `comfy_table`'s text attributes, with their variants.
#[verifier::external_type_specification]
pub struct ExAttribute(comfy_table::Attribute);

/// `comfy_table`'s ways of fitting columns to a width, with their variants.
#[verifier::external_type_specification]
pub struct ExContentArrangement(comfy_table::ContentArrangement);

/// What a cell was given: its text, its foreground colour if one was set,
/// and its attributes in the order they were added.
pub struct CellLook {
    pub text: Seq<char>,
    pub fg: Option<Color>,
    pub attributes: Seq<Attribute>,
}

/// What a table was given: its header if one was set, its rows in the order
/// they were added, the width it is to keep to if one was set, the way it
/// fits its columns, and its nineteen border characters in the order of
/// `TableComponent`, a space for one that is not drawn.
pub struct TableLook {
    pub header: Option<Seq<CellLook>>,
    pub rows: Seq<Seq<CellLook>>,
    pub width: Option<u16>,
    pub arrangement: ContentArrangement,
    pub borders: Seq<char>,
}

/// What the cell holds: the text that `Cell::content` hands back, and the
/// colour and attributes that it is drawn with.
pub uninterp spec fn cell_look(cell: Cell) -> CellLook;

/// What the table holds: the header and rows that `Table::header` and
/// `Table::row_iter` hand back, cell by cell, the width that `Table::set_width`
/// stored, what `Table::content_arrangement` hands back, and the characters
/// that `Table::current_style_as_preset` lists.
pub uninterp spec fn table_look(table: Table) -> TableLook;

/// What each cell of a row holds.
pub open spec fn looks_of(cells: Seq<Cell>) -> Seq<CellLook> {
    cells.map_values(|cell: Cell| cell_look(cell))
}

/// The border characters of the preset `UTF8_FULL`.
pub open spec fn utf8_full() -> Seq<char> {
    seq![
        '│', '│', '─', '─', '╞', '═', '╪', '╡', '┆', '╌',
        '┼', '├', '┤', '┬', '┴', '┌', '┐', '└', '┘',
    ]
}

/// Builds a cell from its text with `Cell::new`: the cell holds that text,
/// no colour and no attribute.
#[verifier::external_body]
fn cell_new(text: String) -> (cell: Cell)
    ensures
        cell_look(cell) == (CellLook {
            text: text@,
            fg: None,
            attributes: Seq::empty(),
        }),
{
    Cell::new(text)
}

/// Sets a cell's foreground colour with `Cell::fg`; text and attributes stay.
#[verifier::external_body]
fn cell_with_fg(cell: Cell, color: Color) -> (styled: Cell)
    ensures
        cell_look(styled) == (CellLook { fg: Some(color), ..cell_look(cell) }),
{
    cell.fg(color)
}

/// Adds an attribute to a cell with `Cell::add_attribute`: it comes after the
/// ones already there; text and colour stay.
#[verifier::external_body]
fn cell_with_attribute(cell: Cell, attribute: Attribute) -> (styled: Cell)
    ensures
        cell_look(styled) == (CellLook {
            attributes: cell_look(cell).attributes.push(attribute),
            ..cell_look(cell)
        }),
{
    cell.add_attribute(attribute)
}

/// Makes an empty table with `Table::new`: no header, no rows, no width, and
/// no fitting of columns. Nothing is claimed of its borders.
#[verifier::external_body]
fn table_new() -> (table: Table)
    ensures
        table_look(table).header == None::<Seq<CellLook>>,
        table_look(table).rows == Seq::<Seq<CellLook>>::empty(),
        table_look(table).width == None::<u16>,
        table_look(table).arrangement == ContentArrangement::Disabled,
{
    Table::new()
}

/// Gives the table the border characters of the preset `UTF8_FULL` with
/// `Table::load_preset`. The preset names all nineteen, so none is left from
/// before. Everything else stays.
#[verifier::external_body]
fn table_load_utf8_full(table: &mut Table)
    ensures
        table_look(*final(table)) == (TableLook {
            borders: utf8_full(),
            ..table_look(*old(table))
        }),
{
    table.load_preset(comfy_table::presets::UTF8_FULL);
}

/// Tells the table how to fit its columns, with
/// `Table::set_content_arrangement`. Everything else stays.
#[verifier::external_body]
fn table_set_arrangement(table: &mut Table, arrangement: ContentArrangement)
    ensures
        table_look(*final(table)) == (TableLook { arrangement, ..table_look(*old(table)) }),
{
    table.set_content_arrangement(arrangement);
}

/// Tells the table the width to keep to, with `Table::set_width`. Everything
/// else stays.
#[verifier::external_body]
fn table_set_width(table: &mut Table, width: u16)
    ensures
        table_look(*final(table)) == (TableLook { width: Some(width), ..table_look(*old(table)) }),
{
    table.set_width(width);
}

/// Makes `cells` the table's header with `Table::set_header`, in place of any
/// earlier one. Everything else stays.
#[verifier::external_body]
fn table_set_header(table: &mut Table, cells: Vec<Cell>)
    ensures
        table_look(*final(table)) == (TableLook {
            header: Some(looks_of(cells@)),
            ..table_look(*old(table))
        }),
{
    table.set_header(cells);
}

/// Adds `cells` as the table's last row with `Table::add_row`. Everything
/// else stays.
#[verifier::external_body]
fn table_add_row(table: &mut Table, cells: Vec<Cell>)
    ensures
        table_look(*final(table)) == (TableLook {
            rows: table_look(*old(table)).rows.push(looks_of(cells@)),
            ..table_look(*old(table))
        }),
{
    table.add_row(cells);
}

/// Values from here up are shown in green.
pub const GOOD: u8 = 95;

/// The width that the table keeps to.
pub const TABLE_WIDTH: u16 = 80;

/// A cell of plain text.
pub open spec fn plain_look(text: Seq<char>) -> CellLook {
    CellLook { text, fg: None, attributes: Seq::empty() }
}

/// A cell of bold text.
pub open spec fn bold_look(text: Seq<char>) -> CellLook {
    CellLook { text, fg: None, attributes: seq![Attribute::Bold] }
}

/// What a value is shown as: a marker where it is unset, else its number.
pub open spec fn value_text(value: u8) -> Seq<char> {
    if value == BLANK {
        seq!['[', '!', ']']
    } else {
        decimal(value as nat)
    }
}

/// The colour of a value: red where it is unset, green where it is good,
/// else the terminal's own.
pub open spec fn value_color(value: u8) -> Color {
    if value == BLANK {
        Color::Red
    } else if value >= GOOD {
        Color::Green
    } else {
        Color::Reset
    }
}

/// The cell of a value: its text in its colour.
pub open spec fn value_look(value: u8) -> CellLook {
    CellLook { text: value_text(value), fg: Some(value_color(value)), attributes: Seq::empty() }
}

/// What heads the column of class `n`: its name, or its number where names
/// are not asked for.
pub open spec fn column_label(classes: Seq<ClassView>, verbose: bool, n: int) -> Seq<char> {
    if verbose {
        classes[n].name
    } else {
        decimal(n as nat)
    }
}

/// What heads row `n`: its date, or its number where dates are not asked for.
pub open spec fn row_label(dates: Seq<String>, verbose: bool, n: int) -> Seq<char> {
    if verbose {
        dates[n]@
    } else {
        decimal(n as nat)
    }
}

/// The header for `classes`: an empty corner, then one bold label per class.
pub open spec fn header_look(classes: Seq<ClassView>, verbose: bool) -> Seq<CellLook> {
    Seq::new(
        classes.len() + 1,
        |k: int|
            if k == 0 {
                plain_look(Seq::empty())
            } else {
                bold_look(column_label(classes, verbose, k - 1))
            },
    )
}

/// A row of the table: the plain label, then one coloured cell per value.
pub open spec fn row_look(label: Seq<char>, values: Seq<u8>) -> Seq<CellLook> {
    Seq::new(
        values.len() + 1,
        |k: int|
            if k == 0 {
                plain_look(label)
            } else {
                value_look(values[k - 1])
            },
    )
}

/// The grid can be shown: there is a class, and no class has fewer rows than
/// the first.
pub open spec fn can_show(classes: Seq<ClassView>) -> bool {
    can_transpose(grid_of(classes))
}

/// The table that shows `classes`. The header names or numbers the classes.
/// There are as many rows as the first class has; row `n` holds its label
/// and then the value of each class at row `n`. The table fits its columns
/// to a width of `TABLE_WIDTH` and draws the borders of `UTF8_FULL`.
pub open spec fn grid_look(
    classes: Seq<ClassView>,
    verbose: bool,
    dates: Seq<String>,
) -> TableLook {
    TableLook {
        header: Some(header_look(classes, verbose)),
        rows: Seq::new(
            classes[0].entries.len(),
            |n: int| row_look(row_label(dates, verbose, n), transposed(grid_of(classes))[n]),
        ),
        width: Some(TABLE_WIDTH),
        arrangement: ContentArrangement::Dynamic,
        borders: utf8_full(),
    }
}

/// `table` shows `classes` under some choice of dates for its rows, which
/// matters only with `verbose`.
pub open spec fn shows(table: Table, classes: Seq<ClassView>, verbose: bool) -> bool {
    exists|dates: Seq<String>|
        (verbose ==> dates.len() == classes[0].entries.len()) && table_look(table)
            == #[trigger] grid_look(classes, verbose, dates)
}

/// A grid with a class whose classes all have the same timestamps at the
/// same rows can be shown.
pub proof fn lemma_aligned_can_show(classes: Seq<ClassView>)
    requires
        classes.len() > 0,
        aligned(classes),
    ensures
        can_show(classes),
{
    assert forall|i: int| 0 <= i < grid_of(classes).len() implies (#[trigger] grid_of(
        classes,
    )[i]).len() >= grid_of(classes)[0].len() by {
        assert(stamps_of(classes[i].entries).len() == stamps_of(classes[0].entries).len());
    }
}

/// The cell that shows one value.
pub fn value_cell(value: u8) -> (cell: Cell)
    ensures
        cell_look(cell) == value_look(value),
{
    if value == BLANK {
        proof {
            reveal_strlit("[!]");
        }
        let marker = "[!]".to_string();
        assert(marker@ =~= seq!['[', '!', ']']);
        cell_with_fg(cell_new(marker), Color::Red)
    } else if value >= GOOD {
        cell_with_fg(cell_new(decimal_text(value as usize)), Color::Green)
    } else {
        cell_with_fg(cell_new(decimal_text(value as usize)), Color::Reset)
    }
}

/// The cells of one row: the label, then the values.
pub fn row_cells(label: String, values: &Vec<u8>) -> (cells: Vec<Cell>)
    ensures
        looks_of(cells@) == row_look(label@, values@),
{
    let mut cells: Vec<Cell> = Vec::new();
    cells.push(cell_new(label));
    let mut i: usize = 0;
    while i < values.len()
        invariant
            i <= values.len(),
            cells@.len() == i + 1,
            cell_look(cells@[0]) == plain_look(label@),
            forall|k: int|
                0 <= k < i ==> cell_look(#[trigger] cells@[k + 1]) == value_look(values@[k]),
        decreases values.len() - i,
    {
        cells.push(value_cell(values[i]));
        i += 1;
    }
    assert(looks_of(cells@) =~= row_look(label@, values@)) by {
        assert forall|k: int| 0 <= k < cells@.len() implies looks_of(cells@)[k] == row_look(
            label@,
            values@,
        )[k] by {
            if k > 0 {
                assert(cell_look(cells@[(k - 1) + 1]) == value_look(values@[k - 1]));
            }
        }
    }
    cells
}

impl Data {
    /// The header cells: an empty corner, then each class's name, or its
    /// number where `verbose` is off, in bold.
    pub fn header_cells(&self, verbose: bool) -> (cells: Vec<Cell>)
        ensures
            looks_of(cells@) == header_look(self@, verbose),
    {
        let mut cells: Vec<Cell> = Vec::new();
        proof {
            reveal_strlit("");
        }
        let corner = "".to_string();
        assert(corner@ =~= Seq::<char>::empty());
        cells.push(cell_new(corner));
        let mut n: usize = 0;
        while n < self.classes.len()
            invariant
                n <= self.classes.len(),
                cells@.len() == n + 1,
                cell_look(cells@[0]) == plain_look(Seq::empty()),
                forall|k: int|
                    0 <= k < n ==> cell_look(#[trigger] cells@[k + 1]) == bold_look(
                        column_label(self@, verbose, k),
                    ),
            decreases self.classes.len() - n,
        {
            let label = if verbose {
                self.classes[n].name.clone()
            } else {
                decimal_text(n)
            };
            let cell = cell_with_attribute(cell_new(label), Attribute::Bold);
            assert(cell_look(cell).attributes =~= seq![Attribute::Bold]);
            cells.push(cell);
            n += 1;
        }
        assert(looks_of(cells@) =~= header_look(self@, verbose)) by {
            assert forall|k: int| 0 <= k < cells@.len() implies looks_of(cells@)[k] == header_look(
                self@,
                verbose,
            )[k] by {
                if k > 0 {
                    assert(cell_look(cells@[(k - 1) + 1]) == bold_look(
                        column_label(self@, verbose, k - 1),
                    ));
                }
            }
        }
        cells
    }

    /// Whether the grid can be shown.
    pub fn showable(&self) -> (yes: bool)
        ensures
            yes == can_show(self@),
    {
        if self.classes.len() == 0 {
            return false;
        }
        let first = self.classes[0].entries.len();
        let mut i: usize = 0;
        while i < self.classes.len()
            invariant
                i <= self.classes.len(),
                self.classes@.len() > 0,
                first == self.classes@[0].entries@.len(),
                forall|k: int| 0 <= k < i ==> (#[trigger] grid_of(self@)[k]).len() >= first,
            decreases self.classes.len() - i,
        {
            if self.classes[i].entries.len() < first {
                assert(grid_of(self@)[i as int].len() < grid_of(self@)[0].len());
                return false;
            }
            i += 1;
        }
        true
    }

    /// The table that shows the grid. With `verbose` the columns are headed by
    /// the classes' names and the rows by `dates`; without it both are
    /// numbered from zero and `dates` is not read.
    pub fn table(&self, verbose: bool, dates: &Vec<String>) -> (table: Table)
        requires
            can_show(self@),
            verbose ==> dates@.len() == self@[0].entries.len(),
        ensures
            table_look(table) == grid_look(self@, verbose, dates@),
    {
        let mut table = table_new();
        table_load_utf8_full(&mut table);
        table_set_arrangement(&mut table, ContentArrangement::Dynamic);
        table_set_width(&mut table, TABLE_WIDTH);
        table_set_header(&mut table, self.header_cells(verbose));
        let grid = self.make_naive_grid();
        let rows = transpose(&grid);
        let ghost turned = transposed(grid_of(self@));
        let ghost framed = table_look(table);
        assert(rows_of(&rows).len() == rows@.len());
        assert(grid_of(self@)[0].len() == self@[0].entries.len());
        let mut n: usize = 0;
        while n < rows.len()
            invariant
                n <= rows.len(),
                rows_of(&rows) == turned,
                turned == transposed(grid_of(self@)),
                rows@.len() == self@[0].entries.len(),
                verbose ==> dates@.len() == self@[0].entries.len(),
                framed == (TableLook { rows: Seq::empty(), ..grid_look(self@, verbose, dates@) }),
                table_look(table) == (TableLook { rows: table_look(table).rows, ..framed }),
                table_look(table).rows.len() == n,
                forall|k: int|
                    0 <= k < n ==> #[trigger] table_look(table).rows[k] == row_look(
                        row_label(dates@, verbose, k),
                        turned[k],
                    ),
            decreases rows.len() - n,
        {
            let label = if verbose {
                dates[n].clone()
            } else {
                decimal_text(n)
            };
            assert(rows@[n as int]@ == turned[n as int]);
            let cells = row_cells(label, &rows[n]);
            table_add_row(&mut table, cells);
            n += 1;
        }
        assert(table_look(table).rows =~= grid_look(self@, verbose, dates@).rows);
        table
    }

    /// The table that shows the grid, its rows headed by their local dates
    /// where `verbose` is on. There is one unless the grid cannot be shown
    /// or, with `verbose`, some row has no date.
    pub fn print(&self, verbose: bool) -> (drawn: Option<Table>)
        ensures
            drawn.is_some() == (can_show(self@) && (verbose ==> datable(self@))),
            drawn matches Some(table) ==> shows(table, self@, verbose),
    {
        if !self.showable() {
            return None;
        }
        if verbose {
            match self.row_dates() {
                Some(dates) => {
                    let table = self.table(true, &dates);
                    assert(table_look(table) == grid_look(self@, verbose, dates@));
                    Some(table)
                },
                None => None,
            }
        } else {
            let dates: Vec<String> = Vec::new();
            let table = self.table(false, &dates);
            assert(table_look(table) == grid_look(self@, verbose, dates@));
            Some(table)
        }
    }
}

} // verus!
