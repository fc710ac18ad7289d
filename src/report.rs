use comfy_table::modifiers::{UTF8_ROUND_CORNERS, UTF8_SOLID_INNER_BORDERS};
use comfy_table::presets::UTF8_FULL;
use comfy_table::{Attribute, Cell, CellAlignment, ContentArrangement, Table};
use vstd::prelude::*;
use vstd::utf8::encode_utf8;

use crate::config::Config;
use crate::metrics::{line_count, measure, word_count};

verus! {

#[verifier::external_type_specification]
#[verifier::external_body]
pub struct ExTable(Table);

#[verifier::external_type_specification]
#[verifier::external_body]
pub struct ExCell(Cell);

/// Relies on `String::push`: the character is appended at the end.
pub assume_specification[ String::push ](s: &mut String, ch: char)
    ensures
        final(s)@ == old(s)@.push(ch),
;

/// The text a cell holds, as `Cell::content` gives it back.
pub uninterp spec fn cell_text(c: Cell) -> Seq<char>;

/// The texts of the header row's cells, if the table has a header.
pub uninterp spec fn table_header(t: Table) -> Option<Seq<Seq<char>>>;

/// The texts of the cells of each data row, in the order of insertion.
pub uninterp spec fn table_rows(t: Table) -> Seq<Seq<Seq<char>>>;

/// The texts of a sequence of cells.
pub open spec fn texts(cells: Seq<Cell>) -> Seq<Seq<char>> {
    cells.map_values(|c: Cell| cell_text(c))
}

/// Relies on `Cell::new`: the cell holds the given text.
#[verifier::external_body]
fn new_cell(text: String) -> (r: Cell)
    ensures
        cell_text(r) == text@,
{
    Cell::new(text)
}

/// Relies on `Cell::add_attribute`: it sets a style, the text stays.
#[verifier::external_body]
fn bold(c: Cell) -> (r: Cell)
    ensures
        cell_text(r) == cell_text(c),
{
    c.add_attribute(Attribute::Bold)
}

/// Relies on `Cell::set_alignment`: it sets the alignment, the text stays.
#[verifier::external_body]
fn align_left(c: Cell) -> (r: Cell)
    ensures
        cell_text(r) == cell_text(c),
{
    c.set_alignment(CellAlignment::Left)
}

/// Relies on `Table::new`: a table without header and rows.
#[verifier::external_body]
fn new_table() -> (r: Table)
    ensures
        table_header(r) is None,
        table_rows(r) == Seq::<Seq<Seq<char>>>::empty(),
{
    Table::new()
}

/// Relies on `Table::load_preset`: it sets the border characters only.
#[verifier::external_body]
fn load_utf8_full(t: &mut Table)
    ensures
        table_header(*final(t)) == table_header(*old(t)),
        table_rows(*final(t)) == table_rows(*old(t)),
{
    t.load_preset(UTF8_FULL);
}

/// Relies on `Table::apply_modifier`: it changes border characters only.
#[verifier::external_body]
fn round_solid_borders(t: &mut Table)
    ensures
        table_header(*final(t)) == table_header(*old(t)),
        table_rows(*final(t)) == table_rows(*old(t)),
{
    t.apply_modifier(UTF8_SOLID_INNER_BORDERS).apply_modifier(UTF8_ROUND_CORNERS);
}

/// Relies on `Table::set_content_arrangement`: it sets how columns are
/// sized only.
#[verifier::external_body]
fn arrange_dynamically(t: &mut Table)
    ensures
        table_header(*final(t)) == table_header(*old(t)),
        table_rows(*final(t)) == table_rows(*old(t)),
{
    t.set_content_arrangement(ContentArrangement::Dynamic);
}

/// Relies on `Table::set_header`: the cells become the header row.
#[verifier::external_body]
fn set_header(t: &mut Table, cells: Vec<Cell>)
    ensures
        table_header(*final(t)) == Some(texts(cells@)),
        table_rows(*final(t)) == table_rows(*old(t)),
{
    t.set_header(cells);
}

/// Relies on `Table::add_row`: the cells become the last data row.
#[verifier::external_body]
fn add_row(t: &mut Table, cells: Vec<Cell>)
    ensures
        table_header(*final(t)) == table_header(*old(t)),
        table_rows(*final(t)) == table_rows(*old(t)).push(texts(cells@)),
{
    t.add_row(cells);
}

/// The decimal digit for `d`, which is below ten.
pub open spec fn digit(d: nat) -> char {
    if d == 0 {
        '0'
    } else if d == 1 {
        '1'
    } else if d == 2 {
        '2'
    } else if d == 3 {
        '3'
    } else if d == 4 {
        '4'
    } else if d == 5 {
        '5'
    } else if d == 6 {
        '6'
    } else if d == 7 {
        '7'
    } else if d == 8 {
        '8'
    } else {
        '9'
    }
}

/// `n` written in decimal, without leading zeros.
pub open spec fn decimal(n: nat) -> Seq<char>
    decreases n,
{
    if n < 10 {
        seq![digit(n)]
    } else {
        decimal(n / 10).push(digit(n % 10))
    }
}

fn digit_char(d: usize) -> (r: char)
    requires
        d < 10,
    ensures
        r == digit(d as nat),
{
    if d == 0 {
        '0'
    } else if d == 1 {
        '1'
    } else if d == 2 {
        '2'
    } else if d == 3 {
        '3'
    } else if d == 4 {
        '4'
    } else if d == 5 {
        '5'
    } else if d == 6 {
        '6'
    } else if d == 7 {
        '7'
    } else if d == 8 {
        '8'
    } else {
        '9'
    }
}

fn push_decimal(s: &mut String, n: usize)
    ensures
        final(s)@ == old(s)@ + decimal(n as nat),
    decreases n,
{
    if n >= 10 {
        push_decimal(s, n / 10);
    }
    s.push(digit_char(n % 10));
    proof {
        if n < 10 {
            assert(old(s)@ + decimal(n as nat) =~= old(s)@.push(digit(n as nat)));
        } else {
            assert(old(s)@ + decimal(n as nat) =~= (old(s)@ + decimal((n / 10) as nat)).push(
                digit((n % 10) as nat),
            ));
        }
    }
}

/// Writes `n` in decimal.
pub fn decimal_string(n: usize) -> (r: String)
    ensures
        r@ == decimal(n as nat),
{
    let mut s = String::new();
    push_decimal(&mut s, n);
    proof {
        assert(Seq::<char>::empty() + decimal(n as nat) =~= decimal(n as nat));
    }
    s
}

/// The column labels of the report, in order.
pub open spec fn header_labels() -> Seq<Seq<char>> {
    seq!["Lines"@, "Words"@, "Bytes"@, "Chars"@, "File"@]
}

/// The report's data row for the buffer `s` read from `path`: its four
/// counts in decimal, then the path.
pub open spec fn report_row(s: Seq<char>, path: Seq<char>) -> Seq<Seq<char>> {
    seq![
        decimal(line_count(s)),
        decimal(word_count(s)),
        decimal(encode_utf8(s).len()),
        decimal(s.len()),
        path,
    ]
}

/// A bold, left-aligned cell holding `text`.
fn label_cell(text: &str) -> (r: Cell)
    ensures
        cell_text(r) == text@,
{
    align_left(bold(new_cell(String::from_str(text))))
}

/// A left-aligned cell holding `text`.
fn value_cell(text: String) -> (r: Cell)
    ensures
        cell_text(r) == text@,
{
    align_left(new_cell(text))
}

/// The cells of the header row.
fn header_cells() -> (r: Vec<Cell>)
    ensures
        texts(r@) == header_labels(),
{
    let mut cells: Vec<Cell> = Vec::new();
    cells.push(label_cell("Lines"));
    cells.push(label_cell("Words"));
    cells.push(label_cell("Bytes"));
    cells.push(label_cell("Chars"));
    cells.push(label_cell("File"));
    assert(texts(cells@) =~= header_labels());
    cells
}

/// Builds the report on `contents`, read from the file `config` names: a
/// table with rounded borders whose header row names the columns and whose
/// one data row holds the counts and the path.
pub fn build_table(config: &Config, contents: &str) -> (r: Table)
    ensures
        table_header(r) == Some(header_labels()),
        table_rows(r) == seq![report_row(contents@, config.file_path@)],
{
    let m = measure(contents);
    let mut row: Vec<Cell> = Vec::new();
    row.push(value_cell(decimal_string(m.lines)));
    row.push(value_cell(decimal_string(m.words)));
    row.push(value_cell(decimal_string(m.bytes)));
    row.push(value_cell(decimal_string(m.chars)));
    row.push(value_cell(config.file_path.clone()));
    assert(texts(row@) =~= report_row(contents@, config.file_path@));

    let mut table = new_table();
    load_utf8_full(&mut table);
    round_solid_borders(&mut table);
    arrange_dynamically(&mut table);
    set_header(&mut table, header_cells());
    add_row(&mut table, row);
    assert(table_rows(table) =~= seq![report_row(contents@, config.file_path@)]);
    table
}

} // verus!
