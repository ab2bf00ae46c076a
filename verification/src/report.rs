//! The tabular summary of a run. Each result line is read back into its
//! fields, and every line whose command can be read becomes one row.

use prettytable::{Cell, Row, Table};
use vstd::prelude::*;
use vstd::string::{StrSliceExecFns, StringExecFns};
use vstd::utf8::is_ascii_chars;
use crate::text::{
    copy_text, escape_char, has_prefix, holds_escape, lemma_line_chars_in_text, same_text,
    slice_texts, spec_lines, split_lines, starts_with, text_after, texts,
};

verus! {

/// The value of the first of `lines` that begins with `prefix`: what stands
/// behind the prefix. `Unknown` where no line begins with it.
pub open spec fn spec_extract_value(lines: Seq<Seq<char>>, prefix: Seq<char>) -> Seq<char>
    decreases lines.len(),
{
    if lines.len() == 0 {
        "Unknown"@
    } else if has_prefix(lines[0], prefix) {
        lines[0].skip(prefix.len() as int)
    } else {
        spec_extract_value(lines.drop_first(), prefix)
    }
}

/// The value of the first of `lines` that begins with `prefix`, or `Unknown`.
pub fn extract_value(lines: &[&str], prefix: &str) -> (value: String)
    ensures
        value@ == spec_extract_value(slice_texts(lines@), prefix@),
{
    let ghost all = slice_texts(lines@);
    let mut i: usize = 0;
    assert(all.skip(0) =~= all);
    while i < lines.len()
        invariant
            i <= lines.len(),
            all == slice_texts(lines@),
            spec_extract_value(all, prefix@) == spec_extract_value(all.skip(i as int), prefix@),
        decreases lines.len() - i,
    {
        let line: &str = lines[i];
        assert(all.skip(i as int)[0] == line@);
        if starts_with(line, prefix) {
            return text_after(line, prefix.unicode_len());
        }
        assert(all.skip(i as int).drop_first() =~= all.skip(i + 1));
        i = i + 1;
    }
    String::from_str("Unknown")
}

/// The line names one of the fields of a result.
pub open spec fn is_field_line(line: Seq<char>) -> bool {
    ||| has_prefix(line, "Host: "@)
    ||| has_prefix(line, "Command: "@)
    ||| has_prefix(line, "Standard Error: "@)
}

/// Those of `lines` that name no field, in their order.
pub open spec fn free_lines(lines: Seq<Seq<char>>) -> Seq<Seq<char>>
    decreases lines.len(),
{
    if lines.len() == 0 {
        Seq::empty()
    } else if is_field_line(lines.last()) {
        free_lines(lines.drop_last())
    } else {
        free_lines(lines.drop_last()).push(lines.last())
    }
}

/// The lines with a line feed between each two.
pub open spec fn spec_join(lines: Seq<Seq<char>>) -> Seq<char>
    decreases lines.len(),
{
    if lines.len() == 0 {
        Seq::empty()
    } else if lines.len() == 1 {
        lines[0]
    } else {
        spec_join(lines.drop_last()) + "\n"@ + lines.last()
    }
}

/// One row of the summary.
#[derive(Clone, Debug, PartialEq, Eq)]
pub struct ReportRow {
    pub host: String,
    pub command: String,
    pub stdout: String,
    pub stderr: String,
}

/// Mathematical value of a `ReportRow`.
pub struct ReportRowView {
    pub host: Seq<char>,
    pub command: Seq<char>,
    pub stdout: Seq<char>,
    pub stderr: Seq<char>,
}

impl View for ReportRow {
    type V = ReportRowView;

    open spec fn view(&self) -> ReportRowView {
        ReportRowView {
            host: self.host@,
            command: self.command@,
            stdout: self.stdout@,
            stderr: self.stderr@,
        }
    }
}

/// The values of a sequence of rows.
pub open spec fn row_views(v: Seq<ReportRow>) -> Seq<ReportRowView> {
    Seq::new(v.len(), |i: int| v[i]@)
}

/// The row that a result line is read back into. Host, command and error
/// text are the values of the first line that names them; the output is made
/// of the lines that name no field.
pub open spec fn spec_parse_result(result: Seq<char>) -> ReportRowView {
    let lines = spec_lines(result);
    ReportRowView {
        host: spec_extract_value(lines, "Host: "@),
        command: spec_extract_value(lines, "Command: "@),
        stdout: spec_join(free_lines(lines)),
        stderr: spec_extract_value(lines, "Standard Error: "@),
    }
}

/// A row is left out where its command could not be read, or reads
/// `Unknown Command`.
pub open spec fn is_suppressed(row: ReportRowView) -> bool {
    row.command == "Unknown"@ || row.command == "Unknown Command"@
}

/// The rows of a run: one per result line whose row is not left out, in the
/// order of the lines.
pub open spec fn spec_report_rows(results: Seq<Seq<char>>) -> Seq<ReportRowView>
    decreases results.len(),
{
    if results.len() == 0 {
        Seq::empty()
    } else if is_suppressed(spec_parse_result(results.last())) {
        spec_report_rows(results.drop_last())
    } else {
        spec_report_rows(results.drop_last()).push(spec_parse_result(results.last()))
    }
}

/// The lines that name no field, with a line feed between each two.
fn join_free_lines(lines: &[&str]) -> (text: String)
    ensures
        text@ == spec_join(free_lines(slice_texts(lines@))),
{
    let ghost all = slice_texts(lines@);
    let mut text = String::new();
    let mut empty = true;
    let mut i: usize = 0;
    assert(all.take(0) =~= Seq::empty());
    while i < lines.len()
        invariant
            i <= lines.len(),
            all == slice_texts(lines@),
            text@ == spec_join(free_lines(all.take(i as int))),
            empty == (free_lines(all.take(i as int)).len() == 0),
        decreases lines.len() - i,
    {
        let line: &str = lines[i];
        assert(all.take(i + 1).drop_last() =~= all.take(i as int));
        assert(all.take(i + 1).last() == line@);
        let named = starts_with(line, "Host: ") || starts_with(line, "Command: ") || starts_with(
            line,
            "Standard Error: ",
        );
        if !named {
            let ghost kept = free_lines(all.take(i as int));
            assert(kept.push(line@).drop_last() =~= kept);
            if !empty {
                text.append("\n");
            }
            text.append(line);
            empty = false;
        }
        i = i + 1;
    }
    assert(all.take(lines.len() as int) =~= all);
    text
}

/// Reads a result line back into its fields.
pub fn parse_result(result: &str) -> (row: ReportRow)
    ensures
        row@ == spec_parse_result(result@),
{
    let lines = split_lines(result);
    ReportRow {
        host: extract_value(lines.as_slice(), "Host: "),
        command: extract_value(lines.as_slice(), "Command: "),
        stdout: join_free_lines(lines.as_slice()),
        stderr: extract_value(lines.as_slice(), "Standard Error: "),
    }
}

impl ReportRow {
    /// Whether the row is left out of the summary.
    pub fn is_suppressed(&self) -> (b: bool)
        ensures
            b == is_suppressed(self@),
    {
        same_text(self.command.as_str(), "Unknown") || same_text(
            self.command.as_str(),
            "Unknown Command",
        )
    }
}

/// The rows of the summary of a run.
pub fn report_rows(results: &Vec<String>) -> (rows: Vec<ReportRow>)
    ensures
        row_views(rows@) == spec_report_rows(texts(results@)),
{
    let ghost all = texts(results@);
    let mut rows: Vec<ReportRow> = Vec::new();
    let mut i: usize = 0;
    assert(all.take(0) =~= Seq::empty());
    assert(row_views(rows@) =~= Seq::empty());
    while i < results.len()
        invariant
            i <= results.len(),
            all == texts(results@),
            row_views(rows@) == spec_report_rows(all.take(i as int)),
        decreases results.len() - i,
    {
        let row = parse_result(results[i].as_str());
        assert(all.take(i + 1).drop_last() =~= all.take(i as int));
        assert(all.take(i + 1).last() == results@[i as int]@);
        if !row.is_suppressed() {
            let ghost before = row_views(rows@);
            let ghost value = row@;
            rows.push(row);
            assert(row_views(rows@) =~= before.push(value));
        }
        i = i + 1;
    }
    assert(all.take(results.len() as int) =~= all);
    rows
}

/// A printable table of `prettytable`.
#[verifier::external_type_specification]
#[verifier::external_body]
pub struct ExTable(prettytable::Table);

/// What a table holds: its rows in their order, each as its cells from left
/// to right, each cell as the lines of its text.
pub uninterp spec fn table_rows(table: Table) -> Seq<Seq<Seq<Seq<char>>>>;

/// The cells of a table row that is made of `cells`: each text in its lines.
pub open spec fn cell_lines(cells: Seq<Seq<char>>) -> Seq<Seq<Seq<char>>> {
    Seq::new(cells.len(), |i: int| spec_lines(cells[i]))
}

/// A line that a table can lay out whatever it holds: one without the escape
/// character, or one of ASCII characters alone. In any other line a terminal
/// control sequence may hide more than the line is wide.
pub open spec fn is_plain_line(line: Seq<char>) -> bool {
    !line.contains(escape_char()) || is_ascii_chars(line)
}

/// A text that a table cell can hold: each of its lines can be laid out.
pub open spec fn can_show(text: Seq<char>) -> bool {
    forall|k: int| 0 <= k < spec_lines(text).len() ==> is_plain_line(#[trigger] spec_lines(text)[k])
}

/// Each of the texts can stand in a table cell.
pub open spec fn can_show_all(cells: Seq<Seq<char>>) -> bool {
    forall|i: int| 0 <= i < cells.len() ==> can_show(#[trigger] cells[i])
}

/// A text without the escape character can stand in a table cell.
pub proof fn lemma_plain_text_can_show(text: Seq<char>)
    requires
        !text.contains(escape_char()),
    ensures
        can_show(text),
{
    assert forall|k: int| 0 <= k < spec_lines(text).len() implies is_plain_line(
        #[trigger] spec_lines(text)[k],
    ) by {
        let line = spec_lines(text)[k];
        if line.contains(escape_char()) {
            let j = choose|j: int| 0 <= j < line.len() && line[j] == escape_char();
            lemma_line_chars_in_text(text, k, j);
        }
    }
}

/// Whether a text can stand in a table cell.
pub fn text_can_show(text: &str) -> (b: bool)
    ensures
        b == can_show(text@),
{
    let lines = split_lines(text);
    let mut i: usize = 0;
    while i < lines.len()
        invariant
            i <= lines.len(),
            slice_texts(lines@) == spec_lines(text@),
            forall|k: int| 0 <= k < i ==> is_plain_line(#[trigger] spec_lines(text@)[k]),
        decreases lines.len() - i,
    {
        let line: &str = lines[i];
        assert(slice_texts(lines@)[i as int] == line@);
        if !line.is_ascii() && holds_escape(line) {
            assert(!is_plain_line(spec_lines(text@)[i as int]));
            return false;
        }
        i = i + 1;
    }
    true
}

/// `Table::new` of `prettytable`: a table without rows.
#[verifier::external_body]
fn new_table() -> (table: Table)
    ensures
        table_rows(table) == Seq::<Seq<Seq<Seq<char>>>>::empty(),
{
    Table::new()
}

/// `Table::add_row` of `prettytable`, on a row that `Row::new` makes of one
/// `Cell::new` per text: the row is appended, and a cell keeps the lines of
/// its text. `Cell::new` measures each line and gives up on a line in which a
/// control sequence hides more than the line is wide; texts that can stand in
/// a cell have no such line.
#[verifier::external_body]
fn add_row(table: &mut Table, cells: &Vec<String>)
    requires
        can_show_all(texts(cells@)),
    ensures
        table_rows(*final(table)) == table_rows(*old(table)).push(cell_lines(texts(cells@))),
{
    table.add_row(Row::new(cells.iter().map(|text| Cell::new(text)).collect()));
}

/// The texts of the head row of the summary.
pub open spec fn head_cells() -> Seq<Seq<char>> {
    seq!["Host"@, "Command"@, "Standard Output"@, "Standard Error"@]
}

/// The texts of a row of the summary, from left to right.
pub open spec fn row_cells(row: ReportRowView) -> Seq<Seq<char>> {
    seq![row.host, row.command, row.stdout, row.stderr]
}

/// Every cell of the row can stand in a table.
pub open spec fn can_show_row(row: ReportRowView) -> bool {
    can_show_all(row_cells(row))
}

/// Those of the rows whose every cell can stand in a table, in their order.
pub open spec fn shown_rows(rows: Seq<ReportRowView>) -> Seq<ReportRowView>
    decreases rows.len(),
{
    if rows.len() == 0 {
        Seq::empty()
    } else if can_show_row(rows.last()) {
        shown_rows(rows.drop_last()).push(rows.last())
    } else {
        shown_rows(rows.drop_last())
    }
}

impl ReportRow {
    /// Whether every cell of the row can stand in a table.
    pub fn can_show(&self) -> (b: bool)
        ensures
            b == can_show_row(self@),
    {
        let b = text_can_show(self.host.as_str()) && text_can_show(self.command.as_str())
            && text_can_show(self.stdout.as_str()) && text_can_show(self.stderr.as_str());
        proof {
            let cells = row_cells(self@);
            assert(cells[0] == self@.host && cells[1] == self@.command && cells[2]
                == self@.stdout && cells[3] == self@.stderr);
        }
        b
    }
}

/// The table of the summary: the head row, then one row per row of the
/// summary.
pub open spec fn spec_report_table(rows: Seq<ReportRowView>) -> Seq<Seq<Seq<Seq<char>>>> {
    seq![cell_lines(head_cells())] + Seq::new(
        rows.len(),
        |i: int| cell_lines(row_cells(rows[i])),
    )
}

/// The texts of the head row can stand in a table.
proof fn lemma_head_can_show()
    ensures
        can_show_all(head_cells()),
{
    reveal_strlit("Host");
    reveal_strlit("Command");
    reveal_strlit("Standard Output");
    reveal_strlit("Standard Error");
    lemma_plain_text_can_show("Host"@);
    lemma_plain_text_can_show("Command"@);
    lemma_plain_text_can_show("Standard Output"@);
    lemma_plain_text_can_show("Standard Error"@);
}

/// The table of the summary of a run, ready to be printed: the head row, then
/// one row per result line whose command can be read. A row with a cell that
/// a table cannot lay out is left out.
pub fn build_report(results: &Vec<String>) -> (table: Table)
    ensures
        table_rows(table) == spec_report_table(shown_rows(spec_report_rows(texts(results@)))),
{
    let rows = report_rows(results);
    let mut table = new_table();
    let mut head: Vec<String> = Vec::new();
    head.push(String::from_str("Host"));
    head.push(String::from_str("Command"));
    head.push(String::from_str("Standard Output"));
    head.push(String::from_str("Standard Error"));
    assert(texts(head@) =~= head_cells());
    proof {
        lemma_head_can_show();
    }
    add_row(&mut table, &head);
    let ghost views = row_views(rows@);
    assert(views.take(0) =~= Seq::empty());
    assert(table_rows(table) =~= spec_report_table(shown_rows(views.take(0))));
    let mut i: usize = 0;
    while i < rows.len()
        invariant
            i <= rows.len(),
            views == row_views(rows@),
            table_rows(table) == spec_report_table(shown_rows(views.take(i as int))),
        decreases rows.len() - i,
    {
        assert(views.take(i + 1).drop_last() =~= views.take(i as int));
        assert(views.take(i + 1).last() == views[i as int]);
        if rows[i].can_show() {
            let mut cells: Vec<String> = Vec::new();
            cells.push(copy_text(rows[i].host.as_str()));
            cells.push(copy_text(rows[i].command.as_str()));
            cells.push(copy_text(rows[i].stdout.as_str()));
            cells.push(copy_text(rows[i].stderr.as_str()));
            assert(texts(cells@) =~= row_cells(views[i as int]));
            let ghost before = table_rows(table);
            add_row(&mut table, &cells);
            assert(before.push(cell_lines(row_cells(views[i as int]))) =~= spec_report_table(
                shown_rows(views.take(i + 1)),
            ));
        }
        i = i + 1;
    }
    assert(views.take(rows.len() as int) =~= views);
    table
}

} // verus!
