//! The renderers: the same records as plain text, as table rows, and as the
//! layout of an image.
//!
//! All three take the records in the order in which they are to appear and
//! refuse an empty list. What is computed here is the content; writing it to
//! a file, quoting a cell, and drawing a glyph are left to the caller.

use crate::error::RenderError;
use crate::extract::{ExtractedRecord, RecordView};
use crate::text::{push_char, texts};
use vstd::prelude::*;
use vstd::string::StringExecFns;

verus! {

/// What the records of a list hold.
pub open spec fn views(records: Seq<&ExtractedRecord>) -> Seq<RecordView> {
    records.map_values(|r: &ExtractedRecord| r@)
}

/// The display text of each record, in order.
pub open spec fn display_texts(records: Seq<RecordView>) -> Seq<Seq<char>> {
    records.map_values(|r: RecordView| r.display_text())
}

/// The plain-text output: each record's display text followed by a line
/// feed.
pub open spec fn text_output(records: Seq<RecordView>) -> Seq<char>
    decreases records.len(),
{
    if records.len() == 0 {
        Seq::empty()
    } else {
        text_output(records.drop_last()) + records.last().display_text().push('\n')
    }
}

/// The display text of each record, in order: what a user picks from, and
/// what the image shows line by line.
pub fn display_lines(records: &[&ExtractedRecord]) -> (lines: Vec<String>)
    ensures
        texts(lines@) == display_texts(views(records@)),
{
    let mut lines: Vec<String> = Vec::new();
    let mut i: usize = 0;
    while i < records.len()
        invariant
            0 <= i <= records@.len(),
            texts(lines@) == display_texts(views(records@)).take(i as int),
        decreases records@.len() - i,
    {
        let line = records[i].display_text();
        let ghost before = lines@;
        lines.push(line);
        proof {
            let all = display_texts(views(records@));
            assert(all[i as int] == records@[i as int]@.display_text());
            assert(all.take(i + 1) == all.take(i as int).push(all[i as int]));
            assert(texts(lines@) == texts(before).push(line@));
        }
        i += 1;
    }
    assert(display_texts(views(records@)).take(i as int) == display_texts(views(records@)));
    lines
}

/// The plain-text output of `records`: one line per record, each ended by a
/// line feed, with no header and nothing escaped.
pub fn render_text(records: &[&ExtractedRecord]) -> (rendered: Result<String, RenderError>)
    ensures
        match rendered {
            Ok(text) => records@.len() > 0 && text@ == text_output(views(records@)),
            Err(e) => records@.len() == 0 && e == RenderError::EmptySelection,
        },
{
    if records.len() == 0 {
        return Err(RenderError::EmptySelection);
    }
    let ghost all = views(records@);
    let mut text = String::new();
    let mut i: usize = 0;
    while i < records.len()
        invariant
            all == views(records@),
            0 <= i <= records@.len(),
            text@ == text_output(all.take(i as int)),
        decreases records@.len() - i,
    {
        let line = records[i].display_text();
        proof {
            assert(all.take(i + 1).drop_last() == all.take(i as int));
            assert(all.take(i + 1).last() == records@[i as int]@);
        }
        text.append(line.as_str());
        push_char(&mut text, '\n');
        i += 1;
    }
    assert(all.take(i as int) == all);
    Ok(text)
}

/// One row of the table.
#[derive(Debug, PartialEq, Eq)]
pub struct TableRow {
    /// The date, empty where the timestamp has none.
    pub date: String,
    /// The time.
    pub time: String,
    /// The message, as extracted.
    pub msg: String,
}

impl View for TableRow {
    type V = (Seq<char>, Seq<char>, Seq<char>);

    open spec fn view(&self) -> (Seq<char>, Seq<char>, Seq<char>) {
        (self.date@, self.time@, self.msg@)
    }
}

/// The header row: `date`, `time`, `msg`.
pub open spec fn table_header() -> (Seq<char>, Seq<char>, Seq<char>) {
    ("date"@, "time"@, "msg"@)
}

/// The row of a record. A timestamp of two parts gives the date and the
/// time; a timestamp of one part is a time, and the date stays empty.
pub open spec fn table_row_of(record: RecordView) -> (Seq<char>, Seq<char>, Seq<char>) {
    if record.timestamp_parts.len() == 2 {
        (record.timestamp_parts[0], record.timestamp_parts[1], record.message)
    } else {
        (Seq::empty(), record.timestamp_parts[0], record.message)
    }
}

/// The table: the header row, then the row of each record in order.
pub open spec fn table_of(records: Seq<RecordView>) -> Seq<(Seq<char>, Seq<char>, Seq<char>)> {
    seq![table_header()] + records.map_values(|r: RecordView| table_row_of(r))
}

/// What the rows of a list hold.
pub open spec fn row_views(rows: Seq<TableRow>) -> Seq<(Seq<char>, Seq<char>, Seq<char>)> {
    rows.map_values(|r: TableRow| r@)
}

/// The row of `record`.
pub fn table_row(record: &ExtractedRecord) -> (row: TableRow)
    ensures
        row@ == table_row_of(record@),
{
    let parts = record.timestamp_parts();
    let msg = record.message().clone();
    if parts.len() == 2 {
        TableRow { date: parts[0].clone(), time: parts[1].clone(), msg }
    } else {
        TableRow { date: String::new(), time: parts[0].clone(), msg }
    }
}

/// The rows of the tabular output of `records`: the header, then one row per
/// record. The cells are the extracted texts as they are.
pub fn render_table(records: &[&ExtractedRecord]) -> (rendered: Result<Vec<TableRow>, RenderError>)
    ensures
        match rendered {
            Ok(rows) => records@.len() > 0 && row_views(rows@) == table_of(views(records@)),
            Err(e) => records@.len() == 0 && e == RenderError::EmptySelection,
        },
{
    if records.len() == 0 {
        return Err(RenderError::EmptySelection);
    }
    let ghost all = views(records@);
    let mut rows: Vec<TableRow> = Vec::new();
    let header = TableRow { date: "date".to_owned(), time: "time".to_owned(), msg: "msg".to_owned() };
    rows.push(header);
    assert(row_views(rows@) == table_of(all.take(0)));
    let mut i: usize = 0;
    while i < records.len()
        invariant
            all == views(records@),
            0 <= i <= records@.len(),
            row_views(rows@) == table_of(all.take(i as int)),
        decreases records@.len() - i,
    {
        let row = table_row(records[i]);
        let ghost before = rows@;
        rows.push(row);
        proof {
            let to_row = |r: RecordView| table_row_of(r);
            assert(all.take(i + 1).map_values(to_row) == all.take(i as int).map_values(
                to_row,
            ).push(table_row_of(all[i as int])));
            assert(row_views(rows@) == row_views(before).push(row@));
        }
        i += 1;
    }
    assert(all.take(i as int) == all);
    Ok(rows)
}

/// The three forms of output.
#[derive(Clone, Copy, Debug, PartialEq, Eq, Structural)]
pub enum OutputFormat {
    /// One image with a line of text per record.
    Image,
    /// A table with a row per record.
    Csv,
    /// Plain text with a line per record.
    Txt,
}

impl Default for OutputFormat {
    /// Plain text.
    fn default() -> (format: OutputFormat)
        ensures
            format == OutputFormat::Txt,
    {
        OutputFormat::Txt
    }
}

/// What is to be written, in one of the three forms.
#[derive(Debug, PartialEq, Eq)]
pub enum Rendering {
    /// The lines of the image from the top, to be measured, laid out on a
    /// canvas and drawn.
    Image(Vec<String>),
    /// The rows of the table, the header first.
    Table(Vec<TableRow>),
    /// The content of the text file.
    Text(String),
}

/// Renders `records` in the form asked for. Every form shows the same
/// records in the same order, and every form refuses an empty list.
pub fn render(format: OutputFormat, records: &[&ExtractedRecord]) -> (rendered: Result<
    Rendering,
    RenderError,
>)
    ensures
        match rendered {
            Ok(Rendering::Image(lines)) => format == OutputFormat::Image && records@.len() > 0
                && texts(lines@) == display_texts(views(records@)),
            Ok(Rendering::Table(rows)) => format == OutputFormat::Csv && records@.len() > 0
                && row_views(rows@) == table_of(views(records@)),
            Ok(Rendering::Text(text)) => format == OutputFormat::Txt && records@.len() > 0 && text@
                == text_output(views(records@)),
            Err(e) => records@.len() == 0 && e == RenderError::EmptySelection,
        },
{
    match format {
        OutputFormat::Image => {
            if records.len() == 0 {
                Err(RenderError::EmptySelection)
            } else {
                Ok(Rendering::Image(display_lines(records)))
            }
        },
        OutputFormat::Csv => match render_table(records) {
            Ok(rows) => Ok(Rendering::Table(rows)),
            Err(e) => Err(e),
        },
        OutputFormat::Txt => match render_text(records) {
            Ok(text) => Ok(Rendering::Text(text)),
            Err(e) => Err(e),
        },
    }
}

} // verus!
