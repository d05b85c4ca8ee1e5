//! Rendering records as markdown table rows.

use crate::model::{ChallengeTested, LoadError, Schema, TestedStatus};
use vstd::prelude::*;

verus! {

/// A table row: each cell padded by one space on either side, every cell
/// closed by a pipe, and a pipe in front.
pub open spec fn row_of(cells: Seq<Seq<char>>) -> Seq<char>
    decreases cells.len(),
{
    if cells.len() == 0 {
        "|"@
    } else {
        row_of(cells.drop_last()) + " "@ + cells.last() + " |"@
    }
}

/// A run of `n` dashes.
pub open spec fn dashes(n: nat) -> Seq<char> {
    Seq::new(n, |i: int| '-')
}

/// The markdown separator row under a header of these column names: as many
/// dashes as each padded name is wide.
pub open spec fn separator_of(names: Seq<Seq<char>>) -> Seq<char>
    decreases names.len(),
{
    if names.len() == 0 {
        "|"@
    } else {
        separator_of(names.drop_last()) + dashes(names.last().len() + 2) + "|"@
    }
}

/// The column names of the report for a layout.
pub open spec fn column_names_of(schema: Schema) -> Seq<Seq<char>> {
    match schema {
        Schema::Minimal => seq!["tested"@, "name"@, "author"@, "category"@, "tags"@],
        Schema::Extended => seq![
            "tested"@,
            "name"@,
            "author"@,
            "category"@,
            "tags"@,
            "tested by"@,
            "tested URL"@,
        ],
    }
}

/// The two header lines of the report, each ended by a newline.
pub open spec fn header_of(schema: Schema) -> Seq<char> {
    row_of(column_names_of(schema)) + "\n"@ + separator_of(column_names_of(schema)) + "\n"@
}

/// How a boolean is written: as a word in the minimal layout, as a mark in
/// the extended one.
pub open spec fn bool_cell_of(schema: Schema, b: bool) -> Seq<char> {
    match schema {
        Schema::Minimal => if b { "true"@ } else { "false"@ },
        Schema::Extended => if b { "\u{2705}"@ } else { "\u{274c}"@ },
    }
}

/// The cells of a record's row, in column order. The solver is not shown.
pub open spec fn cells_of(rec: ChallengeTested) -> Seq<Seq<char>> {
    let c = rec.challenge;
    match rec.tested {
        TestedStatus::Minimal { tested } => seq![
            bool_cell_of(Schema::Minimal, tested),
            c.name@,
            c.author@,
            c.category@,
            tags_cell(c.tags.deep_view()),
        ],
        TestedStatus::Extended { tested, tester, solver, tested_url } => seq![
            bool_cell_of(Schema::Extended, tested),
            c.name@,
            c.author@,
            c.category@,
            tags_cell(c.tags.deep_view()),
            tester@,
            tested_url@,
        ],
    }
}

/// The data rows for the entries that hold a record, in order, each ended by a
/// newline; entries that failed to load give nothing.
pub open spec fn rows_of(entries: Seq<Result<ChallengeTested, LoadError>>) -> Seq<char>
    decreases entries.len(),
{
    if entries.len() == 0 {
        Seq::empty()
    } else {
        match entries.last() {
            Ok(rec) => rows_of(entries.drop_last()) + row_of(cells_of(rec)) + "\n"@,
            Err(_) => rows_of(entries.drop_last()),
        }
    }
}

/// The whole report: the header, then one row per loaded record.
pub open spec fn report_of(schema: Schema, entries: Seq<Result<ChallengeTested, LoadError>>) -> Seq<
    char,
> {
    header_of(schema) + rows_of(entries)
}

/// The items joined by a separator, as `[T]::join` does it.
pub open spec fn join_with(items: Seq<Seq<char>>, sep: Seq<char>) -> Seq<char>
    decreases items.len(),
{
    if items.len() == 0 {
        Seq::empty()
    } else if items.len() == 1 {
        items[0]
    } else {
        join_with(items.drop_last(), sep) + sep + items.last()
    }
}

/// The cell holding a challenge's tags.
pub open spec fn tags_cell(tags: Seq<Seq<char>>) -> Seq<char> {
    join_with(tags, ", "@)
}

/// Joins the tags with a comma and a space.
pub fn join_tags(tags: &Vec<String>) -> (r: String)
    ensures
        r@ == tags_cell(tags.deep_view()),
{
    let mut r = String::new();
    let mut i: usize = 0;
    while i < tags.len()
        invariant
            i <= tags.len(),
            r@ == tags_cell(tags.deep_view().take(i as int)),
        decreases tags.len() - i,
    {
        let ghost prev = tags.deep_view().take(i as int);
        if i > 0 {
            r.append(", ");
        }
        r.append(tags[i].as_str());
        proof {
            let next = tags.deep_view().take(i + 1);
            assert(next.drop_last() =~= prev);
            assert(next.last() == tags.deep_view()[i as int]);
            if i == 0 {
                assert(prev =~= Seq::<Seq<char>>::empty());
            }
        }
        i = i + 1;
    }
    assert(tags.deep_view().take(tags.len() as int) =~= tags.deep_view());
    r
}

/// Writes a table row from its cells.
pub fn render_row(cells: &Vec<String>) -> (r: String)
    ensures
        r@ == row_of(cells.deep_view()),
{
    let mut r = String::from_str("|");
    let mut i: usize = 0;
    while i < cells.len()
        invariant
            i <= cells.len(),
            r@ == row_of(cells.deep_view().take(i as int)),
        decreases cells.len() - i,
    {
        let ghost prev = cells.deep_view().take(i as int);
        r.append(" ");
        r.append(cells[i].as_str());
        r.append(" |");
        proof {
            let next = cells.deep_view().take(i + 1);
            assert(next.drop_last() =~= prev);
        }
        i = i + 1;
    }
    assert(cells.deep_view().take(cells.len() as int) =~= cells.deep_view());
    r
}

/// Writes the separator row under a header of these column names.
pub fn render_separator(names: &Vec<String>) -> (r: String)
    ensures
        r@ == separator_of(names.deep_view()),
{
    let mut r = String::from_str("|");
    let mut i: usize = 0;
    while i < names.len()
        invariant
            i <= names.len(),
            r@ == separator_of(names.deep_view().take(i as int)),
        decreases names.len() - i,
    {
        let ghost prev = names.deep_view().take(i as int);
        let ghost before = r@;
        let width = names[i].as_str().unicode_len();
        r.append("--");
        proof {
            reveal_strlit("--");
            assert(before + dashes(2) =~= before + "--"@);
        }
        let mut j: usize = 0;
        while j < width
            invariant
                i < names.len(),
                width == names.deep_view()[i as int].len(),
                j <= width,
                r@ == before + dashes((j + 2) as nat),
            decreases width - j,
        {
            r.append("-");
            proof {
                reveal_strlit("-");
                assert(before + dashes((j + 3) as nat) =~= before + dashes((j + 2) as nat) + "-"@);
            }
            j = j + 1;
        }
        r.append("|");
        proof {
            let next = names.deep_view().take(i + 1);
            assert(next.drop_last() =~= prev);
        }
        i = i + 1;
    }
    assert(names.deep_view().take(names.len() as int) =~= names.deep_view());
    r
}

/// The column names of the report for a layout.
pub fn column_names(schema: Schema) -> (r: Vec<String>)
    ensures
        r.deep_view() == column_names_of(schema),
{
    let mut r: Vec<String> = Vec::new();
    r.push(String::from_str("tested"));
    r.push(String::from_str("name"));
    r.push(String::from_str("author"));
    r.push(String::from_str("category"));
    r.push(String::from_str("tags"));
    if schema == Schema::Extended {
        r.push(String::from_str("tested by"));
        r.push(String::from_str("tested URL"));
    }
    assert(r.deep_view() =~= column_names_of(schema));
    r
}

/// The two header lines of the report.
pub fn render_header(schema: Schema) -> (r: String)
    ensures
        r@ == header_of(schema),
{
    let names = column_names(schema);
    let mut r = render_row(&names);
    r.append("\n");
    let sep = render_separator(&names);
    r.append(sep.as_str());
    r.append("\n");
    r
}

/// How a boolean is written in a layout.
pub fn bool_cell(schema: Schema, b: bool) -> (r: String)
    ensures
        r@ == bool_cell_of(schema, b),
{
    match schema {
        Schema::Minimal => if b {
            String::from_str("true")
        } else {
            String::from_str("false")
        },
        Schema::Extended => if b {
            String::from_str("\u{2705}")
        } else {
            String::from_str("\u{274c}")
        },
    }
}

impl ChallengeTested {
    /// The cells of this record's row, in column order.
    pub fn cells(&self) -> (r: Vec<String>)
        ensures
            r.deep_view() == cells_of(*self),
    {
        let c = &self.challenge;
        let mut r: Vec<String> = Vec::new();
        r.push(bool_cell(self.tested.schema(), self.tested.is_tested()));
        r.push(c.name.clone());
        r.push(c.author.clone());
        r.push(c.category.clone());
        r.push(join_tags(&c.tags));
        match &self.tested {
            TestedStatus::Minimal { .. } => {},
            TestedStatus::Extended { tester, tested_url, .. } => {
                r.push(tester.clone());
                r.push(tested_url.clone());
            },
        }
        assert(r.deep_view() =~= cells_of(*self));
        r
    }

    /// This record as one row of the report, without the newline.
    pub fn to_markdown_row(&self) -> (r: String)
        ensures
            r@ == row_of(cells_of(*self)),
    {
        let cells = self.cells();
        render_row(&cells)
    }
}

/// Renders the report: the header, then one row for each entry that holds a
/// record, in the order of the entries. Entries that failed to load are
/// skipped.
pub fn render_report(schema: Schema, entries: &Vec<Result<ChallengeTested, LoadError>>) -> (r:
    String)
    ensures
        r@ == report_of(schema, entries@),
{
    let mut r = render_header(schema);
    let mut i: usize = 0;
    while i < entries.len()
        invariant
            i <= entries.len(),
            r@ == header_of(schema) + rows_of(entries@.take(i as int)),
        decreases entries.len() - i,
    {
        let ghost prev = entries@.take(i as int);
        proof {
            assert(entries@.take(i + 1).drop_last() =~= prev);
            assert(entries@.take(i + 1).last() == entries@[i as int]);
        }
        match &entries[i] {
            Ok(rec) => {
                let row = rec.to_markdown_row();
                r.append(row.as_str());
                r.append("\n");
                assert(r@ =~= header_of(schema) + rows_of(entries@.take(i + 1)));
            },
            Err(_) => {},
        }
        i = i + 1;
    }
    assert(entries@.take(entries.len() as int) =~= entries@);
    r
}

} // verus!
