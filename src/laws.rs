//! Properties of the report as a whole.

use crate::model::{ChallengeTested, LoadError, Schema};
use crate::render::{cells_of, column_names_of, dashes, header_of, report_of, row_of, rows_of, separator_of};
use vstd::prelude::*;

verus! {

/// The number of line breaks in a text.
pub open spec fn count_newlines(s: Seq<char>) -> nat
    decreases s.len(),
{
    if s.len() == 0 {
        0
    } else {
        count_newlines(s.drop_last()) + if s.last() == '\n' {
            1nat
        } else {
            0nat
        }
    }
}

/// The number of entries that hold a record.
pub open spec fn count_loaded(entries: Seq<Result<ChallengeTested, LoadError>>) -> nat
    decreases entries.len(),
{
    if entries.len() == 0 {
        0
    } else {
        count_loaded(entries.drop_last()) + if entries.last() is Ok {
            1nat
        } else {
            0nat
        }
    }
}

/// No cell of the record's row holds a line break.
pub open spec fn single_line(rec: ChallengeTested) -> bool {
    forall|j: int| 0 <= j < cells_of(rec).len() ==> !(#[trigger] cells_of(rec)[j]).contains('\n')
}

/// Every record among the entries renders on a single line.
pub open spec fn all_single_line(entries: Seq<Result<ChallengeTested, LoadError>>) -> bool {
    forall|i: int| 0 <= i < entries.len() && (#[trigger] entries[i]) is Ok ==> single_line(
        entries[i]->Ok_0,
    )
}

proof fn lemma_count_concat(a: Seq<char>, b: Seq<char>)
    ensures
        count_newlines(a + b) == count_newlines(a) + count_newlines(b),
    decreases b.len(),
{
    if b.len() > 0 {
        assert((a + b).drop_last() =~= a + b.drop_last());
        lemma_count_concat(a, b.drop_last());
    } else {
        assert(a + b =~= a);
    }
}

proof fn lemma_count_zero(s: Seq<char>)
    ensures
        count_newlines(s) == 0 <==> !s.contains('\n'),
    decreases s.len(),
{
    if s.len() > 0 {
        lemma_count_zero(s.drop_last());
        if s.drop_last().contains('\n') {
            let k = choose|k: int| 0 <= k < s.drop_last().len() && s.drop_last()[k] == '\n';
            assert(s[k] == '\n');
        }
        if s.contains('\n') && s.last() != '\n' {
            let k = choose|k: int| 0 <= k < s.len() && s[k] == '\n';
            assert(s.drop_last()[k] == '\n');
        }
    }
}

proof fn lemma_count_one(c: char)
    ensures
        count_newlines(seq![c]) == if c == '\n' {
            1nat
        } else {
            0nat
        },
{
    let s = seq![c];
    assert(s.drop_last() =~= Seq::<char>::empty());
    assert(count_newlines(s.drop_last()) == 0);
    assert(s.last() == c);
}

proof fn lemma_row_single_line(cells: Seq<Seq<char>>)
    requires
        forall|j: int| 0 <= j < cells.len() ==> !(#[trigger] cells[j]).contains('\n'),
    ensures
        count_newlines(row_of(cells)) == 0,
    decreases cells.len(),
{
    reveal_strlit("|");
    reveal_strlit(" ");
    reveal_strlit(" |");
    assert("|"@ =~= seq!['|']);
    lemma_count_one('|');
    if cells.len() > 0 {
        let prev = cells.drop_last();
        assert forall|j: int| 0 <= j < prev.len() implies !(#[trigger] prev[j]).contains('\n') by {
            assert(prev[j] == cells[j]);
        }
        lemma_row_single_line(prev);
        assert(!cells[cells.len() - 1].contains('\n'));
        lemma_count_zero(cells.last());
        assert(" "@ =~= seq![' ']);
        lemma_count_one(' ');
        assert(count_newlines(" |"@) == 0) by {
            assert(" |"@.drop_last() =~= " "@);
        }
        lemma_count_concat(row_of(prev), " "@);
        lemma_count_concat(row_of(prev) + " "@, cells.last());
        lemma_count_concat(row_of(prev) + " "@ + cells.last(), " |"@);
    }
}

proof fn lemma_separator_single_line(names: Seq<Seq<char>>)
    ensures
        count_newlines(separator_of(names)) == 0,
    decreases names.len(),
{
    reveal_strlit("|");
    assert("|"@ =~= seq!['|']);
    lemma_count_one('|');
    if names.len() > 0 {
        let prev = names.drop_last();
        let d = dashes(names.last().len() + 2);
        lemma_separator_single_line(prev);
        if d.contains('\n') {
            let k = choose|k: int| 0 <= k < d.len() && d[k] == '\n';
            assert(d[k] == '-');
        }
        lemma_count_zero(d);
        lemma_count_concat(separator_of(prev), d);
        lemma_count_concat(separator_of(prev) + d, "|"@);
    }
}

proof fn lemma_column_names_single_line(schema: Schema)
    ensures
        forall|j: int|
            0 <= j < column_names_of(schema).len() ==> !(#[trigger] column_names_of(
                schema,
            )[j]).contains('\n'),
{
    reveal_strlit("tested");
    reveal_strlit("name");
    reveal_strlit("author");
    reveal_strlit("category");
    reveal_strlit("tags");
    reveal_strlit("tested by");
    reveal_strlit("tested URL");
    let names = column_names_of(schema);
    assert forall|j: int| 0 <= j < names.len() implies !(#[trigger] names[j]).contains('\n') by {
        let n = names[j];
        if n.contains('\n') {
            let k = choose|k: int| 0 <= k < n.len() && n[k] == '\n';
            assert(n[k] != '\n');
        }
    }
}

/// The header of every layout takes exactly two lines.
pub proof fn lemma_header_two_lines(schema: Schema)
    ensures
        count_newlines(header_of(schema)) == 2,
{
    let names = column_names_of(schema);
    lemma_column_names_single_line(schema);
    lemma_row_single_line(names);
    lemma_separator_single_line(names);
    reveal_strlit("\n");
    assert("\n"@ =~= seq!['\n']);
    lemma_count_one('\n');
    lemma_count_concat(row_of(names), "\n"@);
    lemma_count_concat(row_of(names) + "\n"@, separator_of(names));
    lemma_count_concat(row_of(names) + "\n"@ + separator_of(names), "\n"@);
}

/// With every record on a single line, the data part of the report holds one
/// line for each entry that holds a record, and no other.
pub proof fn lemma_rows_count(entries: Seq<Result<ChallengeTested, LoadError>>)
    requires
        all_single_line(entries),
    ensures
        count_newlines(rows_of(entries)) == count_loaded(entries),
    decreases entries.len(),
{
    if entries.len() > 0 {
        let prev = entries.drop_last();
        assert forall|i: int| 0 <= i < prev.len() && (#[trigger] prev[i]) is Ok implies single_line(
            prev[i]->Ok_0,
        ) by {
            assert(prev[i] == entries[i]);
        }
        lemma_rows_count(prev);
        match entries.last() {
            Ok(rec) => {
                assert(entries[entries.len() - 1] is Ok);
                let cells = cells_of(rec);
                assert forall|j: int| 0 <= j < cells.len() implies !(
                #[trigger] cells[j]).contains('\n') by {
                    assert(single_line(rec));
                }
                lemma_row_single_line(cells);
                reveal_strlit("\n");
                assert("\n"@ =~= seq!['\n']);
                lemma_count_one('\n');
                lemma_count_concat(rows_of(prev), row_of(cells));
                lemma_count_concat(rows_of(prev) + row_of(cells), "\n"@);
            },
            Err(_) => {},
        }
    }
}

/// With every record on a single line, the report has two header lines and
/// one data line for each entry that holds a record: entries that failed to
/// load add no line.
pub proof fn lemma_report_lines(schema: Schema, entries: Seq<Result<ChallengeTested, LoadError>>)
    requires
        all_single_line(entries),
    ensures
        count_newlines(report_of(schema, entries)) == 2 + count_loaded(entries),
{
    lemma_header_two_lines(schema);
    lemma_rows_count(entries);
    lemma_count_concat(header_of(schema), rows_of(entries));
}

proof fn lemma_rows_same(
    a: Seq<Result<ChallengeTested, LoadError>>,
    b: Seq<Result<ChallengeTested, LoadError>>,
)
    requires
        a.len() == b.len(),
        forall|i: int| 0 <= i < a.len() ==> ((#[trigger] a[i]) is Ok <==> b[i] is Ok),
        forall|i: int|
            0 <= i < a.len() && (#[trigger] a[i]) is Ok ==> cells_of(a[i]->Ok_0) == cells_of(
                b[i]->Ok_0,
            ),
    ensures
        rows_of(a) == rows_of(b),
    decreases a.len(),
{
    if a.len() > 0 {
        let (pa, pb) = (a.drop_last(), b.drop_last());
        assert forall|i: int| 0 <= i < pa.len() implies ((#[trigger] pa[i]) is Ok <==> pb[i] is Ok)
            && (pa[i] is Ok ==> cells_of(pa[i]->Ok_0) == cells_of(pb[i]->Ok_0)) by {
            assert(pa[i] == a[i] && pb[i] == b[i]);
        }
        lemma_rows_same(pa, pb);
        let last = a.len() - 1;
        assert(a[last] is Ok <==> b[last] is Ok);
        if a[last] is Ok {
            assert(cells_of(a[last]->Ok_0) == cells_of(b[last]->Ok_0));
            assert(a.last() == a[last] && b.last() == b[last]);
        }
        assert(rows_of(a) == rows_of(b));
    }
}

/// The report depends only on which entries hold a record and on the cells of
/// those records: the same input gives the same report, byte for byte.
pub proof fn lemma_report_deterministic(
    schema: Schema,
    a: Seq<Result<ChallengeTested, LoadError>>,
    b: Seq<Result<ChallengeTested, LoadError>>,
)
    requires
        a.len() == b.len(),
        forall|i: int| 0 <= i < a.len() ==> ((#[trigger] a[i]) is Ok <==> b[i] is Ok),
        forall|i: int|
            0 <= i < a.len() && (#[trigger] a[i]) is Ok ==> cells_of(a[i]->Ok_0) == cells_of(
                b[i]->Ok_0,
            ),
    ensures
        report_of(schema, a) == report_of(schema, b),
{
    lemma_rows_same(a, b);
}

/// When no entry holds a record, the report is exactly its two header lines.
pub proof fn lemma_no_records_header_only(
    schema: Schema,
    entries: Seq<Result<ChallengeTested, LoadError>>,
)
    requires
        forall|i: int| 0 <= i < entries.len() ==> (#[trigger] entries[i]) is Err,
    ensures
        report_of(schema, entries) == header_of(schema),
        count_loaded(entries) == 0,
    decreases entries.len(),
{
    if entries.len() > 0 {
        let prev = entries.drop_last();
        assert forall|i: int| 0 <= i < prev.len() implies (#[trigger] prev[i]) is Err by {
            assert(prev[i] == entries[i]);
        }
        lemma_no_records_header_only(schema, prev);
        assert(entries[entries.len() - 1] is Err);
    }
    assert(report_of(schema, entries) =~= header_of(schema));
}

} // verus!
