//! Text and HTML renderings of the traceability matrix.
use vstd::prelude::*;

use super::matrix::{rows_view, target_view, RowView, TargetView, TraceabilityMatrix};
use crate::text::{chars_to_string, decimal, extend_chars, extend_str, join, push_decimal, str_chars};

verus! {

/// The text line of a target: relation, ID, type and name.
pub open spec fn target_line(t: TargetView) -> Seq<char> {
    "  └─ "@ + t.3 + " "@ + t.0 + " ("@ + t.2 + ") ["@ + t.1 + "]"@
}

/// The text lines of targets.
pub open spec fn target_lines(ts: Seq<TargetView>) -> Seq<Seq<char>>
    decreases ts.len(),
{
    if ts.len() == 0 {
        seq![]
    } else {
        target_lines(ts.drop_last()).push(target_line(ts.last()))
    }
}

/// The text block of a row: `ID (type)`, then its target lines.
pub open spec fn row_block(row: RowView) -> Seq<char> {
    let header = row.0 + " ("@ + row.2 + ")"@;
    if row.3.len() == 0 {
        header
    } else {
        header + "\n"@ + join(target_lines(row.3), "\n"@)
    }
}

/// The text blocks of rows.
pub open spec fn row_blocks(rows: Seq<RowView>) -> Seq<Seq<char>>
    decreases rows.len(),
{
    if rows.len() == 0 {
        seq![]
    } else {
        row_blocks(rows.drop_last()).push(row_block(rows.last()))
    }
}

/// The text rendering of a matrix with these rows and total.
pub open spec fn matrix_text(rows: Seq<RowView>, total: nat) -> Seq<char> {
    "Traceability Matrix\nTotal Relationships: "@ + decimal(total) + "\n\n"@ + join(row_blocks(rows), "\n"@)
        + "\n"@
}

/// The HTML table row of a source with a target.
pub open spec fn html_target_row(row: RowView, t: TargetView) -> Seq<char> {
    "<tr><td>"@ + row.0 + "</td><td>"@ + row.1 + "</td><td>"@ + row.2 + "</td><td>"@ + t.0 + "</td><td>"@
        + t.1 + "</td><td>"@ + t.3 + "</td></tr>"@
}

/// The HTML table rows of the first `n` targets of a row.
pub open spec fn html_target_rows(row: RowView, n: int) -> Seq<Seq<char>>
    decreases n,
{
    if n <= 0 {
        seq![]
    } else {
        html_target_rows(row, n - 1).push(html_target_row(row, row.3[n - 1]))
    }
}

/// The HTML table rows of a source: one per target, or one with dashes.
pub open spec fn html_rows_of(row: RowView) -> Seq<Seq<char>> {
    if row.3.len() == 0 {
        seq![
            "<tr><td>"@ + row.0 + "</td><td>"@ + row.1 + "</td><td>"@ + row.2
                + "</td><td>-</td><td>-</td><td>-</td></tr>"@,
        ]
    } else {
        html_target_rows(row, row.3.len() as int)
    }
}

/// The HTML table rows of the first `n` sources.
pub open spec fn html_rows(rows: Seq<RowView>, n: int) -> Seq<Seq<char>>
    decreases n,
{
    if n <= 0 {
        seq![]
    } else {
        html_rows(rows, n - 1) + html_rows_of(rows[n - 1])
    }
}

/// The HTML page before the total.
pub open spec fn html_head() -> Seq<char> {
    "<!DOCTYPE html>\n<html>\n<head>\n<title>Traceability Matrix</title>\n<style>\nbody { font-family: system-ui, sans-serif; margin: 2rem; }\ntable { border-collapse: collapse; width: 100%; }\nth, td { border: 1px solid #ddd; padding: 8px; text-align: left; }\nth { background-color: #f4f4f4; }\n</style>\n</head>\n<body>\n<h1>Traceability Matrix</h1>\n<p><strong>Total Relationships:</strong> "@
}

/// The HTML page between the total and the table rows.
pub open spec fn html_table_head() -> Seq<char> {
    "</p>\n<table>\n<thead>\n<tr><th>Source ID</th><th>Source Name</th><th>Source Type</th><th>Target ID</th><th>Target Name</th><th>Relationship</th></tr>\n</thead>\n<tbody>\n"@
}

/// The HTML page after the table rows.
pub open spec fn html_tail() -> Seq<char> {
    "\n</tbody>\n</table>\n</body>\n</html>\n"@
}

/// The HTML rendering of a matrix with these rows and total.
pub open spec fn matrix_html(rows: Seq<RowView>, total: nat) -> Seq<char> {
    html_head() + decimal(total) + html_table_head() + join(html_rows(rows, rows.len() as int), "\n"@)
        + html_tail()
}

/// Appends `part` to a text joined by line feeds whose first `n` parts
/// are already there.
fn push_part(out: &mut Vec<char>, part: &Vec<char>, n: usize, Ghost(parts): Ghost<Seq<Seq<char>>>, Ghost(start): Ghost<Seq<char>>)
    requires
        n < parts.len(),
        parts[n as int] == part@,
        old(out)@ == start + join(parts.take(n as int), "\n"@),
    ensures
        final(out)@ == start + join(parts.take(n + 1), "\n"@),
{
    let ghost prev = parts.take(n as int);
    assert(parts.take(n + 1).drop_last() =~= prev);
    assert(parts.take(n + 1).last() == part@);
    if n > 0 {
        extend_str(out, "\n");
    }
    extend_chars(out, part);
    assert(out@ =~= start + join(parts.take(n + 1), "\n"@));
}

/// The text block of a row.
fn row_block_chars(src_id: &str, src_type: &str, targets: &Vec<super::matrix::MatrixTarget>, Ghost(row): Ghost<RowView>) -> (r: Vec<char>)
    requires
        row.0 == src_id@,
        row.2 == src_type@,
        row.3 == super::matrix::targets_view(targets@),
    ensures
        r@ == row_block(row),
{
    let mut out = str_chars(src_id);
    extend_str(&mut out, " (");
    extend_str(&mut out, src_type);
    extend_str(&mut out, ")");
    if targets.len() == 0 {
        return out;
    }
    extend_str(&mut out, "\n");
    let ghost start = out@;
    let ghost lines = target_lines(row.3);
    let mut i: usize = 0;
    proof {
        assert(lines.take(0) =~= Seq::<Seq<char>>::empty());
        lemma_target_lines_index(row.3, 0);
    }
    while i < targets.len()
        invariant
            row.3 == super::matrix::targets_view(targets@),
            lines == target_lines(row.3),
            lines.len() == targets@.len(),
            i <= targets.len(),
            out@ == start + join(lines.take(i as int), "\n"@),
        decreases targets.len() - i,
    {
        let t = &targets[i];
        let mut line = str_chars("  └─ ");
        extend_str(&mut line, t.relationship.as_str());
        extend_str(&mut line, " ");
        extend_str(&mut line, t.id.as_str());
        extend_str(&mut line, " (");
        extend_str(&mut line, t.target_type.as_str());
        extend_str(&mut line, ") [");
        extend_str(&mut line, t.name.as_str());
        extend_str(&mut line, "]");
        proof {
            lemma_target_lines_index(row.3, i as int);
        }
        assert(row.3[i as int] == target_view(*t));
        push_part(&mut out, &line, i, Ghost(lines), Ghost(start));
        i += 1;
    }
    assert(lines.take(targets.len() as int) =~= lines);
    out
}

/// The text line of each target.
proof fn lemma_target_lines_index(ts: Seq<TargetView>, i: int)
    requires
        0 <= i < ts.len(),
    ensures
        target_lines(ts).len() == ts.len(),
        target_lines(ts)[i] == target_line(ts[i]),
    decreases ts.len(),
{
    if ts.len() > 1 {
        let j = if i < ts.len() - 1 {
            i
        } else {
            0
        };
        lemma_target_lines_index(ts.drop_last(), j);
    } else {
        assert(target_lines(ts.drop_last()) =~= Seq::<Seq<char>>::empty());
    }
    if i < ts.len() - 1 {
        assert(ts.drop_last()[i] == ts[i]);
    }
}

/// The block of each row.
proof fn lemma_row_blocks_index(rows: Seq<RowView>, i: int)
    requires
        0 <= i < rows.len(),
    ensures
        row_blocks(rows).len() == rows.len(),
        row_blocks(rows)[i] == row_block(rows[i]),
    decreases rows.len(),
{
    if rows.len() > 1 {
        let j = if i < rows.len() - 1 {
            i
        } else {
            0
        };
        lemma_row_blocks_index(rows.drop_last(), j);
    } else {
        assert(row_blocks(rows.drop_last()) =~= Seq::<Seq<char>>::empty());
    }
    if i < rows.len() - 1 {
        assert(rows.drop_last()[i] == rows[i]);
    }
}

/// The text rendering of the matrix: a title, the total, then each row
/// with its targets.
pub fn format_matrix_text(matrix: &TraceabilityMatrix) -> (r: String)
    ensures
        r@ == matrix_text(rows_view(matrix.rows@), matrix.total_relationships as nat),
{
    let ghost rows = rows_view(matrix.rows@);
    let ghost blocks = row_blocks(rows);
    let mut out = str_chars("Traceability Matrix\nTotal Relationships: ");
    push_decimal(&mut out, matrix.total_relationships as u64);
    extend_str(&mut out, "\n\n");
    let ghost start = out@;
    let mut i: usize = 0;
    if matrix.rows.len() == 0 {
        assert(blocks =~= Seq::<Seq<char>>::empty());
    }
    assert(blocks.take(0) =~= Seq::<Seq<char>>::empty());
    while i < matrix.rows.len()
        invariant
            rows == rows_view(matrix.rows@),
            blocks == row_blocks(rows),
            i <= matrix.rows.len(),
            out@ == start + join(blocks.take(i as int), "\n"@),
        decreases matrix.rows.len() - i,
    {
        let row = &matrix.rows[i];
        proof {
            lemma_row_blocks_index(rows, i as int);
        }
        let block = row_block_chars(row.source_id.as_str(), row.source_type.as_str(), &row.targets, Ghost(rows[i as int]));
        push_part(&mut out, &block, i, Ghost(blocks), Ghost(start));
        i += 1;
    }
    if matrix.rows.len() > 0 {
        proof {
            lemma_row_blocks_index(rows, 0);
        }
    }
    assert(blocks.take(matrix.rows.len() as int) =~= blocks);
    extend_str(&mut out, "\n");
    chars_to_string(&out)
}

/// The HTML rows of a source.
fn html_rows_of_chars(row: &super::matrix::MatrixRow, Ghost(rv): Ghost<RowView>) -> (r: Vec<Vec<char>>)
    requires
        rv == super::matrix::row_view(*row),
    ensures
        crate::text::views(r@) == html_rows_of(rv),
{
    let mut prefix = str_chars("<tr><td>");
    extend_str(&mut prefix, row.source_id.as_str());
    extend_str(&mut prefix, "</td><td>");
    extend_str(&mut prefix, row.source_name.as_str());
    extend_str(&mut prefix, "</td><td>");
    extend_str(&mut prefix, row.source_type.as_str());
    let mut out: Vec<Vec<char>> = Vec::new();
    if row.targets.len() == 0 {
        let mut line = prefix;
        extend_str(&mut line, "</td><td>-</td><td>-</td><td>-</td></tr>");
        out.push(line);
        assert(crate::text::views(out@) =~= html_rows_of(rv));
        return out;
    }
    let mut i: usize = 0;
    while i < row.targets.len()
        invariant
            rv == super::matrix::row_view(*row),
            prefix@ == "<tr><td>"@ + rv.0 + "</td><td>"@ + rv.1 + "</td><td>"@ + rv.2,
            i <= row.targets.len(),
            crate::text::views(out@) == html_target_rows(rv, i as int),
        decreases row.targets.len() - i,
    {
        let t = &row.targets[i];
        assert(rv.3[i as int] == target_view(*t));
        let mut line: Vec<char> = Vec::new();
        extend_chars(&mut line, &prefix);
        extend_str(&mut line, "</td><td>");
        extend_str(&mut line, t.id.as_str());
        extend_str(&mut line, "</td><td>");
        extend_str(&mut line, t.name.as_str());
        extend_str(&mut line, "</td><td>");
        extend_str(&mut line, t.relationship.as_str());
        extend_str(&mut line, "</td></tr>");
        let ghost before = crate::text::views(out@);
        out.push(line);
        assert(crate::text::views(out@) =~= before.push(line@));
        assert(line@ == html_target_row(rv, rv.3[i as int]));
        i += 1;
    }
    out
}

/// The HTML rows of a source, one per target or one with dashes, as its
/// lines are numbered within all lines.
proof fn lemma_html_rows_step(rows: Seq<RowView>, n: int)
    requires
        0 <= n,
    ensures
        html_rows(rows, n + 1) == html_rows(rows, n) + html_rows_of(rows[n]),
{
}

/// The HTML rendering of the matrix: a page with the total and a table
/// row per source and target (one with dashes for a source without
/// targets). Texts are written as they are.
pub fn format_matrix_html(matrix: &TraceabilityMatrix) -> (r: String)
    ensures
        r@ == matrix_html(rows_view(matrix.rows@), matrix.total_relationships as nat),
{
    let ghost rows = rows_view(matrix.rows@);
    let mut lines: Vec<Vec<char>> = Vec::new();
    let mut i: usize = 0;
    while i < matrix.rows.len()
        invariant
            rows == rows_view(matrix.rows@),
            i <= matrix.rows.len(),
            crate::text::views(lines@) == html_rows(rows, i as int),
        decreases matrix.rows.len() - i,
    {
        let more = html_rows_of_chars(&matrix.rows[i], Ghost(rows[i as int]));
        let mut j: usize = 0;
        let ghost base = crate::text::views(lines@);
        while j < more.len()
            invariant
                j <= more.len(),
                crate::text::views(lines@) == base + crate::text::views(more@).take(j as int),
            decreases more.len() - j,
        {
            let mut line: Vec<char> = Vec::new();
            extend_chars(&mut line, &more[j]);
            let ghost prev = crate::text::views(lines@);
            lines.push(line);
            assert(crate::text::views(lines@) =~= prev.push(more@[j as int]@));
            assert(crate::text::views(more@).take(j + 1) =~= crate::text::views(more@).take(j as int).push(
                more@[j as int]@,
            ));
            j += 1;
        }
        assert(crate::text::views(more@).take(more.len() as int) =~= crate::text::views(more@));
        proof {
            lemma_html_rows_step(rows, i as int);
        }
        i += 1;
    }
    let ghost parts = crate::text::views(lines@);
    let mut out = str_chars("<!DOCTYPE html>\n<html>\n<head>\n<title>Traceability Matrix</title>\n<style>\nbody { font-family: system-ui, sans-serif; margin: 2rem; }\ntable { border-collapse: collapse; width: 100%; }\nth, td { border: 1px solid #ddd; padding: 8px; text-align: left; }\nth { background-color: #f4f4f4; }\n</style>\n</head>\n<body>\n<h1>Traceability Matrix</h1>\n<p><strong>Total Relationships:</strong> ");
    push_decimal(&mut out, matrix.total_relationships as u64);
    extend_str(&mut out, "</p>\n<table>\n<thead>\n<tr><th>Source ID</th><th>Source Name</th><th>Source Type</th><th>Target ID</th><th>Target Name</th><th>Relationship</th></tr>\n</thead>\n<tbody>\n");
    let ghost start = out@;
    let mut k: usize = 0;
    assert(parts.take(0) =~= Seq::<Seq<char>>::empty());
    while k < lines.len()
        invariant
            parts == crate::text::views(lines@),
            k <= lines.len(),
            out@ == start + join(parts.take(k as int), "\n"@),
        decreases lines.len() - k,
    {
        push_part(&mut out, &lines[k], k, Ghost(parts), Ghost(start));
        k += 1;
    }
    assert(parts.take(lines.len() as int) =~= parts);
    extend_str(&mut out, "\n</tbody>\n</table>\n</body>\n</html>\n");
    chars_to_string(&out)
}

} // verus!
