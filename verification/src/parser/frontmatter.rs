//! YAML frontmatter extraction from Markdown files.
use vstd::prelude::*;

use crate::error::SaraError;
use crate::text::{
    chars_to_string, dashes, extend_str, is_delimiter, is_ws, join, join_range,
    lemma_line_end, line_end, lines, split_lines, strip_cr, str_chars, trim, trim_end, trim_start, views,
};

verus! {

/// True if the line is the `---` delimiter once trimmed.
pub open spec fn is_delimiter_line(l: Seq<char>) -> bool {
    trim(l) == dashes()
}

/// The first delimiter line at or after position `from`.
pub open spec fn delimiter_from(ls: Seq<Seq<char>>, from: int) -> Option<int>
    decreases ls.len() - from,
{
    if from < 0 || from >= ls.len() {
        None
    } else if is_delimiter_line(ls[from]) {
        Some(from)
    } else {
        delimiter_from(ls, from + 1)
    }
}

/// The position of the closing delimiter of a frontmatter block: `None`
/// when the first line is not a delimiter or no later line closes it.
pub open spec fn closing_delimiter(ls: Seq<Seq<char>>) -> Option<int> {
    if ls.len() == 0 || !is_delimiter_line(ls[0]) {
        None
    } else {
        delimiter_from(ls, 1)
    }
}

/// The frontmatter text of `content`: the lines between the delimiters,
/// joined with line feeds.
pub open spec fn frontmatter_text(content: Seq<char>) -> Option<Seq<char>> {
    let ls = lines(content);
    match closing_delimiter(ls) {
        Some(e) => Some(join(ls.subrange(1, e), seq!['\n'])),
        None => None,
    }
}

/// The body of `content`: the lines after the closing delimiter joined with
/// line feeds; the whole content when there is no frontmatter block.
pub open spec fn body_text(content: Seq<char>) -> Seq<char> {
    let ls = lines(content);
    match closing_delimiter(ls) {
        Some(e) => join(ls.subrange(e + 1, ls.len() as int), seq!['\n']),
        None => content,
    }
}

/// The first delimiter line at or after `from` among the lines.
fn find_delimiter(ls: &Vec<Vec<char>>, from: usize) -> (r: Option<usize>)
    requires
        from >= 1,
    ensures
        match delimiter_from(views(ls@), from as int) {
            Some(e) => r == Some(e as usize) && from <= e < ls@.len(),
            None => r is None,
        },
{
    let mut i = from;
    while i < ls.len()
        invariant
            from <= i,
            delimiter_from(views(ls@), from as int) == delimiter_from(views(ls@), i as int),
        decreases ls.len() - i,
    {
        if is_delimiter(&ls[i]) {
            return Some(i);
        }
        i += 1;
    }
    None
}

/// Proves that the search from `from` ends within the lines.
proof fn lemma_delimiter_from_bounds(ls: Seq<Seq<char>>, from: int)
    ensures
        delimiter_from(ls, from) matches Some(e) ==> from <= e < ls.len() && is_delimiter_line(ls[e]),
    decreases ls.len() - from,
{
    if 0 <= from < ls.len() && !is_delimiter_line(ls[from]) {
        lemma_delimiter_from_bounds(ls, from + 1);
    }
}

/// Extracts the YAML frontmatter of Markdown content: the lines between an
/// opening `---` first line and the next `---` line, joined with line
/// feeds. Content without an opening delimiter gives
/// `MissingFrontmatter`; an unclosed block gives `InvalidFrontmatter`.
pub fn extract_frontmatter(content: &str, file: &str) -> (r: Result<String, SaraError>)
    ensures
        match frontmatter_text(content@) {
            Some(t) => r matches Ok(y) && y@ == t,
            None => if lines(content@).len() == 0 || !is_delimiter_line(lines(content@)[0]) {
                r matches Err(SaraError::MissingFrontmatter { file: f }) && f@ == file@
            } else {
                r matches Err(SaraError::InvalidFrontmatter { file: f, reason: m }) && f@ == file@
                    && m@ == "Missing closing `---` delimiter"@
            },
        },
{
    let v = str_chars(content);
    let ls = split_lines(&v);
    if ls.len() == 0 || !is_delimiter(&ls[0]) {
        return Err(SaraError::MissingFrontmatter { file: file.to_owned() });
    }
    match find_delimiter(&ls, 1) {
        Some(e) => {
            let nl = str_chars("\n");
            proof {
                reveal_strlit("\n");
            }
            assert(nl@ =~= seq!['\n']);
            let yaml = join_range(&ls, 1, e, &nl);
            Ok(chars_to_string(&yaml))
        },
        None => {
            proof {
                reveal_strlit("Missing closing `---` delimiter");
            }
            Err(
                SaraError::InvalidFrontmatter {
                    file: file.to_owned(),
                    reason: "Missing closing `---` delimiter".to_owned(),
                },
            )
        },
    }
}

/// Checks if content has frontmatter: it starts with `---` once leading
/// whitespace is skipped.
pub fn has_frontmatter(content: &str) -> (r: bool)
    ensures
        r == (trim_start(content@).len() >= 3 && trim_start(content@).take(3) == dashes()),
{
    let v = str_chars(content);
    let mut i: usize = 0;
    assert(v@.skip(0) =~= v@);
    while i < v.len() && crate::text::is_whitespace(v[i])
        invariant
            i <= v.len(),
            trim_start(v@.skip(i as int)) == trim_start(v@),
        decreases v.len() - i,
    {
        assert(v@.skip(i as int).drop_first() =~= v@.skip(i + 1));
        i += 1;
    }
    assert(v@.skip(i as int) =~= v@.skip(i as int));
    assert(i < v.len() ==> !is_ws(v@.skip(i as int)[0]));
    assert(trim_start(v@.skip(i as int)) == v@.skip(i as int));
    if v.len() - i < 3 {
        return false;
    }
    let r = v[i] == '-' && v[i + 1] == '-' && v[i + 2] == '-';
    assert(v@.skip(i as int).take(3) =~= seq![v@[i as int], v@[i + 1], v@[i + 2]]);
    r
}

/// Extracts the body after the frontmatter: the lines after the closing
/// delimiter joined with line feeds (empty when there are none); the
/// original content when there is no complete frontmatter block.
pub fn extract_body(content: &str) -> (r: String)
    ensures
        r@ == body_text(content@),
{
    let v = str_chars(content);
    let ls = split_lines(&v);
    if ls.len() == 0 || !is_delimiter(&ls[0]) {
        return content.to_owned();
    }
    match find_delimiter(&ls, 1) {
        Some(e) => {
            let nl = str_chars("\n");
            proof {
                reveal_strlit("\n");
            }
            assert(nl@ =~= seq!['\n']);
            let body = join_range(&ls, e + 1, ls.len(), &nl);
            chars_to_string(&body)
        },
        None => content.to_owned(),
    }
}

/// The content after replacing its frontmatter block by `fm`: `fm` without
/// trailing whitespace, a line feed, then the body when there is one.
pub open spec fn updated_content(content: Seq<char>, fm: Seq<char>) -> Seq<char> {
    let body = body_text(content);
    if body.len() == 0 {
        trim_end(fm) + seq!['\n']
    } else {
        trim_end(fm) + seq!['\n'] + body
    }
}

/// Replaces the frontmatter of `content` by `new_frontmatter` (which
/// includes its `---` delimiters), keeping the body.
pub fn update_frontmatter(content: &str, new_frontmatter: &str) -> (r: String)
    ensures
        r@ == updated_content(content@, new_frontmatter@),
{
    let body = extract_body(content);
    let fm = str_chars(new_frontmatter);
    let t = crate::text::trim_end_chars(&fm);
    let mut out = t;
    out.push('\n');
    if !body.as_str().is_empty() {
        extend_str(&mut out, body.as_str());
    }
    chars_to_string(&out)
}

/// Facts about where the first line ends.
proof fn lemma_line_end_props(t: Seq<char>)
    ensures
        line_end(t) <= t.len(),
        forall|j: int| 0 <= j < line_end(t) ==> t[j] != '\n',
        line_end(t) < t.len() ==> t[line_end(t) as int] == '\n',
    decreases t.len(),
{
    if t.len() > 0 && t[0] != '\n' {
        lemma_line_end_props(t.drop_first());
        assert forall|j: int| 0 <= j < line_end(t) implies t[j] != '\n' by {
            if j > 0 {
                assert(t.drop_first()[j - 1] == t[j]);
            }
        }
    }
}

/// Text that ends in neither a line feed nor a carriage return, followed by
/// a line feed and more text, has its own lines followed by those of the
/// rest.
proof fn lemma_lines_append(t: Seq<char>, x: Seq<char>)
    requires
        t.len() > 0,
        t.last() != '\n',
        t.last() != '\r',
    ensures
        lines(t + seq!['\n'] + x) == lines(t) + lines(x),
    decreases t.len(),
{
    let s = t + seq!['\n'] + x;
    let kt = line_end(t);
    lemma_line_end_props(t);
    if kt == t.len() {
        lemma_line_end(s, t.len() as int);
        assert(s.take(t.len() as int) =~= t);
        assert(s.skip(t.len() as int + 1) =~= x);
        assert(lines(t) == seq![t]);
        assert(lines(s) =~= lines(t) + lines(x));
    } else {
        lemma_line_end(s, kt as int);
        let rest = t.skip(kt as int + 1);
        assert(kt + 1 < t.len()) by {
            if kt + 1 == t.len() {
                assert(t.last() == t[kt as int]);
            }
        }
        assert(rest.last() == t.last());
        lemma_lines_append(rest, x);
        assert(s.take(kt as int) =~= t.take(kt as int));
        assert(s.skip(kt as int + 1) =~= rest + seq!['\n'] + x);
        assert(lines(s) =~= lines(t) + lines(x));
    }
}

/// The search for a delimiter that succeeds within `a` gives the same line
/// when more lines follow.
proof fn lemma_delimiter_from_prefix(a: Seq<Seq<char>>, m: Seq<Seq<char>>, from: int)
    requires
        0 <= from,
        delimiter_from(a, from) is Some,
    ensures
        delimiter_from(a + m, from) == delimiter_from(a, from),
    decreases a.len() - from,
{
    lemma_delimiter_from_bounds(a, from);
    assert((a + m)[from] == a[from]);
    if !is_delimiter_line(a[from]) {
        lemma_delimiter_from_prefix(a, m, from + 1);
    }
}

/// Trimmed text is empty or ends in a character that is not whitespace.
proof fn lemma_trim_end_last(s: Seq<char>)
    ensures
        trim_end(s).len() > 0 ==> !is_ws(trim_end(s).last()),
    decreases s.len(),
{
    if s.len() > 0 && is_ws(s.last()) {
        lemma_trim_end_last(s.drop_last());
    }
}

/// True if `fm` is one frontmatter block: once trailing whitespace is
/// removed, its first line opens the block and its last line closes it.
pub open spec fn is_frontmatter_block(fm: Seq<char>) -> bool {
    let ls = lines(trim_end(fm));
    closing_delimiter(ls) == Some(ls.len() - 1)
}

/// Replacing the frontmatter of any content by a frontmatter block gives
/// content whose frontmatter is that of the block, and whose body is the
/// old body line by line (the same text unless the old body ends with an
/// empty line or a line ending in a carriage return).
pub proof fn lemma_update_frontmatter(content: Seq<char>, fm: Seq<char>)
    requires
        is_frontmatter_block(fm),
    ensures
        frontmatter_text(updated_content(content, fm)) == frontmatter_text(trim_end(fm)),
        body_text(updated_content(content, fm)) == join(lines(body_text(content)), seq!['\n']),
{
    let t = trim_end(fm);
    let lt = lines(t);
    let e = lt.len() - 1;
    let body = body_text(content);
    lemma_delimiter_from_bounds(lt, 1);
    assert(t.len() > 0);
    lemma_trim_end_last(fm);
    lemma_lines_append(t, body);
    let u = updated_content(content, fm);
    if body.len() == 0 {
        assert(t + seq!['\n'] + body =~= t + seq!['\n']);
    }
    assert(u == t + seq!['\n'] + body);
    let lu = lines(u);
    assert(lu == lt + lines(body));
    lemma_delimiter_from_prefix(lt, lines(body), 1);
    assert(lu[0] == lt[0]);
    assert(closing_delimiter(lu) == Some(e));
    assert(lu.subrange(1, e) =~= lt.subrange(1, e));
    assert(lu.subrange(e + 1, lu.len() as int) =~= lines(body));
}

/// Text with its trailing whitespace removed is a prefix of the text.
proof fn lemma_trim_end_prefix(s: Seq<char>)
    ensures
        trim_end(s).len() <= s.len(),
        s.take(trim_end(s).len() as int) == trim_end(s),
    decreases s.len(),
{
    if s.len() > 0 && is_ws(s.last()) {
        lemma_trim_end_prefix(s.drop_last());
        assert(s.take(trim_end(s).len() as int) =~= s.drop_last().take(trim_end(s).len() as int));
    } else {
        assert(s.take(s.len() as int) =~= s);
    }
}

/// When a prefix of `c` holds a character that is not whitespace, the
/// trimmed prefix starts the trimmed text.
proof fn lemma_trim_start_prefix(p: Seq<char>, c: Seq<char>)
    requires
        p.len() <= c.len(),
        c.take(p.len() as int) == p,
        trim_start(p).len() > 0,
    ensures
        trim_start(p).len() <= trim_start(c).len(),
        trim_start(c).take(trim_start(p).len() as int) == trim_start(p),
    decreases p.len(),
{
    assert(p[0] == c[0]);
    if is_ws(p[0]) {
        assert(c.drop_first().take(p.drop_first().len() as int) =~= p.drop_first());
        lemma_trim_start_prefix(p.drop_first(), c.drop_first());
    } else {
        assert(c.take(p.len() as int) == p);
    }
}

/// Content whose first line is the `---` delimiter is seen as having
/// frontmatter: every document that `extract_frontmatter` reads, or reports
/// as unclosed, starts with `---` once leading whitespace is skipped.
pub proof fn lemma_delimiter_first_line_has_frontmatter(content: Seq<char>)
    requires
        lines(content).len() > 0,
        is_delimiter_line(lines(content)[0]),
    ensures
        trim_start(content).len() >= 3 && trim_start(content).take(3) == dashes(),
{
    let k = line_end(content);
    lemma_line_end_props(content);
    let line = lines(content)[0];
    let ts = trim_start(line);
    lemma_trim_end_prefix(ts);
    assert(ts.len() >= 3);
    assert(ts.take(3) =~= dashes()) by {
        assert(ts.take(3) =~= ts.take(trim_end(ts).len() as int));
    }
    assert(line.len() <= content.len() && content.take(line.len() as int) == line) by {
        if k < content.len() {
            assert(line == strip_cr(content.take(k as int)));
            assert(content.take(line.len() as int) =~= line);
        } else {
            assert(content.take(content.len() as int) =~= content);
        }
    }
    lemma_trim_start_prefix(line, content);
    assert(trim_start(content).take(3) =~= ts.take(3));
}

} // verus!
