//! Markdown document helpers.
use vstd::prelude::*;

use crate::text::{chars_to_string, split_lines, str_chars, sub_chars, trim, trim_chars, views, lines};

verus! {

/// True if the trimmed line is a level-one heading (`# ` prefix).
pub open spec fn is_heading(l: Seq<char>) -> bool {
    trim(l).len() >= 2 && trim(l)[0] == '#' && trim(l)[1] == ' '
}

/// The name given by the first level-one heading among `ls[i..]`.
pub open spec fn heading_name(ls: Seq<Seq<char>>, i: int) -> Option<Seq<char>>
    decreases ls.len() - i,
{
    if i < 0 || i >= ls.len() {
        None
    } else if is_heading(ls[i]) {
        Some(trim(trim(ls[i]).skip(2)))
    } else {
        heading_name(ls, i + 1)
    }
}

/// Extracts a name from the first `# ` heading of Markdown content, trimmed.
pub fn extract_name_from_content(content: &str) -> (r: Option<String>)
    ensures
        match heading_name(lines(content@), 0) {
            Some(n) => r matches Some(s) && s@ == n,
            None => r is None,
        },
{
    let v = str_chars(content);
    let ls = split_lines(&v);
    let mut i: usize = 0;
    while i < ls.len()
        invariant
            i <= ls.len(),
            views(ls@) == lines(content@),
            heading_name(lines(content@), 0) == heading_name(lines(content@), i as int),
        decreases ls.len() - i,
    {
        let t = trim_chars(&ls[i]);
        assert(views(ls@)[i as int] == ls@[i as int]@);
        if t.len() >= 2 && t[0] == '#' && t[1] == ' ' {
            let rest = sub_chars(&t, 2, t.len());
            assert(rest@ =~= t@.skip(2));
            let name = trim_chars(&rest);
            return Some(chars_to_string(&name));
        }
        i += 1;
    }
    None
}

} // verus!
