//! The frontmatter block of a generated document.
use vstd::prelude::*;

use crate::text::{chars_to_string, dashes, str_chars, sub_chars};

verus! {

/// The first position from which `s` continues with `pat`, if any.
pub open spec fn find_from(s: Seq<char>, pat: Seq<char>, i: int) -> Option<int>
    decreases s.len() + 1 - i,
{
    if i < 0 || i > s.len() || i + pat.len() > s.len() {
        None
    } else if s.subrange(i, i + pat.len()) == pat {
        Some(i)
    } else {
        find_from(s, pat, i + 1)
    }
}

/// The frontmatter block at the start of a document: from its opening
/// `---` through the first `\n---` after it; empty when the document does
/// not start with `---` or the block is not closed.
pub open spec fn frontmatter_block(c: Seq<char>) -> Seq<char> {
    if c.len() >= 3 && c.take(3) == dashes() {
        match find_from(c.skip(3), "\n---"@, 0) {
            Some(e) => c.take(e + 7),
            None => seq![],
        }
    } else {
        seq![]
    }
}

/// Extracts the frontmatter block, delimiters included, from the start of
/// a generated document.
pub fn extract_frontmatter(content: &str) -> (r: String)
    ensures
        r@ == frontmatter_block(content@),
{
    let v = str_chars(content);
    proof {
        reveal_strlit("\n---");
    }
    if !(v.len() >= 3 && v[0] == '-' && v[1] == '-' && v[2] == '-') {
        assert(v.len() >= 3 ==> !(v@.take(3) =~= dashes()) || (v[0] == '-' && v[1] == '-' && v[2] == '-'));
        assert(!(v@.len() >= 3 && v@.take(3) == dashes())) by {
            if v@.len() >= 3 && v@.take(3) == dashes() {
                assert(v@.take(3)[0] == '-' && v@.take(3)[1] == '-' && v@.take(3)[2] == '-');
            }
        }
        return String::new();
    }
    assert(v@.take(3) =~= dashes());
    let ghost rest = v@.skip(3);
    let ghost pat = seq!['\n', '-', '-', '-'];
    assert("\n---"@ =~= pat);
    let mut i: usize = 3;
    while i < v.len() && v.len() - i >= 4
        invariant
            3 <= i <= v.len(),
            v@ == content@,
            v@.take(3) == dashes(),
            rest == v@.skip(3),
            pat == seq!['\n', '-', '-', '-'],
            "\n---"@ == pat,
            find_from(rest, pat, 0) == find_from(rest, pat, i - 3),
        decreases v.len() - i,
    {
        let found = v[i] == '\n' && v[i + 1] == '-' && v[i + 2] == '-' && v[i + 3] == '-';
        assert(rest.subrange(i - 3, i + 1) =~= seq![v@[i as int], v@[i + 1], v@[i + 2], v@[i + 3]]);
        if found {
            assert(rest.subrange(i - 3, i + 1) =~= pat);
            assert(find_from(rest, pat, i - 3) == Some(i - 3));
            let block = sub_chars(&v, 0, i + 4);
            assert(block@ =~= v@.take(i - 3 + 7));
            return chars_to_string(&block);
        }
        assert(rest.subrange(i - 3, i + 1) != pat);
        i += 1;
    }
    assert(find_from(rest, pat, i - 3) is None);
    String::new()
}

} // verus!
