//! Book metadata found in the first lines of a text: the title written as
//! `《书名》` and the author written as `作者：XXX` (or `作者:XXX`).

use vstd::prelude::*;
use crate::text::{
    find, find_in, index_of, lemma_find_shift, lemma_index_of_skip, lines, next_line, string_of,
    trim, trim_bounds,
};

verus! {

/// How many lines from the top are searched for metadata.
pub open spec fn header_lines() -> int {
    20
}

/// `作者：` with a full-width colon.
pub open spec fn author_tag() -> Seq<char> {
    seq!['作', '者', '：']
}

/// `作者:` with an ASCII colon.
pub open spec fn ascii_author_tag() -> Seq<char> {
    seq!['作', '者', ':']
}

/// The trimmed text after the first `tag` in `l`; empty when `tag` does not occur.
pub open spec fn after_tag(l: Seq<char>, tag: Seq<char>) -> Seq<char> {
    match find(l, tag) {
        Some(p) => trim(l.skip(p + tag.len())),
        None => seq![],
    }
}

/// The author that line `l` names, or the empty text.
pub open spec fn author_of_line(l: Seq<char>) -> Seq<char> {
    let a = after_tag(l, author_tag());
    if a.len() > 0 {
        a
    } else {
        after_tag(l, ascii_author_tag())
    }
}

/// The author named by the first of `ls` that names one, or the empty text.
pub open spec fn author_in(ls: Seq<Seq<char>>) -> Seq<char>
    decreases ls.len(),
{
    if ls.len() == 0 {
        seq![]
    } else {
        let a = author_of_line(ls[0]);
        if a.len() > 0 {
            a
        } else {
            author_in(ls.drop_first())
        }
    }
}

/// The first `n` of `ls`, or all of them when there are fewer.
pub open spec fn first_lines(ls: Seq<Seq<char>>, n: int) -> Seq<Seq<char>> {
    if ls.len() <= n {
        ls
    } else {
        ls.take(n)
    }
}

/// The author of a text: named in one of its first twenty lines, or empty.
pub open spec fn author_of(text: Seq<char>) -> Seq<char> {
    author_in(first_lines(lines(text), header_lines()))
}

/// The title that line `l` gives: after trimming it starts with `《`, and the
/// title runs from there to the first `》` (or the end of the line).
pub open spec fn title_of_line(l: Seq<char>) -> Seq<char> {
    let t = trim(l);
    if t.len() > 0 && t[0] == '《' {
        let rest = t.drop_first();
        rest.take(index_of(rest, '》') as int)
    } else {
        seq![]
    }
}

/// The first non-empty title given by one of `ls`.
pub open spec fn title_in(ls: Seq<Seq<char>>) -> Option<Seq<char>>
    decreases ls.len(),
{
    if ls.len() == 0 {
        None
    } else {
        let t = title_of_line(ls[0]);
        if t.len() > 0 {
            Some(t)
        } else {
            title_in(ls.drop_first())
        }
    }
}

/// The title of a text: given in one of its first twenty lines, if any.
pub open spec fn title_of(text: Seq<char>) -> Option<Seq<char>> {
    title_in(first_lines(lines(text), header_lines()))
}

pub proof fn lemma_first_lines_cons(x: Seq<char>, ys: Seq<Seq<char>>, n: int)
    requires
        n >= 1,
    ensures
        first_lines(seq![x] + ys, n).len() > 0,
        first_lines(seq![x] + ys, n)[0] == x,
        first_lines(seq![x] + ys, n).drop_first() == first_lines(ys, n - 1),
{
    assert(first_lines(seq![x] + ys, n).drop_first() =~= first_lines(ys, n - 1));
}

/// The bounds of what follows `tag` in the line `s[from..to]`, trimmed.
fn after_tag_at(s: &[char], from: usize, to: usize, tag: &[char]) -> (r: (usize, usize))
    requires
        from <= to <= s@.len(),
    ensures
        r.0 <= r.1 <= s@.len(),
        s@.subrange(r.0 as int, r.1 as int) == after_tag(s@.subrange(from as int, to as int), tag@),
{
    let ghost l = s@.subrange(from as int, to as int);
    let found = find_in(s, to, tag, from);
    proof {
        lemma_find_shift(s@, tag@, from as int, to as int, 0);
        crate::text::lemma_find_from(s@.take(to as int), tag@, from as int);
    }
    match found {
        Some(k) => {
            assert(k + tag@.len() <= to);
            let r = trim_bounds(s, k + tag.len(), to);
            assert(l.skip(k - from + tag@.len()) =~= s@.subrange(k + tag@.len(), to as int));
            r
        },
        None => (0, 0),
    }
}

/// The bounds of the author that the line `s[from..to]` names (empty when none).
fn author_of_line_at(s: &[char], from: usize, to: usize) -> (r: (usize, usize))
    requires
        from <= to <= s@.len(),
    ensures
        r.0 <= r.1 <= s@.len(),
        s@.subrange(r.0 as int, r.1 as int) == author_of_line(s@.subrange(from as int, to as int)),
{
    let full: [char; 3] = ['作', '者', '：'];
    let ascii: [char; 3] = ['作', '者', ':'];
    assert(full@ =~= author_tag());
    assert(ascii@ =~= ascii_author_tag());
    let (a, b) = after_tag_at(s, from, to, &full);
    if a < b {
        (a, b)
    } else {
        after_tag_at(s, from, to, &ascii)
    }
}

/// The author named in the first twenty lines of `s`, or the empty string.
pub fn author_in_chars(s: &[char]) -> (r: String)
    ensures
        r@ == author_of(s@),
{
    let mut pos: usize = 0;
    let mut count: usize = 0;
    assert(s@.skip(0) =~= s@);
    while count < 20 && pos < s.len()
        invariant
            pos <= s@.len(),
            count <= 20,
            author_of(s@) == author_in(first_lines(lines(s@.skip(pos as int)), 20 - count)),
        decreases 20 - count,
    {
        let (end, next) = next_line(s, pos);
        let ghost rest = lines(s@.skip(next as int));
        proof {
            lemma_first_lines_cons(s@.subrange(pos as int, end as int), rest, 20 - count);
        }
        let (a, b) = author_of_line_at(s, pos, end);
        if a < b {
            return string_of(s, a, b);
        }
        pos = next;
        count = count + 1;
    }
    proof {
        if pos == s@.len() {
            assert(s@.skip(pos as int) =~= Seq::<char>::empty());
        }
    }
    String::new()
}

/// The bounds of the title that the line `s[from..to]` gives (empty when none).
fn title_of_line_at(s: &[char], from: usize, to: usize) -> (r: (usize, usize))
    requires
        from <= to <= s@.len(),
    ensures
        r.0 <= r.1 <= s@.len(),
        s@.subrange(r.0 as int, r.1 as int) == title_of_line(s@.subrange(from as int, to as int)),
{
    let (a, b) = trim_bounds(s, from, to);
    let ghost t = s@.subrange(a as int, b as int);
    if a < b && s[a] == '《' {
        let ghost rest = t.drop_first();
        let mut j = a + 1;
        while j < b && s[j] != '》'
            invariant
                a < j <= b <= s@.len(),
                forall|m: int| a + 1 <= m < j ==> s@[m] != '》',
            decreases b - j,
        {
            j = j + 1;
        }
        proof {
            assert(rest =~= s@.subrange(a + 1, b as int));
            assert forall|m: int| 0 <= m < j - (a + 1) implies rest[m] != '》' by {
                assert(rest[m] == s@[a + 1 + m]);
            }
            lemma_index_of_skip(rest, '》', j - (a + 1));
            if j < b {
                assert(rest.skip(j - (a + 1))[0] == '》');
            } else {
                assert(rest.skip(j - (a + 1)) =~= Seq::<char>::empty());
            }
            assert(rest.take(j - (a + 1)) =~= s@.subrange(a + 1, j as int));
        }
        (a + 1, j)
    } else {
        (0, 0)
    }
}

/// The title given in the first twenty lines of `s`, if any.
pub fn title_in_chars(s: &[char]) -> (r: Option<String>)
    ensures
        r matches Some(t) ==> title_of(s@) == Some(t@),
        r is None ==> title_of(s@) is None,
{
    let mut pos: usize = 0;
    let mut count: usize = 0;
    assert(s@.skip(0) =~= s@);
    while count < 20 && pos < s.len()
        invariant
            pos <= s@.len(),
            count <= 20,
            title_of(s@) == title_in(first_lines(lines(s@.skip(pos as int)), 20 - count)),
        decreases 20 - count,
    {
        let (end, next) = next_line(s, pos);
        let ghost rest = lines(s@.skip(next as int));
        proof {
            lemma_first_lines_cons(s@.subrange(pos as int, end as int), rest, 20 - count);
        }
        let (a, b) = title_of_line_at(s, pos, end);
        if a < b {
            return Some(string_of(s, a, b));
        }
        pos = next;
        count = count + 1;
    }
    proof {
        if pos == s@.len() {
            assert(s@.skip(pos as int) =~= Seq::<char>::empty());
        }
    }
    None
}

} // verus!
