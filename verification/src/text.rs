//! Character-level text primitives: white space, trimming, line splitting,
//! prefix tests and substring search, all stated over `Seq<char>`.

use vstd::prelude::*;

verus! {

/// The Unicode `White_Space` property, which is what `char::is_whitespace`
/// tests and what `str::trim` removes.
pub open spec fn is_white_space(c: char) -> bool {
    let x = c as u32;
    ||| (0x09 <= x && x <= 0x0D)
    ||| x == 0x20
    ||| x == 0x85
    ||| x == 0xA0
    ||| x == 0x1680
    ||| (0x2000 <= x && x <= 0x200A)
    ||| x == 0x2028
    ||| x == 0x2029
    ||| x == 0x202F
    ||| x == 0x205F
    ||| x == 0x3000
}

/// `s` without its leading white space.
pub open spec fn trim_start(s: Seq<char>) -> Seq<char>
    decreases s.len(),
{
    if s.len() > 0 && is_white_space(s[0]) {
        trim_start(s.drop_first())
    } else {
        s
    }
}

/// `s` without its trailing white space.
pub open spec fn trim_end(s: Seq<char>) -> Seq<char>
    decreases s.len(),
{
    if s.len() > 0 && is_white_space(s.last()) {
        trim_end(s.drop_last())
    } else {
        s
    }
}

/// `s` without leading and trailing white space.
pub open spec fn trim(s: Seq<char>) -> Seq<char> {
    trim_end(trim_start(s))
}

/// The index of the first occurrence of `c` in `s`, or `s.len()` when there is none.
pub open spec fn index_of(s: Seq<char>, c: char) -> nat
    decreases s.len(),
{
    if s.len() == 0 {
        0
    } else if s[0] == c {
        0
    } else {
        1 + index_of(s.drop_first(), c)
    }
}

/// A line as `str::lines` yields it: a `"\r"` just before the `"\n"` that ends
/// it is dropped.
pub open spec fn strip_cr(l: Seq<char>) -> Seq<char> {
    if l.len() > 0 && l.last() == '\r' {
        l.drop_last()
    } else {
        l
    }
}

/// The lines of `s`, as `str::lines` yields them: split at `"\n"` or `"\r\n"`;
/// the empty text has no lines, and a final line ending adds no empty line.
pub open spec fn lines(s: Seq<char>) -> Seq<Seq<char>>
    decreases s.len(),
{
    if s.len() == 0 {
        seq![]
    } else {
        let k = index_of(s, '\n');
        if k < s.len() {
            seq![strip_cr(s.take(k as int))] + lines(s.skip(k + 1 as int))
        } else {
            seq![s]
        }
    }
}

/// The lines of `ls` joined with `"\n"` between them.
pub open spec fn join_lines(ls: Seq<Seq<char>>) -> Seq<char>
    decreases ls.len(),
{
    if ls.len() == 0 {
        seq![]
    } else if ls.len() == 1 {
        ls[0]
    } else {
        join_lines(ls.drop_last()) + seq!['\n'] + ls.last()
    }
}

/// `s` begins with `p`.
pub open spec fn starts_with(s: Seq<char>, p: Seq<char>) -> bool {
    p.len() <= s.len() && s.take(p.len() as int) == p
}

/// `p` occurs in `s` at index `i`.
pub open spec fn occurs_at(s: Seq<char>, p: Seq<char>, i: int) -> bool {
    0 <= i && i + p.len() <= s.len() && s.subrange(i, i + p.len()) == p
}

/// The first index at or after `i` where `p` occurs in `s`, as `str::find` finds it.
pub open spec fn find_from(s: Seq<char>, p: Seq<char>, i: int) -> Option<int>
    decreases s.len() + 1 - i,
{
    if i < 0 || i + p.len() > s.len() {
        None
    } else if occurs_at(s, p, i) {
        Some(i)
    } else {
        find_from(s, p, i + 1)
    }
}

/// The first index where `p` occurs in `s`.
pub open spec fn find(s: Seq<char>, p: Seq<char>) -> Option<int> {
    find_from(s, p, 0)
}

// ---------------------------------------------------------------------------
// Lemmas
// ---------------------------------------------------------------------------

/// A text whose first and last characters are not white space is its own trim.
pub proof fn lemma_trim_identity(s: Seq<char>)
    requires
        s.len() > 0,
        !is_white_space(s[0]),
        !is_white_space(s.last()),
    ensures
        trim(s) == s,
{
}

/// Skipping `a` characters that are not `c` moves the index of `c` by `a`.
pub proof fn lemma_index_of_skip(s: Seq<char>, c: char, a: int)
    requires
        0 <= a <= s.len(),
        forall|j: int| 0 <= j < a ==> s[j] != c,
    ensures
        index_of(s, c) == a + index_of(s.skip(a), c),
    decreases a,
{
    if a > 0 {
        lemma_index_of_skip(s.drop_first(), c, a - 1);
        assert(s.drop_first().skip(a - 1) =~= s.skip(a));
    } else {
        assert(s.skip(0) =~= s);
    }
}

/// `index_of` never passes the end of the text, and what it finds is `c`.
pub proof fn lemma_index_of_bounds(s: Seq<char>, c: char)
    ensures
        index_of(s, c) <= s.len(),
        index_of(s, c) < s.len() ==> s[index_of(s, c) as int] == c,
        forall|j: int| 0 <= j < index_of(s, c) ==> s[j] != c,
    decreases s.len(),
{
    if s.len() > 0 && s[0] != c {
        lemma_index_of_bounds(s.drop_first(), c);
        assert forall|j: int| 0 <= j < index_of(s, c) implies s[j] != c by {
            if j > 0 {
                assert(s[j] == s.drop_first()[j - 1]);
            }
        }
    }
}

/// A text made of `x`, a line feed and `y`, where `x` holds no line feed,
/// has the line `x` (without a final carriage return) followed by the lines of `y`.
pub proof fn lemma_lines_split(x: Seq<char>, y: Seq<char>)
    requires
        forall|j: int| 0 <= j < x.len() ==> x[j] != '\n',
    ensures
        lines(x + seq!['\n'] + y) == seq![strip_cr(x)] + lines(y),
{
    let s = x + seq!['\n'] + y;
    assert forall|j: int| 0 <= j < x.len() implies s[j] != '\n' by {
        assert(s[j] == x[j]);
    }
    lemma_index_of_skip(s, '\n', x.len() as int);
    assert(s.skip(x.len() as int)[0] == '\n');
    assert(index_of(s, '\n') == x.len());
    assert(s.take(x.len() as int) =~= x);
    assert(s.skip(x.len() + 1 as int) =~= y);
}

/// A text that is empty or ends with a line feed splits into its own lines
/// followed by those of what comes after it.
pub proof fn lemma_lines_concat(p: Seq<char>, q: Seq<char>)
    requires
        p.len() == 0 || p.last() == '\n',
    ensures
        lines(p + q) == lines(p) + lines(q),
    decreases p.len(),
{
    if p.len() == 0 {
        assert(p + q =~= q);
        assert(lines(p) + lines(q) =~= lines(q));
    } else {
        lemma_index_of_bounds(p, '\n');
        let k = index_of(p, '\n') as int;
        if k == p.len() {
            assert(p[p.len() - 1] != '\n');
        }
        let p1 = p.take(k);
        let p2 = p.skip(k + 1);
        assert forall|j: int| 0 <= j < p1.len() implies p1[j] != '\n' by {}
        assert(p =~= p1 + seq!['\n'] + p2);
        assert(p + q =~= p1 + seq!['\n'] + (p2 + q));
        lemma_lines_split(p1, p2 + q);
        lemma_lines_split(p1, p2);
        if p2.len() > 0 {
            assert(p2.last() == p.last());
        }
        lemma_lines_concat(p2, q);
        assert(seq![strip_cr(p1)] + (lines(p2) + lines(q)) =~= (seq![strip_cr(p1)] + lines(p2))
            + lines(q));
    }
}

/// A text that does not end with a line break, followed by a line feed and
/// more, splits into its own lines followed by those of the rest.
pub proof fn lemma_lines_append(b: Seq<char>, y: Seq<char>)
    requires
        b.len() > 0,
        b.last() != '\n',
        b.last() != '\r',
    ensures
        lines(b + seq!['\n'] + y) == lines(b) + lines(y),
    decreases b.len(),
{
    lemma_index_of_bounds(b, '\n');
    let k = index_of(b, '\n') as int;
    if k == b.len() {
        assert forall|j: int| 0 <= j < b.len() implies b[j] != '\n' by {}
        lemma_lines_split(b, y);
        assert(b.take(k) =~= b);
        assert(lines(b) == seq![b]);
    } else {
        let b1 = b.take(k);
        let b2 = b.skip(k + 1);
        assert forall|j: int| 0 <= j < b1.len() implies b1[j] != '\n' by {}
        assert(b =~= b1 + seq!['\n'] + b2);
        assert(b2.len() > 0);
        assert(b2.last() == b.last());
        assert(b + seq!['\n'] + y =~= b1 + seq!['\n'] + (b2 + seq!['\n'] + y));
        lemma_lines_split(b1, b2 + seq!['\n'] + y);
        lemma_lines_split(b1, b2);
        lemma_lines_append(b2, y);
        assert(seq![strip_cr(b1)] + (lines(b2) + lines(y)) =~= (seq![strip_cr(b1)] + lines(b2))
            + lines(y));
    }
}

/// What `find_from` returns is an occurrence, and nothing before it from `i` on is one.
pub proof fn lemma_find_from(s: Seq<char>, p: Seq<char>, i: int)
    requires
        0 <= i,
    ensures
        find_from(s, p, i) matches Some(k) ==> i <= k && occurs_at(s, p, k) && forall|j: int|
            i <= j < k ==> !occurs_at(s, p, j),
        find_from(s, p, i) is None ==> forall|j: int| i <= j ==> !occurs_at(s, p, j),
    decreases s.len() + 1 - i,
{
    if i + p.len() <= s.len() && !occurs_at(s, p, i) {
        lemma_find_from(s, p, i + 1);
    }
}

/// Searching a slice `s[from..to]` is searching `s[..to]` from `from` on.
pub proof fn lemma_find_shift(s: Seq<char>, p: Seq<char>, from: int, to: int, i: int)
    requires
        0 <= from <= to <= s.len(),
        0 <= i,
    ensures
        find_from(s.take(to), p, from + i) == (match find_from(s.subrange(from, to), p, i) {
            Some(k) => Some(k + from),
            None => None,
        }),
    decreases to - from + 1 - i,
{
    let t = s.take(to);
    let l = s.subrange(from, to);
    if i + p.len() <= l.len() {
        assert(t.subrange(from + i, from + i + p.len()) =~= l.subrange(i, i + p.len()));
        if !occurs_at(l, p, i) {
            lemma_find_shift(s, p, from, to, i + 1);
            assert(from + (i + 1) == from + i + 1);
        }
    }
}

// ---------------------------------------------------------------------------
// Executable primitives
// ---------------------------------------------------------------------------

#[verifier::external_body]
fn string_push(s: &mut String, c: char)
    ensures
        final(s)@ == old(s)@.push(c),
{
    s.push(c);
}

/// The characters of `s`.
pub fn chars_of(s: &str) -> (v: Vec<char>)
    ensures
        v@ == s@,
{
    let mut v: Vec<char> = Vec::new();
    for c in it: s.chars()
        invariant
            v@ == it.seq().take(it.index() as int),
            it.seq() == s@,
    {
        v.push(c);
    }
    v
}

/// Appends the characters `s[from..to]` to `out`.
pub fn push_chars(out: &mut String, s: &[char], from: usize, to: usize)
    requires
        from <= to <= s@.len(),
    ensures
        final(out)@ == old(out)@ + s@.subrange(from as int, to as int),
{
    let mut i = from;
    while i < to
        invariant
            from <= i <= to <= s@.len(),
            out@ == old(out)@ + s@.subrange(from as int, i as int),
        decreases to - i,
    {
        string_push(out, s[i]);
        i = i + 1;
        assert(s@.subrange(from as int, i as int) =~= s@.subrange(from as int, i - 1).push(
            s@[i - 1],
        ));
    }
}

/// The string made of the characters `s[from..to]`.
pub fn string_of(s: &[char], from: usize, to: usize) -> (r: String)
    requires
        from <= to <= s@.len(),
    ensures
        r@ == s@.subrange(from as int, to as int),
{
    let mut r = String::new();
    push_chars(&mut r, s, from, to);
    assert(r@ =~= s@.subrange(from as int, to as int));
    r
}

/// The string made of the characters of `s`.
pub fn string_from(s: &[char]) -> (r: String)
    ensures
        r@ == s@,
{
    let r = string_of(s, 0, s.len());
    assert(s@.subrange(0, s@.len() as int) =~= s@);
    r
}

/// Appends one character to `out`.
pub fn push_char(out: &mut String, c: char)
    ensures
        final(out)@ == old(out)@.push(c),
{
    string_push(out, c);
}

/// Whether `c` is white space, as `char::is_whitespace` decides it.
pub fn is_whitespace(c: char) -> (b: bool)
    ensures
        b == is_white_space(c),
{
    let x: u32 = c as u32;
    (0x09 <= x && x <= 0x0D) || x == 0x20 || x == 0x85 || x == 0xA0 || x == 0x1680 || (0x2000
        <= x && x <= 0x200A) || x == 0x2028 || x == 0x2029 || x == 0x202F || x == 0x205F || x
        == 0x3000
}

/// The bounds of `s[from..to]` trimmed of white space at both ends.
pub fn trim_bounds(s: &[char], from: usize, to: usize) -> (r: (usize, usize))
    requires
        from <= to <= s@.len(),
    ensures
        from <= r.0 <= r.1 <= to,
        s@.subrange(r.0 as int, to as int) == trim_start(s@.subrange(from as int, to as int)),
        s@.subrange(r.0 as int, r.1 as int) == trim(s@.subrange(from as int, to as int)),
{
    let ghost whole = s@.subrange(from as int, to as int);
    let mut a = from;
    while a < to && is_whitespace(s[a])
        invariant
            from <= a <= to <= s@.len(),
            trim_start(whole) == trim_start(s@.subrange(a as int, to as int)),
        decreases to - a,
    {
        assert(s@.subrange(a as int, to as int).drop_first() =~= s@.subrange(a + 1, to as int));
        a = a + 1;
    }
    assert(trim_start(s@.subrange(a as int, to as int)) == s@.subrange(a as int, to as int));
    let mut b = to;
    while b > a && is_whitespace(s[b - 1])
        invariant
            from <= a <= b <= to <= s@.len(),
            trim(whole) == trim_end(s@.subrange(a as int, b as int)),
        decreases b - a,
    {
        assert(s@.subrange(a as int, b as int).drop_last() =~= s@.subrange(a as int, b - 1));
        b = b - 1;
    }
    (a, b)
}

/// The end of `s[from..to]` trimmed of trailing white space.
pub fn trim_end_bound(s: &[char], from: usize, to: usize) -> (r: usize)
    requires
        from <= to <= s@.len(),
    ensures
        from <= r <= to,
        s@.subrange(from as int, r as int) == trim_end(s@.subrange(from as int, to as int)),
{
    let mut b = to;
    while b > from && is_whitespace(s[b - 1])
        invariant
            from <= b <= to <= s@.len(),
            trim_end(s@.subrange(from as int, to as int)) == trim_end(
                s@.subrange(from as int, b as int),
            ),
        decreases b - from,
    {
        assert(s@.subrange(from as int, b as int).drop_last() =~= s@.subrange(
            from as int,
            b - 1,
        ));
        b = b - 1;
    }
    b
}

/// The next line of `s` starting at `pos`: the line is `s[pos..end]` and the
/// lines after it start at `next`.
pub fn next_line(s: &[char], pos: usize) -> (r: (usize, usize))
    requires
        pos < s@.len(),
    ensures
        pos <= r.0 <= r.1 <= s@.len(),
        pos < r.1,
        lines(s@.skip(pos as int)) == seq![s@.subrange(pos as int, r.0 as int)] + lines(
            s@.skip(r.1 as int),
        ),
        forall|j: int| pos <= j < r.0 ==> s@[j] != '\n',
        (r.0 == s@.len() && r.1 == s@.len()) || (s@[r.1 - 1] == '\n' && (r.1 == r.0 + 1 || (r.1
            == r.0 + 2 && s@[r.0 as int] == '\r'))),
{
    let ghost rest = s@.skip(pos as int);
    let mut j = pos;
    while j < s.len() && s[j] != '\n'
        invariant
            pos <= j <= s@.len(),
            forall|k: int| pos <= k < j ==> s@[k] != '\n',
        decreases s@.len() - j,
    {
        j = j + 1;
    }
    proof {
        assert forall|k: int| 0 <= k < j - pos implies rest[k] != '\n' by {
            assert(rest[k] == s@[pos + k]);
        }
        lemma_index_of_skip(rest, '\n', j - pos);
        assert(rest.skip(j - pos) =~= s@.skip(j as int));
    }
    if j < s.len() {
        proof {
            assert(s@.skip(j as int)[0] == '\n');
            assert(index_of(rest, '\n') == j - pos);
            assert(rest.take(j - pos) =~= s@.subrange(pos as int, j as int));
            assert(rest.skip(j - pos + 1) =~= s@.skip(j + 1));
        }
        if j > pos && s[j - 1] == '\r' {
            assert(strip_cr(s@.subrange(pos as int, j as int)) =~= s@.subrange(
                pos as int,
                j - 1,
            ));
            (j - 1, j + 1)
        } else {
            (j, j + 1)
        }
    } else {
        proof {
            assert(index_of(rest, '\n') == j - pos);
            assert(rest =~= s@.subrange(pos as int, j as int));
            assert(s@.skip(j as int) =~= Seq::<char>::empty());
        }
        (j, j)
    }
}

/// Whether `s[from..]` begins with `p`.
pub fn starts_with_at(s: &[char], from: usize, p: &[char]) -> (b: bool)
    requires
        from <= s@.len(),
    ensures
        b == starts_with(s@.skip(from as int), p@),
{
    let n = s.len();
    if p.len() > n - from {
        return false;
    }
    let mut i: usize = 0;
    while i < p.len()
        invariant
            n == s@.len(),
            from + p@.len() <= s@.len(),
            i <= p@.len(),
            forall|k: int| 0 <= k < i ==> s@[from + k] == p@[k],
        decreases p@.len() - i,
    {
        if s[from + i] != p[i] {
            assert(s@.skip(from as int).take(p@.len() as int)[i as int] != p@[i as int]);
            return false;
        }
        i = i + 1;
    }
    assert(s@.skip(from as int).take(p@.len() as int) =~= p@);
    true
}

/// The first index at or after `from` where `p` occurs in `s[..to]`.
pub fn find_in(s: &[char], to: usize, p: &[char], from: usize) -> (r: Option<usize>)
    requires
        to <= s@.len(),
        from <= to,
    ensures
        r matches Some(k) ==> find_from(s@.take(to as int), p@, from as int) == Some(k as int),
        r is None ==> find_from(s@.take(to as int), p@, from as int) is None,
{
    let ghost t = s@.take(to as int);
    let mut i = from;
    while p.len() <= to - i
        invariant
            from <= i <= to <= s@.len(),
            t == s@.take(to as int),
            find_from(t, p@, from as int) == find_from(t, p@, i as int),
        decreases to - i,
    {
        let hit = starts_with_at(s, i, p);
        assert(t.subrange(i as int, i + p@.len()) =~= s@.skip(i as int).take(p@.len() as int));
        if hit {
            return Some(i);
        }
        if i == to {
            assert(find_from(t, p@, i + 1) is None);
            return None;
        }
        i = i + 1;
    }
    None
}

} // verus!
