//! Properties that span several functions of the library.

use vstd::prelude::*;
use crate::book::{
    book_txt, chapter_txt, chapters_txt, split_lines, split_start, split_step, split_text,
    txt_header, SplitState,
};
use crate::heading::{chapter_heading, numbered_heading};
use crate::gui::extra_of;
use crate::decode::{bom_of, decoded_text, TextEncoding};
use vstd::utf8::{decode_utf8, encode_utf8, encode_utf8_decode_utf8, encode_utf8_valid_utf8, valid_utf8};
use crate::meta::{
    after_tag, ascii_author_tag, author_in, author_of, author_of_line, author_tag, first_lines,
    lemma_first_lines_cons, title_in, title_of, title_of_line,
};
use crate::text::{
    find, is_white_space, join_lines, lemma_find_from, lemma_index_of_bounds,
    lemma_index_of_skip, lemma_lines_append, lemma_lines_concat, lemma_lines_split, lemma_trim_identity, lines, occurs_at, strip_cr, trim,
    trim_end, trim_start,
};

verus! {

/// `p` occurs nowhere in `s`.
pub open spec fn absent(s: Seq<char>, p: Seq<char>) -> bool {
    forall|j: int| !occurs_at(s, p, j)
}

/// No character of `s` is `c`.
pub open spec fn free_of(s: Seq<char>, c: char) -> bool {
    forall|j: int| 0 <= j < s.len() ==> s[j] != c
}

/// The title line `《t》` that a rendered book opens with.
pub open spec fn title_line(t: Seq<char>) -> Seq<char> {
    seq!['《'] + t + seq!['》']
}

/// The author line `作者：a` of a rendered book.
pub open spec fn author_line(a: Seq<char>) -> Seq<char> {
    author_tag() + a
}

proof fn lemma_tag_not_in_title_line(t: Seq<char>, tag: Seq<char>)
    requires
        tag.len() == 3,
        tag[0] == '作',
        tag[2] != '》',
        absent(t, tag),
    ensures
        find(title_line(t), tag) is None,
{
    let x = title_line(t);
    lemma_find_from(x, tag, 0);
    if let Some(k) = find(x, tag) {
        assert(x.subrange(k, k + 3)[0] == tag[0]);
        assert(x[k] == '作');
        assert(k >= 1);
        assert(x.subrange(k, k + 3)[2] == tag[2]);
        assert(x[k + 2] == tag[2]);
        assert(k + 2 < x.len() - 1);
        assert(t.subrange(k - 1, k + 2) =~= x.subrange(k, k + 3));
        assert(occurs_at(t, tag, k - 1));
    }
}

/// A rendered book with a title opens with its title line.
proof fn lemma_lines_of_titled(t: Seq<char>, a: Seq<char>, cs: Seq<(Seq<char>, Seq<char>)>)
    requires
        t.len() > 0,
        free_of(t, '\n'),
    ensures
        lines(book_txt(t, a, cs)) == seq![title_line(t)] + lines(
            txt_header(Seq::<char>::empty(), a) + chapters_txt(cs),
        ),
{
    let x = title_line(t);
    let y = txt_header(Seq::<char>::empty(), a) + chapters_txt(cs);
    assert forall|j: int| 0 <= j < x.len() implies x[j] != '\n' by {
        if 1 <= j < x.len() - 1 {
            assert(x[j] == t[j - 1]);
        }
    }
    assert(book_txt(t, a, cs) =~= x + seq!['\n'] + y);
    lemma_lines_split(x, y);
    assert(strip_cr(x) == x);
}

/// What a book is rendered to without title, when it names an author, opens
/// with its author line.
proof fn lemma_lines_of_authored(a: Seq<char>, cs: Seq<(Seq<char>, Seq<char>)>)
    requires
        a.len() > 0,
        free_of(a, '\n'),
        !is_white_space(a.last()),
    ensures
        lines(txt_header(Seq::<char>::empty(), a) + chapters_txt(cs)) == seq![author_line(a)]
            + lines(seq!['\n'] + chapters_txt(cs)),
{
    let x = author_line(a);
    let y = seq!['\n'] + chapters_txt(cs);
    assert forall|j: int| 0 <= j < x.len() implies x[j] != '\n' by {
        if j >= 3 {
            assert(x[j] == a[j - 3]);
        }
    }
    assert(txt_header(Seq::<char>::empty(), a) + chapters_txt(cs) =~= x + seq!['\n'] + y);
    lemma_lines_split(x, y);
    assert(x.last() == a.last());
    assert(strip_cr(x) == x);
}

proof fn lemma_author_of_author_line(a: Seq<char>)
    requires
        a.len() > 0,
        !is_white_space(a[0]),
        !is_white_space(a.last()),
    ensures
        author_of_line(author_line(a)) == a,
{
    let x = author_line(a);
    assert(x.subrange(0, 3) =~= author_tag());
    assert(occurs_at(x, author_tag(), 0));
    assert(find(x, author_tag()) == Some(0int));
    assert(x.skip(3) =~= a);
    lemma_trim_identity(a);
}

/// Title round trip: the title written at the top of a book rendered as text
/// is the title read back from that text, when it is not empty and holds
/// neither a line feed nor `》`.
pub proof fn lemma_title_round_trip(
    title: Seq<char>,
    author: Seq<char>,
    chapters: Seq<(Seq<char>, Seq<char>)>,
)
    requires
        title.len() > 0,
        free_of(title, '\n'),
        free_of(title, '》'),
    ensures
        title_of(book_txt(title, author, chapters)) == Some(title),
{
    let rest = lines(txt_header(Seq::<char>::empty(), author) + chapters_txt(chapters));
    lemma_lines_of_titled(title, author, chapters);
    lemma_first_lines_cons(title_line(title), rest, 20);
    let x = title_line(title);
    lemma_trim_identity(x);
    let r = x.drop_first();
    assert(r =~= title + seq!['》']);
    assert forall|j: int| 0 <= j < title.len() implies r[j] != '》' by {
        assert(r[j] == title[j]);
    }
    lemma_index_of_skip(r, '》', title.len() as int);
    assert(r.skip(title.len() as int)[0] == '》');
    assert(r.take(title.len() as int) =~= title);
    assert(title_of_line(x) == title);
}

/// Author round trip: the author written in a book rendered as text is the
/// author read back from that text, when it is not empty, holds no line
/// feed, does not begin or end with white space, and the title line before it
/// holds neither `作者：` nor `作者:`.
pub proof fn lemma_author_round_trip(
    title: Seq<char>,
    author: Seq<char>,
    chapters: Seq<(Seq<char>, Seq<char>)>,
)
    requires
        author.len() > 0,
        free_of(author, '\n'),
        !is_white_space(author[0]),
        !is_white_space(author.last()),
        free_of(title, '\n'),
        absent(title, author_tag()),
        absent(title, ascii_author_tag()),
    ensures
        author_of(book_txt(title, author, chapters)) == author,
{
    let after = lines(seq!['\n'] + chapters_txt(chapters));
    lemma_lines_of_authored(author, chapters);
    lemma_author_of_author_line(author);
    let from_author = seq![author_line(author)] + after;
    lemma_first_lines_cons(author_line(author), after, 19);
    lemma_first_lines_cons(author_line(author), after, 20);
    if title.len() > 0 {
        lemma_lines_of_titled(title, author, chapters);
        lemma_first_lines_cons(title_line(title), from_author, 20);
        lemma_tag_not_in_title_line(title, author_tag());
        lemma_tag_not_in_title_line(title, ascii_author_tag());
        assert(after_tag(title_line(title), author_tag()).len() == 0);
        assert(author_of_line(title_line(title)).len() == 0);
        let f = first_lines(lines(book_txt(title, author, chapters)), 20);
        assert(f.drop_first() == first_lines(from_author, 19));
        assert(author_in(first_lines(from_author, 19)) == author);
        assert(author_in(f) == author_in(f.drop_first()));
    } else {
        assert(book_txt(title, author, chapters) =~= txt_header(Seq::<char>::empty(), author)
            + chapters_txt(chapters));
        assert(author_in(first_lines(from_author, 20)) == author);
    }
}

/// The line is a chapter heading once trimmed.
pub open spec fn is_heading_line(l: Seq<char>) -> bool {
    chapter_heading(trim(l))
}

/// How many of `ls` are heading lines.
pub open spec fn heading_count(ls: Seq<Seq<char>>) -> nat
    decreases ls.len(),
{
    if ls.len() == 0 {
        0
    } else {
        heading_count(ls.drop_last()) + (if is_heading_line(ls.last()) {
            1nat
        } else {
            0nat
        })
    }
}

/// Every title in `cs` is a chapter heading.
pub open spec fn all_titles_headings(cs: Seq<(Seq<char>, Seq<char>)>) -> bool {
    forall|i: int| 0 <= i < cs.len() ==> chapter_heading(#[trigger] cs[i].0)
}

proof fn lemma_split_shape(ls: Seq<Seq<char>>, d: Seq<char>)
    ensures
        ({
            let st = split_lines(ls, d);
            &&& st.first <==> heading_count(ls) == 0
            &&& st.first ==> st.chapters.len() == 0 && st.title == d
            &&& !st.first ==> st.chapters.len() + 1 == heading_count(ls) && chapter_heading(
                st.title,
            )
            &&& all_titles_headings(st.chapters)
        }),
    decreases ls.len(),
{
    if ls.len() > 0 {
        lemma_split_shape(ls.drop_last(), d);
        let st = split_lines(ls.drop_last(), d);
        let next = split_step(st, ls.last());
        assert(split_lines(ls, d) == next);
        if is_heading_line(ls.last()) && !st.first {
            assert forall|i: int| 0 <= i < next.chapters.len() implies chapter_heading(
                #[trigger] next.chapters[i].0,
            ) by {
                if i < st.chapters.len() {
                    assert(next.chapters[i] == st.chapters[i]);
                }
            }
        }
    }
}

/// Chapter count: when a text has heading lines, it is split into exactly
/// one chapter per heading line, each titled by a chapter heading.
pub proof fn lemma_one_chapter_per_heading(text: Seq<char>, default_title: Seq<char>)
    requires
        heading_count(lines(text)) > 0,
    ensures
        split_text(text, default_title).len() == heading_count(lines(text)),
        all_titles_headings(split_text(text, default_title)),
{
    let st = split_lines(lines(text), default_title);
    lemma_split_shape(lines(text), default_title);
    let r = split_text(text, default_title);
    assert(r == st.chapters.push((st.title, st.body)));
    assert forall|i: int| 0 <= i < r.len() implies chapter_heading(#[trigger] r[i].0) by {
        if i < st.chapters.len() {
            assert(r[i] == st.chapters[i]);
        }
    }
}

/// A text without heading lines gives at most one chapter, titled by the
/// default title.
pub proof fn lemma_no_heading_default_title(text: Seq<char>, default_title: Seq<char>)
    requires
        heading_count(lines(text)) == 0,
    ensures
        split_text(text, default_title).len() <= 1,
        split_text(text, default_title).len() == 1 ==> split_text(text, default_title)[0].0
            == default_title,
{
    lemma_split_shape(lines(text), default_title);
}

proof fn lemma_plain_body(ls: Seq<Seq<char>>, d: Seq<char>)
    requires
        ls.len() > 0,
        ls[0].len() > 0,
        heading_count(ls) == 0,
    ensures
        split_lines(ls, d) == (SplitState {
            chapters: seq![],
            title: d,
            body: join_lines(ls),
            first: true,
        }),
        join_lines(ls).len() > 0,
    decreases ls.len(),
{
    if ls.len() == 1 {
        assert(ls.drop_last() =~= Seq::<Seq<char>>::empty());
        assert(split_lines(ls.drop_last(), d) == split_start(d));
        assert(ls.last() == ls[0]);
        assert(!is_heading_line(ls.last()));
        assert(split_lines(ls, d) == split_step(split_start(d), ls.last()));
    } else {
        assert(ls.drop_last()[0] == ls[0]);
        lemma_plain_body(ls.drop_last(), d);
    }
}

/// Text without headings keeps its lines: when no line of a text is a
/// heading and its first line is not empty, the text is one chapter with the
/// default title whose body is the text's lines, untrimmed, joined by line feeds.
pub proof fn lemma_plain_text_single_chapter(text: Seq<char>, default_title: Seq<char>)
    requires
        default_title.len() > 0,
        heading_count(lines(text)) == 0,
        lines(text).len() > 0,
        lines(text)[0].len() > 0,
    ensures
        split_text(text, default_title) == seq![(default_title, join_lines(lines(text)))],
{
    lemma_plain_body(lines(text), default_title);
    assert(split_text(text, default_title) =~= seq![(default_title, join_lines(lines(text)))]);
}

proof fn lemma_trim_start_head(s: Seq<char>)
    ensures
        trim_start(s).len() > 0 ==> !is_white_space(trim_start(s)[0]),
    decreases s.len(),
{
    if s.len() > 0 && is_white_space(s[0]) {
        lemma_trim_start_head(s.drop_first());
    }
}

proof fn lemma_trim_end_shape(s: Seq<char>)
    ensures
        trim_end(s).len() <= s.len(),
        trim_end(s) == s.take(trim_end(s).len() as int),
        trim_end(s).len() > 0 ==> !is_white_space(trim_end(s).last()),
    decreases s.len(),
{
    if s.len() > 0 && is_white_space(s.last()) {
        lemma_trim_end_shape(s.drop_last());
        assert(s.drop_last().take(trim_end(s).len() as int) =~= s.take(trim_end(s).len() as int));
    } else {
        assert(s.take(s.len() as int) =~= s);
    }
}

/// A trimmed text neither begins nor ends with white space.
pub proof fn lemma_trim_shape(s: Seq<char>)
    ensures
        trim(s).len() > 0 ==> !is_white_space(trim(s)[0]) && !is_white_space(trim(s).last()),
{
    lemma_trim_start_head(s);
    lemma_trim_end_shape(trim_start(s));
    if trim(s).len() > 0 {
        assert(trim(s)[0] == trim_start(s)[0]);
    }
}

proof fn lemma_after_tag_shape(l: Seq<char>, tag: Seq<char>)
    ensures
        after_tag(l, tag).len() > 0 ==> !is_white_space(after_tag(l, tag)[0])
            && !is_white_space(after_tag(l, tag).last()),
{
    if let Some(p) = find(l, tag) {
        lemma_trim_shape(l.skip(p + tag.len()));
    }
}

proof fn lemma_author_in_shape(ls: Seq<Seq<char>>)
    ensures
        author_in(ls).len() > 0 ==> !is_white_space(author_in(ls)[0]) && !is_white_space(
            author_in(ls).last(),
        ),
    decreases ls.len(),
{
    if ls.len() > 0 {
        lemma_after_tag_shape(ls[0], author_tag());
        lemma_after_tag_shape(ls[0], ascii_author_tag());
        lemma_author_in_shape(ls.drop_first());
    }
}

proof fn lemma_title_in_shape(ls: Seq<Seq<char>>)
    ensures
        title_in(ls) matches Some(t) ==> t.len() > 0 && free_of(t, '》'),
    decreases ls.len(),
{
    if ls.len() > 0 {
        let tr = trim(ls[0]);
        if tr.len() > 0 && tr[0] == '《' {
            lemma_index_of_bounds(tr.drop_first(), '》');
        }
        lemma_title_in_shape(ls.drop_first());
    }
}

/// Found metadata is clean: an author read from a text neither begins nor
/// ends with white space, and a title read from a text is not empty and
/// holds no `》`.
pub proof fn lemma_found_metadata_shape(text: Seq<char>)
    ensures
        author_of(text).len() > 0 ==> !is_white_space(author_of(text)[0]) && !is_white_space(
            author_of(text).last(),
        ),
        title_of(text) matches Some(t) ==> t.len() > 0 && free_of(t, '》'),
{
    lemma_author_in_shape(first_lines(lines(text), 20));
    lemma_title_in_shape(first_lines(lines(text), 20));
}

/// The splitter continued from the state `st` through the lines `ls`.
pub open spec fn split_from(st: SplitState, ls: Seq<Seq<char>>) -> SplitState
    decreases ls.len(),
{
    if ls.len() == 0 {
        st
    } else {
        split_step(split_from(st, ls.drop_last()), ls.last())
    }
}

proof fn lemma_split_from_concat(st: SplitState, b: Seq<Seq<char>>, c: Seq<Seq<char>>)
    ensures
        split_from(st, b + c) == split_from(split_from(st, b), c),
    decreases c.len(),
{
    if c.len() == 0 {
        assert(b + c =~= b);
    } else {
        lemma_split_from_concat(st, b, c.drop_last());
        assert((b + c).drop_last() =~= b + c.drop_last());
        assert((b + c).last() == c.last());
    }
}

proof fn lemma_split_lines_from(ls: Seq<Seq<char>>, d: Seq<char>)
    ensures
        split_lines(ls, d) == split_from(split_start(d), ls),
    decreases ls.len(),
{
    if ls.len() > 0 {
        lemma_split_lines_from(ls.drop_last(), d);
    }
}

proof fn lemma_split_append(a: Seq<Seq<char>>, b: Seq<Seq<char>>, d: Seq<char>)
    ensures
        split_lines(a + b, d) == split_from(split_lines(a, d), b),
{
    lemma_split_lines_from(a + b, d);
    lemma_split_lines_from(a, d);
    lemma_split_from_concat(split_start(d), a, b);
}

/// None of `ls` is a heading line.
pub open spec fn no_heading_lines(ls: Seq<Seq<char>>) -> bool {
    forall|j: int| 0 <= j < ls.len() ==> !is_heading_line(#[trigger] ls[j])
}

proof fn lemma_no_heading_concat(p: Seq<Seq<char>>, q: Seq<Seq<char>>)
    requires
        no_heading_lines(p),
        no_heading_lines(q),
    ensures
        no_heading_lines(p + q),
{
    assert forall|j: int| 0 <= j < (p + q).len() implies !is_heading_line(#[trigger] (p + q)[j]) by {
        if j < p.len() {
            assert((p + q)[j] == p[j]);
        } else {
            assert((p + q)[j] == q[j - p.len()]);
        }
    }
}

proof fn lemma_split_from_plain(st: SplitState, ls: Seq<Seq<char>>)
    requires
        no_heading_lines(ls),
    ensures
        split_from(st, ls).chapters == st.chapters,
        split_from(st, ls).title == st.title,
        split_from(st, ls).first == st.first,
    decreases ls.len(),
{
    if ls.len() > 0 {
        assert forall|j: int| 0 <= j < ls.drop_last().len() implies !is_heading_line(
            #[trigger] ls.drop_last()[j],
        ) by {
            assert(ls.drop_last()[j] == ls[j]);
        }
        lemma_split_from_plain(st, ls.drop_last());
        assert(!is_heading_line(ls[ls.len() - 1]));
    }
}

proof fn lemma_trim_end_first(y: Seq<char>)
    requires
        y.len() > 0,
        !is_white_space(y[0]),
    ensures
        trim_end(y).len() > 0,
        trim_end(y)[0] == y[0],
    decreases y.len(),
{
    if is_white_space(y.last()) {
        assert(y.len() > 1);
        assert(y.drop_last()[0] == y[0]);
        lemma_trim_end_first(y.drop_last());
    }
}

/// A line whose first character is not white space, `#`, `C` or `第` is no
/// heading line.
proof fn lemma_not_heading_start(y: Seq<char>)
    requires
        y.len() > 0,
        !is_white_space(y[0]),
        y[0] != '#',
        y[0] != 'C',
        y[0] != '第',
    ensures
        !is_heading_line(y),
{
    assert(trim_start(y) == y);
    lemma_trim_end_first(y);
    let t = trim(y);
    assert(t[0] == y[0]);
    if t.len() >= 2 {
        assert(t.take(2)[0] == t[0]);
    }
    if t.len() >= 8 {
        assert(t.take(8)[0] == t[0]);
    }
}

proof fn lemma_empty_not_heading()
    ensures
        !is_heading_line(Seq::<char>::empty()),
{
    assert(trim(Seq::<char>::empty()) =~= Seq::<char>::empty());
}

/// The lines of the header that a rendered book opens with are no headings,
/// and the header ends with a line feed.
proof fn lemma_header_lines(t: Seq<char>, a: Seq<char>)
    requires
        free_of(t, '\n'),
        free_of(a, '\n'),
    ensures
        no_heading_lines(lines(txt_header(t, a))),
        txt_header(t, a).len() > 0,
        txt_header(t, a).last() == '\n',
{
    let e = Seq::<char>::empty();
    let tp = if t.len() > 0 {
        title_line(t) + seq!['\n']
    } else {
        e
    };
    let ap = if a.len() > 0 {
        author_line(a) + seq!['\n']
    } else {
        e
    };
    assert(txt_header(t, a) =~= tp + (ap + seq!['\n']));
    lemma_lines_concat(tp, ap + seq!['\n']);
    lemma_lines_concat(ap, seq!['\n']);
    lemma_lines_split(e, e);
    assert(e + seq!['\n'] + e =~= seq!['\n']);
    lemma_empty_not_heading();
    assert(strip_cr(e) =~= e);
    assert(no_heading_lines(lines(seq!['\n'])));
    if t.len() > 0 {
        let x = title_line(t);
        assert forall|j: int| 0 <= j < x.len() implies x[j] != '\n' by {
            if 1 <= j < x.len() - 1 {
                assert(x[j] == t[j - 1]);
            }
        }
        lemma_lines_split(x, e);
        assert(x + seq!['\n'] + e =~= tp);
        assert(strip_cr(x) == x);
        lemma_not_heading_start(x);
    }
    assert(no_heading_lines(lines(tp)));
    if a.len() > 0 {
        let x = author_line(a);
        assert forall|j: int| 0 <= j < x.len() implies x[j] != '\n' by {
            if j >= 3 {
                assert(x[j] == a[j - 3]);
            }
        }
        lemma_lines_split(x, e);
        assert(x + seq!['\n'] + e =~= ap);
        assert(strip_cr(x)[0] == '作');
        lemma_not_heading_start(strip_cr(x));
    }
    assert(no_heading_lines(lines(ap)));
    lemma_no_heading_concat(lines(ap), lines(seq!['\n']));
    lemma_no_heading_concat(lines(tp), lines(ap + seq!['\n']));
}

/// A chapter that a rendering gives back: its title is a trimmed one-line
/// chapter heading, and no line of its body (without trailing white space)
/// is a heading line.
pub open spec fn renders_back(c: (Seq<char>, Seq<char>)) -> bool {
    &&& trim(c.0) == c.0
    &&& free_of(c.0, '\n')
    &&& chapter_heading(c.0)
    &&& no_heading_lines(lines(trim_end(c.1)))
}

/// The lines of a rendered chapter after its heading line.
pub open spec fn chapter_rest(c: (Seq<char>, Seq<char>)) -> Seq<Seq<char>> {
    lines(trim_end(c.1) + seq!['\n', '\n'])
}

proof fn lemma_heading_not_empty(s: Seq<char>)
    requires
        chapter_heading(s),
    ensures
        s.len() > 0,
{
}

proof fn lemma_chapter_lines(c: (Seq<char>, Seq<char>))
    requires
        renders_back(c),
    ensures
        lines(chapter_txt(c)) == seq![c.0] + chapter_rest(c),
        no_heading_lines(chapter_rest(c)),
{
    let e = Seq::<char>::empty();
    let b = trim_end(c.1);
    lemma_heading_not_empty(c.0);
    lemma_trim_shape(c.0);
    assert(chapter_txt(c) =~= c.0 + seq!['\n'] + (b + seq!['\n', '\n']));
    lemma_lines_split(c.0, b + seq!['\n', '\n']);
    assert(strip_cr(c.0) == c.0);
    lemma_lines_split(e, e);
    assert(e + seq!['\n'] + e =~= seq!['\n']);
    assert(strip_cr(e) =~= e);
    lemma_empty_not_heading();
    assert(no_heading_lines(lines(seq!['\n'])));
    if b.len() == 0 {
        lemma_lines_split(e, seq!['\n']);
        assert(b + seq!['\n', '\n'] =~= e + seq!['\n'] + seq!['\n']);
        assert(no_heading_lines(seq![e] + lines(seq!['\n']))) by {
            lemma_no_heading_concat(seq![e], lines(seq!['\n']));
        }
    } else {
        lemma_trim_end_shape(c.1);
        lemma_lines_append(b, seq!['\n']);
        assert(b + seq!['\n', '\n'] =~= b + seq!['\n'] + seq!['\n']);
        lemma_no_heading_concat(lines(b), lines(seq!['\n']));
    }
}

proof fn lemma_chapters_txt_end(cs: Seq<(Seq<char>, Seq<char>)>)
    ensures
        chapters_txt(cs).len() == 0 || chapters_txt(cs).last() == '\n',
{
}

/// The titles of a list of chapters.
pub open spec fn titles(cs: Seq<(Seq<char>, Seq<char>)>) -> Seq<Seq<char>> {
    cs.map_values(|c: (Seq<char>, Seq<char>)| c.0)
}

proof fn lemma_render_prefix(
    h: Seq<Seq<char>>,
    cs: Seq<(Seq<char>, Seq<char>)>,
    n: int,
    d: Seq<char>,
)
    requires
        no_heading_lines(h),
        0 <= n <= cs.len(),
        forall|i: int| 0 <= i < cs.len() ==> renders_back(#[trigger] cs[i]),
    ensures
        ({
            let st = split_lines(h + lines(chapters_txt(cs.take(n))), d);
            &&& n == 0 ==> st.first && st.chapters.len() == 0
            &&& n > 0 ==> !st.first && st.title == cs[n - 1].0 && titles(st.chapters) == titles(
                cs.take(n - 1),
            )
        }),
    decreases n,
{
    if n == 0 {
        assert(cs.take(0) =~= Seq::<(Seq<char>, Seq<char>)>::empty());
        assert(lines(chapters_txt(cs.take(0))) =~= Seq::<Seq<char>>::empty());
        assert(h + lines(chapters_txt(cs.take(0))) =~= h);
        lemma_split_lines_from(h, d);
        lemma_split_from_plain(split_start(d), h);
    } else {
        lemma_render_prefix(h, cs, n - 1, d);
        let p = chapters_txt(cs.take(n - 1));
        let c = cs[n - 1];
        assert(renders_back(c));
        assert(cs.take(n).drop_last() =~= cs.take(n - 1));
        assert(cs.take(n).last() == c);
        assert(chapters_txt(cs.take(n)) == p + chapter_txt(c));
        lemma_chapters_txt_end(cs.take(n - 1));
        lemma_lines_concat(p, chapter_txt(c));
        lemma_chapter_lines(c);
        let r = chapter_rest(c);
        assert(h + lines(chapters_txt(cs.take(n))) =~= (h + lines(p)) + (seq![c.0] + r));
        lemma_split_append(h + lines(p), seq![c.0] + r, d);
        let s0 = split_lines(h + lines(p), d);
        lemma_split_from_concat(s0, seq![c.0], r);
        assert(seq![c.0].drop_last() =~= Seq::<Seq<char>>::empty());
        assert(split_from(s0, seq![c.0].drop_last()) == s0);
        assert(seq![c.0].last() == c.0);
        assert(split_from(s0, seq![c.0]) == split_step(s0, c.0));
        let s1 = split_step(s0, c.0);
        lemma_split_from_plain(s1, r);
        if n - 1 == 0 {
            assert(titles(s1.chapters) =~= titles(cs.take(0)));
        } else {
            assert(cs.take(n - 1) =~= cs.take(n - 2).push(cs[n - 2]));
            assert(titles(s1.chapters) =~= titles(s0.chapters).push(s0.title));
            assert(titles(cs.take(n - 1)) =~= titles(cs.take(n - 2)).push(cs[n - 2].0));
        }
    }
}

/// Chapter title round trip: splitting the text that a book is rendered to
/// gives back the book's chapter titles, in order, when the book has a
/// chapter, its title and author hold no line feed, and every chapter is
/// titled by a trimmed one-line chapter heading with no heading line in its
/// body.
pub proof fn lemma_chapter_titles_round_trip(
    title: Seq<char>,
    author: Seq<char>,
    chapters: Seq<(Seq<char>, Seq<char>)>,
    default_title: Seq<char>,
)
    requires
        chapters.len() > 0,
        free_of(title, '\n'),
        free_of(author, '\n'),
        forall|i: int| 0 <= i < chapters.len() ==> renders_back(#[trigger] chapters[i]),
    ensures
        titles(split_text(book_txt(title, author, chapters), default_title)) == titles(chapters),
{
    let n = chapters.len() as int;
    lemma_header_lines(title, author);
    let h = lines(txt_header(title, author));
    lemma_lines_concat(txt_header(title, author), chapters_txt(chapters));
    assert(chapters.take(n) =~= chapters);
    lemma_render_prefix(h, chapters, n, default_title);
    let st = split_lines(lines(book_txt(title, author, chapters)), default_title);
    assert(renders_back(chapters[n - 1]));
    lemma_heading_not_empty(chapters[n - 1].0);
    assert(chapters =~= chapters.take(n - 1).push(chapters[n - 1]));
    assert(titles(chapters) =~= titles(chapters.take(n - 1)).push(chapters[n - 1].0));
    assert(titles(split_text(book_txt(title, author, chapters), default_title)) =~= titles(
        st.chapters,
    ).push(st.title));
}

proof fn lemma_plain_from(st: SplitState, ls: Seq<Seq<char>>)
    requires
        st.body.len() == 0,
        ls.len() > 0,
        ls[0].len() > 0,
        no_heading_lines(ls),
    ensures
        split_from(st, ls).body == join_lines(ls),
        join_lines(ls).len() > 0,
    decreases ls.len(),
{
    if ls.len() == 1 {
        assert(ls.drop_last() =~= Seq::<Seq<char>>::empty());
        assert(split_from(st, ls.drop_last()) == st);
        assert(!is_heading_line(ls[0]));
    } else {
        assert forall|j: int| 0 <= j < ls.drop_last().len() implies !is_heading_line(
            #[trigger] ls.drop_last()[j],
        ) by {
            assert(ls.drop_last()[j] == ls[j]);
        }
        assert(ls.drop_last()[0] == ls[0]);
        lemma_plain_from(st, ls.drop_last());
        assert(!is_heading_line(ls[ls.len() - 1]));
    }
}

/// A heading keeps the lines under it verbatim: when the text `t` before a
/// heading line `h` is empty or has a heading of its own, and the text `b`
/// after it has no heading line and a non-empty first line, the last chapter
/// is titled by the trimmed heading and its body is the lines of `b`,
/// untrimmed (indentation included), joined by line feeds.
pub proof fn lemma_heading_keeps_body_lines(
    t: Seq<char>,
    h: Seq<char>,
    b: Seq<char>,
    default_title: Seq<char>,
)
    requires
        t.len() == 0 || (t.last() == '\n' && heading_count(lines(t)) > 0),
        free_of(h, '\n'),
        is_heading_line(strip_cr(h)),
        no_heading_lines(lines(b)),
        lines(b).len() > 0,
        lines(b)[0].len() > 0,
    ensures
        split_text(t + h + seq!['\n'] + b, default_title).len() > 0,
        split_text(t + h + seq!['\n'] + b, default_title).last() == (
            trim(strip_cr(h)),
            join_lines(lines(b)),
        ),
{
    let hl = strip_cr(h);
    assert forall|j: int| 0 <= j < h.len() implies h[j] != '\n' by {}
    assert(t + h + seq!['\n'] + b =~= t + (h + seq!['\n'] + b));
    lemma_lines_concat(t, h + seq!['\n'] + b);
    lemma_lines_split(h, b);
    let lt = lines(t);
    assert(lines(t + h + seq!['\n'] + b) =~= lt + (seq![hl] + lines(b)));
    lemma_split_append(lt, seq![hl] + lines(b), default_title);
    let s0 = split_lines(lt, default_title);
    if t.len() == 0 {
        assert(lt =~= Seq::<Seq<char>>::empty());
        assert(s0 == split_start(default_title));
    } else {
        lemma_split_shape(lt, default_title);
    }
    lemma_split_from_concat(s0, seq![hl], lines(b));
    assert(seq![hl].drop_last() =~= Seq::<Seq<char>>::empty());
    assert(split_from(s0, seq![hl].drop_last()) == s0);
    assert(seq![hl].last() == hl);
    let s1 = split_step(s0, hl);
    assert(split_from(s0, seq![hl]) == s1);
    lemma_plain_from(s1, lines(b));
    lemma_split_from_plain(s1, lines(b));
    lemma_heading_not_empty(trim(hl));
}

/// A character that may spell a chapter number: an ASCII digit `0`-`9` or one
/// of the Chinese numerals 零一二三四五六七八九十百千万两〇.
pub open spec fn number_char(c: char) -> bool {
    ||| ('0' <= c && c <= '9')
    ||| c == '零' || c == '一' || c == '二' || c == '三' || c == '四' || c == '五'
    ||| c == '六' || c == '七' || c == '八' || c == '九' || c == '十' || c == '百'
    ||| c == '千' || c == '万' || c == '两' || c == '〇'
}

/// Numbered headings: `第`, one or more number characters (any ASCII digit
/// `0`-`9` or Chinese numeral), one of 章节部卷篇集, and anything not
/// starting with `分`, is a chapter heading.
pub proof fn lemma_numbered_heading_accepted(ds: Seq<char>, u: char, rest: Seq<char>)
    requires
        ds.len() > 0,
        forall|i: int| 0 <= i < ds.len() ==> number_char(#[trigger] ds[i]),
        u == '章' || u == '节' || u == '部' || u == '卷' || u == '篇' || u == '集',
        !(rest.len() > 0 && rest[0] == '分'),
    ensures
        chapter_heading(seq!['第'] + ds + seq![u] + rest),
{
    let s = seq!['第'] + ds + seq![u] + rest;
    let k: int = ds.len() + 1int;
    assert(s[0] == '第');
    assert(s[k] == u);
    assert forall|i: int| 1 <= i < k implies crate::heading::is_numeral(s[i]) by {
        assert(s[i] == ds[i - 1]);
        assert(number_char(ds[i - 1]));
    }
    if k + 1 < s.len() {
        assert(s[k + 1] == rest[0]);
    }
    assert(numbered_heading(s));
}

/// Rendering one more chapter appends its title on a line of its own, its
/// body without trailing white space, and an empty line.
pub proof fn lemma_render_appends_chapter(
    title: Seq<char>,
    author: Seq<char>,
    chapters: Seq<(Seq<char>, Seq<char>)>,
    c: (Seq<char>, Seq<char>),
)
    ensures
        book_txt(title, author, chapters.push(c)) == book_txt(title, author, chapters) + c.0
            + seq!['\n'] + trim_end(c.1) + seq!['\n', '\n'],
{
    assert(chapters.push(c).drop_last() =~= chapters);
    assert(chapters.push(c).last() == c);
    assert(book_txt(title, author, chapters.push(c)) =~= book_txt(title, author, chapters) + c.0
        + seq!['\n'] + trim_end(c.1) + seq!['\n', '\n']);
}

/// A rendered book with a title opens with the line `《title》`.
pub proof fn lemma_render_opens_with_title(
    title: Seq<char>,
    author: Seq<char>,
    chapters: Seq<(Seq<char>, Seq<char>)>,
)
    requires
        title.len() > 0,
    ensures
        crate::text::starts_with(
            book_txt(title, author, chapters),
            seq!['《'] + title + seq!['》', '\n'],
        ),
{
    let p = seq!['《'] + title + seq!['》', '\n'];
    assert(book_txt(title, author, chapters).take(p.len() as int) =~= p);
}

/// The extra metadata holds the description and the publisher, each under
/// its own property and only when not empty, and nothing else.
pub proof fn lemma_extra_entries(description: Seq<char>, publisher: Seq<char>)
    ensures
        publisher.len() > 0 ==> extra_of(description, publisher).contains(
            ("dcterms:publisher"@, publisher),
        ),
        description.len() > 0 ==> extra_of(description, publisher).contains(
            ("dcterms:description"@, description),
        ),
        forall|j: int|
            0 <= j < extra_of(description, publisher).len() ==> {
                let e = #[trigger] extra_of(description, publisher)[j];
                ||| (description.len() > 0 && e == ("dcterms:description"@, description))
                ||| (publisher.len() > 0 && e == ("dcterms:publisher"@, publisher))
            },
{
    let x = extra_of(description, publisher);
    if publisher.len() > 0 {
        assert(x[x.len() - 1] == ("dcterms:publisher"@, publisher));
    }
    if description.len() > 0 {
        assert(x[0] == ("dcterms:description"@, description));
    }
}

/// Text written as UTF-8 reads back unchanged: the UTF-8 encoding of any
/// text that does not begin with a byte order mark decodes to that text.
pub proof fn lemma_utf8_text_reads_back(s: Seq<char>)
    requires
        bom_of(encode_utf8(s)) is None,
    ensures
        decoded_text(encode_utf8(s)) == s,
{
    encode_utf8_valid_utf8(s);
    encode_utf8_decode_utf8(s);
}

/// UTF-8 text after a UTF-8 byte order mark reads back unchanged, without the mark.
pub proof fn lemma_utf8_bom_text_reads_back(s: Seq<char>)
    ensures
        decoded_text(seq![0xEFu8, 0xBBu8, 0xBFu8] + encode_utf8(s)) == s,
{
    let b = seq![0xEFu8, 0xBBu8, 0xBFu8] + encode_utf8(s);
    assert(bom_of(b) == Some((TextEncoding::Utf8, 3int)));
    assert(b.skip(3) =~= encode_utf8(s));
    encode_utf8_valid_utf8(s);
    encode_utf8_decode_utf8(s);
}

/// `第`, number characters and a unit word followed by `分` (as in `第一部分`,
/// "part one") is not a chapter heading.
pub proof fn lemma_part_is_not_heading(ds: Seq<char>, u: char, rest: Seq<char>)
    requires
        forall|i: int| 0 <= i < ds.len() ==> number_char(#[trigger] ds[i]),
        u == '章' || u == '节' || u == '部' || u == '卷' || u == '篇' || u == '集',
    ensures
        !chapter_heading(seq!['第'] + ds + seq![u, '分'] + rest),
{
    let s = seq!['第'] + ds + seq![u, '分'] + rest;
    let k0: int = ds.len() + 1int;
    assert(s[k0] == u);
    assert(s[k0 + 1] == '分');
    assert forall|k: int|
        2 <= k < s.len() && (forall|i: int| 1 <= i < k ==> crate::heading::is_numeral(s[i]))
            && crate::heading::is_unit(#[trigger] s[k]) implies (k + 1 < s.len() && s[k + 1]
        == '分') by {
        if k < k0 {
            assert(s[k] == ds[k - 1]);
            assert(number_char(ds[k - 1]));
        } else if k > k0 {
            assert(crate::heading::is_numeral(s[k0]));
        }
    }
    if s.len() >= 2 {
        assert(s.take(2)[0] == s[0]);
    }
    if s.len() >= 8 {
        assert(s.take(8)[0] == s[0]);
    }
}

/// Lines opening with `# `, `Chapter ` or `CHAPTER ` are chapter headings,
/// whatever follows.
pub proof fn lemma_prefix_headings(rest: Seq<char>)
    ensures
        chapter_heading(seq!['#', ' '] + rest),
        chapter_heading(seq!['C', 'h', 'a', 'p', 't', 'e', 'r', ' '] + rest),
        chapter_heading(seq!['C', 'H', 'A', 'P', 'T', 'E', 'R', ' '] + rest),
{
    assert((seq!['#', ' '] + rest).take(2) =~= seq!['#', ' ']);
    assert((seq!['C', 'h', 'a', 'p', 't', 'e', 'r', ' '] + rest).take(8) =~= seq![
        'C',
        'h',
        'a',
        'p',
        't',
        'e',
        'r',
        ' ',
    ]);
    assert((seq!['C', 'H', 'A', 'P', 'T', 'E', 'R', ' '] + rest).take(8) =~= seq![
        'C',
        'H',
        'A',
        'P',
        'T',
        'E',
        'R',
        ' ',
    ]);
}

} // verus!
