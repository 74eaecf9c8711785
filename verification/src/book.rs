//! The book model, the splitting of a text into chapters, and the plain-text
//! rendering of a book.

use vstd::prelude::*;
use crate::heading::{chapter_heading, heading_at};
use crate::meta::author_tag;
use crate::paths::chars_are;
use crate::text::{
    chars_of, lines, next_line, push_char, push_chars, string_of, trim, trim_bounds, trim_end,
    trim_end_bound,
};

verus! {

/// One chapter: its heading and its text.
#[derive(Debug)]
pub struct Chapter {
    pub title: String,
    pub body: String,
}

impl View for Chapter {
    type V = (Seq<char>, Seq<char>);

    open spec fn view(&self) -> (Seq<char>, Seq<char>) {
        (self.title@, self.body@)
    }
}

/// A cover picture and how to name it in the book.
#[derive(Debug)]
pub struct CoverImage {
    pub data: Vec<u8>,
    pub media_type: String,
    pub file_name: String,
}

/// Book metadata. `extra` holds further properties as (name, value) pairs.
#[derive(Debug)]
pub struct Metadata {
    pub title: String,
    pub author: String,
    pub language: String,
    pub identifier: String,
    pub extra: Vec<(String, String)>,
}

/// A book: metadata, chapters in reading order, and an optional cover.
#[derive(Debug)]
pub struct Book {
    pub metadata: Metadata,
    pub chapters: Vec<Chapter>,
    pub cover: Option<CoverImage>,
}

/// The (title, body) texts of a list of chapters.
pub open spec fn chapters_view(cs: Seq<Chapter>) -> Seq<(Seq<char>, Seq<char>)> {
    cs.map_values(|c: Chapter| c@)
}

/// The state of the chapter splitter after some lines: the chapters already
/// closed, the heading and body of the open chapter, and whether no heading
/// has been seen yet.
pub struct SplitState {
    pub chapters: Seq<(Seq<char>, Seq<char>)>,
    pub title: Seq<char>,
    pub body: Seq<char>,
    pub first: bool,
}

/// The splitter before any line.
pub open spec fn split_start(default_title: Seq<char>) -> SplitState {
    SplitState { chapters: seq![], title: default_title, body: seq![], first: true }
}

/// One line through the splitter. A heading line (once trimmed) closes the
/// open chapter, unless no heading came before it, and opens a new chapter
/// named by the trimmed line. Any other line is added, untrimmed, to the body,
/// after a line feed unless the body is still empty.
pub open spec fn split_step(st: SplitState, line: Seq<char>) -> SplitState {
    let t = trim(line);
    if chapter_heading(t) {
        if st.first {
            SplitState { chapters: st.chapters, title: t, body: st.body, first: false }
        } else {
            SplitState {
                chapters: st.chapters.push((st.title, st.body)),
                title: t,
                body: seq![],
                first: false,
            }
        }
    } else {
        SplitState {
            chapters: st.chapters,
            title: st.title,
            body: if st.body.len() == 0 {
                line
            } else {
                st.body + seq!['\n'] + line
            },
            first: st.first,
        }
    }
}

/// The splitter after the lines `ls`.
pub open spec fn split_lines(ls: Seq<Seq<char>>, default_title: Seq<char>) -> SplitState
    decreases ls.len(),
{
    if ls.len() == 0 {
        split_start(default_title)
    } else {
        split_step(split_lines(ls.drop_last(), default_title), ls.last())
    }
}

/// Closing the splitter: the open chapter is kept if a heading was seen or
/// its body is not empty.
pub open spec fn split_finish(st: SplitState, default_title: Seq<char>) -> Seq<(Seq<char>, Seq<char>)> {
    if !st.first || st.body.len() > 0 {
        st.chapters.push(
            (
                if st.title.len() == 0 {
                    default_title
                } else {
                    st.title
                },
                st.body,
            ),
        )
    } else {
        st.chapters
    }
}

/// The chapters of `text`; text before the first heading opens the first chapter.
pub open spec fn split_text(text: Seq<char>, default_title: Seq<char>) -> Seq<(Seq<char>, Seq<char>)> {
    split_finish(split_lines(lines(text), default_title), default_title)
}

/// Splits the text `s` into chapters at its heading lines.
pub fn split_chars(s: &[char], default_title: &str) -> (r: Vec<Chapter>)
    ensures
        chapters_view(r@) == split_text(s@, default_title@),
{
    let mut chapters: Vec<Chapter> = Vec::new();
    let mut title = String::from_str(default_title);
    let mut body = String::new();
    let mut first = true;
    let mut pos: usize = 0;
    let ghost mut done: Seq<Seq<char>> = seq![];
    assert(s@.skip(0) =~= s@);
    assert(chapters_view(chapters@) =~= seq![]);
    while pos < s.len()
        invariant
            pos <= s@.len(),
            done + lines(s@.skip(pos as int)) == lines(s@),
            split_lines(done, default_title@) == (SplitState {
                chapters: chapters_view(chapters@),
                title: title@,
                body: body@,
                first,
            }),
        decreases s@.len() - pos,
    {
        let (end, next) = next_line(s, pos);
        let ghost line = s@.subrange(pos as int, end as int);
        let ghost st = split_lines(done, default_title@);
        let ghost before = chapters@;
        let ghost old_body = body@;
        let (a, b) = trim_bounds(s, pos, end);
        if heading_at(s, a, b) {
            if !first {
                let closed = Chapter { title: title.clone(), body };
                chapters.push(closed);
                body = String::new();
                assert(chapters_view(chapters@) =~= chapters_view(before).push(closed@));
            }
            title = string_of(s, a, b);
            first = false;
        } else {
            if !body.as_str().is_empty() {
                push_char(&mut body, '\n');
            }
            push_chars(&mut body, s, pos, end);
            proof {
                if old_body.len() == 0 {
                    assert(body@ =~= line);
                } else {
                    assert(body@ =~= old_body + seq!['\n'] + line);
                }
            }
        }
        proof {
            assert(done.push(line).drop_last() =~= done);
            assert(split_lines(done.push(line), default_title@) == split_step(st, line));
            assert(s@.subrange(a as int, b as int) == trim(line));
            assert(done.push(line) + lines(s@.skip(next as int)) =~= done + lines(
                s@.skip(pos as int),
            ));
            done = done.push(line);
        }
        pos = next;
    }
    proof {
        assert(s@.skip(pos as int) =~= Seq::<char>::empty());
        assert(done + Seq::<Seq<char>>::empty() =~= done);
    }
    if !first || !body.as_str().is_empty() {
        if title.as_str().is_empty() {
            title = String::from_str(default_title);
        }
        let last = Chapter { title, body };
        let ghost before = chapters@;
        chapters.push(last);
        assert(chapters_view(chapters@) =~= chapters_view(before).push(last@));
    }
    chapters
}

/// The lines that open a text rendered from a book: `《title》` and
/// `作者：author`, each only when not empty, then an empty line.
pub open spec fn txt_header(title: Seq<char>, author: Seq<char>) -> Seq<char> {
    (if title.len() > 0 {
        seq!['《'] + title + seq!['》', '\n']
    } else {
        seq![]
    }) + (if author.len() > 0 {
        author_tag() + author + seq!['\n']
    } else {
        seq![]
    }) + seq!['\n']
}

/// A chapter as text: its heading on a line, its body without trailing white
/// space, and an empty line.
pub open spec fn chapter_txt(c: (Seq<char>, Seq<char>)) -> Seq<char> {
    c.0 + seq!['\n'] + trim_end(c.1) + seq!['\n', '\n']
}

/// The chapters as text, one after another.
pub open spec fn chapters_txt(cs: Seq<(Seq<char>, Seq<char>)>) -> Seq<char>
    decreases cs.len(),
{
    if cs.len() == 0 {
        seq![]
    } else {
        chapters_txt(cs.drop_last()) + chapter_txt(cs.last())
    }
}

/// A book as plain text.
pub open spec fn book_txt(
    title: Seq<char>,
    author: Seq<char>,
    cs: Seq<(Seq<char>, Seq<char>)>,
) -> Seq<char> {
    txt_header(title, author) + chapters_txt(cs)
}

/// Renders a book as plain text: the metadata header, then each chapter.
pub fn book_to_txt(book: &Book) -> (r: String)
    ensures
        r@ == book_txt(
            book.metadata.title@,
            book.metadata.author@,
            chapters_view(book.chapters@),
        ),
{
    let mut txt = String::new();
    let title = book.metadata.title.as_str();
    let author = book.metadata.author.as_str();
    if !title.is_empty() {
        push_char(&mut txt, '《');
        txt.append(title);
        push_char(&mut txt, '》');
        push_char(&mut txt, '\n');
    }
    if !author.is_empty() {
        push_char(&mut txt, '作');
        push_char(&mut txt, '者');
        push_char(&mut txt, '：');
        txt.append(author);
        push_char(&mut txt, '\n');
    }
    push_char(&mut txt, '\n');
    assert(txt@ =~= txt_header(book.metadata.title@, book.metadata.author@));
    let n = book.chapters.len();
    let ghost cs = chapters_view(book.chapters@);
    let mut i: usize = 0;
    while i < n
        invariant
            n == book.chapters@.len(),
            cs == chapters_view(book.chapters@),
            i <= n,
            txt@ == txt_header(book.metadata.title@, book.metadata.author@) + chapters_txt(
                cs.take(i as int),
            ),
        decreases n - i,
    {
        let ch = &book.chapters[i];
        txt.append(ch.title.as_str());
        push_char(&mut txt, '\n');
        let body = chars_of(ch.body.as_str());
        let e = trim_end_bound(&body, 0, body.len());
        push_chars(&mut txt, &body, 0, e);
        push_char(&mut txt, '\n');
        push_char(&mut txt, '\n');
        proof {
            assert(body@.subrange(0, body@.len() as int) =~= body@);
            assert(cs.take(i + 1).drop_last() =~= cs.take(i as int));
            assert(cs.take(i + 1).last() == ch@);
        }
        i = i + 1;
        assert(txt@ =~= txt_header(book.metadata.title@, book.metadata.author@) + chapters_txt(
            cs.take(i as int),
        ));
    }
    assert(cs.take(n as int) =~= cs);
    txt
}

/// The media type of a cover picture with the (lowercased) extension `ext`,
/// and whether the extension was one of `jpg`, `jpeg`, `png`; others are
/// taken for JPEG.
pub open spec fn media_type_of(ext: Seq<char>) -> (Seq<char>, bool) {
    if ext == seq!['j', 'p', 'g'] || ext == seq!['j', 'p', 'e', 'g'] {
        ("image/jpeg"@, true)
    } else if ext == seq!['p', 'n', 'g'] {
        ("image/png"@, true)
    } else {
        ("image/jpeg"@, false)
    }
}

/// The media type for a cover picture's (lowercased) extension, and whether
/// the extension is a known one.
pub fn media_type_for(ext: &str) -> (r: (String, bool))
    ensures
        (r.0@, r.1) == media_type_of(ext@),
{
    let jpg: [char; 3] = ['j', 'p', 'g'];
    let jpeg: [char; 4] = ['j', 'p', 'e', 'g'];
    let png: [char; 3] = ['p', 'n', 'g'];
    assert(jpg@ =~= seq!['j', 'p', 'g']);
    assert(jpeg@ =~= seq!['j', 'p', 'e', 'g']);
    assert(png@ =~= seq!['p', 'n', 'g']);
    if chars_are(ext, &jpg) || chars_are(ext, &jpeg) {
        (String::from_str("image/jpeg"), true)
    } else if chars_are(ext, &png) {
        (String::from_str("image/png"), true)
    } else {
        (String::from_str("image/jpeg"), false)
    }
}

} // verus!
