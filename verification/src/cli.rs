//! The command-line converter: its arguments, and how it builds a book from a
//! text file (`transmute <input> <output> [-c <cover.jpg>]`).

use vstd::prelude::*;
use crate::book::{
    chapters_view, media_type_for, media_type_of, split_chars, split_text, Book, Chapter,
    CoverImage, Metadata,
};
use crate::heading::{chapter_heading, cn_numeral, heading_at, is_cn_numeral};
use crate::meta::{author_in_chars, author_of, title_in_chars, title_of};
use crate::paths::{
    chars_are, extension, extension_of, file_name_text, file_stem, lowercase, lowercase_text,
    mode_for, mode_for_extension, path_file_name, stem_of, Mode,
};
use crate::text::chars_of;

verus! {

/// Whether `c` is a Chinese numeral of chapter numbers.
pub fn is_cn_digit_char(c: char) -> (b: bool)
    ensures
        b == is_cn_numeral(c),
{
    cn_numeral(c)
}

/// Whether `line` is a chapter heading: `# …`, `Chapter …`, `CHAPTER …`, or
/// `第` + numerals + one of `章节部卷篇集` not followed by `分`.
pub fn is_chapter_heading(line: &str) -> (b: bool)
    ensures
        b == chapter_heading(line@),
{
    let s = chars_of(line);
    assert(s@.subrange(0, s@.len() as int) =~= s@);
    heading_at(&s, 0, s.len())
}

/// The author named by `作者：XXX` or `作者:XXX` in the first twenty lines of
/// `text` (what follows the tag, trimmed), or the empty string.
pub fn extract_author(text: &str) -> (r: String)
    ensures
        r@ == author_of(text@),
{
    let s = chars_of(text);
    author_in_chars(&s)
}

/// The title written as `《书名》` on one of the first twenty lines of `text`.
pub fn extract_title(text: &str) -> (r: Option<String>)
    ensures
        r matches Some(t) ==> title_of(text@) == Some(t@),
        r is None ==> title_of(text@) is None,
{
    let s = chars_of(text);
    title_in_chars(&s)
}

/// The title of the chapter that text before any heading falls into.
pub open spec fn cli_default_title() -> Seq<char> {
    "Chapter 1"@
}

/// The chapters of `text`, split at its heading lines.
pub fn split_into_chapters(text: &str) -> (r: Vec<Chapter>)
    ensures
        chapters_view(r@) == split_text(text@, cli_default_title()),
{
    let s = chars_of(text);
    split_chars(&s, "Chapter 1")
}

/// What the command line asks for.
#[derive(Debug)]
pub struct Invocation {
    pub input: String,
    pub output: String,
    pub cover: Option<String>,
    pub mode: Mode,
}

/// Why a command line is refused.
#[derive(Debug)]
pub enum UsageError {
    /// Fewer than two arguments after the program name.
    MissingArguments,
    /// `-c` or `--cover` is the last argument.
    MissingCoverPath,
    /// No argument names the input.
    MissingInput,
    /// No argument names the output.
    MissingOutput,
    /// The input's extension, lowercased, is neither `txt` nor `epub`.
    UnknownFormat(String),
}

/// The paths gathered from the arguments so far.
pub struct ArgScan {
    pub input: Option<Seq<char>>,
    pub output: Option<Seq<char>>,
    pub cover: Option<Seq<char>>,
}

pub open spec fn is_cover_flag(a: Seq<char>) -> bool {
    a == seq!['-', 'c'] || a == seq!['-', '-', 'c', 'o', 'v', 'e', 'r']
}

pub open spec fn is_option(a: Seq<char>) -> bool {
    a.len() > 0 && a[0] == '-'
}

/// Reading the arguments from index `i` on: `-c`/`--cover` takes the next
/// argument as the cover (`None` when there is none); an argument that does
/// not start with `-` is the input, or once the input is known, the output
/// (a later one replaces an earlier one); other options are ignored.
pub open spec fn scan_args(args: Seq<Seq<char>>, i: int, st: ArgScan) -> Option<ArgScan>
    decreases args.len() - i,
{
    if i < 0 || i >= args.len() {
        Some(st)
    } else if is_cover_flag(args[i]) {
        if i + 1 < args.len() {
            scan_args(args, i + 2, ArgScan { cover: Some(args[i + 1]), ..st })
        } else {
            None
        }
    } else if !is_option(args[i]) {
        if st.input is None {
            scan_args(args, i + 1, ArgScan { input: Some(args[i]), ..st })
        } else {
            scan_args(args, i + 1, ArgScan { output: Some(args[i]), ..st })
        }
    } else {
        scan_args(args, i + 1, st)
    }
}

pub open spec fn args_view(args: Seq<String>) -> Seq<Seq<char>> {
    args.map_values(|a: String| a@)
}

/// The paths named by a whole command line (the program name excluded).
pub open spec fn scanned(args: Seq<Seq<char>>) -> Option<ArgScan> {
    scan_args(args, 1, ArgScan { input: None, output: None, cover: None })
}

/// The lowercased extension of the input path; empty when it has none.
pub open spec fn input_extension(input: Seq<char>) -> Seq<char> {
    lowercase_text(
        match extension_of(input) {
            Some(e) => e,
            None => seq![],
        },
    )
}

pub open spec fn opt_view(o: Option<String>) -> Option<Seq<char>> {
    match o {
        Some(s) => Some(s@),
        None => None,
    }
}

/// Reads a command line (`args[0]` is the program name). The format is told
/// by the input's extension: `.txt` converts to EPUB, `.epub` to text.
pub fn parse_args(args: &Vec<String>) -> (r: Result<Invocation, UsageError>)
    ensures
        ({
            let av = args_view(args@);
            match r {
                Ok(inv) => {
                    &&& args@.len() >= 3
                    &&& scanned(av) matches Some(st)
                    &&& st.input == Some(inv.input@)
                    &&& st.output == Some(inv.output@)
                    &&& st.cover == opt_view(inv.cover)
                    &&& mode_for_extension(input_extension(inv.input@)) == Some(inv.mode)
                },
                Err(UsageError::MissingArguments) => args@.len() < 3,
                Err(UsageError::MissingCoverPath) => args@.len() >= 3 && scanned(av) is None,
                Err(UsageError::MissingInput) => {
                    &&& args@.len() >= 3
                    &&& scanned(av) matches Some(st)
                    &&& st.input is None
                },
                Err(UsageError::MissingOutput) => {
                    &&& args@.len() >= 3
                    &&& scanned(av) matches Some(st)
                    &&& st.input is Some
                    &&& st.output is None
                },
                Err(UsageError::UnknownFormat(e)) => {
                    &&& args@.len() >= 3
                    &&& scanned(av) matches Some(st)
                    &&& st.input matches Some(i)
                    &&& st.output is Some
                    &&& e@ == input_extension(i)
                    &&& mode_for_extension(e@) is None
                },
            }
        }),
{
    let ghost av = args_view(args@);
    let n = args.len();
    if n < 3 {
        return Err(UsageError::MissingArguments);
    }
    let short: [char; 2] = ['-', 'c'];
    let long: [char; 7] = ['-', '-', 'c', 'o', 'v', 'e', 'r'];
    assert(short@ =~= seq!['-', 'c']);
    assert(long@ =~= seq!['-', '-', 'c', 'o', 'v', 'e', 'r']);
    let mut input: Option<String> = None;
    let mut output: Option<String> = None;
    let mut cover: Option<String> = None;
    let mut i: usize = 1;
    while i < n
        invariant
            n == args@.len(),
            av == args_view(args@),
            short@ == seq!['-', 'c'],
            long@ == seq!['-', '-', 'c', 'o', 'v', 'e', 'r'],
            1 <= i <= n,
            n >= 3,
            scanned(av) == scan_args(
                av,
                i as int,
                ArgScan { input: opt_view(input), output: opt_view(output), cover: opt_view(cover) },
            ),
        decreases n - i,
    {
        let a = args[i].as_str();
        let ghost i0 = i as int;
        let ghost st = ArgScan {
            input: opt_view(input),
            output: opt_view(output),
            cover: opt_view(cover),
        };
        assert(av[i0] == a@);
        let is_short = chars_are(a, &short);
        let is_long = chars_are(a, &long);
        if is_short || is_long {
            assert(is_cover_flag(av[i0]));
            i = i + 1;
            if i < n {
                cover = Some(args[i].clone());
                assert(av[i as int] == args@[i as int]@);
                assert(scan_args(av, i0, st) == scan_args(
                    av,
                    i0 + 2,
                    ArgScan { cover: Some(av[i0 + 1]), ..st },
                ));
            } else {
                assert(scan_args(av, i0, st) is None);
                return Err(UsageError::MissingCoverPath);
            }
        } else {
            assert(!is_cover_flag(av[i0]));
            let v = chars_of(a);
            let dash = v.len() > 0 && v[0] == '-';
            assert(dash == is_option(av[i0]));
            if !dash {
                if input.is_none() {
                    input = Some(args[i].clone());
                    assert(scan_args(av, i0, st) == scan_args(
                        av,
                        i0 + 1,
                        ArgScan { input: Some(av[i0]), ..st },
                    ));
                } else {
                    output = Some(args[i].clone());
                    assert(scan_args(av, i0, st) == scan_args(
                        av,
                        i0 + 1,
                        ArgScan { output: Some(av[i0]), ..st },
                    ));
                }
            } else {
                assert(scan_args(av, i0, st) == scan_args(av, i0 + 1, st));
            }
        }
        i = i + 1;
    }
    assert(scanned(av) == Some(ArgScan {
        input: opt_view(input),
        output: opt_view(output),
        cover: opt_view(cover),
    }));
    let input = match input {
        Some(p) => p,
        None => {
            return Err(UsageError::MissingInput);
        },
    };
    let output = match output {
        Some(p) => p,
        None => {
            return Err(UsageError::MissingOutput);
        },
    };
    let ext = match extension(input.as_str()) {
        Some(e) => e,
        None => String::new(),
    };
    let lower = lowercase(ext.as_str());
    match mode_for(lower.as_str()) {
        Some(mode) => Ok(Invocation { input, output, cover, mode }),
        None => Err(UsageError::UnknownFormat(lower)),
    }
}

/// A cover picture chosen on the command line, and the extension that was
/// not recognised (the picture is then taken for JPEG), if any.
#[derive(Debug)]
pub struct CoverChoice {
    pub image: CoverImage,
    pub unknown_extension: Option<String>,
}

/// The lowercased extension of a cover path; `jpg` when it has none.
pub open spec fn cover_extension(path: Seq<char>) -> Seq<char> {
    lowercase_text(
        match extension_of(path) {
            Some(e) => e,
            None => "jpg"@,
        },
    )
}

/// The cover picture `data` read from `path`: its media type from the
/// extension, its name from the path's file name (`cover.jpg` when there is none).
pub fn cover_image(path: &str, data: Vec<u8>) -> (r: CoverChoice)
    ensures
        r.image.data@ == data@,
        r.image.media_type@ == media_type_of(cover_extension(path@)).0,
        r.image.file_name@ == (match file_name_text(path@) {
            Some(n) => n,
            None => "cover.jpg"@,
        }),
        r.unknown_extension matches Some(e) ==> e@ == cover_extension(path@) && !media_type_of(
            e@,
        ).1,
        r.unknown_extension is None ==> media_type_of(cover_extension(path@)).1,
{
    let ext = match extension(path) {
        Some(e) => e,
        None => String::from_str("jpg"),
    };
    let lower = lowercase(ext.as_str());
    let (media_type, known) = media_type_for(lower.as_str());
    let file_name = match path_file_name(path) {
        Some(n) => n,
        None => String::from_str("cover.jpg"),
    };
    let unknown_extension = if known {
        None
    } else {
        Some(lower)
    };
    CoverChoice { image: CoverImage { data, media_type, file_name }, unknown_extension }
}

/// The title of a book made from a text file: the `《书名》` in the text, else
/// the input file's stem, else `untitled`.
pub open spec fn book_title(text: Seq<char>, input: Seq<char>) -> Seq<char> {
    match title_of(text) {
        Some(t) => t,
        None => match stem_of(input) {
            Some(s) => s,
            None => "untitled"@,
        },
    }
}

/// The book that the command line makes of the text `text` read from `input`:
/// title and author found in the text, language `zh`, the chapters of the text.
pub fn book_from_text(text: &str, input: &str, cover: Option<CoverImage>) -> (r: Book)
    ensures
        r.metadata.title@ == book_title(text@, input@),
        r.metadata.author@ == author_of(text@),
        r.metadata.language@ == "zh"@,
        r.metadata.identifier@ == Seq::<char>::empty(),
        r.metadata.extra@.len() == 0,
        chapters_view(r.chapters@) == split_text(text@, cli_default_title()),
        r.cover == cover,
{
    let author = extract_author(text);
    let title = match extract_title(text) {
        Some(t) => t,
        None => match file_stem(input) {
            Some(s) => s,
            None => String::from_str("untitled"),
        },
    };
    let chapters = split_into_chapters(text);
    Book {
        metadata: Metadata {
            title,
            author,
            language: String::from_str("zh"),
            identifier: String::new(),
            extra: Vec::new(),
        },
        chapters,
        cover,
    }
}

} // verus!
