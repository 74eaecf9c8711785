//! The state and decisions of the desktop converter: which file is converted
//! in which direction, where the result goes, the metadata of the book it
//! makes, and the status line it shows.

use vstd::prelude::*;
use crate::book::{
    chapters_view, media_type_for, media_type_of, split_chars, split_text, Book, Chapter,
    CoverImage, Metadata,
};
use crate::cli;
use crate::heading::{chapter_heading, is_cn_numeral};
use crate::meta::{author_of, title_of};
use crate::paths::{
    chars_are, extension, extension_of, file_name_text, lowercase, lowercase_text, mode_for,
    mode_for_extension, output_extension, output_extension_for, path_file_name,
    path_with_extension, txt_word, lacks, lemma_output_extension_plain, with_extension_of, Mode,
};
use crate::text::chars_of;

verus! {

/// Whether `c` is a Chinese numeral of chapter numbers.
pub fn is_cn_digit(c: char) -> (b: bool)
    ensures
        b == is_cn_numeral(c),
{
    cli::is_cn_digit_char(c)
}

/// Whether `line` is a chapter heading (the same rule as the command line's).
pub fn is_chapter_heading(line: &str) -> (b: bool)
    ensures
        b == chapter_heading(line@),
{
    cli::is_chapter_heading(line)
}

/// The title written as `《书名》` on one of the first twenty lines of `txt`.
pub fn detect_title(txt: &str) -> (r: Option<String>)
    ensures
        r matches Some(t) ==> title_of(txt@) == Some(t@),
        r is None ==> title_of(txt@) is None,
{
    cli::extract_title(txt)
}

/// The author named by `作者：XXX` or `作者:XXX` in the first twenty lines of
/// `txt`, or the empty string.
pub fn detect_author(txt: &str) -> (r: String)
    ensures
        r@ == author_of(txt@),
{
    cli::extract_author(txt)
}

/// The title of the chapter that text before any heading falls into.
pub open spec fn gui_default_title() -> Seq<char> {
    "第1章"@
}

/// The chapters of `text`, split at its heading lines.
pub fn split_into_chapters(text: &str) -> (r: Vec<Chapter>)
    ensures
        chapters_view(r@) == split_text(text@, gui_default_title()),
{
    let s = chars_of(text);
    split_chars(&s, "第1章")
}

/// The converter's state: the chosen files, the metadata typed in for a book
/// made from text, and the status line.
pub struct App {
    pub input_path: Option<String>,
    pub output_path: Option<String>,
    pub cover_path: Option<String>,
    pub title: String,
    pub author: String,
    pub language: String,
    pub description: String,
    pub publisher: String,
    pub identifier: String,
    pub status: String,
    pub status_ok: bool,
}

/// A conversion to run: its direction and its input and output paths.
#[derive(Debug)]
pub struct ConversionJob {
    pub mode: Mode,
    pub input: String,
    pub output: String,
}

/// The direction of converting the file at `input`, told by its extension.
pub open spec fn mode_of_input(input: Option<String>) -> Option<Mode> {
    match input {
        Some(p) => match extension_of(p@) {
            Some(e) => mode_for_extension(lowercase_text(e)),
            None => None,
        },
        None => None,
    }
}

/// The output path that goes with `input`: the input path with the extension
/// of the other format.
pub open spec fn auto_output_of(input: Option<String>) -> Option<Seq<char>> {
    match input {
        Some(p) => match mode_of_input(input) {
            Some(m) => Some(with_extension_of(p@, output_extension(m))),
            None => None,
        },
        None => None,
    }
}

/// The paths, metadata and cover of `a` and `b` agree (the status may differ).
pub open spec fn same_choices(a: App, b: App) -> bool {
    &&& a.input_path == b.input_path
    &&& a.output_path == b.output_path
    &&& a.cover_path == b.cover_path
    &&& a.title == b.title
    &&& a.author == b.author
    &&& a.language == b.language
    &&& a.description == b.description
    &&& a.publisher == b.publisher
    &&& a.identifier == b.identifier
}

/// Where a conversion writes: the chosen output path, else the automatic
/// one, else the input path with the extension `out`.
pub open spec fn chosen_output(app: App, input: Seq<char>) -> Seq<char> {
    match app.output_path {
        Some(o) => o@,
        None => match auto_output_of(app.input_path) {
            Some(a) => a,
            None => with_extension_of(input, "out"@),
        },
    }
}

/// The metadata properties beyond title, author, language and identifier:
/// the description and the publisher, each when not empty.
pub open spec fn extra_of(description: Seq<char>, publisher: Seq<char>) -> Seq<(Seq<char>, Seq<char>)> {
    (if description.len() > 0 {
        seq![("dcterms:description"@, description)]
    } else {
        seq![]
    }) + (if publisher.len() > 0 {
        seq![("dcterms:publisher"@, publisher)]
    } else {
        seq![]
    })
}

pub open spec fn pairs_view(v: Seq<(String, String)>) -> Seq<(Seq<char>, Seq<char>)> {
    v.map_values(|p: (String, String)| (p.0@, p.1@))
}

/// A copy of `s`.
fn copy(s: &String) -> (r: String)
    ensures
        r@ == s@,
        r == *s,
{
    s.clone()
}

fn copy_opt(o: &Option<String>) -> (r: Option<String>)
    ensures
        r == *o,
{
    match o {
        Some(s) => Some(copy(s)),
        None => None,
    }
}

impl Default for App {
    fn default() -> (r: App)
        ensures
            r.input_path is None,
            r.output_path is None,
            r.cover_path is None,
            r.title@.len() == 0,
            r.author@.len() == 0,
            r.language@.len() == 0,
            r.description@.len() == 0,
            r.publisher@.len() == 0,
            r.identifier@.len() == 0,
            r.status@.len() == 0,
            !r.status_ok,
    {
        App {
            input_path: None,
            output_path: None,
            cover_path: None,
            title: String::new(),
            author: String::new(),
            language: String::new(),
            description: String::new(),
            publisher: String::new(),
            identifier: String::new(),
            status: String::new(),
            status_ok: false,
        }
    }
}

impl App {
    /// The direction of the conversion: `.txt` input converts to EPUB,
    /// `.epub` input to text (in any letter case); none for other inputs.
    pub fn mode(&self) -> (r: Option<Mode>)
        ensures
            r == mode_of_input(self.input_path),
    {
        match &self.input_path {
            None => None,
            Some(p) => match extension(p.as_str()) {
                None => None,
                Some(e) => {
                    let lower = lowercase(e.as_str());
                    mode_for(lower.as_str())
                },
            },
        }
    }

    /// The output path that goes with the input: the input path with the
    /// other format's extension.
    pub fn auto_output(&self) -> (r: Option<String>)
        ensures
            opt_chars(r) == auto_output_of(self.input_path),
    {
        match &self.input_path {
            None => None,
            Some(p) => match self.mode() {
                None => None,
                Some(m) => {
                    let ext = output_extension_for(m);
                    proof {
                        lemma_output_extension_plain(m);
                    }
                    Some(path_with_extension(p.as_str(), ext.as_str()))
                },
            },
        }
    }

    /// Starts a conversion: with no input chosen, or an input of another
    /// format, only the status line says so; otherwise the job to run.
    pub fn convert(&mut self) -> (r: Option<ConversionJob>)
        ensures
            same_choices(*final(self), *old(self)),
            match old(self).input_path {
                None => {
                    &&& r is None
                    &&& final(self).status@ == "请先选择输入文件"@
                    &&& final(self).status_ok == old(self).status_ok
                },
                Some(p) => match mode_of_input(old(self).input_path) {
                    None => {
                        &&& r is None
                        &&& final(self).status@ == "不支持的文件格式"@
                        &&& final(self).status_ok == old(self).status_ok
                    },
                    Some(m) => {
                        &&& r matches Some(job)
                        &&& job.mode == m
                        &&& job.input@ == p@
                        &&& job.output@ == chosen_output(*old(self), p@)
                        &&& final(self).status == old(self).status
                        &&& final(self).status_ok == old(self).status_ok
                    },
                },
            },
    {
        let input = match &self.input_path {
            Some(p) => copy(p),
            None => {
                self.status = String::from_str("请先选择输入文件");
                return None;
            },
        };
        let output = match &self.output_path {
            Some(o) => copy(o),
            None => match self.auto_output() {
                Some(a) => a,
                None => {
                    let out = out_word();
                    path_with_extension(input.as_str(), out.as_str())
                },
            },
        };
        match self.mode() {
            Some(mode) => Some(ConversionJob { mode, input, output }),
            None => {
                self.status = String::from_str("不支持的文件格式");
                None
            },
        }
    }

    /// Records how a conversion writing to `output` ended.
    pub fn finish_conversion(&mut self, output: &str, result: &Result<(), String>)
        ensures
            same_choices(*final(self), *old(self)),
            match result {
                Ok(()) => final(self).status@ == "✅ 已保存至 "@ + output@ && final(self).status_ok,
                Err(e) => final(self).status@ == "转换失败: "@ + e@ && !final(self).status_ok,
            },
    {
        match result {
            Ok(()) => {
                self.status = String::from_str("✅ 已保存至 ").concat(output);
                self.status_ok = true;
            },
            Err(e) => {
                self.status = String::from_str("转换失败: ").concat(e.as_str());
                self.status_ok = false;
            },
        }
    }

    /// Whether choosing `path` as input reads its text for metadata: only a
    /// path whose extension is exactly `txt`.
    pub fn wants_metadata_scan(path: &str) -> (b: bool)
        ensures
            b == (extension_of(path@) == Some(txt_word())),
    {
        let txt: [char; 3] = ['t', 'x', 't'];
        assert(txt@ =~= txt_word());
        match extension(path) {
            Some(e) => chars_are(e.as_str(), &txt),
            None => false,
        }
    }

    /// Chooses `path` as input. When its text `txt` was read, an empty title
    /// is filled from the text's `《书名》` and an empty author from its
    /// `作者：`. The output path becomes the automatic one; the status is cleared.
    pub fn select_input(&mut self, path: String, txt: Option<&str>)
        ensures
            final(self).input_path == Some(path),
            opt_chars(final(self).output_path) == auto_output_of(Some(path)),
            final(self).status@.len() == 0,
            final(self).status_ok == old(self).status_ok,
            final(self).cover_path == old(self).cover_path,
            final(self).language == old(self).language,
            final(self).description == old(self).description,
            final(self).publisher == old(self).publisher,
            final(self).identifier == old(self).identifier,
            final(self).title@ == (match txt {
                Some(t) => if old(self).title@.len() == 0 {
                    match title_of(t@) {
                        Some(x) => x,
                        None => old(self).title@,
                    }
                } else {
                    old(self).title@
                },
                None => old(self).title@,
            }),
            final(self).author@ == (match txt {
                Some(t) => if old(self).author@.len() == 0 {
                    author_of(t@)
                } else {
                    old(self).author@
                },
                None => old(self).author@,
            }),
    {
        if let Some(t) = txt {
            if self.title.as_str().is_empty() {
                if let Some(x) = detect_title(t) {
                    self.title = x;
                }
            }
            if self.author.as_str().is_empty() {
                self.author = detect_author(t);
            }
        }
        self.input_path = Some(path);
        self.output_path = self.auto_output();
        self.status = String::new();
    }

    /// Sets the output path from the text typed for it: none when empty.
    pub fn set_output_text(&mut self, text: String)
        ensures
            final(self).output_path == (if text@.len() == 0 {
                None
            } else {
                Some(text)
            }),
            final(self).input_path == old(self).input_path,
            final(self).cover_path == old(self).cover_path,
            final(self).title == old(self).title,
            final(self).author == old(self).author,
            final(self).language == old(self).language,
            final(self).description == old(self).description,
            final(self).publisher == old(self).publisher,
            final(self).identifier == old(self).identifier,
            final(self).status == old(self).status,
            final(self).status_ok == old(self).status_ok,
    {
        if text.as_str().is_empty() {
            self.output_path = None;
        } else {
            self.output_path = Some(text);
        }
    }

    /// The extension offered when saving the output: `epub`, `txt`, or `out`
    /// when the direction is unknown.
    pub fn save_as_extension(&self) -> (r: String)
        ensures
            r@ == (match mode_of_input(self.input_path) {
                Some(m) => output_extension(m),
                None => "out"@,
            }),
    {
        match self.mode() {
            Some(m) => output_extension_for(m),
            None => String::from_str("out"),
        }
    }

    /// How the direction of the conversion is shown, when it is known.
    pub fn mode_label(&self) -> (r: Option<String>)
        ensures
            opt_chars(r) == (match mode_of_input(self.input_path) {
                Some(Mode::TxtToEpub) => Some("📄 TXT → 📗 EPUB"@),
                Some(Mode::EpubToTxt) => Some("📗 EPUB → 📄 TXT"@),
                None => None,
            }),
    {
        match self.mode() {
            Some(Mode::TxtToEpub) => Some(String::from_str("📄 TXT → 📗 EPUB")),
            Some(Mode::EpubToTxt) => Some(String::from_str("📗 EPUB → 📄 TXT")),
            None => None,
        }
    }

    /// Whether a conversion can be started: an input is chosen.
    pub fn can_convert(&self) -> (b: bool)
        ensures
            b == self.input_path is Some,
    {
        self.input_path.is_some()
    }

    /// How the chosen input is shown: its file name, or `未选择` (none chosen).
    pub fn input_label(&self) -> (r: String)
        ensures
            r@ == path_label(self.input_path),
    {
        label_of(&self.input_path)
    }

    /// How the chosen cover is shown: its file name, or `未选择` (none chosen).
    pub fn cover_label(&self) -> (r: String)
        ensures
            r@ == path_label(self.cover_path),
    {
        label_of(&self.cover_path)
    }

    /// The book made of the text `txt`: the typed title, author and language,
    /// or when empty, the title and author found in the text and `zh`; the
    /// typed identifier, description and publisher; the chapters of the text.
    pub fn build_book(&self, txt: &str, cover: Option<CoverImage>) -> (r: Book)
        ensures
            r.metadata.title@ == (if self.title@.len() == 0 {
                match title_of(txt@) {
                    Some(t) => t,
                    None => Seq::<char>::empty(),
                }
            } else {
                self.title@
            }),
            r.metadata.author@ == (if self.author@.len() == 0 {
                author_of(txt@)
            } else {
                self.author@
            }),
            r.metadata.language@ == (if self.language@.len() == 0 {
                "zh"@
            } else {
                self.language@
            }),
            r.metadata.identifier@ == self.identifier@,
            pairs_view(r.metadata.extra@) == extra_of(self.description@, self.publisher@),
            self.publisher@.len() > 0 ==> pairs_view(r.metadata.extra@).contains(
                ("dcterms:publisher"@, self.publisher@),
            ),
            self.description@.len() > 0 ==> pairs_view(r.metadata.extra@).contains(
                ("dcterms:description"@, self.description@),
            ),
            chapters_view(r.chapters@) == split_text(txt@, gui_default_title()),
            r.cover == cover,
    {
        let chapters = split_into_chapters(txt);
        let title = if self.title.as_str().is_empty() {
            match detect_title(txt) {
                Some(t) => t,
                None => String::new(),
            }
        } else {
            copy(&self.title)
        };
        let author = if self.author.as_str().is_empty() {
            detect_author(txt)
        } else {
            copy(&self.author)
        };
        let language = if self.language.as_str().is_empty() {
            String::from_str("zh")
        } else {
            copy(&self.language)
        };
        let mut extra: Vec<(String, String)> = Vec::new();
        if !self.description.as_str().is_empty() {
            extra.push((String::from_str("dcterms:description"), copy(&self.description)));
        }
        if !self.publisher.as_str().is_empty() {
            extra.push((String::from_str("dcterms:publisher"), copy(&self.publisher)));
        }
        assert(pairs_view(extra@) =~= extra_of(self.description@, self.publisher@));
        proof {
            crate::laws::lemma_extra_entries(self.description@, self.publisher@);
        }
        Book {
            metadata: Metadata { title, author, language, identifier: copy(&self.identifier), extra },
            chapters,
            cover,
        }
    }

    /// The cover picture `data` read from `path`, when the path has an
    /// extension and a file name: JPEG unless the extension is `png`.
    pub fn cover_image(path: &str, data: Vec<u8>) -> (r: Option<CoverImage>)
        ensures
            match (extension_of(path@), file_name_text(path@)) {
                (Some(e), Some(n)) => r matches Some(c) && c.data@ == data@ && c.media_type@
                    == media_type_of(lowercase_text(e)).0 && c.file_name@ == n,
                _ => r is None,
            },
    {
        let ext = match extension(path) {
            Some(e) => e,
            None => {
                return None;
            },
        };
        let lower = lowercase(ext.as_str());
        let (media_type, _) = media_type_for(lower.as_str());
        let file_name = match path_file_name(path) {
            Some(n) => n,
            None => {
                return None;
            },
        };
        Some(CoverImage { data, media_type, file_name })
    }
}

/// The extension `out`.
fn out_word() -> (r: String)
    ensures
        r@ == "out"@,
        lacks(r@, '/'),
        lacks(r@, '\u{5c}'),
{
    let w: [char; 3] = ['o', 'u', 't'];
    let r = crate::text::string_from(&w);
    proof {
        reveal_strlit("out");
    }
    assert(r@ =~= "out"@);
    r
}

/// The characters of an optional string.
pub open spec fn opt_chars(o: Option<String>) -> Option<Seq<char>> {
    match o {
        Some(s) => Some(s@),
        None => None,
    }
}

/// How a chosen path is shown: its file name (empty when it has none), or
/// `未选择` when none is chosen.
pub open spec fn path_label(p: Option<String>) -> Seq<char> {
    match p {
        Some(s) => match file_name_text(s@) {
            Some(n) => n,
            None => Seq::<char>::empty(),
        },
        None => "未选择"@,
    }
}

fn label_of(p: &Option<String>) -> (r: String)
    ensures
        r@ == path_label(*p),
{
    match p {
        Some(s) => match path_file_name(s.as_str()) {
            Some(n) => n,
            None => String::new(),
        },
        None => String::from_str("未选择"),
    }
}

} // verus!
