//! File paths (held as text), their names and extensions, and the direction
//! of a conversion, which the extension of the input decides.

use vstd::prelude::*;
use crate::text::{chars_of, string_of};

verus! {

/// What `Path::file_name` gives for the path `path`: its final component,
/// unless there is none.
pub uninterp spec fn file_name_of(path: Seq<char>) -> Option<Seq<char>>;

/// The path that `PathBuf::set_extension(ext)` makes of `path`.
pub uninterp spec fn with_extension_of(path: Seq<char>, ext: Seq<char>) -> Seq<char>;

/// What `str::to_lowercase` gives for `s`.
pub uninterp spec fn lowercase_of(s: Seq<char>) -> Seq<char>;

/// ASCII lowercase of one character.
pub open spec fn ascii_lower(c: char) -> char {
    if 'A' <= c && c <= 'Z' {
        ((c as u32) + 32) as char
    } else {
        c
    }
}

/// All characters of `s` are ASCII.
pub open spec fn all_ascii(s: Seq<char>) -> bool {
    forall|i: int| 0 <= i < s.len() ==> (s[i] as u32) < 128
}

/// `s` holds no character `c`.
pub open spec fn lacks(s: Seq<char>, c: char) -> bool {
    forall|j: int| 0 <= j < s.len() ==> s[j] != c
}

/// The index of the last `c` in `f`, if any.
pub open spec fn last_index(f: Seq<char>, c: char) -> Option<int>
    decreases f.len(),
{
    if f.len() == 0 {
        None
    } else if f.last() == c {
        Some(f.len() - 1)
    } else {
        last_index(f.drop_last(), c)
    }
}

/// The text after the last `/` of `path` (all of it when there is none).
pub open spec fn last_segment(path: Seq<char>) -> Seq<char> {
    match last_index(path, '/') {
        Some(k) => path.skip(k + 1),
        None => path,
    }
}

/// A plain file name: not empty, not `.` or `..`, and free of `/`, `\` and `:`.
pub open spec fn plain_name(n: Seq<char>) -> bool {
    &&& n.len() > 0
    &&& n != seq!['.']
    &&& n != seq!['.', '.']
    &&& lacks(n, '/')
    &&& lacks(n, '\u{5c}')
    &&& lacks(n, ':')
}

/// The file name of `path`: the text after its last `/` when that is a plain
/// file name and the path holds no `\`, else as `Path::file_name` gives it.
pub open spec fn file_name_text(path: Seq<char>) -> Option<Seq<char>> {
    if lacks(path, '\u{5c}') && plain_name(last_segment(path)) {
        Some(last_segment(path))
    } else {
        file_name_of(path)
    }
}

/// `Path::file_name`: the final component of `path`, if any. Beyond the
/// name, it states only that a path without `\` whose text after the last
/// `/` is a plain file name has that file name, as the documentation of
/// `Path::file_name` and `Path::components` gives it.
#[verifier::external_body]
pub(crate) fn path_file_name(path: &str) -> (r: Option<String>)
    ensures
        r matches Some(n) ==> file_name_of(path@) == Some(n@),
        r is None ==> file_name_of(path@) is None,
        lacks(path@, '\u{5c}') && plain_name(last_segment(path@)) ==> r is Some && r.unwrap()@
            == last_segment(path@),
{
    match std::path::Path::new(path).file_name() {
        Some(name) => Some(name.to_string_lossy().into_owned()),
        None => None,
    }
}

/// `PathBuf::set_extension`: `path` with its extension replaced by `ext`
/// (added when it has none; removed when `ext` is empty). It panics when
/// `ext` holds a path separator, which `requires` leaves out. Its
/// documentation says that it does nothing when the path has no file name;
/// what it makes otherwise is named, not stated.
#[verifier::external_body]
pub(crate) fn path_with_extension(path: &str, ext: &str) -> (r: String)
    requires
        lacks(ext@, '/'),
        lacks(ext@, '\u{5c}'),
    ensures
        r@ == with_extension_of(path@, ext@),
        file_name_of(path@) is None ==> r@ == path@,
{
    let mut p = std::path::PathBuf::from(path);
    p.set_extension(ext);
    p.to_string_lossy().into_owned()
}

/// The lowercase of `s`: ASCII lowercase for ASCII text, else as
/// `str::to_lowercase` gives it.
pub open spec fn lowercase_text(s: Seq<char>) -> Seq<char> {
    if all_ascii(s) {
        Seq::new(s.len(), |i: int| ascii_lower(s[i]))
    } else {
        lowercase_of(s)
    }
}

/// `str::to_lowercase`: the Unicode lowercase of `s`, which for ASCII text is
/// its ASCII lowercase.
#[verifier::external_body]
pub(crate) fn lowercase(s: &str) -> (r: String)
    ensures
        r@ == lowercase_of(s@),
        all_ascii(s@) ==> r@ == Seq::new(s@.len(), |i: int| ascii_lower(s@[i])),
        r@ == lowercase_text(s@),
{
    s.to_lowercase()
}

/// The index of the last `.` in `f`, if any.
pub open spec fn last_dot(f: Seq<char>) -> Option<int>
    decreases f.len(),
{
    if f.len() == 0 {
        None
    } else if f.last() == '.' {
        Some(f.len() - 1)
    } else {
        last_dot(f.drop_last())
    }
}

/// The file name has no extension: it is `..`, holds no `.`, or its only
/// `.` is its first character.
pub open spec fn no_extension(f: Seq<char>) -> bool {
    f == seq!['.', '.'] || last_dot(f) is None || last_dot(f) == Some(0int)
}

/// The extension of a file name, as `Path::extension` documents it: the part
/// after the final `.`, unless the name has no extension.
pub open spec fn extension_of_name(f: Seq<char>) -> Option<Seq<char>> {
    if no_extension(f) {
        None
    } else {
        Some(f.skip(last_dot(f).unwrap() + 1))
    }
}

/// The stem of a file name, as `Path::file_stem` documents it: the part
/// before the final `.`, or the whole name when it has no extension.
pub open spec fn stem_of_name(f: Seq<char>) -> Seq<char> {
    if no_extension(f) {
        f
    } else {
        f.take(last_dot(f).unwrap())
    }
}

/// The extension of a path: that of its file name.
pub open spec fn extension_of(path: Seq<char>) -> Option<Seq<char>> {
    match file_name_text(path) {
        Some(f) => extension_of_name(f),
        None => None,
    }
}

/// The stem of a path: that of its file name.
pub open spec fn stem_of(path: Seq<char>) -> Option<Seq<char>> {
    match file_name_text(path) {
        Some(f) => Some(stem_of_name(f)),
        None => None,
    }
}

proof fn lemma_last_dot(f: Seq<char>)
    ensures
        last_dot(f) matches Some(k) ==> 0 <= k < f.len() && f[k] == '.' && forall|j: int|
            k < j < f.len() ==> f[j] != '.',
        last_dot(f) is None ==> forall|j: int| 0 <= j < f.len() ==> f[j] != '.',
    decreases f.len(),
{
    if f.len() > 0 && f.last() != '.' {
        lemma_last_dot(f.drop_last());
        assert forall|j: int| 0 <= j < f.len() - 1 implies f[j] == f.drop_last()[j] by {}
    }
}

/// The index of the last `.` in `f`, found from the end.
fn find_last_dot(f: &[char]) -> (r: Option<usize>)
    ensures
        r matches Some(k) ==> last_dot(f@) == Some(k as int) && k < f@.len(),
        r is None ==> last_dot(f@) is None,
{
    let mut i = f.len();
    assert(f@.take(i as int) =~= f@);
    while i > 0 && f[i - 1] != '.'
        invariant
            i <= f@.len(),
            last_dot(f@) == last_dot(f@.take(i as int)),
        decreases i,
    {
        assert(f@.take(i as int).drop_last() =~= f@.take(i - 1));
        i = i - 1;
    }
    if i == 0 {
        assert(f@.take(0) =~= Seq::<char>::empty());
        None
    } else {
        Some(i - 1)
    }
}

fn is_double_dot(f: &[char]) -> (b: bool)
    ensures
        b == (f@ == seq!['.', '.']),
{
    let b = f.len() == 2 && f[0] == '.' && f[1] == '.';
    if b {
        assert(f@ =~= seq!['.', '.']);
    }
    b
}

/// The extension of the file name `name`, as `Path::extension` finds it there.
pub fn name_extension(name: &str) -> (r: Option<String>)
    ensures
        r matches Some(e) ==> extension_of_name(name@) == Some(e@),
        r is None ==> extension_of_name(name@) is None,
{
    let f = chars_of(name);
    if is_double_dot(&f) {
        return None;
    }
    match find_last_dot(&f) {
        None => None,
        Some(k) => {
            if k == 0 {
                None
            } else {
                let n = f.len();
                Some(string_of(&f, k + 1, n))
            }
        },
    }
}

/// The stem of the file name `name`, as `Path::file_stem` finds it there.
pub fn name_stem(name: &str) -> (r: String)
    ensures
        r@ == stem_of_name(name@),
{
    let f = chars_of(name);
    let whole = string_of(&f, 0, f.len());
    assert(f@.subrange(0, f@.len() as int) =~= f@);
    if is_double_dot(&f) {
        return whole;
    }
    match find_last_dot(&f) {
        None => whole,
        Some(k) => {
            if k == 0 {
                whole
            } else {
                let r = string_of(&f, 0, k);
                assert(f@.subrange(0, k as int) =~= f@.take(k as int));
                r
            }
        },
    }
}

/// The extension of `path`, as `Path::extension` gives it.
pub fn extension(path: &str) -> (r: Option<String>)
    ensures
        r matches Some(e) ==> extension_of(path@) == Some(e@),
        r is None ==> extension_of(path@) is None,
{
    match path_file_name(path) {
        None => None,
        Some(name) => name_extension(name.as_str()),
    }
}

/// The stem of `path`, as `Path::file_stem` gives it.
pub fn file_stem(path: &str) -> (r: Option<String>)
    ensures
        r matches Some(s) ==> stem_of(path@) == Some(s@),
        r is None ==> stem_of(path@) is None,
{
    match path_file_name(path) {
        None => None,
        Some(name) => Some(name_stem(name.as_str())),
    }
}

/// The direction of a conversion.
#[derive(PartialEq, Eq, Structural, Clone, Copy, Debug)]
pub enum Mode {
    /// Plain text in, EPUB out.
    TxtToEpub,
    /// EPUB in, plain text out.
    EpubToTxt,
}

pub open spec fn txt_word() -> Seq<char> {
    seq!['t', 'x', 't']
}

pub open spec fn epub_word() -> Seq<char> {
    seq!['e', 'p', 'u', 'b']
}

/// The direction that a (lowercased) extension asks for: `txt` or `epub`.
pub open spec fn mode_for_extension(ext: Seq<char>) -> Option<Mode> {
    if ext == txt_word() {
        Some(Mode::TxtToEpub)
    } else if ext == epub_word() {
        Some(Mode::EpubToTxt)
    } else {
        None
    }
}

/// The extension that the output of a conversion gets.
pub open spec fn output_extension(m: Mode) -> Seq<char> {
    match m {
        Mode::TxtToEpub => epub_word(),
        Mode::EpubToTxt => txt_word(),
    }
}

/// The output extensions hold no path separator.
pub proof fn lemma_output_extension_plain(m: Mode)
    ensures
        lacks(output_extension(m), '/'),
        lacks(output_extension(m), '\u{5c}'),
{
}

/// Whether the characters of `s` are exactly `w`.
pub fn chars_are(s: &str, w: &[char]) -> (b: bool)
    ensures
        b == (s@ == w@),
{
    let v = chars_of(s);
    if v.len() != w.len() {
        return false;
    }
    let mut i: usize = 0;
    while i < v.len()
        invariant
            v@ == s@,
            v@.len() == w@.len(),
            i <= v@.len(),
            forall|j: int| 0 <= j < i ==> v@[j] == w@[j],
        decreases v@.len() - i,
    {
        if v[i] != w[i] {
            return false;
        }
        i = i + 1;
    }
    assert(v@ =~= w@);
    true
}

/// The direction that the extension `ext` (already lowercased) asks for.
pub fn mode_for(ext: &str) -> (r: Option<Mode>)
    ensures
        r == mode_for_extension(ext@),
{
    let txt: [char; 3] = ['t', 'x', 't'];
    let epub: [char; 4] = ['e', 'p', 'u', 'b'];
    assert(txt@ =~= txt_word());
    assert(epub@ =~= epub_word());
    if chars_are(ext, &txt) {
        Some(Mode::TxtToEpub)
    } else if chars_are(ext, &epub) {
        Some(Mode::EpubToTxt)
    } else {
        None
    }
}

/// The extension the output of a conversion in direction `m` gets.
pub fn output_extension_for(m: Mode) -> (r: String)
    ensures
        r@ == output_extension(m),
{
    match m {
        Mode::TxtToEpub => {
            let w: [char; 4] = ['e', 'p', 'u', 'b'];
            let r = crate::text::string_from(&w);
            assert(r@ =~= epub_word());
            r
        },
        Mode::EpubToTxt => {
            let w: [char; 3] = ['t', 'x', 't'];
            let r = crate::text::string_from(&w);
            assert(r@ =~= txt_word());
            r
        },
    }
}

} // verus!
