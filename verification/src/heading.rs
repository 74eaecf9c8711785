//! Chapter heading detection: `# Title`, `Chapter …`, `CHAPTER …`, and the
//! `第…章` family (`第1章`, `第一章`, `第八十四章`, `第一部`, `第3卷`, …).

use vstd::prelude::*;
use crate::text::{starts_with, starts_with_at};

verus! {

/// The Chinese numerals that may spell a chapter number.
pub open spec fn is_cn_numeral(c: char) -> bool {
    ||| c == '零'
    ||| c == '一'
    ||| c == '二'
    ||| c == '三'
    ||| c == '四'
    ||| c == '五'
    ||| c == '六'
    ||| c == '七'
    ||| c == '八'
    ||| c == '九'
    ||| c == '十'
    ||| c == '百'
    ||| c == '千'
    ||| c == '万'
    ||| c == '两'
    ||| c == '〇'
}

/// An ASCII digit `0`–`9`.
pub open spec fn is_ascii_digit(c: char) -> bool {
    '0' <= c && c <= '9'
}

/// A character that may spell a chapter number.
pub open spec fn is_numeral(c: char) -> bool {
    is_ascii_digit(c) || is_cn_numeral(c)
}

/// The words that close a `第…` heading: chapter, section, part, volume, piece, episode.
pub open spec fn is_unit(c: char) -> bool {
    ||| c == '章'
    ||| c == '节'
    ||| c == '部'
    ||| c == '卷'
    ||| c == '篇'
    ||| c == '集'
}

/// `第`, one or more numerals, a unit word, and then anything but `分`
/// (so that `第一部分`, "part one", is not a heading).
pub open spec fn numbered_heading(s: Seq<char>) -> bool {
    &&& s.len() > 0
    &&& s[0] == '第'
    &&& exists|k: int|
        #![trigger s[k]]
        2 <= k < s.len() && (forall|i: int| 1 <= i < k ==> is_numeral(s[i])) && is_unit(s[k])
            && !(k + 1 < s.len() && s[k + 1] == '分')
}

pub open spec fn markdown_prefix() -> Seq<char> {
    seq!['#', ' ']
}

pub open spec fn chapter_prefix() -> Seq<char> {
    seq!['C', 'h', 'a', 'p', 't', 'e', 'r', ' ']
}

pub open spec fn upper_chapter_prefix() -> Seq<char> {
    seq!['C', 'H', 'A', 'P', 'T', 'E', 'R', ' ']
}

/// A chapter heading: a Markdown `# ` heading, `Chapter `/`CHAPTER `, or a
/// numbered `第…` heading.
pub open spec fn chapter_heading(s: Seq<char>) -> bool {
    ||| starts_with(s, markdown_prefix())
    ||| starts_with(s, chapter_prefix())
    ||| starts_with(s, upper_chapter_prefix())
    ||| numbered_heading(s)
}

/// Whether `c` is one of the Chinese numerals of chapter numbers.
pub fn cn_numeral(c: char) -> (b: bool)
    ensures
        b == is_cn_numeral(c),
{
    c == '零' || c == '一' || c == '二' || c == '三' || c == '四' || c == '五' || c == '六' || c
        == '七' || c == '八' || c == '九' || c == '十' || c == '百' || c == '千' || c == '万' || c
        == '两' || c == '〇'
}

fn ascii_digit(c: char) -> (b: bool)
    ensures
        b == is_ascii_digit(c),
{
    '0' <= c && c <= '9'
}

fn unit(c: char) -> (b: bool)
    ensures
        b == is_unit(c),
{
    c == '章' || c == '节' || c == '部' || c == '卷' || c == '篇' || c == '集'
}

/// Whether `s[from..to]` begins with `p`.
fn has_prefix(s: &[char], from: usize, to: usize, p: &[char]) -> (b: bool)
    requires
        from <= to <= s@.len(),
    ensures
        b == starts_with(s@.subrange(from as int, to as int), p@),
{
    if p.len() > to - from {
        return false;
    }
    let b = starts_with_at(s, from, p);
    assert(s@.subrange(from as int, to as int).take(p@.len() as int) =~= s@.skip(
        from as int,
    ).take(p@.len() as int));
    b
}

/// Whether `s[from..to]` is a numbered `第…` heading.
fn numbered_at(s: &[char], from: usize, to: usize) -> (b: bool)
    requires
        from <= to <= s@.len(),
    ensures
        b == numbered_heading(s@.subrange(from as int, to as int)),
{
    let ghost l = s@.subrange(from as int, to as int);
    if from == to || s[from] != '第' {
        return false;
    }
    assert(l[0] == '第');
    let mut i = from + 1;
    while i < to && (ascii_digit(s[i]) || cn_numeral(s[i]))
        invariant
            from < i <= to <= s@.len(),
            l == s@.subrange(from as int, to as int),
            forall|j: int| 1 <= j < i - from ==> is_numeral(#[trigger] l[j]),
        decreases to - i,
    {
        assert(l[i - from] == s@[i as int]);
        i = i + 1;
    }
    let k = i - from;
    if i == to {
        // every character after 第 is a numeral: no unit word follows
        assert forall|m: int| 2 <= m < l.len() implies !(#[trigger] is_unit(l[m])) by {
            assert(is_numeral(l[m]));
        }
        return false;
    }
    assert(l[k as int] == s@[i as int]);
    assert(!is_numeral(l[k as int]));
    if k >= 2 && unit(s[i]) {
        let r = !(i + 1 < to && s[i + 1] == '分');
        proof {
            if i + 1 < to {
                assert(l[k + 1] == s@[i + 1]);
            }
            if r {
                assert(2 <= k < l.len() && (forall|j: int| 1 <= j < k ==> is_numeral(l[j]))
                    && is_unit(l[k as int]) && !(k + 1 < l.len() && l[k + 1] == '分'));
            } else {
                assert forall|m: int|
                    2 <= m < l.len() && (forall|j: int| 1 <= j < m ==> is_numeral(l[j]))
                        && is_unit(#[trigger] l[m]) implies (m + 1 < l.len() && l[m + 1]
                    == '分') by {
                    if m < k {
                        assert(is_numeral(l[m]));
                    } else if m > k {
                        assert(is_numeral(l[k as int]));
                    }
                }
            }
        }
        r
    } else {
        proof {
            assert forall|m: int|
                2 <= m < l.len() && (forall|j: int| 1 <= j < m ==> is_numeral(l[j])) implies !(
                #[trigger] is_unit(l[m])) by {
                if m < k {
                    assert(is_numeral(l[m]));
                } else if m > k {
                    assert(is_numeral(l[k as int]));
                }
            }
        }
        false
    }
}

/// Whether `s[from..to]` is a chapter heading.
pub fn heading_at(s: &[char], from: usize, to: usize) -> (b: bool)
    requires
        from <= to <= s@.len(),
    ensures
        b == chapter_heading(s@.subrange(from as int, to as int)),
{
    let hash: [char; 2] = ['#', ' '];
    let chapter: [char; 8] = ['C', 'h', 'a', 'p', 't', 'e', 'r', ' '];
    let upper: [char; 8] = ['C', 'H', 'A', 'P', 'T', 'E', 'R', ' '];
    assert(hash@ =~= markdown_prefix());
    assert(chapter@ =~= chapter_prefix());
    assert(upper@ =~= upper_chapter_prefix());
    if has_prefix(s, from, to, &hash) {
        return true;
    }
    if has_prefix(s, from, to, &chapter) || has_prefix(s, from, to, &upper) {
        return true;
    }
    numbered_at(s, from, to)
}

} // verus!
