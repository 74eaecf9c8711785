//! Turning the raw bytes of a text file into text: a byte order mark decides
//! the encoding; without one, valid UTF-8 is read as UTF-8 and anything else
//! as GBK, the usual encoding of Chinese text files.

use vstd::prelude::*;
use vstd::utf8::{decode_utf8, valid_utf8};

verus! {

/// The encodings a text file is read in.
#[derive(PartialEq, Eq, Structural, Clone, Copy, Debug)]
pub enum TextEncoding {
    Utf8,
    Utf16Le,
    Utf16Be,
    Gbk,
}

/// What `Encoding::decode_without_bom_handling` of `encoding_rs` gives for
/// `bytes`: the decoded text, and whether malformed sequences were replaced.
pub uninterp spec fn without_bom_decoding(enc: TextEncoding, bytes: Seq<u8>) -> (Seq<char>, bool);

/// The byte order mark that `bytes` starts with, as `Encoding::for_bom` finds
/// it: its encoding and its length.
pub open spec fn bom_of(bytes: Seq<u8>) -> Option<(TextEncoding, int)> {
    if bytes.len() >= 3 && bytes[0] == 0xEF && bytes[1] == 0xBB && bytes[2] == 0xBF {
        Some((TextEncoding::Utf8, 3))
    } else if bytes.len() >= 2 && bytes[0] == 0xFF && bytes[1] == 0xFE {
        Some((TextEncoding::Utf16Le, 2))
    } else if bytes.len() >= 2 && bytes[0] == 0xFE && bytes[1] == 0xFF {
        Some((TextEncoding::Utf16Be, 2))
    } else {
        None
    }
}

/// Facts of UTF-8 decoding: malformed sequences are found exactly when the
/// bytes are not valid UTF-8, and valid UTF-8 decodes to the characters it encodes.
pub open spec fn utf8_decoding_facts(bytes: Seq<u8>, r: (Seq<char>, bool)) -> bool {
    &&& (r.1 <==> !valid_utf8(bytes))
    &&& (valid_utf8(bytes) ==> r.0 == decode_utf8(bytes))
}

/// `Encoding::decode_without_bom_handling` of `encoding_rs`, for the encoding
/// `enc`: the result is named by `without_bom_decoding`; for UTF-8 its
/// documentation adds that valid input decodes unchanged and without errors,
/// and that malformed input reports errors.
#[verifier::external_body]
fn decode_without_bom_handling(enc: TextEncoding, bytes: &[u8]) -> (r: (String, bool))
    ensures
        (r.0@, r.1) == without_bom_decoding(enc, bytes@),
        enc == TextEncoding::Utf8 ==> utf8_decoding_facts(bytes@, (r.0@, r.1)),
{
    let encoding = match enc {
        TextEncoding::Utf8 => encoding_rs::UTF_8,
        TextEncoding::Utf16Le => encoding_rs::UTF_16LE,
        TextEncoding::Utf16Be => encoding_rs::UTF_16BE,
        TextEncoding::Gbk => encoding_rs::GBK,
    };
    let (text, had_errors) = encoding.decode_without_bom_handling(bytes);
    (text.into_owned(), had_errors)
}

/// `Encoding::decode` of `encoding_rs`, for the encoding `enc`. Its source
/// looks for a byte order mark with `Encoding::for_bom` and decodes the rest
/// with `decode_without_bom_handling` in the encoding it found, or all of
/// `bytes` in `enc` when there is none; the encoding it used is not returned.
#[verifier::external_body]
fn decode_sniffing(enc: TextEncoding, bytes: &[u8]) -> (r: (String, bool))
    ensures
        (r.0@, r.1) == (match bom_of(bytes@) {
            Some((e, n)) => without_bom_decoding(e, bytes@.skip(n)),
            None => without_bom_decoding(enc, bytes@),
        }),
        enc == TextEncoding::Utf8 && bom_of(bytes@) is None ==> utf8_decoding_facts(
            bytes@,
            (r.0@, r.1),
        ),
{
    let encoding = match enc {
        TextEncoding::Utf8 => encoding_rs::UTF_8,
        TextEncoding::Utf16Le => encoding_rs::UTF_16LE,
        TextEncoding::Utf16Be => encoding_rs::UTF_16BE,
        TextEncoding::Gbk => encoding_rs::GBK,
    };
    let (text, _used, had_errors) = encoding.decode(bytes);
    (text.into_owned(), had_errors)
}

/// The text that `auto_decode` reads from `bytes`.
pub open spec fn decoded_text(bytes: Seq<u8>) -> Seq<char> {
    match bom_of(bytes) {
        Some((e, n)) => if e == TextEncoding::Utf8 && valid_utf8(bytes.skip(n)) {
            decode_utf8(bytes.skip(n))
        } else {
            without_bom_decoding(e, bytes.skip(n)).0
        },
        None => if valid_utf8(bytes) {
            decode_utf8(bytes)
        } else {
            without_bom_decoding(TextEncoding::Gbk, bytes).0
        },
    }
}

/// The byte order mark at the start of `raw`: its encoding and length.
pub fn detect_bom(raw: &[u8]) -> (r: Option<(TextEncoding, usize)>)
    ensures
        r matches Some((e, n)) ==> bom_of(raw@) == Some((e, n as int)),
        r is None ==> bom_of(raw@) is None,
{
    let n = raw.len();
    if n >= 3 && raw[0] == 0xEF && raw[1] == 0xBB && raw[2] == 0xBF {
        Some((TextEncoding::Utf8, 3))
    } else if n >= 2 && raw[0] == 0xFF && raw[1] == 0xFE {
        Some((TextEncoding::Utf16Le, 2))
    } else if n >= 2 && raw[0] == 0xFE && raw[1] == 0xFF {
        Some((TextEncoding::Utf16Be, 2))
    } else {
        None
    }
}

fn slice_from(raw: &[u8], n: usize) -> (r: &[u8])
    requires
        n <= raw@.len(),
    ensures
        r@ == raw@.skip(n as int),
{
    vstd::slice::slice_subrange(raw, n, raw.len())
}

/// Reads the raw bytes of a text file as text: a UTF-8, UTF-16LE or UTF-16BE
/// byte order mark decides the encoding; without one the bytes are read as
/// UTF-8 when they are valid UTF-8, and as GBK otherwise. Never fails.
pub fn auto_decode(raw: &[u8]) -> (r: Result<String, String>)
    ensures
        r matches Ok(t) && t@ == decoded_text(raw@),
        bom_of(raw@) is None && valid_utf8(raw@) ==> (r matches Ok(t) && t@ == decode_utf8(raw@)),
        bom_of(raw@) == Some((TextEncoding::Utf8, 3int)) && valid_utf8(raw@.skip(3)) ==> (
        r matches Ok(t) && t@ == decode_utf8(raw@.skip(3))),
{
    match detect_bom(raw) {
        Some((enc, n)) => {
            let (text, _) = decode_without_bom_handling(enc, slice_from(raw, n));
            Ok(text)
        },
        None => {
            let (text, had_errors) = decode_sniffing(TextEncoding::Utf8, raw);
            if !had_errors {
                Ok(text)
            } else {
                let (gbk, _) = decode_sniffing(TextEncoding::Gbk, raw);
                Ok(gbk)
            }
        },
    }
}

} // verus!
