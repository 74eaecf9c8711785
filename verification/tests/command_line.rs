use transmute_txt::cli::{book_from_text, cover_image, parse_args, UsageError};
use transmute_txt::paths::Mode;

fn args(v: &[&str]) -> Vec<String> {
    v.iter().map(|s| s.to_string()).collect()
}

#[test]
fn txt_input_converts_to_epub() {
    let inv = parse_args(&args(&["transmute", "novel.txt", "novel.epub"])).unwrap();
    assert_eq!(inv.input, "novel.txt");
    assert_eq!(inv.output, "novel.epub");
    assert_eq!(inv.cover, None);
    assert_eq!(inv.mode, Mode::TxtToEpub);
}

#[test]
fn epub_input_in_capitals_converts_to_txt() {
    let inv = parse_args(&args(&["transmute", "BOOK.EPUB", "out.txt"])).unwrap();
    assert_eq!(inv.mode, Mode::EpubToTxt);
}

#[test]
fn cover_flag_takes_the_next_argument() {
    let inv = parse_args(&args(&["t", "a.txt", "-c", "cover.jpg", "b.epub"])).unwrap();
    assert_eq!(inv.cover, Some("cover.jpg".to_string()));
    assert_eq!(inv.output, "b.epub");
    let inv = parse_args(&args(&["t", "--cover", "c.png", "a.txt", "b.epub"])).unwrap();
    assert_eq!(inv.cover, Some("c.png".to_string()));
    assert_eq!(inv.input, "a.txt");
}

#[test]
fn later_paths_replace_the_output_and_options_are_ignored() {
    let inv = parse_args(&args(&["t", "a.txt", "-v", "b.epub", "c.epub"])).unwrap();
    assert_eq!(inv.output, "c.epub");
}

#[test]
fn usage_errors() {
    assert!(matches!(parse_args(&args(&["t", "a.txt"])), Err(UsageError::MissingArguments)));
    assert!(matches!(parse_args(&args(&["t", "a.txt", "-c"])), Err(UsageError::MissingCoverPath)));
    assert!(matches!(parse_args(&args(&["t", "-x", "-y"])), Err(UsageError::MissingInput)));
    assert!(matches!(parse_args(&args(&["t", "a.txt", "-y"])), Err(UsageError::MissingOutput)));
    match parse_args(&args(&["t", "a.PDF", "b.txt"])) {
        Err(UsageError::UnknownFormat(e)) => assert_eq!(e, "pdf"),
        _ => panic!("expected an unknown format"),
    }
    match parse_args(&args(&["t", "noext", "b.txt"])) {
        Err(UsageError::UnknownFormat(e)) => assert_eq!(e, ""),
        _ => panic!("expected an unknown format"),
    }
}

#[test]
fn cover_types_from_extension() {
    let c = cover_image("pics/Cover.PNG", vec![1, 2]);
    assert_eq!(c.image.media_type, "image/png");
    assert_eq!(c.image.file_name, "Cover.PNG");
    assert_eq!(c.image.data, vec![1, 2]);
    assert_eq!(c.unknown_extension, None);
    let c = cover_image("art.gif", vec![]);
    assert_eq!(c.image.media_type, "image/jpeg");
    assert_eq!(c.unknown_extension, Some("gif".to_string()));
    let c = cover_image("photo", vec![]);
    assert_eq!(c.image.media_type, "image/jpeg");
    assert_eq!(c.unknown_extension, None);
    let c = cover_image("x.jpeg", vec![]);
    assert_eq!(c.image.media_type, "image/jpeg");
    assert_eq!(c.unknown_extension, None);
}

#[test]
fn book_from_text_finds_metadata_and_chapters() {
    let b = book_from_text("《书名》\n作者：某\n第一章\n正文", "dir/file.txt", None);
    assert_eq!(b.metadata.title, "书名");
    assert_eq!(b.metadata.author, "某");
    assert_eq!(b.metadata.language, "zh");
    assert_eq!(b.chapters.len(), 1);
    assert_eq!(b.chapters[0].title, "第一章");
    assert_eq!(b.chapters[0].body, "《书名》\n作者：某\n正文");
}

#[test]
fn book_title_falls_back_to_file_stem() {
    let b = book_from_text("no metadata", "some.dir/my.novel.txt", None);
    assert_eq!(b.metadata.title, "my.novel");
    assert_eq!(b.metadata.author, "");
    assert_eq!(b.chapters[0].title, "Chapter 1");
    let b = book_from_text("x", "/", None);
    assert_eq!(b.metadata.title, "untitled");
}
