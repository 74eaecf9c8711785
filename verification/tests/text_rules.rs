use transmute_txt::book::{book_to_txt, Book, Chapter, Metadata};
use transmute_txt::cli::{extract_author, extract_title, is_chapter_heading, is_cn_digit_char, split_into_chapters};
use transmute_txt::gui;

fn ch(title: &str, body: &str) -> Chapter {
    Chapter { title: title.to_string(), body: body.to_string() }
}

fn pairs(cs: &[Chapter]) -> Vec<(String, String)> {
    cs.iter().map(|c| (c.title.clone(), c.body.clone())).collect()
}

#[test]
fn heading_patterns_from_readme() {
    assert!(is_chapter_heading("第1章"));
    assert!(is_chapter_heading("第一章 初遇"));
    assert!(is_chapter_heading("第八十四章"));
    assert!(is_chapter_heading("第一部"));
    assert!(is_chapter_heading("第3卷 风起"));
    assert!(is_chapter_heading("第十二节"));
    assert!(is_chapter_heading("第二篇"));
    assert!(is_chapter_heading("第〇集"));
    assert!(is_chapter_heading("# Title"));
    assert!(is_chapter_heading("Chapter 7"));
    assert!(is_chapter_heading("CHAPTER ONE"));
}

#[test]
fn heading_rejections() {
    assert!(!is_chapter_heading("第一部分"));
    assert!(!is_chapter_heading("第章"));
    assert!(!is_chapter_heading("第一"));
    assert!(!is_chapter_heading("第1话"));
    assert!(!is_chapter_heading("第a章"));
    assert!(!is_chapter_heading("#Title"));
    assert!(!is_chapter_heading("chapter 1"));
    assert!(!is_chapter_heading("Chapter"));
    assert!(!is_chapter_heading(""));
    assert!(!is_chapter_heading(" 第1章"));
    assert!(!is_chapter_heading("第1章分"));
    assert!(is_chapter_heading("第1章 分"));
    assert!(gui::is_chapter_heading("第99章"));
    assert!(!gui::is_chapter_heading("第99部分"));
}

#[test]
fn chinese_numerals() {
    for c in "零一二三四五六七八九十百千万两〇".chars() {
        assert!(is_cn_digit_char(c));
        assert!(gui::is_cn_digit(c));
    }
    assert!(!is_cn_digit_char('1'));
    assert!(!is_cn_digit_char('章'));
    assert!(!gui::is_cn_digit('壹'));
}

#[test]
fn author_with_either_colon() {
    assert_eq!(extract_author("《书》\n作者：张三\n正文"), "张三");
    assert_eq!(extract_author("作者:  李四  \n"), "李四");
    assert_eq!(extract_author("本书作者：王五，未完"), "王五，未完");
    assert_eq!(extract_author("作者：\n作者: 赵六"), "赵六");
    assert_eq!(extract_author("作者：  \t"), "");
    assert_eq!(extract_author("没有作者"), "");
    assert_eq!(gui::detect_author("x\r\n作者：钱七\r\n"), "钱七");
}

#[test]
fn author_only_in_first_twenty_lines() {
    let mut text = String::new();
    for _ in 0..20 {
        text.push_str("line\n");
    }
    text.push_str("作者：迟到\n");
    assert_eq!(extract_author(&text), "");
    let mut text19 = String::new();
    for _ in 0..19 {
        text19.push_str("line\n");
    }
    text19.push_str("作者：准时\n");
    assert_eq!(extract_author(&text19), "准时");
}

#[test]
fn title_in_guillemets() {
    assert_eq!(extract_title("《高天之上》\n作者：某"), Some("高天之上".to_string()));
    assert_eq!(extract_title("  《书名》 续集\n"), Some("书名".to_string()));
    assert_eq!(extract_title("《没有结尾"), Some("没有结尾".to_string()));
    assert_eq!(extract_title("《》\n《第二》"), Some("第二".to_string()));
    assert_eq!(extract_title("前言《不算》"), None);
    assert_eq!(extract_title(""), None);
    assert_eq!(gui::detect_title("\u{3000}《全角》"), Some("全角".to_string()));
}

#[test]
fn title_only_in_first_twenty_lines() {
    let mut text = String::new();
    for _ in 0..20 {
        text.push('\n');
    }
    text.push_str("《太晚》");
    assert_eq!(extract_title(&text), None);
}

#[test]
fn split_keeps_preamble_in_first_chapter() {
    let text = "《书》\n作者：甲\n\n第一章 开始\n\u{3000}\u{3000}正文一\n第二章\n正文二\n";
    let cs = split_into_chapters(text);
    assert_eq!(
        pairs(&cs),
        vec![
            ("第一章 开始".to_string(), "《书》\n作者：甲\n\n\u{3000}\u{3000}正文一".to_string()),
            ("第二章".to_string(), "正文二".to_string()),
        ]
    );
}

#[test]
fn split_drops_leading_empty_lines_of_a_body() {
    let cs = split_into_chapters("# A\n\n\nx\n\ny\r\n# B\n");
    assert_eq!(
        pairs(&cs),
        vec![("# A".to_string(), "x\n\ny".to_string()), ("# B".to_string(), String::new())]
    );
}

#[test]
fn split_without_headings_uses_default_title() {
    assert_eq!(
        pairs(&split_into_chapters("  indented\nmore")),
        vec![("Chapter 1".to_string(), "  indented\nmore".to_string())]
    );
    assert_eq!(
        pairs(&gui::split_into_chapters("正文")),
        vec![("第1章".to_string(), "正文".to_string())]
    );
    assert!(split_into_chapters("").is_empty());
    assert!(split_into_chapters("\n\n").is_empty());
}

#[test]
fn split_trims_heading_lines() {
    let cs = split_into_chapters("  第3章 标题  \nbody");
    assert_eq!(pairs(&cs), vec![("第3章 标题".to_string(), "body".to_string())]);
}

fn book(title: &str, author: &str, chapters: Vec<Chapter>) -> Book {
    Book {
        metadata: Metadata {
            title: title.to_string(),
            author: author.to_string(),
            language: String::new(),
            identifier: String::new(),
            extra: Vec::new(),
        },
        chapters,
        cover: None,
    }
}

#[test]
fn book_renders_as_text() {
    let b = book("书", "某人", vec![ch("第一章", "正文  \n\n"), ch("第二章", "")]);
    assert_eq!(book_to_txt(&b), "《书》\n作者：某人\n\n第一章\n正文\n\n第二章\n\n\n");
    let empty = book("", "", vec![]);
    assert_eq!(book_to_txt(&empty), "\n");
}

#[test]
fn rendered_metadata_reads_back() {
    let b = book("高天之上", "某 人", vec![ch("第一章", "x")]);
    let txt = book_to_txt(&b);
    assert_eq!(extract_title(&txt), Some("高天之上".to_string()));
    assert_eq!(extract_author(&txt), "某 人");
    let untitled = book("", "甲", vec![]);
    assert_eq!(extract_author(&book_to_txt(&untitled)), "甲");
}

#[test]
fn one_chapter_per_heading() {
    let text = "intro\n第1章\na\n第2章\n第3章\nb\n";
    let cs = split_into_chapters(text);
    assert_eq!(cs.len(), 3);
    for c in &cs {
        assert!(is_chapter_heading(&c.title));
    }
}

#[test]
fn rendered_chapter_titles_split_back() {
    let b = book(
        "书",
        "某",
        vec![ch("第一章 起", "  段落一\n段落二  \n"), ch("第二章", ""), ch("# 尾声", "完")],
    );
    let cs = split_into_chapters(&book_to_txt(&b));
    let titles: Vec<String> = cs.iter().map(|c| c.title.clone()).collect();
    assert_eq!(titles, vec!["第一章 起", "第二章", "# 尾声"]);
}
