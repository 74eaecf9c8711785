use transmute_txt::book::media_type_for;
use transmute_txt::gui::App;
use transmute_txt::paths::{extension, file_stem, mode_for, name_extension, name_stem, Mode};

#[test]
fn extensions_follow_path_rules() {
    assert_eq!(extension("dir/book.TXT"), Some("TXT".to_string()));
    assert_eq!(extension("my.dir/book"), None);
    assert_eq!(extension(".bashrc"), None);
    assert_eq!(extension("a.tar.gz"), Some("gz".to_string()));
    assert_eq!(extension("name."), Some(String::new()));
    assert_eq!(name_extension(".."), None);
    assert_eq!(name_extension("x.epub"), Some("epub".to_string()));
    assert_eq!(file_stem("a/b.c.d"), Some("b.c".to_string()));
    assert_eq!(file_stem(".hidden"), Some(".hidden".to_string()));
    assert_eq!(file_stem("/"), None);
    assert_eq!(name_stem("plain"), "plain");
}

#[test]
fn modes_of_extensions() {
    assert_eq!(mode_for("txt"), Some(Mode::TxtToEpub));
    assert_eq!(mode_for("epub"), Some(Mode::EpubToTxt));
    assert_eq!(mode_for("TXT"), None);
    assert_eq!(mode_for("pdf"), None);
}

#[test]
fn media_types() {
    assert_eq!(media_type_for("jpg"), ("image/jpeg".to_string(), true));
    assert_eq!(media_type_for("png"), ("image/png".to_string(), true));
    assert_eq!(media_type_for("webp"), ("image/jpeg".to_string(), false));
}

fn app_with_input(p: &str) -> App {
    let mut app = App::default();
    app.input_path = Some(p.to_string());
    app
}

#[test]
fn app_mode_and_auto_output() {
    let app = app_with_input("books/Novel.TXT");
    assert_eq!(app.mode(), Some(Mode::TxtToEpub));
    assert_eq!(app.auto_output(), Some("books/Novel.epub".to_string()));
    let app = app_with_input("x.epub");
    assert_eq!(app.mode(), Some(Mode::EpubToTxt));
    assert_eq!(app.auto_output(), Some("x.txt".to_string()));
    let app = app_with_input("x.pdf");
    assert_eq!(app.mode(), None);
    assert_eq!(app.auto_output(), None);
    assert_eq!(App::default().mode(), None);
    assert_eq!(App::default().auto_output(), None);
}

#[test]
fn convert_without_input() {
    let mut app = App::default();
    assert!(app.convert().is_none());
    assert_eq!(app.status, "请先选择输入文件");
    assert!(!app.status_ok);
}

#[test]
fn convert_unsupported_format() {
    let mut app = app_with_input("doc.pdf");
    assert!(app.convert().is_none());
    assert_eq!(app.status, "不支持的文件格式");
}

#[test]
fn convert_chooses_output() {
    let mut app = app_with_input("a.txt");
    let job = app.convert().unwrap();
    assert_eq!(job.mode, Mode::TxtToEpub);
    assert_eq!(job.input, "a.txt");
    assert_eq!(job.output, "a.epub");
    app.output_path = Some("chosen.epub".to_string());
    assert_eq!(app.convert().unwrap().output, "chosen.epub");
    assert_eq!(app.status, "");
}

#[test]
fn finishing_sets_the_status() {
    let mut app = app_with_input("a.txt");
    app.finish_conversion("a.epub", &Ok(()));
    assert_eq!(app.status, "✅ 已保存至 a.epub");
    assert!(app.status_ok);
    app.finish_conversion("a.epub", &Err("磁盘已满".to_string()));
    assert_eq!(app.status, "转换失败: 磁盘已满");
    assert!(!app.status_ok);
}

#[test]
fn selecting_a_text_fills_empty_metadata() {
    let mut app = App::default();
    app.status = "old".to_string();
    app.select_input("n.txt".to_string(), Some("《名》\n作者：甲"));
    assert_eq!(app.title, "名");
    assert_eq!(app.author, "甲");
    assert_eq!(app.input_path, Some("n.txt".to_string()));
    assert_eq!(app.output_path, Some("n.epub".to_string()));
    assert_eq!(app.status, "");
    let mut app = App::default();
    app.title = "typed".to_string();
    app.select_input("m.txt".to_string(), Some("《名》\n作者：乙"));
    assert_eq!(app.title, "typed");
    assert_eq!(app.author, "乙");
    let mut app = App::default();
    app.select_input("m.epub".to_string(), None);
    assert_eq!(app.title, "");
    assert_eq!(app.output_path, Some("m.txt".to_string()));
}

#[test]
fn metadata_scan_only_for_lowercase_txt() {
    assert!(App::wants_metadata_scan("a/b.txt"));
    assert!(!App::wants_metadata_scan("a/b.TXT"));
    assert!(!App::wants_metadata_scan("a/b.epub"));
}

#[test]
fn output_text_and_save_extension() {
    let mut app = app_with_input("a.epub");
    app.set_output_text("x.txt".to_string());
    assert_eq!(app.output_path, Some("x.txt".to_string()));
    app.set_output_text(String::new());
    assert_eq!(app.output_path, None);
    assert_eq!(app.save_as_extension(), "txt");
    assert_eq!(app_with_input("a.txt").save_as_extension(), "epub");
    assert_eq!(App::default().save_as_extension(), "out");
}

#[test]
fn labels() {
    let app = app_with_input("dir/a.txt");
    assert_eq!(app.input_label(), "a.txt");
    assert_eq!(app.cover_label(), "未选择");
    assert_eq!(app.mode_label(), Some("📄 TXT → 📗 EPUB".to_string()));
    assert_eq!(app_with_input("b.epub").mode_label(), Some("📗 EPUB → 📄 TXT".to_string()));
    assert_eq!(app_with_input("b.doc").mode_label(), None);
    assert!(app.can_convert());
    assert!(!App::default().can_convert());
}

#[test]
fn build_book_uses_typed_or_found_metadata() {
    let mut app = App::default();
    app.description = "简介".to_string();
    let b = app.build_book("《原名》\n作者：原作者\n第一章\n正文", None);
    assert_eq!(b.metadata.title, "原名");
    assert_eq!(b.metadata.author, "原作者");
    assert_eq!(b.metadata.language, "zh");
    assert_eq!(b.metadata.extra, vec![("dcterms:description".to_string(), "简介".to_string())]);
    assert_eq!(b.chapters.len(), 1);
    app.title = "新名".to_string();
    app.language = "en".to_string();
    app.publisher = "出版社".to_string();
    let b = app.build_book("正文", None);
    assert_eq!(b.metadata.title, "新名");
    assert_eq!(b.metadata.author, "");
    assert_eq!(b.metadata.language, "en");
    assert_eq!(b.metadata.extra.len(), 2);
    assert_eq!(b.chapters[0].title, "第1章");
}

#[test]
fn gui_cover_needs_extension() {
    let c = App::cover_image("p/c.PNG", vec![9]).unwrap();
    assert_eq!(c.media_type, "image/png");
    assert_eq!(c.file_name, "c.PNG");
    assert_eq!(c.data, vec![9]);
    assert!(App::cover_image("p/cover", vec![]).is_none());
    assert_eq!(App::cover_image("a.bmp", vec![]).unwrap().media_type, "image/jpeg");
}

#[test]
fn mixed_case_extensions_select_the_mode() {
    assert_eq!(app_with_input("a.Epub").mode(), Some(Mode::EpubToTxt));
    assert_eq!(app_with_input("books/Novel.TXT").mode(), Some(Mode::TxtToEpub));
}
