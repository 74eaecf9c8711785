# transmute_txt

The plain-text side of a txt ↔ epub converter, verified with Verus.

- `src/text.rs` — white space, trimming, line splitting and substring search over `Seq<char>`.
- `src/heading.rs` — chapter heading detection (`# …`, `Chapter …`, `第一章`, `第3卷`, …).
- `src/meta.rs` — title (`《书名》`) and author (`作者：…`) found in the first twenty lines.
- `src/book.rs` — the book model, splitting a text into chapters, rendering a book as text.
- `src/decode.rs` — reading raw bytes as text (BOM, then UTF-8, then GBK) with `encoding_rs`.
- `src/paths.rs` — file names, extensions and the conversion direction they select.
- `src/cli.rs` — command-line arguments and the book the command line builds.
- `src/gui.rs` — state and decisions of the desktop converter.
- `src/laws.rs` — properties across functions (metadata and chapter-title round trips, chapter counts).
- `app/` — the program: file I/O, EPUB reading and writing, and the egui window.
