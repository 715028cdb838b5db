use mxu::mime::{guess_mime, mime_from_extension};
use mxu::text::{
    chars_of, decimal_text, eq_ignoring_ascii_case, joined, lines_of, same_text,
    separated_text, string_of, text_after_last, text_without_leading,
};

#[test]
fn characters_and_back() {
    let chars = chars_of("ab\u{3000}c");
    assert_eq!(chars, vec!['a', 'b', '\u{3000}', 'c']);
    assert_eq!(string_of(&chars, 1, 3), "b\u{3000}");
    assert_eq!(string_of(&chars, 2, 2), "");
}

#[test]
fn texts_are_compared_by_characters() {
    assert!(same_text("", ""));
    assert!(same_text("caf\u{e9}", "caf\u{e9}"));
    assert!(!same_text("a", "b"));
    assert!(!same_text("a", "aa"));
    assert_eq!(joined("a", "b"), "ab");
}

#[test]
fn after_last_is_what_rsplit_gives_first() {
    for s in ["", ".", "a", "a.b", "a.b.c", ".b", "a.", "x/y.d/z", "\u{4f60}.\u{597d}"] {
        assert_eq!(text_after_last(s, '.'), s.rsplit('.').next().unwrap_or(""));
    }
}

#[test]
fn leading_characters_are_trimmed() {
    for s in ["", "/", "//", "a", "/a", "//a/b/", "a/"] {
        assert_eq!(text_without_leading(s, '/'), s.trim_start_matches('/'));
    }
}

#[test]
fn ascii_case_is_ignored() {
    assert!(eq_ignoring_ascii_case("LocalHost:12701", "localhost:12701"));
    assert!(!eq_ignoring_ascii_case("localhost:1270", "localhost:12701"));
    assert!(!eq_ignoring_ascii_case("localhost", "localhosu"));
    for a in 0u8..128 {
        for b in 0u8..128 {
            let (x, y) = ((a as char).to_string(), (b as char).to_string());
            assert_eq!(eq_ignoring_ascii_case(&x, &y), x.eq_ignore_ascii_case(&y));
        }
    }
    assert!(!eq_ignoring_ascii_case("\u{c9}", "\u{e9}"));
}

#[test]
fn decimals() {
    for n in [0u64, 7, 9, 10, 99, 100, 12701, 65535, u64::MAX] {
        assert_eq!(decimal_text(n), n.to_string());
    }
}

#[test]
fn lines_end_like_those_of_std() {
    for s in [
        "", "\n", "\r\n", "\r", "a", "a\n", "a\r\n", "a\r", "a\nb", "a\r\nb\r\n", "a\n\nb\n", "\n\n",
        "a\r\r\nb", "x\ry\nz", "\u{4e00}\n\u{4e8c}",
    ] {
        assert_eq!(lines_of(s), s.lines().map(|l| l.to_string()).collect::<Vec<String>>(), "{:?}", s);
    }
}

#[test]
fn parts_are_separated() {
    let parts = |list: &[&str]| list.iter().map(|s| s.to_string()).collect::<Vec<String>>();
    assert_eq!(separated_text(&parts(&[]), "\n"), "");
    assert_eq!(separated_text(&parts(&["a"]), "\n"), "a");
    assert_eq!(separated_text(&parts(&["a", "", "c"]), "\n"), "a\n\nc");
}

#[test]
fn every_known_extension() {
    let table = [
        ("html", "text/html; charset=utf-8"),
        ("htm", "text/html; charset=utf-8"),
        ("css", "text/css; charset=utf-8"),
        ("js", "application/javascript; charset=utf-8"),
        ("mjs", "application/javascript; charset=utf-8"),
        ("json", "application/json; charset=utf-8"),
        ("jsonc", "application/json; charset=utf-8"),
        ("txt", "text/plain; charset=utf-8"),
        ("md", "text/markdown; charset=utf-8"),
        ("png", "image/png"),
        ("jpg", "image/jpeg"),
        ("jpeg", "image/jpeg"),
        ("gif", "image/gif"),
        ("webp", "image/webp"),
        ("svg", "image/svg+xml"),
        ("ico", "image/x-icon"),
        ("bmp", "image/bmp"),
        ("woff", "font/woff"),
        ("woff2", "font/woff2"),
        ("ttf", "font/ttf"),
        ("wasm", "application/wasm"),
        ("", "application/octet-stream"),
        ("PNG", "application/octet-stream"),
        ("exe", "application/octet-stream"),
    ];
    for (ext, expected) in table {
        assert_eq!(mime_from_extension(ext), expected);
    }
}

#[test]
fn paths_are_guessed_by_their_last_dot() {
    assert_eq!(guess_mime("index.html"), "text/html; charset=utf-8");
    assert_eq!(guess_mime("a.b/app.min.js"), "application/javascript; charset=utf-8");
    assert_eq!(guess_mime("png"), "image/png");
    assert_eq!(guess_mime("dir.d/file"), "application/octet-stream");
}
