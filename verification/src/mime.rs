//! Content types by file name.
use vstd::prelude::*;

#[allow(unused_imports)]
use crate::text::{after_last, same_text, text_after_last};

verus! {

/// The content type that belongs to a file extension; extensions are told apart by case.
pub open spec fn mime(ext: Seq<char>) -> Seq<char> {
    if ext == "html"@ || ext == "htm"@ {
        "text/html; charset=utf-8"@
    } else if ext == "css"@ {
        "text/css; charset=utf-8"@
    } else if ext == "js"@ || ext == "mjs"@ {
        "application/javascript; charset=utf-8"@
    } else if ext == "json"@ || ext == "jsonc"@ {
        "application/json; charset=utf-8"@
    } else if ext == "txt"@ {
        "text/plain; charset=utf-8"@
    } else if ext == "md"@ {
        "text/markdown; charset=utf-8"@
    } else if ext == "png"@ {
        "image/png"@
    } else if ext == "jpg"@ || ext == "jpeg"@ {
        "image/jpeg"@
    } else if ext == "gif"@ {
        "image/gif"@
    } else if ext == "webp"@ {
        "image/webp"@
    } else if ext == "svg"@ {
        "image/svg+xml"@
    } else if ext == "ico"@ {
        "image/x-icon"@
    } else if ext == "bmp"@ {
        "image/bmp"@
    } else if ext == "woff"@ {
        "font/woff"@
    } else if ext == "woff2"@ {
        "font/woff2"@
    } else if ext == "ttf"@ {
        "font/ttf"@
    } else if ext == "wasm"@ {
        "application/wasm"@
    } else {
        "application/octet-stream"@
    }
}

/// The content type that belongs to a file extension.
pub fn mime_from_extension(ext: &str) -> (r: &'static str)
    ensures
        r@ == mime(ext@),
{
    if same_text(ext, "html") || same_text(ext, "htm") {
        "text/html; charset=utf-8"
    } else if same_text(ext, "css") {
        "text/css; charset=utf-8"
    } else if same_text(ext, "js") || same_text(ext, "mjs") {
        "application/javascript; charset=utf-8"
    } else if same_text(ext, "json") || same_text(ext, "jsonc") {
        "application/json; charset=utf-8"
    } else if same_text(ext, "txt") {
        "text/plain; charset=utf-8"
    } else if same_text(ext, "md") {
        "text/markdown; charset=utf-8"
    } else if same_text(ext, "png") {
        "image/png"
    } else if same_text(ext, "jpg") || same_text(ext, "jpeg") {
        "image/jpeg"
    } else if same_text(ext, "gif") {
        "image/gif"
    } else if same_text(ext, "webp") {
        "image/webp"
    } else if same_text(ext, "svg") {
        "image/svg+xml"
    } else if same_text(ext, "ico") {
        "image/x-icon"
    } else if same_text(ext, "bmp") {
        "image/bmp"
    } else if same_text(ext, "woff") {
        "font/woff"
    } else if same_text(ext, "woff2") {
        "font/woff2"
    } else if same_text(ext, "ttf") {
        "font/ttf"
    } else if same_text(ext, "wasm") {
        "application/wasm"
    } else {
        "application/octet-stream"
    }
}

/// The content type that belongs to a path: that of what follows its last dot, or of the whole
/// path where it has none.
pub fn guess_mime(path: &str) -> (r: &'static str)
    ensures
        r@ == mime(after_last(path@, '.')),
{
    let ext = text_after_last(path, '.');
    mime_from_extension(ext.as_str())
}

/// An extension that is none of the known ones, however long and in whatever case, belongs to bytes of
/// no known kind.
pub proof fn law_unknown_extensions(ext: Seq<char>)
    requires
        ext != "html"@,
        ext != "htm"@,
        ext != "css"@,
        ext != "js"@,
        ext != "mjs"@,
        ext != "json"@,
        ext != "jsonc"@,
        ext != "txt"@,
        ext != "md"@,
        ext != "png"@,
        ext != "jpg"@,
        ext != "jpeg"@,
        ext != "gif"@,
        ext != "webp"@,
        ext != "svg"@,
        ext != "ico"@,
        ext != "bmp"@,
        ext != "woff"@,
        ext != "woff2"@,
        ext != "ttf"@,
        ext != "wasm"@,
    ensures
        mime(ext) == "application/octet-stream"@,
{
}

/// A known extension belongs to the content type of its kind of file.
pub proof fn law_known_extensions(ext: Seq<char>)
    ensures
        ext == "html"@ ==> mime(ext) == "text/html; charset=utf-8"@,
        ext == "htm"@ ==> mime(ext) == "text/html; charset=utf-8"@,
        ext == "css"@ ==> mime(ext) == "text/css; charset=utf-8"@,
        ext == "js"@ ==> mime(ext) == "application/javascript; charset=utf-8"@,
        ext == "mjs"@ ==> mime(ext) == "application/javascript; charset=utf-8"@,
        ext == "json"@ ==> mime(ext) == "application/json; charset=utf-8"@,
        ext == "jsonc"@ ==> mime(ext) == "application/json; charset=utf-8"@,
        ext == "txt"@ ==> mime(ext) == "text/plain; charset=utf-8"@,
        ext == "md"@ ==> mime(ext) == "text/markdown; charset=utf-8"@,
        ext == "png"@ ==> mime(ext) == "image/png"@,
        ext == "jpg"@ ==> mime(ext) == "image/jpeg"@,
        ext == "jpeg"@ ==> mime(ext) == "image/jpeg"@,
        ext == "gif"@ ==> mime(ext) == "image/gif"@,
        ext == "webp"@ ==> mime(ext) == "image/webp"@,
        ext == "svg"@ ==> mime(ext) == "image/svg+xml"@,
        ext == "ico"@ ==> mime(ext) == "image/x-icon"@,
        ext == "bmp"@ ==> mime(ext) == "image/bmp"@,
        ext == "woff"@ ==> mime(ext) == "font/woff"@,
        ext == "woff2"@ ==> mime(ext) == "font/woff2"@,
        ext == "ttf"@ ==> mime(ext) == "font/ttf"@,
        ext == "wasm"@ ==> mime(ext) == "application/wasm"@,
{
    reveal_strlit("html");
    assert("html"@.len() == 4 && "html"@[0] == 'h' && "html"@[1] == 't' && "html"@[2] == 'm' && "html"@[3] == 'l');
    reveal_strlit("htm");
    assert("htm"@.len() == 3 && "htm"@[0] == 'h' && "htm"@[1] == 't' && "htm"@[2] == 'm');
    reveal_strlit("css");
    assert("css"@.len() == 3 && "css"@[0] == 'c' && "css"@[1] == 's' && "css"@[2] == 's');
    reveal_strlit("js");
    assert("js"@.len() == 2 && "js"@[0] == 'j' && "js"@[1] == 's');
    reveal_strlit("mjs");
    assert("mjs"@.len() == 3 && "mjs"@[0] == 'm' && "mjs"@[1] == 'j' && "mjs"@[2] == 's');
    reveal_strlit("json");
    assert("json"@.len() == 4 && "json"@[0] == 'j' && "json"@[1] == 's' && "json"@[2] == 'o' && "json"@[3] == 'n');
    reveal_strlit("jsonc");
    assert("jsonc"@.len() == 5 && "jsonc"@[0] == 'j' && "jsonc"@[1] == 's' && "jsonc"@[2] == 'o' && "jsonc"@[3] == 'n' && "jsonc"@[4] == 'c');
    reveal_strlit("txt");
    assert("txt"@.len() == 3 && "txt"@[0] == 't' && "txt"@[1] == 'x' && "txt"@[2] == 't');
    reveal_strlit("md");
    assert("md"@.len() == 2 && "md"@[0] == 'm' && "md"@[1] == 'd');
    reveal_strlit("png");
    assert("png"@.len() == 3 && "png"@[0] == 'p' && "png"@[1] == 'n' && "png"@[2] == 'g');
    reveal_strlit("jpg");
    assert("jpg"@.len() == 3 && "jpg"@[0] == 'j' && "jpg"@[1] == 'p' && "jpg"@[2] == 'g');
    reveal_strlit("jpeg");
    assert("jpeg"@.len() == 4 && "jpeg"@[0] == 'j' && "jpeg"@[1] == 'p' && "jpeg"@[2] == 'e' && "jpeg"@[3] == 'g');
    reveal_strlit("gif");
    assert("gif"@.len() == 3 && "gif"@[0] == 'g' && "gif"@[1] == 'i' && "gif"@[2] == 'f');
    reveal_strlit("webp");
    assert("webp"@.len() == 4 && "webp"@[0] == 'w' && "webp"@[1] == 'e' && "webp"@[2] == 'b' && "webp"@[3] == 'p');
    reveal_strlit("svg");
    assert("svg"@.len() == 3 && "svg"@[0] == 's' && "svg"@[1] == 'v' && "svg"@[2] == 'g');
    reveal_strlit("ico");
    assert("ico"@.len() == 3 && "ico"@[0] == 'i' && "ico"@[1] == 'c' && "ico"@[2] == 'o');
    reveal_strlit("bmp");
    assert("bmp"@.len() == 3 && "bmp"@[0] == 'b' && "bmp"@[1] == 'm' && "bmp"@[2] == 'p');
    reveal_strlit("woff");
    assert("woff"@.len() == 4 && "woff"@[0] == 'w' && "woff"@[1] == 'o' && "woff"@[2] == 'f' && "woff"@[3] == 'f');
    reveal_strlit("woff2");
    assert("woff2"@.len() == 5 && "woff2"@[0] == 'w' && "woff2"@[1] == 'o' && "woff2"@[2] == 'f' && "woff2"@[3] == 'f' && "woff2"@[4] == '2');
    reveal_strlit("ttf");
    assert("ttf"@.len() == 3 && "ttf"@[0] == 't' && "ttf"@[1] == 't' && "ttf"@[2] == 'f');
    reveal_strlit("wasm");
    assert("wasm"@.len() == 4 && "wasm"@[0] == 'w' && "wasm"@[1] == 'a' && "wasm"@[2] == 's' && "wasm"@[3] == 'm');
}

} // verus!
