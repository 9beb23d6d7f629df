//! The computing half of the development server: which file a request names,
//! the content type of a file, and the response text.
use vstd::prelude::*;
use vstd::string::*;
use crate::post::file_extension;
use crate::text::{chars_of, is_white, string_from_chars, white};

verus! {

pub const OUTPUT_DIR: &'static str = "output/";

pub const INDEX_FILE_NAME: &'static str = "index.html";

pub const NOT_FOUND_PAGE: &'static str = r#"<!DOCTYPE html>
<html>
<head><title>404 Not Found</title></head>
<body>
<h1>404 Not Found</h1>
<p>The requested page could not be found.</p>
<a href="/">← Back to Home</a>
</body>
</html>"#;

/// The content type served for a file extension; plain text when unknown.
pub open spec fn content_type_for(ext: Option<Seq<char>>) -> Seq<char> {
    match ext {
        Some(e) => if e == "html"@ {
            "text/html; charset=utf-8"@
        } else if e == "css"@ {
            "text/css"@
        } else if e == "js"@ {
            "application/javascript"@
        } else if e == "png"@ {
            "image/png"@
        } else if e == "jpg"@ || e == "jpeg"@ {
            "image/jpeg"@
        } else if e == "gif"@ {
            "image/gif"@
        } else if e == "svg"@ {
            "image/svg+xml"@
        } else if e == "ico"@ {
            "image/x-icon"@
        } else {
            "text/plain"@
        },
        None => "text/plain"@,
    }
}

/// `s` without what ends it and names no further component: trailing slashes,
/// and `.` components after a slash.
pub open spec fn trim_trailing_slashes(s: Seq<char>) -> Seq<char>
    decreases s.len(),
{
    if s.len() > 0 && (s.last() == '/' || (s.last() == '.' && s.len() >= 2 && s[s.len() - 2]
        == '/')) {
        trim_trailing_slashes(s.drop_last())
    } else {
        s
    }
}

/// The index just after the last slash below `k`, or 0.
pub open spec fn name_start(s: Seq<char>, k: int) -> int
    decreases k,
{
    if k <= 0 || k > s.len() {
        0
    } else if s[k - 1] == '/' {
        k
    } else {
        name_start(s, k - 1)
    }
}

/// The last component of a path, as `Path::file_name` reads it: what follows
/// its last slash once trailing slashes and `.` components are gone.
pub open spec fn path_file_name(path: Seq<char>) -> Seq<char> {
    let t = trim_trailing_slashes(path);
    t.subrange(name_start(t, t.len() as int), t.len() as int)
}

fn same_chars(a: &[char], b: &str) -> (r: bool)
    ensures
        r == (a@ == b@),
{
    let bs = chars_of(b);
    if a.len() != bs.len() {
        return false;
    }
    let mut i: usize = 0;
    while i < a.len()
        invariant
            a@.len() == bs@.len(),
            bs@ == b@,
            i <= a.len(),
            forall|k: int| 0 <= k < i ==> a@[k] == bs@[k],
        decreases a.len() - i,
    {
        if a[i] != bs[i] {
            assert(a@[i as int] != bs@[i as int]);
            return false;
        }
        i = i + 1;
    }
    assert(a@ =~= bs@);
    true
}

/// The content type of the file at `path`, by its extension.
pub fn get_content_type(path: &str) -> (r: &'static str)
    ensures
        r@ == content_type_for(file_extension(path_file_name(path@))),
{
    let cs = chars_of(path);
    let mut end = cs.len();
    assert(cs@.subrange(0, cs@.len() as int) =~= cs@);
    while end > 0 && (cs[end - 1] == '/' || (cs[end - 1] == '.' && end >= 2 && cs[end - 2] == '/'))
        invariant
            end <= cs.len(),
            trim_trailing_slashes(cs@.subrange(0, end as int)) == trim_trailing_slashes(cs@),
        decreases end,
    {
        assert(cs@.subrange(0, end as int).drop_last() =~= cs@.subrange(0, end - 1));
        end = end - 1;
    }
    let ghost t = cs@.subrange(0, end as int);
    let mut start = end;
    while start > 0 && cs[start - 1] != '/'
        invariant
            start <= end <= cs.len(),
            t == cs@.subrange(0, end as int),
            name_start(t, t.len() as int) == name_start(t, start as int),
        decreases start,
    {
        start = start - 1;
    }
    let name = &cs.as_slice()[start..end];
    let ghost name_v = t.subrange(start as int, end as int);
    assert(name@ =~= name_v);
    let stem = string_from_chars(name);
    let ext_of_name = crate::post::file_extension_of(stem.as_str());
    match ext_of_name {
        None => "text/plain",
        Some(e) => {
            let ev = chars_of(e.as_str());
            let es = ev.as_slice();
            if same_chars(es, "html") {
                "text/html; charset=utf-8"
            } else if same_chars(es, "css") {
                "text/css"
            } else if same_chars(es, "js") {
                "application/javascript"
            } else if same_chars(es, "png") {
                "image/png"
            } else if same_chars(es, "jpg") || same_chars(es, "jpeg") {
                "image/jpeg"
            } else if same_chars(es, "gif") {
                "image/gif"
            } else if same_chars(es, "svg") {
                "image/svg+xml"
            } else if same_chars(es, "ico") {
                "image/x-icon"
            } else {
                "text/plain"
            }
        },
    }
}

/// The index of the first newline at or after `i`, or the length.
pub open spec fn line_end(s: Seq<char>, i: int) -> int
    decreases s.len() - i,
{
    if i < 0 || i >= s.len() {
        s.len() as int
    } else if s[i] == '\n' {
        i
    } else {
        line_end(s, i + 1)
    }
}

/// The index of the first character at or after `i` that is not white space,
/// or the length.
pub open spec fn skip_white(s: Seq<char>, i: int) -> int
    decreases s.len() - i,
{
    if i < 0 || i >= s.len() {
        s.len() as int
    } else if !is_white(s[i]) {
        i
    } else {
        skip_white(s, i + 1)
    }
}

/// The index of the first white space character at or after `i`, or the length.
pub open spec fn skip_word(s: Seq<char>, i: int) -> int
    decreases s.len() - i,
{
    if i < 0 || i >= s.len() {
        s.len() as int
    } else if is_white(s[i]) {
        i
    } else {
        skip_word(s, i + 1)
    }
}

/// The second white-space separated word of the first line of a request:
/// the request target.
pub open spec fn request_target(req: Seq<char>) -> Option<Seq<char>> {
    let l = req.subrange(0, line_end(req, 0));
    let a = skip_white(l, 0);
    let b = skip_white(l, skip_word(l, a));
    if b >= l.len() {
        None
    } else {
        Some(l.subrange(b, skip_word(l, b)))
    }
}

/// `s` without the slashes that begin it.
pub open spec fn trim_leading_slashes(s: Seq<char>) -> Seq<char>
    decreases s.len(),
{
    if s.len() > 0 && s[0] == '/' {
        trim_leading_slashes(s.drop_first())
    } else {
        s
    }
}

/// The file under the output tree that a request asks for; the root and a
/// request without a target ask for the index.
pub open spec fn requested_file(req: Seq<char>) -> Seq<char> {
    let p = match request_target(req) {
        Some(t) => trim_leading_slashes(t),
        None => Seq::empty(),
    };
    OUTPUT_DIR@ + if p.len() == 0 {
        INDEX_FILE_NAME@
    } else {
        p
    }
}

fn scan_line_end(v: &Vec<char>) -> (r: usize)
    ensures
        r as int == line_end(v@, 0),
        r <= v.len(),
{
    let mut i: usize = 0;
    while i < v.len() && v[i] != '\n'
        invariant
            i <= v.len(),
            line_end(v@, 0) == line_end(v@, i as int),
        decreases v.len() - i,
    {
        i = i + 1;
    }
    i
}

fn scan_white(v: &Vec<char>, n: usize, i: usize) -> (r: usize)
    requires
        i <= n <= v.len(),
    ensures
        r as int == skip_white(v@.subrange(0, n as int), i as int),
        i <= r <= n,
{
    let ghost l = v@.subrange(0, n as int);
    let mut j = i;
    while j < n && white(v[j])
        invariant
            i <= j <= n <= v.len(),
            l == v@.subrange(0, n as int),
            skip_white(l, i as int) == skip_white(l, j as int),
        decreases n - j,
    {
        j = j + 1;
    }
    j
}

fn scan_word(v: &Vec<char>, n: usize, i: usize) -> (r: usize)
    requires
        i <= n <= v.len(),
    ensures
        r as int == skip_word(v@.subrange(0, n as int), i as int),
        i <= r <= n,
{
    let ghost l = v@.subrange(0, n as int);
    let mut j = i;
    while j < n && !white(v[j])
        invariant
            i <= j <= n <= v.len(),
            l == v@.subrange(0, n as int),
            skip_word(l, i as int) == skip_word(l, j as int),
        decreases n - j,
    {
        j = j + 1;
    }
    j
}

/// The path, under the output tree, of the file that an HTTP request asks for.
pub fn request_file(request: &str) -> (r: String)
    ensures
        r@ == requested_file(request@),
{
    let v = chars_of(request);
    let n = scan_line_end(&v);
    let a = scan_white(&v, n, 0);
    let e = scan_word(&v, n, a);
    let b = scan_white(&v, n, e);
    let mut out = OUTPUT_DIR.to_string();
    if b >= n {
        out.append(INDEX_FILE_NAME);
        return out;
    }
    let c = scan_word(&v, n, b);
    let ghost t = v@.subrange(0, n as int).subrange(b as int, c as int);
    let mut k = b;
    assert(t =~= v@.subrange(b as int, c as int));
    while k < c && v[k] == '/'
        invariant
            b <= k <= c <= n <= v.len(),
            t == v@.subrange(0, n as int).subrange(b as int, c as int),
            trim_leading_slashes(t) == trim_leading_slashes(v@.subrange(k as int, c as int)),
        decreases c - k,
    {
        assert(v@.subrange(k as int, c as int).drop_first() =~= v@.subrange(k + 1, c as int));
        k = k + 1;
    }
    assert(t =~= v@.subrange(b as int, c as int));
    if k == c {
        assert(v@.subrange(k as int, c as int).len() == 0);
        out.append(INDEX_FILE_NAME);
    } else {
        let rest = string_from_chars(&v.as_slice()[k..c]);
        out.append(rest.as_str());
    }
    out
}

/// The decimal digit for `d`.
pub open spec fn digit(d: nat) -> char {
    seq!['0', '1', '2', '3', '4', '5', '6', '7', '8', '9'][d as int]
}

/// `n` written in decimal, without leading zeros.
pub open spec fn decimal(n: nat) -> Seq<char>
    decreases n,
{
    if n < 10 {
        seq![digit(n)]
    } else {
        decimal(n / 10).push(digit(n % 10))
    }
}

fn digit_char(d: usize) -> (r: char)
    requires
        d < 10,
    ensures
        r == digit(d as nat),
{
    let digits = ['0', '1', '2', '3', '4', '5', '6', '7', '8', '9'];
    assert(digits@ =~= seq!['0', '1', '2', '3', '4', '5', '6', '7', '8', '9']);
    digits[d]
}

fn decimal_chars(n: usize) -> (r: Vec<char>)
    ensures
        r@ == decimal(n as nat),
    decreases n,
{
    if n < 10 {
        let mut r = Vec::new();
        r.push(digit_char(n));
        assert(r@ =~= seq![digit(n as nat)]);
        r
    } else {
        let mut r = decimal_chars(n / 10);
        r.push(digit_char(n % 10));
        r
    }
}

/// The number of bytes of the UTF-8 encoding of `s`.
pub open spec fn byte_len(s: &str) -> nat {
    s.len() as nat
}

/// A complete `200 OK` response carrying `body` as `content_type`.
pub open spec fn ok_response(content_type: Seq<char>, body: &str) -> Seq<char> {
    "HTTP/1.1 200 OK\r\nContent-Type: "@ + content_type + "\r\nContent-Length: "@ + decimal(
        byte_len(body),
    ) + "\r\n\r\n"@ + body@
}

/// The fixed `404` response.
pub open spec fn not_found_response() -> Seq<char> {
    "HTTP/1.1 404 NOT FOUND\r\nContent-Type: text/html\r\nContent-Length: "@ + decimal(
        byte_len(NOT_FOUND_PAGE),
    ) + "\r\n\r\n"@ + NOT_FOUND_PAGE@
}

/// The response for the file at `path`: its contents with the content type of
/// its extension, or the `404` page where it could not be read.
pub fn file_response(path: &str, contents: Option<&str>) -> (r: String)
    ensures
        r@ == match contents {
            Some(c) => ok_response(content_type_for(file_extension(path_file_name(path@))), c),
            None => not_found_response(),
        },
{
    match contents {
        Some(c) => {
            let mut out = "HTTP/1.1 200 OK\r\nContent-Type: ".to_string();
            out.append(get_content_type(path));
            out.append("\r\nContent-Length: ");
            let len = decimal_chars(c.len());
            out.append(string_from_chars(len.as_slice()).as_str());
            out.append("\r\n\r\n");
            out.append(c);
            assert(out@ =~= ok_response(content_type_for(file_extension(path_file_name(path@))), c));
            out
        },
        None => {
            let mut out = "HTTP/1.1 404 NOT FOUND\r\nContent-Type: text/html\r\nContent-Length: ".to_string();
            let len = decimal_chars(NOT_FOUND_PAGE.len());
            out.append(string_from_chars(len.as_slice()).as_str());
            out.append("\r\n\r\n");
            out.append(NOT_FOUND_PAGE);
            assert(out@ =~= not_found_response());
            out
        },
    }
}

} // verus!
