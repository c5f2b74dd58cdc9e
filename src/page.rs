//! HTML pages that the gateway composes: a container's listing, and the upload summary.

use crate::listing::DirEntry;
use crate::text::{chars_of, push_str, string_of_range};
use vstd::prelude::*;

verus! {

pub const LISTING_HEAD: &'static str = "<!DOCTYPE html>\n<html>\n<head>\n    <meta charset=\"utf-8\">\n    <title>Index of ";

pub const LISTING_STYLE: &'static str = "</title>\n    <style>\n        body { font-family: monospace; margin: 2em; background: #1a1a2e; color: #eee; }\n        h1 { color: #00d4ff; }\n        ul { list-style: none; padding: 0; }\n        li { padding: 0.3em 0; }\n        a { color: #00d4ff; text-decoration: none; }\n        a:hover { text-decoration: underline; }\n    </style>\n</head>\n<body>\n    <h1>Index of ";

pub const LISTING_LIST: &'static str = "</h1>\n    <ul>\n        ";

pub const LISTING_TAIL: &'static str = "\n    </ul>\n</body>\n</html>";

pub const UPLOAD_DONE_HEAD: &'static str = "<!DOCTYPE html>\n<html lang=\"en\">\n<head>\n    <meta charset=\"UTF-8\">\n    <meta name=\"viewport\" content=\"width=device-width, initial-scale=1.0\">\n    <title>Upload Complete</title>\n    <style>\n        body {\n            font-family: -apple-system, BlinkMacSystemFont, 'Segoe UI', Roboto, sans-serif;\n            background: #1a1a2e;\n            color: #eee;\n            min-height: 100vh;\n            margin: 0;\n            display: flex;\n            align-items: center;\n            justify-content: center;\n        }\n        .container {\n            text-align: center;\n            background: #16213e;\n            padding: 3rem;\n            border-radius: 12px;\n            box-shadow: 0 4px 20px rgba(0, 0, 0, 0.3);\n            max-width: 500px;\n            width: 90%;\n        }\n        h1 {\n            margin: 0 0 1rem 0;\n            color: #4ade80;\n            font-size: 1.8rem;\n        }\n        p {\n            margin: 0 0 2rem 0;\n            color: #aaa;\n        }\n        a {\n            display: inline-block;\n            padding: 0.875rem 2rem;\n            font-size: 1rem;\n            font-weight: 600;\n            background: #e94560;\n            color: white;\n            text-decoration: none;\n            border-radius: 6px;\n            transition: background 0.2s;\n        }\n        a:hover {\n            background: #ff6b6b;\n        }\n    </style>\n</head>\n<body>\n    <div class=\"container\">\n        <h1>Upload Complete</h1>\n        <p>";

pub const UPLOAD_DONE_TAIL: &'static str = "</p>\n        <a href=\"/upload\">Upload More</a>\n    </div>\n</body>\n</html>";

/// The page shown after a successful upload, carrying `message`.
pub open spec fn upload_success_page(message: Seq<char>) -> Seq<char> {
    UPLOAD_DONE_HEAD@ + message + UPLOAD_DONE_TAIL@
}

/// The page shown after a successful upload.
pub fn upload_success_html(message: &str) -> (r: String)
    ensures
        r@ == upload_success_page(message@),
{
    let mut s = String::new();
    push_str(&mut s, UPLOAD_DONE_HEAD);
    push_str(&mut s, message);
    push_str(&mut s, UPLOAD_DONE_TAIL);
    s
}

/// `s` without its leading slashes.
pub open spec fn trim_front(s: Seq<char>) -> Seq<char>
    decreases s.len(),
{
    if s.len() > 0 && s[0] == '/' {
        trim_front(s.drop_first())
    } else {
        s
    }
}

/// `s` without its trailing slashes.
pub open spec fn trim_back(s: Seq<char>) -> Seq<char>
    decreases s.len(),
{
    if s.len() > 0 && s.last() == '/' {
        trim_back(s.drop_last())
    } else {
        s
    }
}

/// `s` without slashes at either end.
pub open spec fn trim_slashes(s: Seq<char>) -> Seq<char> {
    trim_back(trim_front(s))
}

/// Where the text after the last slash of `s` begins; 0 where it has none.
pub open spec fn after_last_slash(s: Seq<char>) -> int
    decreases s.len(),
{
    if s.len() == 0 {
        0
    } else if s.last() == '/' {
        s.len() as int
    } else {
        after_last_slash(s.drop_last())
    }
}

/// The link to the listing of the container that holds the one at `path`.
pub open spec fn parent_link(path: Seq<char>) -> Seq<char> {
    let t = trim_slashes(path);
    let k = after_last_slash(t);
    if k > 0 {
        "/file/"@ + t.subrange(0, k - 1)
    } else {
        "/file/"@
    }
}

/// The link to the listing at `path` itself.
pub open spec fn current_link(path: Seq<char>) -> Seq<char> {
    "/file/"@ + trim_slashes(path)
}

/// The link to child `label` of the container at `path`.
pub open spec fn entry_link(path: Seq<char>, label: Seq<char>) -> Seq<char> {
    if path.len() == 0 {
        "/file/"@ + label
    } else {
        "/file/"@ + trim_slashes(path) + "/"@ + label
    }
}

/// The list item of one child.
pub open spec fn entry_item(path: Seq<char>, e: DirEntry) -> Seq<char> {
    let icon = if e.is_dir {
        "📁"@
    } else {
        "📄"@
    };
    let suffix = if e.is_dir {
        "/"@
    } else {
        Seq::empty()
    };
    "<li>"@ + icon + " <a href=\""@ + entry_link(path, e.label@) + "\">"@ + e.label@ + suffix + "</a></li>"@
}

/// The list items of the children, in their order.
pub open spec fn entry_items(path: Seq<char>, es: Seq<DirEntry>) -> Seq<char>
    decreases es.len(),
{
    if es.len() == 0 {
        Seq::empty()
    } else {
        entry_items(path, es.drop_last()) + entry_item(path, es.last())
    }
}

/// The listing page of the container at `path` with children `es`.
pub open spec fn directory_page(path: Seq<char>, es: Seq<DirEntry>) -> Seq<char> {
    let display = if path.len() == 0 {
        "/"@
    } else {
        path
    };
    LISTING_HEAD@ + display + LISTING_STYLE@ + display + LISTING_LIST@ + "<li><a href=\""@ + current_link(path)
        + "\">.</a></li>"@ + "<li><a href=\""@ + parent_link(path) + "\">..</a></li>"@ + entry_items(path, es)
        + LISTING_TAIL@
}

/// The characters of `path` without slashes at either end.
fn trimmed_chars(path: &str) -> (r: Vec<char>)
    ensures
        r@ == trim_slashes(path@),
{
    let v = chars_of(path);
    let n = v.len();
    let mut lo: usize = 0;
    assert(v@.subrange(0, n as int) =~= v@);
    while lo < n && v[lo] == '/'
        invariant
            lo <= n,
            n == v@.len(),
            v@ == path@,
            trim_front(v@) == trim_front(v@.subrange(lo as int, n as int)),
        decreases n - lo,
    {
        assert(v@.subrange(lo as int, n as int).drop_first() =~= v@.subrange(lo + 1, n as int));
        lo = lo + 1;
    }
    assert(trim_front(v@.subrange(lo as int, n as int)) == v@.subrange(lo as int, n as int));
    let mut hi: usize = n;
    while hi > lo && v[hi - 1] == '/'
        invariant
            lo <= hi <= n,
            n == v@.len(),
            trim_back(v@.subrange(lo as int, n as int)) == trim_back(v@.subrange(lo as int, hi as int)),
        decreases hi,
    {
        assert(v@.subrange(lo as int, hi as int).drop_last() =~= v@.subrange(lo as int, hi - 1));
        hi = hi - 1;
    }
    let mut out: Vec<char> = Vec::new();
    let mut i: usize = lo;
    while i < hi
        invariant
            lo <= i <= hi,
            hi <= n,
            n == v@.len(),
            out@ == v@.subrange(lo as int, i as int),
        decreases hi - i,
    {
        out.push(v[i]);
        i = i + 1;
        assert(out@ =~= v@.subrange(lo as int, i as int));
    }
    out
}

/// Appends the list item of one child.
fn push_entry_item(s: &mut String, path: &str, trimmed: &str, e: &DirEntry)
    requires
        trimmed@ == trim_slashes(path@),
    ensures
        final(s)@ == old(s)@ + entry_item(path@, *e),
{
    let ghost start = s@;
    push_str(s, "<li>");
    if e.is_dir {
        push_str(s, "📁");
    } else {
        push_str(s, "📄");
    }
    push_str(s, " <a href=\"");
    let ghost before_link = s@;
    if path.unicode_len() == 0 {
        push_str(s, "/file/");
        push_str(s, e.label.as_str());
    } else {
        push_str(s, "/file/");
        push_str(s, trimmed);
        push_str(s, "/");
        push_str(s, e.label.as_str());
    }
    assert(s@ =~= before_link + entry_link(path@, e.label@));
    push_str(s, "\">");
    push_str(s, e.label.as_str());
    if e.is_dir {
        push_str(s, "/");
    }
    push_str(s, "</a></li>");
    proof {
        if !e.is_dir {
            assert(e.label@ + Seq::<char>::empty() =~= e.label@);
        }
    }
    assert(s@ =~= start + entry_item(path@, *e));
}

/// The listing page of the container at `path`: links to itself and to its parent, then
/// one item per child in the order given.
pub fn render_directory_html(path: &str, entries: &[DirEntry]) -> (r: String)
    ensures
        r@ == directory_page(path@, entries@),
{
    let t = trimmed_chars(path);
    let trimmed = string_of_range(t.as_slice(), 0, t.len());
    assert(t@.subrange(0, t@.len() as int) =~= t@);
    let mut k: usize = t.len();
    assert(t@.subrange(0, k as int) =~= t@);
    while k > 0 && t[k - 1] != '/'
        invariant
            k <= t@.len(),
            after_last_slash(t@) == after_last_slash(t@.subrange(0, k as int)),
        decreases k,
    {
        assert(t@.subrange(0, k as int).drop_last() =~= t@.subrange(0, k - 1));
        k = k - 1;
    }
    proof {
        if k > 0 {
            assert(t@.subrange(0, k as int).last() == t@[k - 1]);
        }
    }
    let mut parent = String::new();
    push_str(&mut parent, "/file/");
    if k > 0 {
        let p = string_of_range(t.as_slice(), 0, k - 1);
        push_str(&mut parent, p.as_str());
    }
    assert(parent@ =~= parent_link(path@));
    let empty = path.unicode_len() == 0;
    let mut s = String::new();
    push_str(&mut s, LISTING_HEAD);
    if empty {
        push_str(&mut s, "/");
    } else {
        push_str(&mut s, path);
    }
    push_str(&mut s, LISTING_STYLE);
    if empty {
        push_str(&mut s, "/");
    } else {
        push_str(&mut s, path);
    }
    push_str(&mut s, LISTING_LIST);
    push_str(&mut s, "<li><a href=\"");
    push_str(&mut s, "/file/");
    push_str(&mut s, trimmed.as_str());
    push_str(&mut s, "\">.</a></li>");
    push_str(&mut s, "<li><a href=\"");
    push_str(&mut s, parent.as_str());
    push_str(&mut s, "\">..</a></li>");
    let ghost head = s@;
    let mut i: usize = 0;
    while i < entries.len()
        invariant
            i <= entries@.len(),
            trimmed@ == trim_slashes(path@),
            s@ == head + entry_items(path@, entries@.subrange(0, i as int)),
        decreases entries@.len() - i,
    {
        assert(entries@.subrange(0, i + 1).drop_last() =~= entries@.subrange(0, i as int));
        push_entry_item(&mut s, path, trimmed.as_str(), &entries[i]);
        i = i + 1;
    }
    assert(entries@.subrange(0, entries@.len() as int) =~= entries@);
    push_str(&mut s, LISTING_TAIL);
    assert(s@ =~= directory_page(path@, entries@));
    s
}

} // verus!
