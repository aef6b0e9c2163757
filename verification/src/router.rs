//! Static assets of the web console.

use vstd::prelude::*;
use crate::json::str_eq;

verus! {

/// The extension of a file name: what follows its last `.`, or the whole name.
pub open spec fn extension(name: Seq<char>) -> Seq<char>
    decreases name.len(),
{
    if name.len() == 0 {
        name
    } else if name.last() == '.' {
        Seq::empty()
    } else {
        extension(name.drop_last()).push(name.last())
    }
}

pub open spec fn has_dot(name: Seq<char>) -> bool {
    exists|i: int| 0 <= i < name.len() && name[i] == '.'
}

pub open spec fn mime_spec(name: Seq<char>) -> Seq<char> {
    let e = if has_dot(name) {
        extension(name)
    } else {
        name
    };
    if e == "js"@ || e == "mjs"@ {
        "text/javascript; charset=utf-8"@
    } else if e == "css"@ {
        "text/css; charset=utf-8"@
    } else if e == "html"@ {
        "text/html; charset=utf-8"@
    } else if e == "json"@ {
        "application/json; charset=utf-8"@
    } else if e == "woff2"@ {
        "font/woff2"@
    } else if e == "woff"@ {
        "font/woff"@
    } else if e == "ttf"@ {
        "font/ttf"@
    } else if e == "otf"@ {
        "font/otf"@
    } else if e == "svg"@ {
        "image/svg+xml"@
    } else if e == "png"@ {
        "image/png"@
    } else if e == "jpg"@ || e == "jpeg"@ {
        "image/jpeg"@
    } else if e == "gif"@ {
        "image/gif"@
    } else if e == "ico"@ {
        "image/x-icon"@
    } else {
        "application/octet-stream"@
    }
}

proof fn lemma_extension_after_last_dot(name: Seq<char>, k: int)
    requires
        0 <= k < name.len(),
        name[k] == '.',
        forall|j: int| k < j < name.len() ==> name[j] != '.',
    ensures
        extension(name) == name.skip(k + 1),
    decreases name.len(),
{
    if k < name.len() - 1 {
        lemma_extension_after_last_dot(name.drop_last(), k);
        assert(name.drop_last().skip(k + 1).push(name.last()) =~= name.skip(k + 1));
    } else {
        assert(name.skip(k + 1) =~= Seq::<char>::empty());
    }
}

/// The MIME type for a file name, by its extension.
pub fn mime_for_filename(name: &str) -> (r: &'static str)
    ensures
        r@ == mime_spec(name@),
{
    let cs = crate::text::chars_of(name);
    let n = cs.len();
    let mut k: usize = n;
    let mut i: usize = n;
    while i > 0
        invariant
            i <= n,
            n == cs@.len(),
            cs@ == name@,
            k == n ==> forall|j: int| i <= j < n ==> cs@[j] != '.',
            k < n ==> cs@[k as int] == '.' && forall|j: int| k < j < n ==> cs@[j] != '.',
            k == n || k < n,
            k < n ==> i == 0,
        decreases i,
    {
        if cs[i - 1] == '.' {
            k = i - 1;
            i = 0;
        } else {
            i = i - 1;
        }
    }
    let ext_string = if k < n {
        proof {
            lemma_extension_after_last_dot(name@, k as int);
        }
        crate::text::string_from_chars(&cs.as_slice()[k + 1..n])
    } else {
        proof {
            assert(!has_dot(name@));
        }
        name.to_owned()
    };
    proof {
        if k < n {
            assert(ext_string@ =~= name@.skip(k + 1));
            assert(has_dot(name@));
        }
    }
    let e = ext_string.as_str();
    if str_eq(e, "js") || str_eq(e, "mjs") {
        "text/javascript; charset=utf-8"
    } else if str_eq(e, "css") {
        "text/css; charset=utf-8"
    } else if str_eq(e, "html") {
        "text/html; charset=utf-8"
    } else if str_eq(e, "json") {
        "application/json; charset=utf-8"
    } else if str_eq(e, "woff2") {
        "font/woff2"
    } else if str_eq(e, "woff") {
        "font/woff"
    } else if str_eq(e, "ttf") {
        "font/ttf"
    } else if str_eq(e, "otf") {
        "font/otf"
    } else if str_eq(e, "svg") {
        "image/svg+xml"
    } else if str_eq(e, "png") {
        "image/png"
    } else if str_eq(e, "jpg") || str_eq(e, "jpeg") {
        "image/jpeg"
    } else if str_eq(e, "gif") {
        "image/gif"
    } else if str_eq(e, "ico") {
        "image/x-icon"
    } else {
        "application/octet-stream"
    }
}

/// The embedded file an asset name stands for, `assets/<name>`; none for a
/// name that could leave the directory (one holding `..` or a backslash).
pub open spec fn asset_path_spec(name: Seq<char>) -> Option<Seq<char>> {
    if crate::text::contains_seq(name, ".."@) || crate::text::contains_seq(name, "\\"@) {
        None
    } else {
        Some("assets/"@ + name)
    }
}

/// The embedded path of a requested asset, or `None` where the name is
/// refused (400).
pub fn asset_path_for(name: &str) -> (r: Option<String>)
    ensures
        opt_string_view(r) == asset_path_spec(name@),
{
    if crate::text::contains_str(name, "..") || crate::text::contains_str(name, "\\") {
        None
    } else {
        let mut p = "assets/".to_owned();
        p.append(name);
        Some(p)
    }
}

pub open spec fn opt_string_view(o: Option<String>) -> Option<Seq<char>> {
    match o {
        Some(s) => Some(s@),
        None => None,
    }
}

/// The cache policy of assets, whose names carry their content's hash.
pub const ASSET_CACHE_CONTROL: &'static str = "public, max-age=31536000, immutable";

/// The cache policy of the favicon.
pub const FAVICON_CACHE_CONTROL: &'static str = "public, max-age=86400";

} // verus!
