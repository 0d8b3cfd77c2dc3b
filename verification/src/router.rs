//! Top-level request dispatch: classify a request's method and URL into the
//! asset, reload or content route, and pick the pieces of the response that
//! are decisions rather than I/O.

use vstd::prelude::*;
use vstd::string::StrSliceExecFns;
use vstd::string::StringExecFns;
use crate::resolve::ResolvedContent;
use crate::resolve::extension_or_empty;
use crate::resolve::spec_mime_type;
use crate::resolve::mime_type;
use crate::resolve::path_extension;
use crate::strutil::str_eq;

verus! {

/// The URL prefix of the embedded static assets.
pub const ASSETS_PREFIX: &'static str = "/__mdopen_assets/";

/// The URL prefix of the reload/notification endpoint.
pub const RELOAD_PREFIX: &'static str = "/__mdopen_reload/";

/// `p` is a prefix of `s`.
pub open spec fn is_prefix_of(p: Seq<char>, s: Seq<char>) -> bool {
    p.len() <= s.len() && s.take(p.len() as int) == p
}

/// Strip a prefix from a string; `None` exactly when it is no prefix.
pub fn strip_prefix_str(s: &str, prefix: &str) -> (r: Option<String>)
    ensures
        match r {
            Some(rest) => is_prefix_of(prefix@, s@) && rest@ == s@.skip(prefix@.len() as int),
            None => !is_prefix_of(prefix@, s@),
        },
{
    let np = prefix.unicode_len();
    let ns = s.unicode_len();
    if np > ns {
        return None;
    }
    let mut i: usize = 0;
    while i < np
        invariant
            np == prefix@.len(),
            ns == s@.len(),
            np <= ns,
            0 <= i <= np,
            forall|j: int| 0 <= j < i ==> s@[j] == prefix@[j],
        decreases np - i,
    {
        if s.get_char(i) != prefix.get_char(i) {
            proof {
                assert(s@.take(np as int)[i as int] != prefix@[i as int]);
            }
            return None;
        }
        i = i + 1;
    }
    let rest = s.substring_char(np, ns);
    proof {
        assert(s@.take(np as int) =~= prefix@);
        assert(rest@ =~= s@.skip(np as int));
    }
    Some(String::from_str(rest))
}

/// Where a request goes, in priority order: non-read methods are refused,
/// then the reload endpoint, then the static assets, and everything else is
/// content resolution.
pub enum Route {
    /// The method is not GET: answer 405.
    MethodNotAllowed,
    /// The reload endpoint, with the rest of the URL after the prefix.
    Reload(String),
    /// A static asset, named by the rest of the URL after the prefix.
    Asset(String),
    /// Content resolution on the whole URL path.
    Content(String),
}

/// Classify one request.
pub fn route_request(is_get: bool, url: &str) -> (r: Route)
    ensures
        !is_get ==> r is MethodNotAllowed,
        is_get && is_prefix_of(RELOAD_PREFIX@, url@) ==> (r matches Route::Reload(rest) && rest@
            == url@.skip(RELOAD_PREFIX@.len() as int)),
        is_get && !is_prefix_of(RELOAD_PREFIX@, url@) && is_prefix_of(ASSETS_PREFIX@, url@) ==> (
        r matches Route::Asset(rest) && rest@ == url@.skip(ASSETS_PREFIX@.len() as int)),
        is_get && !is_prefix_of(RELOAD_PREFIX@, url@) && !is_prefix_of(ASSETS_PREFIX@, url@) ==> (
        r matches Route::Content(p) && p@ == url@),
{
    if !is_get {
        return Route::MethodNotAllowed;
    }
    match strip_prefix_str(url, RELOAD_PREFIX) {
        Some(rest) => Route::Reload(rest),
        None => {
            match strip_prefix_str(url, ASSETS_PREFIX) {
                Some(rest) => Route::Asset(rest),
                None => Route::Content(String::from_str(url)),
            }
        },
    }
}

/// The only asset the server embeds is the stylesheet; everything else
/// under the asset prefix is missing.
pub fn is_known_asset(name: &str) -> (r: bool)
    ensures
        r == (name@ == "style.css"@),
{
    str_eq(name, "style.css")
}

/// The status code owed for each resolution outcome: content answers 200,
/// a missing path 404, and any other I/O failure 500.
pub fn status_code_of(content: &ResolvedContent) -> (s: u16)
    ensures
        content is Directory ==> s == 200,
        content is Markdown ==> s == 200,
        content is RawFile ==> s == 200,
        content is NotFound ==> s == 404,
        content is InternalError ==> s == 500,
{
    match content {
        ResolvedContent::Directory(_) => 200,
        ResolvedContent::Markdown(_) => 200,
        ResolvedContent::RawFile(_, _) => 200,
        ResolvedContent::NotFound => 404,
        ResolvedContent::InternalError => 500,
    }
}

/// The `Content-Type` announced for a successfully served path: the type
/// inferred from the extension, except that Markdown is served as rendered
/// HTML.
pub fn response_mime(path: &str) -> (r: Option<&'static str>)
    ensures
        (match spec_mime_type(extension_or_empty(path@)) {
            Some(m) => if m == "text/markdown"@ {
                r matches Some(x) && x@ == "text/html"@
            } else {
                r matches Some(x) && x@ == m
            },
            None => r is None,
        }),
{
    let ext = path_extension(path);
    let mime = match &ext {
        Some(e) => mime_type(e.as_str()),
        None => {
            proof {
                reveal_strlit("");
                assert(""@ =~= Seq::<char>::empty());
            }
            mime_type("")
        },
    };
    match mime {
        Some(m) => {
            if str_eq(m, "text/markdown") {
                Some("text/html")
            } else {
                Some(m)
            }
        },
        None => None,
    }
}

} // verus!
