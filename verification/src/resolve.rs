//! Content resolver: maps a decoded URL path plus what the filesystem
//! reported to the content that is served — a directory listing, a rendered
//! Markdown page, a raw file, or an error outcome.
//!
//! Trust boundary: the request path is joined onto the working directory by
//! ordinary path joining, with no further sandboxing against traversal.
//! The server is meant to listen on loopback for a single local user who
//! can read the filesystem anyway.

use vstd::prelude::*;
use vstd::string::StrSliceExecFns;
use vstd::string::StringExecFns;
use vstd::string::StringSliceAdditionalSpecFns;
use vstd::utf8::valid_utf8;
use vstd::utf8::decode_utf8;
use crate::strutil::str_eq;
use crate::strutil::push_char;
use crate::render::render_of;
use crate::render::SyntaxHighligher;
use crate::render::to_html;

verus! {

/// The value of one hexadecimal digit byte (`0-9`, `a-f`, `A-F`).
pub open spec fn hex_digit_val(b: u8) -> Option<u8> {
    if 48 <= b <= 57 {
        Some((b - 48) as u8)
    } else if 65 <= b <= 70 {
        Some((b - 55) as u8)
    } else if 97 <= b <= 102 {
        Some((b - 87) as u8)
    } else {
        None
    }
}

/// Percent-decoding of a byte string: each `%` followed by two hexadecimal
/// digits becomes the byte they denote; any other byte, a stray `%`
/// included, passes through unchanged.
pub open spec fn pct_decode(s: Seq<u8>) -> Seq<u8>
    decreases s.len(),
{
    if s.len() == 0 {
        Seq::empty()
    } else if s[0] == 37 && s.len() >= 3 && hex_digit_val(s[1]) is Some && hex_digit_val(s[2])
        is Some {
        seq![(hex_digit_val(s[1]).unwrap() * 16 + hex_digit_val(s[2]).unwrap()) as u8]
            + pct_decode(s.skip(3))
    } else {
        seq![s[0]] + pct_decode(s.drop_first())
    }
}

/// Relies on `percent_encoding::percent_decode`: it decodes each `%`
/// followed by two hexadecimal digits (either case) into the byte they
/// denote and passes every other byte through.
#[verifier::external_body]
fn percent_decode_bytes(input: &[u8]) -> (r: Vec<u8>)
    ensures
        r@ == pct_decode(input@),
{
    percent_encoding::percent_decode(input).collect()
}

/// What `String::from_utf8_lossy` returns for a byte string.
pub uninterp spec fn lossy_utf8(bytes: Seq<u8>) -> Seq<char>;

/// Relies on `String::from_utf8_lossy`: the decoding is a function of the
/// bytes alone, valid UTF-8 decodes to itself, and no bytes decode to no
/// characters.
#[verifier::external_body]
fn bytes_to_string_lossy(bytes: &[u8]) -> (r: String)
    ensures
        r@ == lossy_utf8(bytes@),
        valid_utf8(bytes@) ==> r@ == decode_utf8(bytes@),
        bytes@.len() == 0 ==> r@.len() == 0,
{
    String::from_utf8_lossy(bytes).into_owned()
}

/// Percent-decode a URL path and interpret the result as text, replacing
/// invalid UTF-8 lossily.
pub fn decode_url_path(url: &str) -> (r: String)
    ensures
        r@ == lossy_utf8(pct_decode(url.spec_bytes())),
{
    let bytes = url.as_bytes();
    let decoded = percent_decode_bytes(bytes);
    bytes_to_string_lossy(decoded.as_slice())
}

/// What `mime_type` answers for a given extension, as a function of the
/// extension's characters.
pub open spec fn spec_mime_type(ext: Seq<char>) -> Option<Seq<char>> {
    if ext == "js"@ {
        Some("application/javascript"@)
    } else if ext == "css"@ {
        Some("text/css"@)
    } else if ext == "gif"@ {
        Some("image/gif"@)
    } else if ext == "png"@ {
        Some("image/png"@)
    } else if ext == "jpg"@ || ext == "jpeg"@ {
        Some("image/jpeg"@)
    } else if ext == "pdf"@ {
        Some("application/pdf"@)
    } else if ext == "html"@ {
        Some("text/html"@)
    } else if ext == "md"@ {
        Some("text/markdown"@)
    } else if ext == "txt"@ {
        Some("text/plain"@)
    } else {
        None
    }
}

/// Content type inferred from a file extension; extensions the server does
/// not know yield `None`, so the transport's default applies.
pub fn mime_type(ext: &str) -> (r: Option<&'static str>)
    ensures
        r is Some <==> spec_mime_type(ext@) is Some,
        r is Some ==> r.unwrap()@ == spec_mime_type(ext@).unwrap(),
{
    if str_eq(ext, "js") {
        Some("application/javascript")
    } else if str_eq(ext, "css") {
        Some("text/css")
    } else if str_eq(ext, "gif") {
        Some("image/gif")
    } else if str_eq(ext, "png") {
        Some("image/png")
    } else if str_eq(ext, "jpg") || str_eq(ext, "jpeg") {
        Some("image/jpeg")
    } else if str_eq(ext, "pdf") {
        Some("application/pdf")
    } else if str_eq(ext, "html") {
        Some("text/html")
    } else if str_eq(ext, "md") {
        Some("text/markdown")
    } else if str_eq(ext, "txt") {
        Some("text/plain")
    } else {
        None
    }
}

/// The suffix of `s` after the last occurrence of `c`; all of `s` when `c`
/// does not occur.
pub open spec fn suffix_after_last(s: Seq<char>, c: char) -> Seq<char>
    decreases s.len(),
{
    if s.len() == 0 {
        Seq::empty()
    } else if s.last() == c {
        Seq::empty()
    } else {
        suffix_after_last(s.drop_last(), c).push(s.last())
    }
}

proof fn lemma_suffix_after_last_at(s: Seq<char>, c: char, idx: int)
    requires
        0 <= idx < s.len(),
        s[idx] == c,
        forall|j: int| idx < j < s.len() ==> s[j] != c,
    ensures
        suffix_after_last(s, c) == s.skip(idx + 1),
    decreases s.len(),
{
    if idx == s.len() - 1 {
        assert(s.skip(idx + 1) =~= Seq::empty());
    } else {
        lemma_suffix_after_last_at(s.drop_last(), c, idx);
        assert(s.drop_last().skip(idx + 1).push(s.last()) =~= s.skip(idx + 1));
    }
}

proof fn lemma_suffix_after_last_none(s: Seq<char>, c: char)
    requires
        forall|j: int| 0 <= j < s.len() ==> s[j] != c,
    ensures
        suffix_after_last(s, c) == s,
    decreases s.len(),
{
    if s.len() > 0 {
        lemma_suffix_after_last_none(s.drop_last(), c);
        assert(s.drop_last().push(s.last()) =~= s);
    }
}

/// The extension of a path: the part of its last component after the final
/// dot, and none when the component has no dot or only a leading one.
pub open spec fn extension_of(path: Seq<char>) -> Option<Seq<char>> {
    let name = suffix_after_last(path, '/');
    let ext = suffix_after_last(name, '.');
    if ext.len() + 1 < name.len() {
        Some(ext)
    } else {
        None
    }
}

/// The position of the last occurrence of `c` in `s`.
fn rfind_char(s: &str, c: char) -> (r: Option<usize>)
    ensures
        match r {
            Some(i) => i < s@.len() && s@[i as int] == c && forall|j: int|
                i < j < s@.len() ==> s@[j] != c,
            None => forall|j: int| 0 <= j < s@.len() ==> s@[j] != c,
        },
{
    let n = s.unicode_len();
    let mut i: usize = n;
    while i > 0
        invariant
            n == s@.len(),
            0 <= i <= n,
            forall|j: int| i <= j < n ==> s@[j] != c,
        decreases i,
    {
        i = i - 1;
        if s.get_char(i) == c {
            return Some(i);
        }
    }
    None
}

/// The extension of a path, per `extension_of`.
pub fn path_extension(path: &str) -> (r: Option<String>)
    ensures
        match r {
            Some(e) => extension_of(path@) == Some(e@),
            None => extension_of(path@) is None,
        },
{
    let n = path.unicode_len();
    let name_start: usize = match rfind_char(path, '/') {
        Some(i) => i + 1,
        None => 0,
    };
    proof {
        if name_start > 0 {
            lemma_suffix_after_last_at(path@, '/', name_start - 1);
        } else {
            lemma_suffix_after_last_none(path@, '/');
        }
        assert(suffix_after_last(path@, '/') == path@.skip(name_start as int));
    }
    let ghost name = path@.skip(name_start as int);
    let dot: Option<usize> = rfind_char(path, '.');
    match dot {
        Some(d) if d >= name_start => {
            proof {
                assert forall|j: int| (d - name_start) < j < name.len() implies name[j] != '.' by {
                    assert(name[j] == path@[j + name_start]);
                }
                lemma_suffix_after_last_at(name, '.', d - name_start);
                assert(suffix_after_last(name, '.') =~= path@.skip(d + 1));
            }
            if d + 1 < n && name_start < d {
                let e = path.substring_char(d + 1, n);
                proof {
                    assert(e@ =~= path@.skip(d + 1));
                }
                Some(String::from_str(e))
            } else if name_start < d && d + 1 == n {
                proof {
                    assert(path@.skip(d + 1) =~= Seq::<char>::empty());
                }
                Some(String::new())
            } else {
                proof {
                    assert(suffix_after_last(name, '.').len() + 1 >= name.len());
                }
                None
            }
        },
        _ => {
            proof {
                assert forall|j: int| 0 <= j < name.len() implies name[j] != '.' by {
                    assert(name[j] == path@[j + name_start]);
                }
                lemma_suffix_after_last_none(name, '.');
            }
            None
        },
    }
}

/// A directory path joined with a child name: a `/` separates them unless
/// the path is empty or already ends with one.
pub open spec fn join_path(dir: Seq<char>, name: Seq<char>) -> Seq<char> {
    if dir.len() == 0 || dir.last() == '/' {
        dir + name
    } else {
        dir + seq!['/'] + name
    }
}

/// Join a directory path and a child name, per `join_path`.
pub fn join_path_str(dir: &str, name: &str) -> (r: String)
    ensures
        r@ == join_path(dir@, name@),
{
    let n = dir.unicode_len();
    let mut out = String::from_str(dir);
    if n > 0 && dir.get_char(n - 1) != '/' {
        push_char(&mut out, '/');
        proof {
            assert(dir@ + seq!['/'] =~= dir@.push('/'));
        }
    }
    out.append(name);
    out
}

/// The path with every leading `/` removed: a request path made relative to
/// the served directory.
pub open spec fn strip_leading_slashes(s: Seq<char>) -> Seq<char>
    decreases s.len(),
{
    if s.len() == 0 {
        s
    } else if s[0] == '/' {
        strip_leading_slashes(s.drop_first())
    } else {
        s
    }
}

/// Make a decoded request path relative, per `strip_leading_slashes`.
pub fn relative_path(s: &str) -> (r: String)
    ensures
        r@ == strip_leading_slashes(s@),
{
    let n = s.unicode_len();
    proof {
        assert(s@.skip(0) =~= s@);
    }
    let mut i: usize = 0;
    while i < n && s.get_char(i) == '/'
        invariant
            n == s@.len(),
            0 <= i <= n,
            strip_leading_slashes(s@) == strip_leading_slashes(s@.skip(i as int)),
            i < n ==> s@.skip(i as int)[0] == s@[i as int],
        decreases n - i,
    {
        proof {
            assert(s@.skip(i as int).drop_first() =~= s@.skip(i + 1));
        }
        i = i + 1;
        proof {
            if i < n {
                assert(s@.skip(i as int)[0] == s@[i as int]);
            }
        }
    }
    let rest = s.substring_char(i, n);
    proof {
        assert(rest@ =~= s@.skip(i as int));
        if i < n {
            assert(strip_leading_slashes(s@.skip(i as int)) == s@.skip(i as int));
        } else {
            assert(s@.skip(i as int) =~= Seq::<char>::empty());
        }
    }
    String::from_str(rest)
}

/// Whether an extension marks a Markdown file.  The comparison is
/// case-sensitive.
pub open spec fn is_markdown_ext(ext: Option<Seq<char>>) -> bool {
    match ext {
        Some(e) => e == "md"@ || e == "markdown"@,
        None => false,
    }
}

/// One row of a directory listing.
pub struct DirEntry {
    /// The child's display name.
    pub name: String,
    /// The child's request path: the directory's path joined with the name.
    pub path: String,
}

/// What the filesystem reported for a path; the caller reads the filesystem
/// and hands the library one of these.
pub enum FsNode {
    /// The path does not exist.
    Missing,
    /// A directory, with the names of its immediate children in enumeration
    /// order.
    Dir(Vec<String>),
    /// A regular file, with its full content.
    File(Vec<u8>),
    /// Reading failed for a reason other than absence (permissions and the
    /// like).
    ReadError,
}

/// The content resolved for a request: what the server answers with.
pub enum ResolvedContent {
    /// A directory listing.
    Directory(Vec<DirEntry>),
    /// A rendered Markdown document: the HTML body fragment.
    Markdown(String),
    /// Any other file: its bytes and the content type inferred from the
    /// extension, when one is known.
    RawFile(Vec<u8>, Option<&'static str>),
    /// The path does not exist.
    NotFound,
    /// An I/O failure other than absence.
    InternalError,
}

/// Resolve a relative request path, given what the filesystem reported for
/// it: a missing path is `NotFound`, a directory becomes a listing whose
/// rows join the path with each child's name, a `md`/`markdown` file is
/// rendered (an empty file renders to an empty body), any other file is
/// returned raw with its inferred content type, and a read failure is kept
/// distinct as `InternalError`.  Nothing is cached: the caller re-reads the
/// filesystem on every request, so no stale content can be served.
pub fn resolve_node(path: &str, node: FsNode, highlighter: Option<&SyntaxHighligher>) -> (r:
    ResolvedContent)
    ensures
        (node is Missing ==> r is NotFound),
        (node is ReadError ==> r is InternalError),
        (node matches FsNode::Dir(names) ==> r matches ResolvedContent::Directory(entries)
            && entries@.len() == names@.len() && forall|i: int|
            #![trigger entries@[i]]
            0 <= i < names@.len() ==> entries@[i].name@ == names@[i]@ && entries@[i].path@
                == join_path(path@, names@[i]@)),
        (match node {
            FsNode::File(bytes) => if is_markdown_ext(extension_of(path@)) {
                r matches ResolvedContent::Markdown(h) && h@ == render_of(
                    lossy_utf8(bytes@),
                    highlighter is Some,
                ) && (bytes@.len() == 0 ==> h@.len() == 0)
            } else {
                r matches ResolvedContent::RawFile(data, mime) && data@ == bytes@ && (match mime {
                    Some(m) => spec_mime_type(extension_or_empty(path@)) == Some(m@),
                    None => spec_mime_type(extension_or_empty(path@)) is None,
                })
            },
            _ => true,
        }),
{
    match node {
        FsNode::Missing => ResolvedContent::NotFound,
        FsNode::ReadError => ResolvedContent::InternalError,
        FsNode::Dir(names) => {
            let mut entries: Vec<DirEntry> = Vec::new();
            let n = names.len();
            let mut i: usize = 0;
            while i < n
                invariant
                    n == names@.len(),
                    0 <= i <= n,
                    entries@.len() == i,
                    forall|j: int|
                        #![trigger entries@[j]]
                        0 <= j < i ==> entries@[j].name@ == names@[j]@ && entries@[j].path@
                            == join_path(path@, names@[j]@),
                decreases n - i,
            {
                let name = names[i].clone();
                let href = join_path_str(path, name.as_str());
                entries.push(DirEntry { name, path: href });
                i = i + 1;
            }
            ResolvedContent::Directory(entries)
        },
        FsNode::File(bytes) => {
            let ext = path_extension(path);
            let is_md = match &ext {
                Some(e) => str_eq(e.as_str(), "md") || str_eq(e.as_str(), "markdown"),
                None => false,
            };
            if is_md {
                let text = bytes_to_string_lossy(bytes.as_slice());
                let html = to_html(text.as_str(), highlighter);
                ResolvedContent::Markdown(html)
            } else {
                let mime = match &ext {
                    Some(e) => mime_type(e.as_str()),
                    None => {
                        proof {
                            reveal_strlit("");
                            assert(""@ =~= Seq::<char>::empty());
                        }
                        mime_type("")
                    },
                };
                ResolvedContent::RawFile(bytes, mime)
            }
        },
    }
}

/// The extension of a path, or the empty sequence when it has none; what
/// `mime_type` is asked about.
pub open spec fn extension_or_empty(path: Seq<char>) -> Seq<char> {
    match extension_of(path) {
        Some(e) => e,
        None => Seq::empty(),
    }
}

} // verus!
