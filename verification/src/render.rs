//! Markdown renderer: heading anchors, optional syntax-highlighted code
//! blocks, and the pipeline that turns Markdown text into an HTML fragment.

use vstd::prelude::*;
use vstd::string::StrSliceExecFns;
use vstd::string::StringExecFns;
use crate::strutil::push_char;
use pulldown_cmark::{CodeBlockKind, CowStr, Event, Options, Parser, Tag, TagEnd, TextMergeStream};
use syntect::easy::HighlightLines;
use syntect::html::{append_highlighted_html_for_styled_line, start_highlighted_html_snippet, IncludeBackground};

verus! {

/// `hay` holds `needle` as a contiguous subsequence.
pub open spec fn contains_seq(hay: Seq<char>, needle: Seq<char>) -> bool {
    exists|k: int|
        0 <= k && k + needle.len() <= hay.len() && #[trigger] hay.subrange(k, k + needle.len())
            == needle
}

/// What `str::to_lowercase` returns for a given character sequence.
pub uninterp spec fn lower_of(s: Seq<char>) -> Seq<char>;

/// Whether `char::is_alphanumeric` holds of a character.
pub uninterp spec fn is_alnum_char(c: char) -> bool;

/// Relies on `str::to_lowercase`: the Unicode lowercase mapping of the
/// string, a function of its characters alone; an empty string stays empty;
/// and no character of the result is an ASCII uppercase letter, since a
/// lowercase mapping never produces one.
#[verifier::external_body]
fn lowercase(s: &str) -> (r: String)
    ensures
        r@ == lower_of(s@),
        s@.len() == 0 ==> r@.len() == 0,
        forall|i: int| 0 <= i < r@.len() ==> !('A' <= #[trigger] r@[i] <= 'Z'),
{
    s.to_lowercase()
}

/// Relies on `char::is_alphanumeric`: the Unicode alphanumeric
/// classification of one character.
#[verifier::external_body]
fn char_is_alphanumeric(c: char) -> (r: bool)
    ensures
        r == is_alnum_char(c),
{
    c.is_alphanumeric()
}

/// A character survives slug derivation when it is alphanumeric, a space or
/// a hyphen.
pub open spec fn keep_in_slug(c: char) -> bool {
    is_alnum_char(c) || c == ' ' || c == '-'
}

/// Spaces become hyphens in a slug; every other kept character stays.
pub open spec fn slug_map(c: char) -> char {
    if c == ' ' {
        '-'
    } else {
        c
    }
}

/// The slug of an already lower-cased character sequence: keep only
/// alphanumerics, spaces and hyphens, and turn the spaces into hyphens.
pub open spec fn slug_of(s: Seq<char>) -> Seq<char>
    decreases s.len(),
{
    if s.len() == 0 {
        Seq::empty()
    } else {
        let rest = slug_of(s.drop_last());
        if keep_in_slug(s.last()) {
            rest.push(slug_map(s.last()))
        } else {
            rest
        }
    }
}

/// A slug never holds a space (they all became hyphens) nor an ASCII
/// uppercase letter, provided the input was lower-cased first.
pub proof fn lemma_slug_free_of_spaces_and_uppercase(s: Seq<char>)
    requires
        forall|j: int| 0 <= j < s.len() ==> !('A' <= #[trigger] s[j] <= 'Z'),
    ensures
        forall|i: int|
            0 <= i < slug_of(s).len() ==> #[trigger] slug_of(s)[i] != ' ' && !('A' <= slug_of(s)[i]
                <= 'Z'),
    decreases s.len(),
{
    if s.len() > 0 {
        assert(forall|j: int|
            0 <= j < s.drop_last().len() ==> !('A' <= #[trigger] s.drop_last()[j] <= 'Z'));
        lemma_slug_free_of_spaces_and_uppercase(s.drop_last());
        let rest = slug_of(s.drop_last());
        assert forall|i: int| 0 <= i < slug_of(s).len() implies #[trigger] slug_of(s)[i] != ' '
            && !('A' <= slug_of(s)[i] <= 'Z') by {
            if keep_in_slug(s.last()) {
                assert(slug_of(s) == rest.push(slug_map(s.last())));
                assert(!('A' <= s[s.len() - 1] <= 'Z'));
                if i < rest.len() {
                    assert(slug_of(s)[i] == rest[i]);
                } else {
                    assert(slug_of(s)[i] == slug_map(s.last()));
                }
            } else {
                assert(slug_of(s)[i] == rest[i]);
            }
        }
    }
}

/// Slug derivation is idempotent on its own filtering step: every character
/// a slug holds is kept and left unchanged by a second pass.  (A second run
/// of the full algorithm also lower-cases the slug first; that the slug
/// comes back unchanged from lower-casing is true of the Unicode mapping
/// but not stated here.)
pub proof fn lemma_slug_idempotent(s: Seq<char>)
    ensures
        slug_of(slug_of(s)) == slug_of(s),
    decreases s.len(),
{
    if s.len() > 0 {
        lemma_slug_idempotent(s.drop_last());
        let rest = slug_of(s.drop_last());
        if keep_in_slug(s.last()) {
            let m = slug_map(s.last());
            assert(keep_in_slug(m) && slug_map(m) == m);
            assert(rest.push(m).drop_last() =~= rest);
            assert(slug_of(rest.push(m)) == slug_of(rest).push(m));
        }
    }
}

/// Derive the anchor slug of a heading's plain text: lower-case it, keep
/// only alphanumerics, spaces and hyphens, and replace spaces with hyphens.
/// Two headings with the same text yield the same slug; no de-duplication is
/// applied.  The result holds no space and no ASCII uppercase letter.
pub fn to_tag_anchor(name: &str) -> (r: String)
    ensures
        r@ == slug_of(lower_of(name@)),
        forall|i: int|
            0 <= i < r@.len() ==> #[trigger] r@[i] != ' ' && !('A' <= r@[i] <= 'Z'),
{
    let lowered = lowercase(name);
    let n = lowered.as_str().unicode_len();
    let mut out = String::new();
    let mut i: usize = 0;
    while i < n
        invariant
            n == lowered@.len(),
            0 <= i <= n,
            out@ == slug_of(lowered@.take(i as int)),
        decreases n - i,
    {
        let c = lowered.as_str().get_char(i);
        proof {
            assert(lowered@.take(i + 1).drop_last() =~= lowered@.take(i as int));
            assert(lowered@.take(i + 1).last() == lowered@[i as int]);
        }
        if char_is_alphanumeric(c) || c == ' ' || c == '-' {
            if c == ' ' {
                push_char(&mut out, '-');
            } else {
                push_char(&mut out, c);
            }
        }
        i = i + 1;
    }
    proof {
        assert(lowered@.take(n as int) =~= lowered@);
        lemma_slug_free_of_spaces_and_uppercase(lowered@);
    }
    out
}

/// The HTML fragment that replaces a heading's text: an anchor whose `id`
/// and `href` carry the slug, followed by the original text.
pub open spec fn anchor_html(text: Seq<char>) -> Seq<char> {
    let slug = slug_of(lower_of(text));
    "<a id=\""@ + slug + "\" class=\"anchor\" href=\"#"@ + slug
        + "\"><span class=\"octicon octicon-link\"></span></a>"@ + text
}

/// Build the anchor fragment that is injected in front of a heading's text.
pub fn heading_anchor_fragment(text: &str) -> (r: String)
    ensures
        r@ == anchor_html(text@),
{
    let slug = to_tag_anchor(text);
    let mut out = String::from_str("<a id=\"");
    out.append(slug.as_str());
    out.append("\" class=\"anchor\" href=\"#");
    out.append(slug.as_str());
    out.append("\"><span class=\"octicon octicon-link\"></span></a>");
    out.append(text);
    out
}

/// One Markdown event, as the renderer's logic sees it.  Everything the
/// transform does not touch is `Other`; the emitting side restores those
/// events from a second parse of the same source.
pub enum MdEvent {
    /// A heading opens, with its level (1 through 6).
    HeadingStart(u8),
    /// A heading closes.
    HeadingEnd,
    /// A text node, with its content.
    Text(String),
    /// A code block opens; the field is its info string (empty for an
    /// indented block).
    CodeStart(String),
    /// A code block closes.
    CodeEnd,
    /// Any other event.
    Other,
}

/// The mathematical value of an `MdEvent`.
pub enum MdTok {
    HeadingStart(u8),
    HeadingEnd,
    Text(Seq<char>),
    CodeStart(Seq<char>),
    CodeEnd,
    Other,
}

impl View for MdEvent {
    type V = MdTok;

    open spec fn view(&self) -> MdTok {
        match self {
            MdEvent::HeadingStart(l) => MdTok::HeadingStart(*l),
            MdEvent::HeadingEnd => MdTok::HeadingEnd,
            MdEvent::Text(s) => MdTok::Text(s@),
            MdEvent::CodeStart(s) => MdTok::CodeStart(s@),
            MdEvent::CodeEnd => MdTok::CodeEnd,
            MdEvent::Other => MdTok::Other,
        }
    }
}

/// What the transform emits in place of each incoming event.
pub enum MdOut {
    /// The original event passes through unchanged.
    Keep,
    /// A replacement text node (used to blank out buffered code text).
    Text(String),
    /// A replacement raw-HTML node.
    Html(String),
}

/// The mathematical value of an `MdOut`.
pub enum MdOutTok {
    Keep,
    Text(Seq<char>),
    Html(Seq<char>),
}

impl View for MdOut {
    type V = MdOutTok;

    open spec fn view(&self) -> MdOutTok {
        match self {
            MdOut::Keep => MdOutTok::Keep,
            MdOut::Text(s) => MdOutTok::Text(s@),
            MdOut::Html(s) => MdOutTok::Html(s@),
        }
    }
}

/// The values of a sequence of events.
pub open spec fn toks_of(s: Seq<MdEvent>) -> Seq<MdTok> {
    s.map_values(|e: MdEvent| e@)
}

/// The values of a sequence of replacements.
pub open spec fn outs_of(s: Seq<MdOut>) -> Seq<MdOutTok> {
    s.map_values(|e: MdOut| e@)
}

/// The prefix of `s` up to (not including) its first space: the language
/// hint taken from a code block's info string.
pub open spec fn first_token(s: Seq<char>) -> Seq<char>
    decreases s.len(),
{
    if s.len() == 0 {
        s
    } else if s[0] == ' ' {
        Seq::empty()
    } else {
        seq![s[0]] + first_token(s.drop_first())
    }
}

proof fn lemma_first_token_take(s: Seq<char>, idx: int)
    requires
        0 <= idx <= s.len(),
        forall|j: int| 0 <= j < idx ==> s[j] != ' ',
        idx == s.len() || s[idx] == ' ',
    ensures
        first_token(s) == s.take(idx),
    decreases idx,
{
    if idx == 0 {
        assert(s.take(0) =~= Seq::empty());
        if s.len() > 0 {
            assert(s[0] == ' ');
        }
    } else {
        assert(s[0] != ' ');
        lemma_first_token_take(s.drop_first(), idx - 1);
        assert(seq![s[0]] + s.drop_first().take(idx - 1) =~= s.take(idx));
    }
}

/// The running state of the event transform: whether the cursor stands
/// inside a heading or a code block, the language hint of the open block,
/// and the code text buffered so far.
pub ghost struct XformState {
    pub in_heading: bool,
    pub in_code: bool,
    pub lang: Seq<char>,
    pub buf: Seq<char>,
}

/// The state before any event was processed.
pub open spec fn init_state() -> XformState {
    XformState { in_heading: false, in_code: false, lang: Seq::empty(), buf: Seq::empty() }
}

/// How one event advances the transform's state.  `hl` is the
/// syntax-highlighting flag; with it off, code blocks pass through
/// untouched.
pub open spec fn step_state(st: XformState, t: MdTok, hl: bool) -> XformState {
    match t {
        MdTok::HeadingStart(_) => XformState { in_heading: true, ..st },
        MdTok::HeadingEnd => XformState { in_heading: false, ..st },
        MdTok::CodeStart(info) => if hl {
            XformState { in_code: true, lang: first_token(info), buf: Seq::empty(), ..st }
        } else {
            st
        },
        MdTok::CodeEnd => if hl && st.in_code {
            XformState { in_code: false, ..st }
        } else {
            st
        },
        MdTok::Text(t) => if st.in_heading {
            st
        } else if hl && st.in_code {
            XformState { buf: st.buf + t, ..st }
        } else {
            st
        },
        MdTok::Other => st,
    }
}

/// What the transform emits for one event in a given state.  Text inside a
/// heading is replaced by the anchor fragment; with highlighting on, a code
/// block's text is buffered (blanked in place) and the closing event emits
/// the highlighted fragment.
pub open spec fn step_out(st: XformState, t: MdTok, hl: bool) -> MdOutTok {
    match t {
        MdTok::HeadingStart(_) => MdOutTok::Keep,
        MdTok::HeadingEnd => MdOutTok::Keep,
        MdTok::CodeStart(_) => if hl {
            MdOutTok::Text(Seq::empty())
        } else {
            MdOutTok::Keep
        },
        MdTok::CodeEnd => if hl && st.in_code {
            MdOutTok::Html(highlight_of(st.buf, Some(st.lang)))
        } else {
            MdOutTok::Keep
        },
        MdTok::Text(t) => if st.in_heading {
            MdOutTok::Html(anchor_html(t))
        } else if hl && st.in_code {
            MdOutTok::Text(Seq::empty())
        } else {
            MdOutTok::Keep
        },
        MdTok::Other => MdOutTok::Keep,
    }
}

/// The whole transform: one replacement for each incoming event.
pub open spec fn run_transform(toks: Seq<MdTok>, st: XformState, hl: bool) -> Seq<MdOutTok>
    decreases toks.len(),
{
    if toks.len() == 0 {
        Seq::empty()
    } else {
        seq![step_out(st, toks[0], hl)] + run_transform(
            toks.drop_first(),
            step_state(st, toks[0], hl),
            hl,
        )
    }
}

/// The transform's state after the first `i` events.
pub open spec fn state_at(toks: Seq<MdTok>, st: XformState, hl: bool, i: int) -> XformState
    decreases i,
{
    if i <= 0 || toks.len() == 0 {
        st
    } else {
        state_at(toks.drop_first(), step_state(st, toks[0], hl), hl, i - 1)
    }
}

pub proof fn lemma_run_transform_len(toks: Seq<MdTok>, st: XformState, hl: bool)
    ensures
        run_transform(toks, st, hl).len() == toks.len(),
    decreases toks.len(),
{
    if toks.len() > 0 {
        lemma_run_transform_len(toks.drop_first(), step_state(st, toks[0], hl), hl);
    }
}

/// The replacement at position `i` is determined by the state after the
/// first `i` events and the event there.
pub proof fn lemma_run_transform_index(toks: Seq<MdTok>, st: XformState, hl: bool, i: int)
    requires
        0 <= i < toks.len(),
    ensures
        run_transform(toks, st, hl).len() == toks.len(),
        run_transform(toks, st, hl)[i] == step_out(state_at(toks, st, hl, i), toks[i], hl),
    decreases i,
{
    lemma_run_transform_len(toks, st, hl);
    if i > 0 {
        lemma_run_transform_index(toks.drop_first(), step_state(st, toks[0], hl), hl, i - 1);
    }
}

/// Processing one more event steps the state once.
pub proof fn lemma_state_at_succ(toks: Seq<MdTok>, st: XformState, hl: bool, i: int)
    requires
        0 <= i < toks.len(),
    ensures
        state_at(toks, st, hl, i + 1) == step_state(state_at(toks, st, hl, i), toks[i], hl),
    decreases i,
{
    if i > 0 {
        lemma_state_at_succ(toks.drop_first(), step_state(st, toks[0], hl), hl, i - 1);
        assert(toks.drop_first()[i - 1] == toks[i]);
    } else {
        assert(state_at(toks, st, hl, 1) == state_at(
            toks.drop_first(),
            step_state(st, toks[0], hl),
            hl,
            0,
        ));
    }
}

#[verifier::external_type_specification]
#[verifier::external_body]
pub struct ExSyntaxSet(syntect::parsing::SyntaxSet);

#[verifier::external_type_specification]
#[verifier::external_body]
pub struct ExThemeSet(syntect::highlighting::ThemeSet);

/// The highlighted HTML fragment that syntect produces for a code block's
/// text and language hint, over syntect's default grammars and themes.
pub uninterp spec fn highlight_of(code: Seq<char>, lang: Option<Seq<char>>) -> Seq<char>;

/// Grammars and themes for syntax-highlighted code blocks.  Loading them is
/// comparatively expensive, so callers construct one value and share it,
/// read-only, for the life of the process.
pub struct SyntaxHighligher {
    syntax_set: syntect::parsing::SyntaxSet,
    theme_set: syntect::highlighting::ThemeSet,
}

impl SyntaxHighligher {
    /// Relies on `SyntaxSet::load_defaults_newlines` and
    /// `ThemeSet::load_defaults`: the grammar and theme sets embedded in
    /// syntect, the same on every load.
    #[verifier::external_body]
    pub fn new() -> Self {
        Self {
            syntax_set: syntect::parsing::SyntaxSet::load_defaults_newlines(),
            theme_set: syntect::highlighting::ThemeSet::load_defaults(),
        }
    }

    /// Relies on syntect's `HighlightLines` with the `base16-ocean.dark`
    /// theme over the embedded defaults (see `new`, the type's only
    /// constructor): the fragment is a function of the code text and the
    /// language hint alone.  A hint that matches no grammar falls back to
    /// plain text.  The fragment is self-contained: it opens with `<pre`
    /// (syntect's snippet header), holds a `<code>` tag, and closes with
    /// `</code></pre>` and a newline.
    #[verifier::external_body]
    pub fn highlight(&self, code: &str, lang: Option<&str>) -> (r: String)
        ensures
            r@ == highlight_of(
                code@,
                match lang {
                    Some(l) => Some(l@),
                    None => None,
                },
            ),
            r@.len() >= 4 && r@.subrange(0, 4) == "<pre"@,
            r@.len() >= 14 && r@.subrange(r@.len() - 14, r@.len() as int) == "</code></pre>\n"@,
            contains_seq(r@, "<code>"@),
    {
        let theme = &self.theme_set.themes["base16-ocean.dark"];
        let syntax = lang.and_then(|l| self.syntax_set.find_syntax_by_token(l))
            .unwrap_or_else(|| self.syntax_set.find_syntax_plain_text());
        let mut highlighter = HighlightLines::new(syntax, theme);
        let (mut output, bg) = start_highlighted_html_snippet(theme);
        output.push_str("<code>");
        for line in syntect::util::LinesWithEndings::from(code) {
            let regions = highlighter.highlight_line(line, &self.syntax_set).unwrap();
            let inc = IncludeBackground::IfDifferent(bg);
            append_highlighted_html_for_styled_line(&regions[..], inc, &mut output).unwrap();
        }
        output.push_str("</code></pre>\n");
        output
    }
}

/// The event stream that pulldown-cmark's parser yields for a source text,
/// projected onto the library's event values.
pub uninterp spec fn md_tokens_of(md: Seq<char>) -> Seq<MdTok>;

/// Relies on pulldown-cmark's `Parser` (with strikethrough, tables,
/// footnotes, task lists, smart punctuation, math and GFM enabled) wrapped
/// in `TextMergeStream`: the event stream is a function of the source text
/// alone, and an empty source yields no events.
#[verifier::external_body]
fn parse_markdown(md: &str) -> (toks: Vec<MdEvent>)
    ensures
        toks_of(toks@) == md_tokens_of(md@),
        md@.len() == 0 ==> toks@.len() == 0,
{
    let opts = Options::ENABLE_STRIKETHROUGH | Options::ENABLE_TABLES | Options::ENABLE_FOOTNOTES
        | Options::ENABLE_TASKLISTS | Options::ENABLE_SMART_PUNCTUATION | Options::ENABLE_MATH
        | Options::ENABLE_GFM;
    TextMergeStream::new(Parser::new_ext(md, opts)).map(|ev| match ev {
        Event::Start(Tag::Heading { level, .. }) => MdEvent::HeadingStart(level as u8),
        Event::End(TagEnd::Heading(_)) => MdEvent::HeadingEnd,
        Event::Start(Tag::CodeBlock(CodeBlockKind::Fenced(info))) => MdEvent::CodeStart(info.into_string()),
        Event::Start(Tag::CodeBlock(CodeBlockKind::Indented)) => MdEvent::CodeStart(String::new()),
        Event::End(TagEnd::CodeBlock) => MdEvent::CodeEnd,
        Event::Text(t) => MdEvent::Text(t.into_string()),
        _ => MdEvent::Other,
    }).collect()
}

/// The replacements touch only text and code-block events of the token
/// stream; every structural event passes through unchanged.  This is what
/// `transform_events` produces, and it keeps the emitter's notion of where
/// an image's alt text ranges identical to the source's.
pub open spec fn replaces_only_inline(toks: Seq<MdTok>, outs: Seq<MdOutTok>) -> bool {
    forall|j: int|
        #![trigger outs[j]]
        0 <= j < outs.len() && !(outs[j] is Keep) ==> j < toks.len() && (toks[j] is Text
            || toks[j] is CodeStart || toks[j] is CodeEnd)
}

/// The opening tag a heading of the given level renders to.  With no
/// heading-attribute extension enabled, the tag carries nothing else.
pub open spec fn heading_open(level: u8) -> Seq<char> {
    if level == 1 {
        "<h1>"@
    } else if level == 2 {
        "<h2>"@
    } else if level == 3 {
        "<h3>"@
    } else if level == 4 {
        "<h4>"@
    } else if level == 5 {
        "<h5>"@
    } else {
        "<h6>"@
    }
}

/// The HTML that pulldown-cmark's `push_html` writes when the source text's
/// event stream is overlaid with the given replacements, position by
/// position.
pub uninterp spec fn emitted_html(md: Seq<char>, outs: Seq<MdOutTok>) -> Seq<char>;

/// Relies on pulldown-cmark's `push_html` and on the determinism of its
/// `Parser` (the same options as in `parse_markdown`): the output is a
/// function of the source text and the replacements alone, and no
/// replacements yield an empty output.
///
/// An `Html` replacement is written into the output verbatim only when it is
/// rendered in normal flow; inside an image, `push_html` renders the inner
/// events as alt text and drops `Html` ones.  So containment is promised
/// only where the replacements touch nothing structural (the alt-text
/// ranges then coincide with the source's, in which no block-level event
/// can stand) and the replacement sits at a position that no alt-text range
/// can reach: directly after a kept heading start — which renders as its
/// bare opening tag, the fragment following at once — or on a code-block
/// end.
#[verifier::external_body]
fn emit_html(md: &str, outs: &Vec<MdOut>) -> (r: String)
    ensures
        r@ == emitted_html(md@, outs_of(outs@)),
        replaces_only_inline(md_tokens_of(md@), outs_of(outs@)) ==> forall|i: int|
            #![trigger outs@[i]]
            0 <= i && i + 1 < outs@.len() && i < md_tokens_of(md@).len() ==> match (
            md_tokens_of(md@)[i],
            outs@[i],
            outs@[i + 1],
            ) {
                (MdTok::HeadingStart(lvl), MdOut::Keep, MdOut::Html(s)) => contains_seq(
                    r@,
                    heading_open(lvl) + s@,
                ),
                _ => true,
            },
        replaces_only_inline(md_tokens_of(md@), outs_of(outs@)) ==> forall|i: int|
            #![trigger outs@[i]]
            0 <= i < outs@.len() && i < md_tokens_of(md@).len() ==> match (
            md_tokens_of(md@)[i],
            outs@[i],
            ) {
                (MdTok::CodeEnd, MdOut::Html(s)) => contains_seq(r@, s@),
                _ => true,
            },
        outs@.len() == 0 ==> r@.len() == 0,
{
    let opts = Options::ENABLE_STRIKETHROUGH | Options::ENABLE_TABLES | Options::ENABLE_FOOTNOTES
        | Options::ENABLE_TASKLISTS | Options::ENABLE_SMART_PUNCTUATION | Options::ENABLE_MATH
        | Options::ENABLE_GFM;
    let mut parser = TextMergeStream::new(Parser::new_ext(md, opts));
    let events = outs.iter().map(|out| {
        let orig = parser.next();
        match out {
            MdOut::Keep => orig.unwrap_or(Event::Text(CowStr::Borrowed(""))),
            MdOut::Text(s) => Event::Text(CowStr::Boxed(s.clone().into_boxed_str())),
            MdOut::Html(s) => Event::Html(CowStr::Boxed(s.clone().into_boxed_str())),
        }
    });
    let mut html = String::new();
    pulldown_cmark::html::push_html(&mut html, events);
    html
}

/// The language hint of an info string: its first space-delimited token.
fn first_token_str(s: &str) -> (r: String)
    ensures
        r@ == first_token(s@),
{
    let n = s.unicode_len();
    let mut i: usize = 0;
    while i < n && s.get_char(i) != ' '
        invariant
            n == s@.len(),
            0 <= i <= n,
            forall|j: int| 0 <= j < i ==> s@[j] != ' ',
        decreases n - i,
    {
        i = i + 1;
    }
    let sub = s.substring_char(0, i);
    proof {
        lemma_first_token_take(s@, i as int);
    }
    String::from_str(sub)
}

/// The state value that the exec transform's locals stand for.
pub open spec fn abs_state(in_heading: bool, in_code: bool, lang: Seq<char>, buf: Seq<char>) -> XformState {
    XformState { in_heading, in_code, lang, buf }
}

/// Apply the transform to a whole event stream: inject heading anchors and,
/// with a highlighter present, replace each code block with its highlighted
/// fragment (the block's text chunks are buffered in order and highlighted
/// once, at the closing event).
pub fn transform_events(toks: &Vec<MdEvent>, highlighter: Option<&SyntaxHighligher>) -> (outs: Vec<
    MdOut,
>)
    ensures
        outs_of(outs@) == run_transform(toks_of(toks@), init_state(), highlighter is Some),
        outs@.len() == toks@.len(),
{
    let ghost hl = highlighter is Some;
    let ghost all = toks_of(toks@);
    let ghost full = run_transform(all, init_state(), hl);
    proof {
        lemma_run_transform_len(all, init_state(), hl);
    }
    let mut outs: Vec<MdOut> = Vec::new();
    let mut in_heading = false;
    let mut in_code = false;
    let mut lang = String::new();
    let mut buf = String::new();
    let n = toks.len();
    let mut i: usize = 0;
    while i < n
        invariant
            n == toks@.len(),
            all == toks_of(toks@),
            full == run_transform(all, init_state(), hl),
            full.len() == all.len(),
            hl == (highlighter is Some),
            0 <= i <= n,
            outs@.len() == i,
            outs_of(outs@) == full.take(i as int),
            abs_state(in_heading, in_code, lang@, buf@) == state_at(all, init_state(), hl, i as int),
        decreases n - i,
    {
        proof {
            lemma_run_transform_index(all, init_state(), hl, i as int);
            lemma_state_at_succ(all, init_state(), hl, i as int);
            assert(all[i as int] == toks@[i as int]@);
        }
        let ghost st = state_at(all, init_state(), hl, i as int);
        let out: MdOut = match &toks[i] {
            MdEvent::HeadingStart(_) => {
                in_heading = true;
                MdOut::Keep
            },
            MdEvent::HeadingEnd => {
                in_heading = false;
                MdOut::Keep
            },
            MdEvent::CodeStart(info) => {
                match highlighter {
                    Some(_) => {
                        in_code = true;
                        lang = first_token_str(info.as_str());
                        buf = String::new();
                        MdOut::Text(String::new())
                    },
                    None => MdOut::Keep,
                }
            },
            MdEvent::CodeEnd => {
                match highlighter {
                    Some(h) => {
                        if in_code {
                            in_code = false;
                            MdOut::Html(h.highlight(buf.as_str(), Some(lang.as_str())))
                        } else {
                            MdOut::Keep
                        }
                    },
                    None => MdOut::Keep,
                }
            },
            MdEvent::Text(t) => {
                if in_heading {
                    MdOut::Html(heading_anchor_fragment(t.as_str()))
                } else if highlighter.is_some() && in_code {
                    buf.append(t.as_str());
                    MdOut::Text(String::new())
                } else {
                    MdOut::Keep
                }
            },
            MdEvent::Other => MdOut::Keep,
        };
        proof {
            assert(out@ == step_out(st, all[i as int], hl));
            assert(abs_state(in_heading, in_code, lang@, buf@) == step_state(
                st,
                all[i as int],
                hl,
            ));
        }
        outs.push(out);
        proof {
            assert(outs_of(outs@) =~= full.take(i as int).push(full[i as int]));
            assert(full.take(i + 1) =~= full.take(i as int).push(full[i as int]));
        }
        i = i + 1;
    }
    proof {
        assert(full.take(n as int) =~= full);
    }
    outs
}

/// The transform replaces only text and code-block events; headings and
/// every other structural event pass through as `Keep`.
pub proof fn lemma_transform_replaces_only_inline(toks: Seq<MdTok>, st: XformState, hl: bool)
    ensures
        replaces_only_inline(toks, run_transform(toks, st, hl)),
{
    lemma_run_transform_len(toks, st, hl);
    let outs = run_transform(toks, st, hl);
    assert forall|j: int| 0 <= j < outs.len() && !(#[trigger] outs[j] is Keep) implies j
        < toks.len() && (toks[j] is Text || toks[j] is CodeStart || toks[j] is CodeEnd) by {
        lemma_run_transform_index(toks, st, hl, j);
    }
}

/// Everything `to_html` returns, as a function of the source text and the
/// highlighting flag.
pub open spec fn render_of(md: Seq<char>, hl: bool) -> Seq<char> {
    emitted_html(md, run_transform(md_tokens_of(md), init_state(), hl))
}

/// Render Markdown to an HTML fragment.  Rendering never fails: the parser
/// is total over its input.  Syntax highlighting is on exactly when a
/// highlighter is handed in.  The result is a function of the source text
/// and that flag alone, so rendering is deterministic; an empty source
/// renders to an empty fragment; and every heading text that stands outside
/// a code block contributes its anchor fragment to the output, placed
/// directly after the heading's opening tag — the first element inside the
/// rendered heading.  (A heading whose content stands inside image markup
/// renders that content as the image's alt text and gets no anchor.)
pub fn to_html(md: &str, highlighter: Option<&SyntaxHighligher>) -> (r: String)
    ensures
        r@ == render_of(md@, highlighter is Some),
        md@.len() == 0 ==> r@.len() == 0,
        forall|i: int|
            #![trigger md_tokens_of(md@)[i]]
            {
                let toks = md_tokens_of(md@);
                let hl = highlighter is Some;
                (0 <= i && i + 1 < toks.len() && !state_at(toks, init_state(), hl, i).in_code)
                    ==> match (toks[i], toks[i + 1]) {
                    (MdTok::HeadingStart(lvl), MdTok::Text(t)) => contains_seq(
                        r@,
                        heading_open(lvl) + anchor_html(t),
                    ),
                    _ => true,
                }
            },
{
    let ghost hl = highlighter is Some;
    let ghost tokens = md_tokens_of(md@);
    let toks = parse_markdown(md);
    let outs = transform_events(&toks, highlighter);
    let r = emit_html(md, &outs);
    proof {
        lemma_run_transform_len(tokens, init_state(), hl);
        lemma_transform_replaces_only_inline(tokens, init_state(), hl);
        assert forall|i: int|
            (0 <= i && i + 1 < tokens.len() && !state_at(tokens, init_state(), hl, i).in_code)
                implies match (tokens[i], tokens[i + 1]) {
            (MdTok::HeadingStart(lvl), MdTok::Text(t)) => contains_seq(
                r@,
                heading_open(lvl) + anchor_html(t),
            ),
            _ => true,
        } by {
            match (tokens[i], tokens[i + 1]) {
                (MdTok::HeadingStart(lvl), MdTok::Text(t)) => {
                    lemma_heading_text_anchored(tokens, hl, i);
                    lemma_run_transform_index(tokens, init_state(), hl, i);
                    assert(outs_of(outs@)[i] == MdOutTok::Keep);
                    assert(outs_of(outs@)[i + 1] == MdOutTok::Html(anchor_html(t)));
                    assert(outs@[i]@ == MdOutTok::Keep);
                    assert(outs@[i + 1]@ == MdOutTok::Html(anchor_html(t)));
                    match (outs@[i], outs@[i + 1]) {
                        (MdOut::Keep, MdOut::Html(s)) => {
                            assert(contains_seq(r@, heading_open(lvl) + s@));
                        },
                        _ => {
                            assert(false);
                        },
                    }
                },
                _ => {},
            }
        }
    }
    r
}

/// Rendering is deterministic: the same source text under the same feature
/// flag yields byte-identical HTML, however often it is rendered.  Every
/// step of the pipeline is a function of the source and the flag alone, so
/// two equal inputs have equal renderings.
pub proof fn lemma_render_deterministic(md1: Seq<char>, md2: Seq<char>, hl1: bool, hl2: bool)
    requires
        md1 == md2,
        hl1 == hl2,
    ensures
        render_of(md1, hl1) == render_of(md2, hl2),
{
}

/// Inside a heading (entered one event earlier, outside any code block), a
/// text event's replacement is the anchor fragment derived from its text.
pub proof fn lemma_heading_text_anchored(toks: Seq<MdTok>, hl: bool, i: int)
    requires
        0 <= i,
        i + 1 < toks.len(),
        toks[i] is HeadingStart,
        !state_at(toks, init_state(), hl, i).in_code,
    ensures
        (toks[i + 1] matches MdTok::Text(t) ==> run_transform(toks, init_state(), hl)[i + 1]
            == MdOutTok::Html(anchor_html(t))),
{
    lemma_run_transform_index(toks, init_state(), hl, i + 1);
    lemma_state_at_succ(toks, init_state(), hl, i);
    let st1 = state_at(toks, init_state(), hl, i + 1);
    assert(st1.in_heading);
    assert(!st1.in_code);
}

} // verus!
