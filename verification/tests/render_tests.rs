use mdopen::render::{to_html, to_tag_anchor, SyntaxHighligher};

#[test]
fn slug_basic() {
    assert_eq!(to_tag_anchor("Hello World"), "hello-world");
}

#[test]
fn slug_lowercases_unicode() {
    assert_eq!(to_tag_anchor("ÄBC"), "äbc");
}

#[test]
fn slug_drops_punctuation() {
    assert_eq!(to_tag_anchor("C# & Rust"), "c--rust");
}

#[test]
fn slug_keeps_hyphens_and_digits() {
    assert_eq!(to_tag_anchor("step-2 done"), "step-2-done");
}

#[test]
fn slug_is_idempotent() {
    for input in ["Hello World", "C# & Rust", "ÄBC", "step-2 done", ""] {
        let once = to_tag_anchor(input);
        assert_eq!(to_tag_anchor(&once), once);
    }
}

#[test]
fn slug_has_no_space_and_no_uppercase() {
    for input in ["A  B", "MiXeD CaSe-7", "ÉCOLE maternelle"] {
        let slug = to_tag_anchor(input);
        assert!(!slug.contains(' '));
        assert!(!slug.chars().any(|c| c.is_ascii_uppercase()));
    }
}

#[test]
fn render_empty_is_empty() {
    assert_eq!(to_html("", None), "");
}

#[test]
fn render_heading_has_anchor() {
    let html = to_html("# Hello World", None);
    // The anchor is the first element inside the rendered heading.
    assert!(html.contains("<h1><a id=\"hello-world\" class=\"anchor\" href=\"#hello-world\">"));
    assert!(html.contains("Hello World"));
}

#[test]
fn render_subheading_anchor_follows_opening_tag() {
    let html = to_html("## Deeper", None);
    assert!(html.contains("<h2><a id=\"deeper\""));
}

#[test]
fn render_image_only_heading_gets_no_anchor() {
    // A heading whose content stands inside image markup renders that
    // content as the image's alt text; no anchor is emitted.
    let html = to_html("# ![foo](bar)", None);
    assert!(html.contains("<img"));
    assert!(!html.contains("<a id="));
}

#[test]
fn render_second_heading_same_text_same_slug() {
    let html = to_html("# Dup\n\n# Dup\n", None);
    let needle = "<a id=\"dup\"";
    let first = html.find(needle).unwrap();
    let second = html[first + 1..].find(needle);
    assert!(second.is_some(), "duplicate headings keep colliding slugs");
}

#[test]
fn render_is_deterministic() {
    let src = "# Title\n\nSome *text* with `code`.\n\n```rust\nfn main() {}\n```\n";
    let a = to_html(src, None);
    let b = to_html(src, None);
    assert_eq!(a, b);
    let hl = SyntaxHighligher::new();
    let c = to_html(src, Some(&hl));
    let d = to_html(src, Some(&hl));
    assert_eq!(c, d);
}

#[test]
fn render_plain_code_block_without_highlighter() {
    let html = to_html("```rust\nfn main() {}\n```\n", None);
    assert!(html.contains("<pre><code"));
    assert!(html.contains("fn main()"));
}

#[test]
fn render_highlighted_code_block() {
    let hl = SyntaxHighligher::new();
    let html = to_html("```rust\nfn main() {}\n```\n", Some(&hl));
    assert!(html.contains("<pre style="), "highlighted block carries inline styling");
    assert!(html.contains("main"));
    assert!(html.ends_with("</code></pre>\n"));
}

#[test]
fn render_highlight_buffers_whole_block() {
    let hl = SyntaxHighligher::new();
    let html = to_html("```text\nfirst line\nsecond line\n```\n", Some(&hl));
    assert!(html.contains("first line"));
    assert!(html.contains("second line"));
}

#[test]
fn render_unknown_language_falls_back_to_plain() {
    let hl = SyntaxHighligher::new();
    let html = to_html("```nosuchlanguage xyz\nplain words\n```\n", Some(&hl));
    assert!(html.contains("plain words"));
}

#[test]
fn highlight_produces_self_contained_fragment() {
    let hl = SyntaxHighligher::new();
    let out = hl.highlight("let x = 1;", Some("rust"));
    assert!(out.starts_with("<pre"));
    assert!(out.ends_with("</code></pre>\n"));
    assert_ne!(out, "let x = 1;");
}

#[test]
fn render_passes_inline_html_through() {
    let html = to_html("before\n\n<div class=\"x\">raw</div>\n\nafter\n", None);
    assert!(html.contains("<div class=\"x\">raw</div>"));
}

#[test]
fn render_gfm_extensions() {
    let html = to_html("~~gone~~\n\n- [x] done\n", None);
    assert!(html.contains("<del>"));
    assert!(html.contains("checkbox"));
}
