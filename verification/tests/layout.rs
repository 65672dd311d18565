use rynx_browser::dom::DomNode;
use rynx_browser::line::{ColorTag, Line, Style, StyledSpan};
use rynx_browser::renderer::{layout, DomRenderer};

fn el(tag: &str, children: Vec<DomNode>) -> DomNode {
    DomNode::Element {
        tag: tag.to_string(),
        href: None,
        alt: None,
        hidden: false,
        children,
    }
}

fn link(href: &str, children: Vec<DomNode>) -> DomNode {
    DomNode::Element {
        tag: "a".to_string(),
        href: Some(href.to_string()),
        alt: None,
        hidden: false,
        children,
    }
}

fn txt(s: &str) -> DomNode {
    DomNode::Text(s.to_string())
}

fn line_text(l: &Line) -> String {
    l.text_string()
}

/// The end-to-end scenario: a heading, a separator, and a wrapped
/// paragraph carrying one link region in display columns.
#[test]
fn test_end_to_end_heading_and_link() {
    let doc = el(
        "body",
        vec![
            el("h1", vec![txt("Hi")]),
            el("p", vec![txt("See "), link("/x", vec![txt("this")]), txt(".")]),
        ],
    );
    // usable width 40: the renderer reserves two columns of the terminal
    let rend = layout(&doc, 42);
    let texts: Vec<String> = rend.lines.iter().map(line_text).collect();
    assert_eq!(texts[0], "Hi");
    assert_eq!(texts[1], "");
    assert_eq!(texts[2], "See this.");
    assert!(rend.lines[0].spans[0].style.bold);
    assert_eq!(rend.links.len(), 1);
    let region = &rend.links[0];
    assert_eq!(region.url, "/x");
    assert_eq!(region.line_index, 2);
    assert_eq!(region.x_start, 4);
    assert_eq!(region.x_end, 8);
}

/// Laying the same tree out twice at the same width yields identical
/// lines and identical link regions.
#[test]
fn test_layout_idempotent() {
    let doc = el(
        "body",
        vec![
            el("h1", vec![txt("Title")]),
            el(
                "p",
                vec![txt("a paragraph with "), link("/y", vec![txt("a link")]), txt(" inside")],
            ),
            el("ul", vec![el("li", vec![txt("first")]), el("li", vec![txt("second")])]),
        ],
    );
    let a = layout(&doc, 30);
    let b = layout(&doc, 30);
    assert_eq!(a.lines.len(), b.lines.len());
    for (la, lb) in a.lines.iter().zip(b.lines.iter()) {
        assert_eq!(line_text(la), line_text(lb));
        assert_eq!(la.spans.len(), lb.spans.len());
    }
    assert_eq!(a.links.len(), b.links.len());
    for (ra, rb) in a.links.iter().zip(b.links.iter()) {
        assert_eq!(ra.url, rb.url);
        assert_eq!(ra.line_index, rb.line_index);
        assert_eq!(ra.x_start, rb.x_start);
        assert_eq!(ra.x_end, rb.x_end);
    }
}

/// A narrower layout produces at least as many lines as a wider one, and
/// every line keeps the width bound.
#[test]
fn test_resize_relayout() {
    let doc = el(
        "body",
        vec![el(
            "p",
            vec![txt("the quick brown fox jumps over the lazy dog again and again")],
        )],
    );
    let narrow = layout(&doc, 12);
    let wide = layout(&doc, 82);
    assert!(narrow.lines.len() >= wide.lines.len());
    for l in narrow.lines.iter() {
        assert!(l.width() <= 10, "line too wide: {:?}", line_text(l));
    }
    for l in wide.lines.iter() {
        assert!(l.width() <= 80);
    }
}

/// A token wider than the line is hard-split on character boundaries and
/// no produced row exceeds the bound.
#[test]
fn test_hard_split_oversized_token() {
    let doc = el("p", vec![txt("aaaaaaaaaaaaaaaaaaaaaaaaa")]);
    let rend = layout(&doc, 12);
    let mut total = String::new();
    for l in rend.lines.iter() {
        assert!(l.width() <= 10);
        total.push_str(&line_text(l));
    }
    assert_eq!(total, "aaaaaaaaaaaaaaaaaaaaaaaaa");
}

/// Adjacent link tokens of one anchor merge into a single region.
#[test]
fn test_link_region_merge() {
    let doc = el("p", vec![link("/z", vec![txt("two words")])]);
    let rend = layout(&doc, 42);
    assert_eq!(rend.links.len(), 1);
    let region = &rend.links[0];
    assert_eq!(region.x_start, 0);
    assert_eq!(region.x_end, 9);
}

/// Regions on a line never overlap and come sorted.
#[test]
fn test_link_regions_disjoint() {
    let doc = el(
        "p",
        vec![
            link("/a", vec![txt("one")]),
            txt(" and "),
            link("/b", vec![txt("two")]),
            txt(" and "),
            link("/c", vec![txt("three")]),
        ],
    );
    let rend = layout(&doc, 82);
    assert_eq!(rend.links.len(), 3);
    for w in rend.links.windows(2) {
        assert!(
            w[0].line_index < w[1].line_index
                || (w[0].line_index == w[1].line_index && w[0].x_end <= w[1].x_start)
        );
    }
    for r in rend.links.iter() {
        assert!(r.x_start < r.x_end);
    }
}

/// Script, style and hidden elements are skipped with their subtrees.
#[test]
fn test_skipped_elements() {
    let hidden = DomNode::Element {
        tag: "p".to_string(),
        href: None,
        alt: None,
        hidden: true,
        children: vec![txt("secret")],
    };
    let doc = el(
        "body",
        vec![
            el("script", vec![txt("var x = 1;")]),
            el("style", vec![txt("p { color: red }")]),
            hidden,
            el("p", vec![txt("visible")]),
        ],
    );
    let rend = layout(&doc, 42);
    let all: String = rend.lines.iter().map(line_text).collect::<Vec<_>>().join("\n");
    assert!(!all.contains("secret"));
    assert!(!all.contains("var x"));
    assert!(!all.contains("color"));
    assert!(all.contains("visible"));
}

/// Preformatted text keeps its literal lines, unwrapped words included.
#[test]
fn test_preformatted_text() {
    let doc = el("pre", vec![txt("first  line\n  indented\n\nlast")]);
    let rend = layout(&doc, 82);
    let texts: Vec<String> = rend.lines.iter().map(line_text).collect();
    assert_eq!(texts[0], "first  line");
    assert_eq!(texts[1], "  indented");
    assert_eq!(texts[2], "");
    assert_eq!(texts[3], "last");
}

/// List items get bullets, nested lists get deeper indentation.
#[test]
fn test_list_bullets() {
    let doc = el(
        "ul",
        vec![
            el("li", vec![txt("alpha")]),
            el(
                "li",
                vec![txt("beta"), el("ul", vec![el("li", vec![txt("gamma")])])],
            ),
        ],
    );
    let rend = layout(&doc, 42);
    let texts: Vec<String> = rend.lines.iter().map(line_text).collect();
    assert_eq!(texts[0], "\u{2022} alpha");
    assert!(texts.iter().any(|t| t == "\u{2022} beta"));
    assert!(texts.iter().any(|t| t == "  \u{2022} gamma"));
}

/// An image becomes its bracketed alt text; a missing alt degrades to a
/// fixed placeholder.
#[test]
fn test_image_alt_text() {
    let img = DomNode::Element {
        tag: "img".to_string(),
        href: None,
        alt: Some("logo".to_string()),
        hidden: false,
        children: vec![],
    };
    let img_missing = DomNode::Element {
        tag: "img".to_string(),
        href: None,
        alt: None,
        hidden: false,
        children: vec![],
    };
    let doc = el("p", vec![img, img_missing]);
    let rend = layout(&doc, 82);
    let all: String = rend.lines.iter().map(line_text).collect::<Vec<_>>().join("\n");
    assert!(all.contains("[logo]"));
    assert!(all.contains("[IMAGE]"));
}

/// A horizontal rule spans the usable width between blank lines.
#[test]
fn test_horizontal_rule() {
    let doc = el("body", vec![el("p", vec![txt("above")]), el("hr", vec![])]);
    let rend = layout(&doc, 12);
    let texts: Vec<String> = rend.lines.iter().map(line_text).collect();
    assert!(texts.iter().any(|t| t == "----------"));
}

/// Width degrades to one usable column instead of dividing by zero.
#[test]
fn test_degenerate_width() {
    let doc = el("p", vec![txt("ab")]);
    let rend = layout(&doc, 0);
    for l in rend.lines.iter() {
        assert!(l.width() <= 1);
    }
    let all: String = rend.lines.iter().map(line_text).collect::<Vec<_>>().concat();
    assert_eq!(all, "ab");
}

/// Styles nest and are restored across siblings.
#[test]
fn test_style_nesting() {
    let doc = el(
        "p",
        vec![
            el("b", vec![txt("bold")]),
            txt(" plain "),
            el("i", vec![txt("italic")]),
        ],
    );
    let rend = layout(&doc, 82);
    let spans: Vec<&StyledSpan> = rend.lines[0].spans.iter().collect();
    let bold_span = spans.iter().find(|s| s.text == "bold").unwrap();
    assert!(bold_span.style.bold && !bold_span.style.italic);
    let italic_span = spans.iter().find(|s| s.text == "italic").unwrap();
    assert!(italic_span.style.italic && !italic_span.style.bold);
    let plain_span = spans.iter().find(|s| s.text == "plain").unwrap();
    assert!(!plain_span.style.bold && !plain_span.style.italic);
    assert_eq!(plain_span.style.fg, ColorTag::Default);
}

/// The wide crab emoji counts two columns toward the width bound.
#[test]
fn test_unicode_width_wrap() {
    let doc = el("p", vec![txt("ab \u{1F980}\u{1F980} cd")]);
    let rend = layout(&doc, 8);
    for l in rend.lines.iter() {
        assert!(l.width() <= 6);
    }
    let mut r = DomRenderer::new(8);
    r.render(&doc);
    assert_eq!(r.lines.len(), rend.lines.len());
}

/// Wide characters count two columns: three crabs at five usable
/// columns split after the second, not the third.
#[test]
fn test_wide_char_split() {
    let doc = el("p", vec![txt("\u{1F980}\u{1F980}\u{1F980}")]);
    let rend = layout(&doc, 7);
    let texts: Vec<String> = rend.lines.iter().map(line_text).collect();
    assert_eq!(
        texts,
        vec!["\u{1F980}\u{1F980}".to_string(), "\u{1F980}".to_string(), String::new()]
    );
}
