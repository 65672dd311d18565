use vstd::prelude::*;

verus! {

/// A parsed document node, as the external parser hands it to the core.
/// The core reads only the tag name, the `href`/`alt` attributes, the
/// hidden flag (a `hidden` attribute or `aria-hidden="true"`), and the
/// children; everything else about a parsed element is irrelevant to layout.
pub enum DomNode {
    Text(String),
    Element {
        tag: String,
        href: Option<String>,
        alt: Option<String>,
        hidden: bool,
        children: Vec<DomNode>,
    },
}

} // verus!
