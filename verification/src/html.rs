//! Calls into `kuchiki`: parse an HTML document and read the elements that a
//! CSS selector picks out, as plain values.
use vstd::prelude::*;
use kuchiki::traits::TendrilSink;

verus! {

/// One step down a document: the `index`-th element (counting from 0, in
/// document order) among the current node and its descendants that matches
/// `selector`.
#[derive(Debug)]
pub struct PathStep {
    pub selector: String,
    pub index: usize,
}

impl View for PathStep {
    type V = (Seq<char>, usize);

    open spec fn view(&self) -> (Seq<char>, usize) {
        (self.selector@, self.index)
    }
}

/// The views of the steps of a path.
pub open spec fn path_view(path: Seq<PathStep>) -> Seq<(Seq<char>, usize)> {
    path.map_values(|s: PathStep| s@)
}

/// Parses `html` with kuchiki, walks `path` from the document, and selects with
/// `selector` among the node reached and its descendants: the text contents of
/// each element selected, in document order. `None` when a selector does not
/// compile or a step finds no element.
pub uninterp spec fn html_select_texts(html: Seq<char>, path: Seq<(Seq<char>, usize)>, selector: Seq<char>) -> Option<Seq<Seq<char>>>;

/// As `html_select_texts`, but the value of the attribute named `attr` of each
/// element selected (`None` for an element without one).
pub uninterp spec fn html_select_attrs(html: Seq<char>, path: Seq<(Seq<char>, usize)>, selector: Seq<char>, attr: Seq<char>) -> Option<Seq<Option<Seq<char>>>>;

/// The views of optional strings.
pub open spec fn opt_strings_view(v: Seq<Option<String>>) -> Seq<Option<Seq<char>>> {
    v.map_values(|o: Option<String>| match o { Some(s) => Some(s@), None => None })
}

/// Calls `kuchiki::parse_html().one(html)`, then `select` and `nth` for each step
/// of `path`, then `select(selector)` and `text_contents` on each element. The
/// contract only names the result: it is the same for the same arguments.
#[verifier::external_body]
pub(crate) fn select_texts(html: &str, path: &Vec<PathStep>, selector: &str) -> (res: Option<Vec<String>>)
    ensures
        match res {
            Some(v) => html_select_texts(html@, path_view(path@), selector@) == Some(v@.map_values(|s: String| s@)),
            None => html_select_texts(html@, path_view(path@), selector@) is None,
        },
{
    let mut node = kuchiki::parse_html().one(html);
    for step in path.iter() {
        let found = match node.select(step.selector.as_str()) { Ok(mut m) => m.nth(step.index), Err(()) => return None };
        node = match found { Some(e) => e.as_node().clone(), None => return None };
    }
    let mut out = Vec::new();
    for e in match node.select(selector) { Ok(m) => m, Err(()) => return None } {
        out.push(e.text_contents());
    }
    Some(out)
}

/// Calls `kuchiki::parse_html().one(html)`, then `select` and `nth` for each step
/// of `path`, then `select(selector)` and reads the attribute `attr` of each
/// element. The contract only names the result: it is the same for the same
/// arguments.
#[verifier::external_body]
pub(crate) fn select_attrs(html: &str, path: &Vec<PathStep>, selector: &str, attr: &str) -> (res: Option<Vec<Option<String>>>)
    ensures
        match res {
            Some(v) => html_select_attrs(html@, path_view(path@), selector@, attr@) == Some(opt_strings_view(v@)),
            None => html_select_attrs(html@, path_view(path@), selector@, attr@) is None,
        },
{
    let mut node = kuchiki::parse_html().one(html);
    for step in path.iter() {
        let found = match node.select(step.selector.as_str()) { Ok(mut m) => m.nth(step.index), Err(()) => return None };
        node = match found { Some(e) => e.as_node().clone(), None => return None };
    }
    let mut out = Vec::new();
    for e in match node.select(selector) { Ok(m) => m, Err(()) => return None } {
        out.push(e.attributes.borrow().get(attr).map(|h| h.to_string()));
    }
    Some(out)
}

} // verus!
