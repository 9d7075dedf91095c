//! A parsed HTML page and the queries the extraction runs on it: find the
//! elements that match a CSS selector, in the whole page or under one
//! element, and read an element's attribute, text, markup length or class.
//!
//! Parsing and selector matching are the `tl` crate's. What each query returns
//! is a function of the page's text and the query alone, so each gets a name
//! below; elements are identified by their index in the parsed page.
use vstd::prelude::*;
use vstd::string::*;

use crate::error::Error;

verus! {

/// `tl`'s parsed document, borrowed from the page text.
#[verifier::external_type_specification]
#[verifier::external_body]
pub struct ExVDom<'a>(tl::VDom<'a>);

/// `tl`'s parse error: the page was longer than `u32::MAX` bytes.
#[verifier::external_type_specification]
#[verifier::external_body]
pub struct ExParseError(tl::ParseError);

/// The elements of the page `html` that match `selector`, in document order.
pub uninterp spec fn select_all(html: Seq<char>, selector: Seq<char>) -> Seq<u32>;

/// The elements under element `node` of the page that match `selector`.
pub uninterp spec fn select_within(html: Seq<char>, node: u32, selector: Seq<char>) -> Seq<u32>;

/// The value of attribute `name` of element `node`, where it has one.
pub uninterp spec fn attribute_of(html: Seq<char>, node: u32, name: Seq<char>) -> Option<Seq<char>>;

/// The text of element `node` without its markup.
pub uninterp spec fn inner_text_of(html: Seq<char>, node: u32) -> Seq<char>;

/// The length in bytes of the markup inside element `node`.
pub uninterp spec fn inner_html_len_of(html: Seq<char>, node: u32) -> nat;

/// Whether element `node` has the class `class`.
pub uninterp spec fn has_class_of(html: Seq<char>, node: u32, class: Seq<char>) -> bool;

/// A parsed page, which remembers the text it was parsed from.
pub struct Page<'a> {
    dom: tl::VDom<'a>,
    text: Ghost<Seq<char>>,
}

impl<'a> View for Page<'a> {
    type V = Seq<char>;

    closed spec fn view(&self) -> Seq<char> {
        self.text@
    }
}

/// Relies on `tl::parse`, which fails only on input longer than `u32::MAX`
/// bytes.
#[verifier::external_body]
fn parse_dom<'a>(html: &'a str) -> (r: Result<tl::VDom<'a>, tl::ParseError>)
    ensures
        r is Err <==> html.spec_bytes().len() > u32::MAX,
{
    tl::parse(html, tl::ParserOptions::new())
}

/// Relies on `tl::VDom::query_selector`: the handles of the matching elements.
#[verifier::external_body]
fn query_page(page: &Page, selector: &str) -> (r: Vec<u32>)
    ensures
        r@ == select_all(page@, selector@),
{
    match page.dom.query_selector(selector) {
        Some(it) => it.map(|h| h.get_inner()).collect(),
        None => Vec::new(),
    }
}

/// Relies on `tl::HTMLTag::query_selector`: the handles of the matching
/// elements under `node`.
#[verifier::external_body]
fn query_node(page: &Page, node: u32, selector: &str) -> (r: Vec<u32>)
    ensures
        r@ == select_within(page@, node, selector@),
{
    let parser = page.dom.parser();
    let found = match tl::NodeHandle::new(node).get(parser) {
        Some(tl::Node::Tag(t)) => t.query_selector(parser, selector),
        _ => None,
    };
    match found {
        Some(it) => it.map(|h| h.get_inner()).collect(),
        None => Vec::new(),
    }
}

/// Relies on `tl::Attributes::get`: an attribute's value, read as UTF-8.
#[verifier::external_body]
fn read_attribute(page: &Page, node: u32, name: &str) -> (r: Option<String>)
    ensures
        r matches Some(v) ==> attribute_of(page@, node, name@) == Some(v@),
        r is None ==> attribute_of(page@, node, name@) is None,
{
    let value = match tl::NodeHandle::new(node).get(page.dom.parser()) {
        Some(tl::Node::Tag(t)) => t.attributes().get(name).flatten(),
        _ => None,
    };
    match value {
        Some(b) => Some(b.as_utf8_str().into_owned()),
        None => None,
    }
}

/// Relies on `tl::HTMLTag::inner_text`: an element's text without markup.
#[verifier::external_body]
fn read_inner_text(page: &Page, node: u32) -> (r: String)
    ensures
        r@ == inner_text_of(page@, node),
{
    let parser = page.dom.parser();
    match tl::NodeHandle::new(node).get(parser) {
        Some(tl::Node::Tag(t)) => t.inner_text(parser).into_owned(),
        _ => String::new(),
    }
}

/// Relies on `tl::HTMLTag::inner_html`: the length in bytes of an element's
/// inner markup.
#[verifier::external_body]
fn read_inner_html_len(page: &Page, node: u32) -> (r: usize)
    ensures
        r == inner_html_len_of(page@, node),
{
    let parser = page.dom.parser();
    match tl::NodeHandle::new(node).get(parser) {
        Some(tl::Node::Tag(t)) => t.inner_html(parser).len(),
        _ => 0,
    }
}

/// Relies on `tl::Attributes::is_class_member`: whether an element has a class.
#[verifier::external_body]
fn read_has_class(page: &Page, node: u32, class: &str) -> (r: bool)
    ensures
        r == has_class_of(page@, node, class@),
{
    match tl::NodeHandle::new(node).get(page.dom.parser()) {
        Some(tl::Node::Tag(t)) => t.attributes().is_class_member(class),
        _ => false,
    }
}

impl<'a> Page<'a> {
    /// Parses `html`; only a page over `u32::MAX` bytes is refused.
    pub fn parse(html: &'a str) -> (r: Result<Page<'a>, Error>)
        ensures
            r matches Ok(p) ==> p@ == html@,
            r matches Err(e) ==> e == Error::Html && html.spec_bytes().len() > u32::MAX,
            r is Err <==> html.spec_bytes().len() > u32::MAX,
    {
        match parse_dom(html) {
            Ok(dom) => Ok(Page { dom, text: Ghost(html@) }),
            Err(_) => Err(Error::Html),
        }
    }
}

/// The first element of a list, if any.
pub open spec fn first_of(s: Seq<u32>) -> Option<u32> {
    if s.len() > 0 {
        Some(s[0])
    } else {
        None
    }
}

/// The first element of the page that matches `selector`.
pub open spec fn find_spec(html: Seq<char>, selector: Seq<char>) -> Option<u32> {
    first_of(select_all(html, selector))
}

/// The first element under `node` that matches `selector`.
pub open spec fn find2_spec(html: Seq<char>, node: u32, selector: Seq<char>) -> Option<u32> {
    first_of(select_within(html, node, selector))
}

/// An attribute of an element that may be missing.
pub open spec fn attr_of_opt(html: Seq<char>, node: Option<u32>, name: Seq<char>) -> Option<Seq<char>> {
    match node {
        Some(n) => attribute_of(html, n, name),
        None => None,
    }
}

/// The text of an element that may be missing.
pub open spec fn text_of_opt(html: Seq<char>, node: Option<u32>) -> Option<Seq<char>> {
    match node {
        Some(n) => Some(inner_text_of(html, n)),
        None => None,
    }
}

/// Every element of the page that matches `selector`.
pub fn find_all(page: &Page, selector: &str) -> (r: Vec<u32>)
    ensures
        r@ == select_all(page@, selector@),
{
    query_page(page, selector)
}

/// Every element under `node` that matches `selector`.
pub fn find_all2(page: &Page, node: u32, selector: &str) -> (r: Vec<u32>)
    ensures
        r@ == select_within(page@, node, selector@),
{
    query_node(page, node, selector)
}

/// The first element of the page that matches `selector`.
pub fn find(page: &Page, selector: &str) -> (r: Option<u32>)
    ensures
        r == find_spec(page@, selector@),
{
    let all = query_page(page, selector);
    if all.len() > 0 {
        Some(all[0])
    } else {
        None
    }
}

/// The first element under `node` that matches `selector`.
pub fn find2(page: &Page, node: u32, selector: &str) -> (r: Option<u32>)
    ensures
        r == find2_spec(page@, node, selector@),
{
    let all = query_node(page, node, selector);
    if all.len() > 0 {
        Some(all[0])
    } else {
        None
    }
}

/// The value of attribute `name` of element `node`.
pub fn attr(page: &Page, node: u32, name: &str) -> (r: Option<String>)
    ensures
        r matches Some(v) ==> attribute_of(page@, node, name@) == Some(v@),
        r is None ==> attribute_of(page@, node, name@) is None,
{
    read_attribute(page, node, name)
}

/// The text of element `node`.
pub fn inner_text(page: &Page, node: u32) -> (r: String)
    ensures
        r@ == inner_text_of(page@, node),
{
    read_inner_text(page, node)
}

/// The length in bytes of the markup inside element `node`.
pub fn inner_html_len(page: &Page, node: u32) -> (r: usize)
    ensures
        r == inner_html_len_of(page@, node),
{
    read_inner_html_len(page, node)
}

/// Whether element `node` has the class `class`.
pub fn has_class(page: &Page, node: u32, class: &str) -> (r: bool)
    ensures
        r == has_class_of(page@, node, class@),
{
    read_has_class(page, node, class)
}

/// The text of the first element of the page that matches `selector`.
pub fn find_inner_text(page: &Page, selector: &str) -> (r: Option<String>)
    ensures
        r matches Some(t) ==> text_of_opt(page@, find_spec(page@, selector@)) == Some(t@),
        r is None ==> find_spec(page@, selector@) is None,
{
    match find(page, selector) {
        Some(n) => Some(read_inner_text(page, n)),
        None => None,
    }
}

/// The text of the first element under `node` that matches `selector`.
pub fn find_inner_text2(page: &Page, node: u32, selector: &str) -> (r: Option<String>)
    ensures
        r matches Some(t) ==> text_of_opt(page@, find2_spec(page@, node, selector@)) == Some(t@),
        r is None ==> find2_spec(page@, node, selector@) is None,
{
    match find2(page, node, selector) {
        Some(n) => Some(read_inner_text(page, n)),
        None => None,
    }
}

/// Attribute `name` of the first element of the page that matches `selector`.
pub fn find_attr(page: &Page, selector: &str, name: &str) -> (r: Option<String>)
    ensures
        r matches Some(v) ==> attr_of_opt(page@, find_spec(page@, selector@), name@) == Some(v@),
        r is None ==> attr_of_opt(page@, find_spec(page@, selector@), name@) is None,
{
    match find(page, selector) {
        Some(n) => read_attribute(page, n, name),
        None => None,
    }
}

/// Attribute `name` of the first element under `node` that matches `selector`.
pub fn find_attr2(page: &Page, node: u32, selector: &str, name: &str) -> (r: Option<String>)
    ensures
        r matches Some(v) ==> attr_of_opt(page@, find2_spec(page@, node, selector@), name@)
            == Some(v@),
        r is None ==> attr_of_opt(page@, find2_spec(page@, node, selector@), name@) is None,
{
    match find2(page, node, selector) {
        Some(n) => read_attribute(page, n, name),
        None => None,
    }
}

} // verus!
