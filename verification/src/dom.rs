//! Reading a page from its markup.
//!
//! The markup is read by the `tl` crate. What `tl` finds is not proved here:
//! each of its answers has a name, a function of the text of the document
//! and of the node asked about, and `page_of` says how the page is put
//! together from those answers. The loops that put it together are verified.

use crate::error::{CourseError, Failure};
use crate::page::{
    page_outcome, parse_page, ChildModel, DefinitionList, ListChild, ListModel, Page, PageModel,
    Panel, PanelModel,
};
use crate::page::{children_view, lists_view, panels_view};
use crate::record::Course;
use vstd::prelude::*;

verus! {

/// A document that `tl` has read.
#[verifier::external_type_specification]
#[verifier::external_body]
pub struct ExVDom<'a>(tl::VDom<'a>);

/// The reason why `tl` did not read a document.
#[verifier::external_type_specification]
#[verifier::external_body]
pub struct ExParseError(tl::ParseError);

/// The text that `dom` was read from. Documents are read by `read_document`
/// only, with the default options of `tl`; the names below speak of such
/// documents.
pub uninterp spec fn source_of(dom: tl::VDom<'_>) -> Seq<char>;

/// The first node of the document `html` whose `id` attribute is `id`.
pub uninterp spec fn element_with_id(html: Seq<char>, id: Seq<char>) -> Option<u32>;

/// The nodes of the document `html` whose `class` attribute names `class`.
pub uninterp spec fn elements_of_class(html: Seq<char>, class: Seq<char>) -> Seq<u32>;

/// The nodes below the element `node` of the document `html` that the
/// selector `selector` matches; `None` if `node` is no element of the
/// document or `selector` is no selector.
pub uninterp spec fn matches_under(html: Seq<char>, node: u32, selector: Seq<char>) -> Option<
    Seq<u32>,
>;

/// The direct children of the element `node` of the document `html`; `None`
/// if `node` is no element of the document.
pub uninterp spec fn children_of(html: Seq<char>, node: u32) -> Option<Seq<u32>>;

/// The tag name of the node `node` of the document `html`: `None` if the
/// document has no such node, `Some(None)` if the node is no element.
pub uninterp spec fn tag_name_of(html: Seq<char>, node: u32) -> Option<Option<Seq<char>>>;

/// The rendered text of the node `node` of the document `html`; `None` if
/// the document has no such node.
pub uninterp spec fn inner_text_of(html: Seq<char>, node: u32) -> Option<Seq<char>>;

/// Calls `tl::parse` with the default options. As the source of `tl` shows,
/// it fails exactly when the text is longer than `u32::MAX` bytes; the
/// document that it returns is the one read from `html`.
#[verifier::external_body]
fn read_document(html: &str) -> (r: Result<tl::VDom<'_>, tl::ParseError>)
    ensures
        r is Ok <==> html.len() <= u32::MAX,
        r matches Ok(dom) ==> source_of(dom) == html@,
{
    tl::parse(html, tl::ParserOptions::default())
}

/// Calls `VDom::get_element_by_id`. The contract only names the result.
#[verifier::external_body]
fn find_by_id<'a>(dom: &tl::VDom<'a>, id: &'a str) -> (found: Option<u32>)
    ensures
        found == element_with_id(source_of(*dom), id@),
{
    dom.get_element_by_id(id).map(|h| h.get_inner())
}

/// Calls `VDom::get_elements_by_class_name`. The contract only names the
/// result, in the order in which `tl` yields it.
#[verifier::external_body]
fn find_by_class(dom: &tl::VDom<'_>, class: &str) -> (found: Vec<u32>)
    ensures
        found@ == elements_of_class(source_of(*dom), class@),
{
    dom.get_elements_by_class_name(class).map(|h| h.get_inner()).collect()
}

/// Resolves `node` with `NodeHandle::get` and `Node::as_tag`, then calls
/// `HTMLTag::query_selector`. The contract only names the result, in the
/// order in which `tl` yields it.
#[verifier::external_body]
fn select_under(dom: &tl::VDom<'_>, node: u32, selector: &str) -> (found: Option<Vec<u32>>)
    ensures
        match found {
            Some(nodes) => matches_under(source_of(*dom), node, selector@) == Some(nodes@),
            None => matches_under(source_of(*dom), node, selector@) is None,
        },
{
    let tag = tl::NodeHandle::new(node).get(dom.parser())?.as_tag()?;
    Some(tag.query_selector(dom.parser(), selector)?.map(|h| h.get_inner()).collect())
}

/// Resolves `node` with `NodeHandle::get` and `Node::as_tag`, then calls
/// `HTMLTag::children` and `Children::top`. The contract only names the
/// result.
#[verifier::external_body]
fn child_nodes(dom: &tl::VDom<'_>, node: u32) -> (found: Option<Vec<u32>>)
    ensures
        match found {
            Some(nodes) => children_of(source_of(*dom), node) == Some(nodes@),
            None => children_of(source_of(*dom), node) is None,
        },
{
    let tag = tl::NodeHandle::new(node).get(dom.parser())?.as_tag()?;
    Some(tag.children().top().iter().map(|h| h.get_inner()).collect())
}

/// Resolves `node` with `NodeHandle::get`, then calls `Node::as_tag` and
/// `HTMLTag::name`. The contract only names the result.
#[verifier::external_body]
fn tag_name(dom: &tl::VDom<'_>, node: u32) -> (found: Option<Option<String>>)
    ensures
        match found {
            Some(Some(name)) => tag_name_of(source_of(*dom), node) == Some(Some(name@)),
            Some(None) => tag_name_of(source_of(*dom), node) == Some(None::<Seq<char>>),
            None => tag_name_of(source_of(*dom), node) is None,
        },
{
    let node = tl::NodeHandle::new(node).get(dom.parser())?;
    Some(node.as_tag().map(|t| t.name().as_utf8_str().into_owned()))
}

/// Resolves `node` with `NodeHandle::get`, then calls `Node::inner_text`.
/// The contract only names the result.
#[verifier::external_body]
fn inner_text(dom: &tl::VDom<'_>, node: u32) -> (found: Option<String>)
    ensures
        match found {
            Some(text) => inner_text_of(source_of(*dom), node) == Some(text@),
            None => inner_text_of(source_of(*dom), node) is None,
        },
{
    let node = tl::NodeHandle::new(node).get(dom.parser())?;
    Some(node.inner_text(dom.parser()).into_owned())
}

// -------------------------------------------------------------- the page

/// The child of a definition list that the node `node` is.
pub open spec fn child_of(html: Seq<char>, node: u32) -> ChildModel {
    match tag_name_of(html, node) {
        None => ChildModel::Missing,
        Some(None) => ChildModel::Filler,
        Some(Some(name)) => match inner_text_of(html, node) {
            None => ChildModel::Missing,
            Some(text) => ChildModel::Element { name, text },
        },
    }
}

/// The definition list that the node `node` is.
pub open spec fn list_of(html: Seq<char>, node: u32) -> ListModel {
    match children_of(html, node) {
        None => ListModel::Unreadable,
        Some(nodes) => ListModel::Children(nodes.map_values(|n: u32| child_of(html, n))),
    }
}

/// The panel body that the node `node` is: the lists are the nodes below it
/// that the selector `dl` matches.
pub open spec fn panel_of(html: Seq<char>, node: u32) -> PanelModel {
    match matches_under(html, node, "dl"@) {
        None => PanelModel::Unreadable,
        Some(nodes) => PanelModel::Lists(nodes.map_values(|n: u32| list_of(html, n))),
    }
}

/// The page that the document `html` is: the content region is the node
/// with the id `content`, the panel bodies are the nodes of the class
/// `panel-body`.
pub open spec fn page_of(html: Seq<char>) -> PageModel {
    PageModel {
        has_content: element_with_id(html, "content"@) is Some,
        panels: elements_of_class(html, "panel-body"@).map_values(|n: u32| panel_of(html, n)),
    }
}

fn read_child(dom: &tl::VDom<'_>, node: u32) -> (child: ListChild)
    ensures
        child@ == child_of(source_of(*dom), node),
{
    match tag_name(dom, node) {
        None => ListChild::Missing,
        Some(None) => ListChild::Filler,
        Some(Some(name)) => match inner_text(dom, node) {
            None => ListChild::Missing,
            Some(text) => ListChild::Element { name, text },
        },
    }
}

fn read_list(dom: &tl::VDom<'_>, node: u32) -> (list: DefinitionList)
    ensures
        list@ == list_of(source_of(*dom), node),
{
    let ghost html = source_of(*dom);
    match child_nodes(dom, node) {
        None => DefinitionList::Unreadable,
        Some(nodes) => {
            let mut children: Vec<ListChild> = Vec::new();
            let mut i: usize = 0;
            while i < nodes.len()
                invariant
                    i <= nodes.len(),
                    html == source_of(*dom),
                    children.len() == i,
                    forall|k: int| 0 <= k < i ==> (#[trigger] children@[k])@ == child_of(html, nodes@[k]),
                decreases nodes.len() - i,
            {
                children.push(read_child(dom, nodes[i]));
                i = i + 1;
            }
            assert(children_view(children@) == nodes@.map_values(|n: u32| child_of(html, n)));
            DefinitionList::Children(children)
        },
    }
}

fn read_panel(dom: &tl::VDom<'_>, node: u32) -> (panel: Panel)
    ensures
        panel@ == panel_of(source_of(*dom), node),
{
    let ghost html = source_of(*dom);
    match select_under(dom, node, "dl") {
        None => Panel::Unreadable,
        Some(nodes) => {
            let mut lists: Vec<DefinitionList> = Vec::new();
            let mut i: usize = 0;
            while i < nodes.len()
                invariant
                    i <= nodes.len(),
                    html == source_of(*dom),
                    lists.len() == i,
                    forall|k: int| 0 <= k < i ==> (#[trigger] lists@[k])@ == list_of(html, nodes@[k]),
                decreases nodes.len() - i,
            {
                lists.push(read_list(dom, nodes[i]));
                i = i + 1;
            }
            assert(lists_view(lists@) == nodes@.map_values(|n: u32| list_of(html, n)));
            Panel::Lists(lists)
        },
    }
}

/// Reads the page that the document `html` is. Fails only on a document of
/// more than `u32::MAX` bytes.
pub fn read_page(html: &str) -> (r: Result<Page, CourseError>)
    ensures
        match r {
            Ok(page) => html.len() <= u32::MAX && page@ == page_of(html@),
            Err(e) => html.len() > u32::MAX && e@ == Failure::DocumentTooLarge,
        },
{
    let dom = match read_document(html) {
        Ok(dom) => dom,
        Err(_) => return Err(CourseError::DocumentTooLarge),
    };
    let has_content = find_by_id(&dom, "content").is_some();
    let nodes = find_by_class(&dom, "panel-body");
    let mut panels: Vec<Panel> = Vec::new();
    let mut i: usize = 0;
    while i < nodes.len()
        invariant
            i <= nodes.len(),
            source_of(dom) == html@,
            panels.len() == i,
            forall|k: int| 0 <= k < i ==> (#[trigger] panels@[k])@ == panel_of(html@, nodes@[k]),
        decreases nodes.len() - i,
    {
        panels.push(read_panel(&dom, nodes[i]));
        i = i + 1;
    }
    assert(panels_view(panels@) == nodes@.map_values(|n: u32| panel_of(html@, n)));
    Ok(Page { has_content, panels })
}

/// What `parse_course` makes of the document `html`.
pub open spec fn course_outcome(html: &str) -> Result<crate::record::Record, Failure> {
    if html.len() <= u32::MAX {
        page_outcome(page_of(html@))
    } else {
        Err(Failure::DocumentTooLarge)
    }
}

/// Reads the course that the page `html` describes.
///
/// The page must have a content region, and one of its panel bodies must
/// hold exactly one definition list; the labels and values of that list
/// must pair up, every value must fit the grammar of its field, and all
/// eight fields must be named. The first of these that fails is returned.
pub fn parse_course(html: &str) -> (r: Result<Course, CourseError>)
    ensures
        crate::error::viewed(r) == course_outcome(html),
        r matches Ok(course) ==> course@.wf(),
{
    match read_page(html) {
        Ok(page) => parse_page(&page),
        Err(e) => Err(e),
    }
}

} // verus!
