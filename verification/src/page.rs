//! A course page as plain data, and the way from the page to the record.
//!
//! A page is what the reader of the markup found: whether there is a content
//! region, the panel bodies in document order, the definition lists under
//! each, and the children of each list. Locating the list, pairing its
//! labels with its values and coercing the pairs are decided here, on that
//! data alone.

use crate::error::{viewed, Failure, CourseError, StructuralFault};
use crate::record::{
    coerce_course_info, coerce_outcome, texts, Course, CourseInformation, Record,
};
use crate::text::{chars_of, is_word};
use vstd::prelude::*;

verus! {

/// One child of a definition list.
#[derive(Clone, Debug, PartialEq, Eq)]
pub enum ListChild {
    /// Text or a comment between the elements.
    Filler,
    /// A child that the document names but does not hold.
    Missing,
    /// An element, with its tag name and its rendered text.
    Element { name: String, text: String },
}

/// A definition list.
#[derive(Clone, Debug, PartialEq, Eq)]
pub enum DefinitionList {
    /// The list cannot be read as an element.
    Unreadable,
    /// The direct children of the list, in document order.
    Children(Vec<ListChild>),
}

/// A panel body.
#[derive(Clone, Debug, PartialEq, Eq)]
pub enum Panel {
    /// The panel body cannot be read as an element.
    Unreadable,
    /// The definition lists found under the panel body, in document order.
    Lists(Vec<DefinitionList>),
}

/// A page.
#[derive(Clone, Debug, PartialEq, Eq)]
pub struct Page {
    /// Whether the page has a content region.
    pub has_content: bool,
    /// The panel bodies of the page, in document order.
    pub panels: Vec<Panel>,
}

/// The model of a `ListChild`.
pub enum ChildModel {
    Filler,
    Missing,
    Element { name: Seq<char>, text: Seq<char> },
}

/// The model of a `DefinitionList`.
pub enum ListModel {
    Unreadable,
    Children(Seq<ChildModel>),
}

/// The model of a `Panel`.
pub enum PanelModel {
    Unreadable,
    Lists(Seq<ListModel>),
}

/// The model of a `Page`.
pub struct PageModel {
    pub has_content: bool,
    pub panels: Seq<PanelModel>,
}

impl View for ListChild {
    type V = ChildModel;

    open spec fn view(&self) -> ChildModel {
        match *self {
            ListChild::Filler => ChildModel::Filler,
            ListChild::Missing => ChildModel::Missing,
            ListChild::Element { name, text } => ChildModel::Element { name: name@, text: text@ },
        }
    }
}

/// The models of `children`.
pub open spec fn children_view(children: Seq<ListChild>) -> Seq<ChildModel> {
    children.map_values(|c: ListChild| c@)
}

impl View for DefinitionList {
    type V = ListModel;

    open spec fn view(&self) -> ListModel {
        match *self {
            DefinitionList::Unreadable => ListModel::Unreadable,
            DefinitionList::Children(children) => ListModel::Children(children_view(children@)),
        }
    }
}

/// The models of `lists`.
pub open spec fn lists_view(lists: Seq<DefinitionList>) -> Seq<ListModel> {
    lists.map_values(|l: DefinitionList| l@)
}

impl View for Panel {
    type V = PanelModel;

    open spec fn view(&self) -> PanelModel {
        match *self {
            Panel::Unreadable => PanelModel::Unreadable,
            Panel::Lists(lists) => PanelModel::Lists(lists_view(lists@)),
        }
    }
}

/// The models of `panels`.
pub open spec fn panels_view(panels: Seq<Panel>) -> Seq<PanelModel> {
    panels.map_values(|p: Panel| p@)
}

impl View for Page {
    type V = PageModel;

    open spec fn view(&self) -> PageModel {
        PageModel { has_content: self.has_content, panels: panels_view(self.panels@) }
    }
}

// ----------------------------------------------------------------- pairing

/// The state of the walk over the children of a definition list: the pairs
/// made so far, and the label that waits for its value, if one does.
pub struct Pairing {
    pub pairs: Seq<(Seq<char>, Seq<char>)>,
    pub pending: Option<Seq<char>>,
}

/// The state after `child`. Filler changes nothing. A label (`dt`) opens a
/// pair: its text waits, and no label may wait already. A value (`dd`)
/// closes the pair that the waiting label opened, and a label must wait.
/// A label behind a label, a value without a label, any other element and a
/// missing child are failures.
pub open spec fn pairing_step(state: Pairing, child: ChildModel) -> Result<Pairing, Failure> {
    match child {
        ChildModel::Filler => Ok(state),
        ChildModel::Missing => Err(Failure::StructuralError(StructuralFault::UnreadableNode)),
        ChildModel::Element { name, text } => if name == "dt"@ {
            match state.pending {
                None => Ok(Pairing { pairs: state.pairs, pending: Some(text) }),
                Some(_) => Err(Failure::StructuralError(StructuralFault::HalfFormedPair)),
            }
        } else if name == "dd"@ {
            match state.pending {
                Some(label) => Ok(
                    Pairing { pairs: state.pairs.push((label, text)), pending: None },
                ),
                None => Err(Failure::StructuralError(StructuralFault::HalfFormedPair)),
            }
        } else {
            Err(Failure::StructuralError(StructuralFault::UnexpectedChild))
        },
    }
}

/// The state after a walk over `children` in document order, or the failure
/// of the first child that fails.
pub open spec fn pairing_walk(children: Seq<ChildModel>) -> Result<Pairing, Failure>
    decreases children.len(),
{
    if children.len() == 0 {
        Ok(Pairing { pairs: Seq::empty(), pending: None })
    } else {
        match pairing_walk(children.drop_last()) {
            Err(e) => Err(e),
            Ok(state) => pairing_step(state, children.last()),
        }
    }
}

/// The label/value pairs of a definition list with the children `children`:
/// the pairs of the walk, provided that no label is left waiting at its end.
/// The result is `Ok` exactly for lists whose elements, filler aside, are
/// label, value, label, value and so on; the pairs are then those labels
/// with their values, in document order.
pub open spec fn dl_outcome(children: Seq<ChildModel>) -> Result<
    Seq<(Seq<char>, Seq<char>)>,
    Failure,
> {
    match pairing_walk(children) {
        Err(e) => Err(e),
        Ok(state) => if state.pending is None {
            Ok(state.pairs)
        } else {
            Err(Failure::StructuralError(StructuralFault::HalfFormedPair))
        },
    }
}

/// A walk that has failed on the first `n` children fails in the same way
/// on all of them.
pub proof fn lemma_walk_stops(children: Seq<ChildModel>, n: int)
    requires
        0 <= n <= children.len(),
        pairing_walk(children.take(n)) is Err,
    ensures
        pairing_walk(children) == pairing_walk(children.take(n)),
    decreases children.len() - n,
{
    if n < children.len() {
        assert(children.take(n + 1).drop_last() == children.take(n));
        lemma_walk_stops(children, n + 1);
    } else {
        assert(children.take(n) == children);
    }
}

/// The text of the label that waits.
pub open spec fn label_view(pending: Option<String>) -> Option<Seq<char>> {
    match pending {
        Some(label) => Some(label@),
        None => None,
    }
}

/// The model of the result of `parse_dl`.
pub open spec fn pairs_viewed(r: Result<Vec<(String, String)>, CourseError>) -> Result<
    Seq<(Seq<char>, Seq<char>)>,
    Failure,
> {
    match r {
        Ok(pairs) => Ok(texts(pairs@)),
        Err(e) => Err(e@),
    }
}

/// Pairs the labels of a definition list with its values, in document order.
///
/// Text and comments between the elements are passed over. Every label
/// (`dt`) must be followed by its value (`dd`) before the next label; the
/// first child that breaks this, and a label left without a value at the
/// end, is a structural error.
pub fn parse_dl(children: &Vec<ListChild>) -> (r: Result<Vec<(String, String)>, CourseError>)
    ensures
        pairs_viewed(r) == dl_outcome(children_view(children@)),
{
    let ghost all = children_view(children@);
    let mut result: Vec<(String, String)> = Vec::new();
    let mut pending: Option<String> = None;
    let mut i: usize = 0;
    assert(texts(result@) == Seq::<(Seq<char>, Seq<char>)>::empty());
    while i < children.len()
        invariant
            i <= children.len(),
            all == children_view(children@),
            pairing_walk(all.take(i as int)) == Ok::<Pairing, Failure>(
                Pairing { pairs: texts(result@), pending: label_view(pending) },
            ),
        decreases children.len() - i,
    {
        assert(all.take(i + 1).drop_last() == all.take(i as int));
        assert(all.take(i + 1).last() == children@[i as int]@);
        let ghost pairs_before = texts(result@);
        match &children[i] {
            ListChild::Filler => {},
            ListChild::Missing => {
                proof {
                    lemma_walk_stops(all, i + 1);
                }
                return Err(CourseError::StructuralError(StructuralFault::UnreadableNode));
            },
            ListChild::Element { name, text } => {
                let tag = chars_of(name.as_str());
                if is_word(&tag, "dt") {
                    if pending.is_some() {
                        proof {
                            lemma_walk_stops(all, i + 1);
                        }
                        return Err(CourseError::StructuralError(StructuralFault::HalfFormedPair));
                    }
                    pending = Some(text.clone());
                } else if is_word(&tag, "dd") {
                    match pending {
                        Some(label) => {
                            let ghost label_text = label@;
                            result.push((label, text.clone()));
                            pending = None;
                            assert(texts(result@) == pairs_before.push((label_text, text@)));
                        },
                        None => {
                            proof {
                                lemma_walk_stops(all, i + 1);
                            }
                            return Err(
                                CourseError::StructuralError(StructuralFault::HalfFormedPair),
                            );
                        },
                    }
                } else {
                    proof {
                        lemma_walk_stops(all, i + 1);
                    }
                    return Err(CourseError::StructuralError(StructuralFault::UnexpectedChild));
                }
            },
        }
        i = i + 1;
    }
    assert(all.take(children.len() as int) == all);
    if pending.is_none() {
        Ok(result)
    } else {
        Err(CourseError::StructuralError(StructuralFault::HalfFormedPair))
    }
}

// ----------------------------------------------------------------- locating

/// The children of the definition list of the page: those of the one list
/// of the first panel body, from `from` on, that holds exactly one list. A
/// panel body or a list that cannot be read is a failure where the search
/// meets it; so is a page on which the search finds no such panel body.
pub open spec fn locate_from(panels: Seq<PanelModel>, from: int) -> Result<Seq<ChildModel>, Failure>
    decreases panels.len() - from,
{
    if from < 0 || from >= panels.len() {
        Err(Failure::StructuralError(StructuralFault::NoDefinitionList))
    } else {
        match panels[from] {
            PanelModel::Unreadable => Err(
                Failure::StructuralError(StructuralFault::UnreadableNode),
            ),
            PanelModel::Lists(lists) => if lists.len() == 1 {
                match lists[0] {
                    ListModel::Unreadable => Err(
                        Failure::StructuralError(StructuralFault::UnreadableNode),
                    ),
                    ListModel::Children(children) => Ok(children),
                }
            } else {
                locate_from(panels, from + 1)
            },
        }
    }
}

/// The record of the panel bodies `panels`: locate the definition list,
/// pair its children, coerce the pairs.
pub open spec fn info_outcome(panels: Seq<PanelModel>) -> Result<Record, Failure> {
    match locate_from(panels, 0) {
        Err(e) => Err(e),
        Ok(children) => match dl_outcome(children) {
            Err(e) => Err(e),
            Ok(pairs) => coerce_outcome(pairs),
        },
    }
}

/// The record of `page`. A page without a content region is of no known
/// shape, whatever else it holds.
pub open spec fn page_outcome(page: PageModel) -> Result<Record, Failure> {
    if page.has_content {
        info_outcome(page.panels)
    } else {
        Err(Failure::UnrecognizedPageShape)
    }
}

/// Reads the course record from the panel bodies of `page`.
pub fn parse_course_info(page: &Page) -> (r: Result<CourseInformation, CourseError>)
    ensures
        viewed(r) == info_outcome(page@.panels),
        r matches Ok(info) ==> info@.wf(),
{
    let ghost panels = page@.panels;
    let mut i: usize = 0;
    while i < page.panels.len()
        invariant
            i <= page.panels.len(),
            panels == panels_view(page.panels@),
            locate_from(panels, 0) == locate_from(panels, i as int),
        decreases page.panels.len() - i,
    {
        assert(panels[i as int] == page.panels@[i as int]@);
        match &page.panels[i] {
            Panel::Unreadable => {
                return Err(CourseError::StructuralError(StructuralFault::UnreadableNode));
            },
            Panel::Lists(lists) => {
                if lists.len() == 1 {
                    assert(lists_view(lists@)[0] == lists@[0]@);
                    match &lists[0] {
                        DefinitionList::Unreadable => {
                            return Err(
                                CourseError::StructuralError(StructuralFault::UnreadableNode),
                            );
                        },
                        DefinitionList::Children(children) => {
                            let course_infos = match parse_dl(children) {
                                Ok(pairs) => pairs,
                                Err(e) => return Err(e),
                            };
                            return coerce_course_info(course_infos);
                        },
                    }
                }
            },
        }
        i = i + 1;
    }
    Err(CourseError::StructuralError(StructuralFault::NoDefinitionList))
}

/// Reads the course from `page`.
pub fn parse_page(page: &Page) -> (r: Result<Course, CourseError>)
    ensures
        viewed(r) == page_outcome(page@),
        r matches Ok(course) ==> course@.wf(),
{
    if !page.has_content {
        return Err(CourseError::UnrecognizedPageShape);
    }
    match parse_course_info(page) {
        Ok(info) => Ok(Course::new(info)),
        Err(e) => Err(e),
    }
}

} // verus!
