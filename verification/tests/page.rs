use course_parser::error::{CourseError, Field, StructuralFault};
use course_parser::fields::Language;
use course_parser::page::{
    parse_course_info, parse_dl, parse_page, DefinitionList, ListChild, Page, Panel,
};

fn element(name: &str, text: &str) -> ListChild {
    ListChild::Element { name: name.to_string(), text: text.to_string() }
}

fn course_list() -> Vec<ListChild> {
    let mut children = Vec::new();
    for (label, value) in [
        ("Language", "English"),
        ("Course code", "NDAK22000U"),
        ("Credit", "15 ECTS"),
        ("Level", "Master"),
        ("Duration", "1 semester"),
        ("Placement", "Block 3"),
        ("Schedule", "C"),
        ("Course capacity", "75"),
    ] {
        children.push(ListChild::Filler);
        children.push(element("dt", label));
        children.push(ListChild::Filler);
        children.push(element("dd", value));
    }
    children.push(ListChild::Filler);
    children
}

fn structural(fault: StructuralFault) -> CourseError {
    CourseError::StructuralError(fault)
}

#[test]
fn dl_pairs_labels_with_values() {
    let children = vec![
        element("dt", "a"),
        element("dd", "1"),
        ListChild::Filler,
        element("dt", "b"),
        element("dd", "2"),
    ];
    assert_eq!(
        parse_dl(&children),
        Ok(vec![("a".to_string(), "1".to_string()), ("b".to_string(), "2".to_string())])
    );
}

#[test]
fn dl_empty_list_has_no_pairs() {
    assert_eq!(parse_dl(&Vec::new()), Ok(Vec::new()));
    assert_eq!(parse_dl(&vec![ListChild::Filler]), Ok(Vec::new()));
}

#[test]
fn dl_odd_number_of_elements_fails() {
    let one = vec![element("dt", "a")];
    assert_eq!(parse_dl(&one), Err(structural(StructuralFault::HalfFormedPair)));
    let three = vec![element("dt", "a"), element("dd", "1"), element("dt", "b")];
    assert_eq!(parse_dl(&three), Err(structural(StructuralFault::HalfFormedPair)));
    let value_only = vec![element("dd", "1")];
    assert_eq!(parse_dl(&value_only), Err(structural(StructuralFault::HalfFormedPair)));
}

#[test]
fn dl_two_labels_in_a_row_fail() {
    let children =
        vec![element("dt", "a"), element("dt", "b"), element("dd", "1"), element("dd", "2")];
    assert_eq!(parse_dl(&children), Err(structural(StructuralFault::HalfFormedPair)));
}

#[test]
fn dl_value_without_label_fails() {
    let children = vec![element("dd", "1"), element("dd", "2")];
    assert_eq!(parse_dl(&children), Err(structural(StructuralFault::HalfFormedPair)));
    let children =
        vec![element("dt", "a"), element("dd", "1"), element("dd", "2"), element("dt", "b")];
    assert_eq!(parse_dl(&children), Err(structural(StructuralFault::HalfFormedPair)));
    let children =
        vec![element("dd", "1"), element("dt", "a"), element("dd", "2"), element("dt", "b")];
    assert_eq!(parse_dl(&children), Err(structural(StructuralFault::HalfFormedPair)));
}

#[test]
fn dl_label_behind_label_fails_where_it_stands() {
    let children = vec![element("dt", "a"), element("dt", "b"), element("div", "x")];
    assert_eq!(parse_dl(&children), Err(structural(StructuralFault::HalfFormedPair)));
    let children = vec![element("dt", "a"), ListChild::Filler, element("dt", "b")];
    assert_eq!(parse_dl(&children), Err(structural(StructuralFault::HalfFormedPair)));
}

#[test]
fn dl_other_element_fails() {
    let children = vec![element("dt", "a"), element("dd", "1"), element("div", "x")];
    assert_eq!(parse_dl(&children), Err(structural(StructuralFault::UnexpectedChild)));
    let upper = vec![element("DT", "a"), element("dd", "1")];
    assert_eq!(parse_dl(&upper), Err(structural(StructuralFault::UnexpectedChild)));
}

#[test]
fn dl_missing_child_fails() {
    let children = vec![element("dt", "a"), ListChild::Missing, element("dd", "1")];
    assert_eq!(parse_dl(&children), Err(structural(StructuralFault::UnreadableNode)));
}

#[test]
fn dl_first_failing_child_decides() {
    let children = vec![element("p", "a"), ListChild::Missing];
    assert_eq!(parse_dl(&children), Err(structural(StructuralFault::UnexpectedChild)));
}

#[test]
fn page_with_one_list() {
    let page = Page {
        has_content: true,
        panels: vec![Panel::Lists(vec![DefinitionList::Children(course_list())])],
    };
    let course = parse_page(&page).unwrap();
    assert_eq!(course.info().id, "NDAK22000U");
    assert_eq!(course.info().language, Language::English);
    assert_eq!(parse_course_info(&page).as_ref(), Ok(course.info()));
}

#[test]
fn page_without_content_is_of_no_known_shape() {
    let page = Page {
        has_content: false,
        panels: vec![Panel::Lists(vec![DefinitionList::Children(course_list())])],
    };
    assert_eq!(parse_page(&page), Err(CourseError::UnrecognizedPageShape));
    let empty = Page { has_content: false, panels: Vec::new() };
    assert_eq!(parse_page(&empty), Err(CourseError::UnrecognizedPageShape));
}

#[test]
fn page_without_list_fails() {
    let page = Page { has_content: true, panels: Vec::new() };
    assert_eq!(parse_page(&page), Err(structural(StructuralFault::NoDefinitionList)));
    let page = Page { has_content: true, panels: vec![Panel::Lists(Vec::new())] };
    assert_eq!(parse_page(&page), Err(structural(StructuralFault::NoDefinitionList)));
}

#[test]
fn page_skips_panels_without_exactly_one_list() {
    let other = DefinitionList::Children(vec![element("dt", "x"), element("dd", "y")]);
    let page = Page {
        has_content: true,
        panels: vec![
            Panel::Lists(Vec::new()),
            Panel::Lists(vec![other.clone(), other.clone()]),
            Panel::Lists(vec![DefinitionList::Children(course_list())]),
            Panel::Unreadable,
        ],
    };
    assert_eq!(parse_page(&page).unwrap().info().id, "NDAK22000U");
}

#[test]
fn page_first_panel_with_one_list_decides() {
    let other = DefinitionList::Children(vec![element("dt", "x"), element("dd", "y")]);
    let page = Page {
        has_content: true,
        panels: vec![
            Panel::Lists(vec![other]),
            Panel::Lists(vec![DefinitionList::Children(course_list())]),
        ],
    };
    assert_eq!(parse_page(&page), Err(CourseError::MissingField(Field::Id)));
}

#[test]
fn page_unreadable_panel_fails() {
    let page = Page {
        has_content: true,
        panels: vec![
            Panel::Unreadable,
            Panel::Lists(vec![DefinitionList::Children(course_list())]),
        ],
    };
    assert_eq!(parse_page(&page), Err(structural(StructuralFault::UnreadableNode)));
    let page =
        Page { has_content: true, panels: vec![Panel::Lists(vec![DefinitionList::Unreadable])] };
    assert_eq!(parse_page(&page), Err(structural(StructuralFault::UnreadableNode)));
}

#[test]
fn page_with_half_formed_list_fails() {
    let mut children = course_list();
    children.push(element("dt", "Department"));
    let page = Page {
        has_content: true,
        panels: vec![Panel::Lists(vec![DefinitionList::Children(children)])],
    };
    assert_eq!(parse_page(&page), Err(structural(StructuralFault::HalfFormedPair)));
}
