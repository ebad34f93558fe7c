use course_parser::error::{CourseError, Field};
use course_parser::fields::{Block, Capacity, Degree, Duration, Language, Schedule};
use course_parser::record::{
    coerce_course_info, field_of_label, parse_field, parse_id, FieldValue,
};

fn pairs(items: &[(&str, &str)]) -> Vec<(String, String)> {
    items.iter().map(|(k, v)| (k.to_string(), v.to_string())).collect()
}

fn danish() -> Vec<(&'static str, &'static str)> {
    vec![
        ("Sprog", "Dansk"),
        ("Kursuskode", "NDAB15009U"),
        ("Point", "7.5 ECTS"),
        ("Niveau", "Bachelor"),
        ("Varighed", "1 blok"),
        ("Placering", "Blok 1 og 2"),
        ("Skemagruppe", "A+B"),
        ("Kursuskapacitet", "Ingen begrænsning"),
    ]
}

fn english() -> Vec<(&'static str, &'static str)> {
    vec![
        ("Language", "English"),
        ("Course code", "NDAK22000U"),
        ("Credit", "15 ECTS"),
        ("Level", "Master"),
        ("Duration", "1 semester"),
        ("Placement", "Block 3"),
        ("Schedule", "C"),
        ("Course capacity", "75"),
    ]
}

#[test]
fn coerce_danish_labels() {
    let info = coerce_course_info(pairs(&danish())).unwrap();
    assert_eq!(info.id, "NDAB15009U");
    assert_eq!(info.ects.numeral, "7.5");
    assert_eq!(info.block, vec![Block::One, Block::Two]);
    assert_eq!(info.schedule, vec![Schedule::A, Schedule::B]);
    assert_eq!(info.language, Language::Danish);
    assert_eq!(info.duration, Duration::OneUnit);
    assert_eq!(info.degree, vec![Degree::Bachelor]);
    assert_eq!(info.capacity, Capacity::Text("ubegrænset".to_string()));
}

#[test]
fn coerce_english_labels() {
    let info = coerce_course_info(pairs(&english())).unwrap();
    assert_eq!(info.id, "NDAK22000U");
    assert_eq!(info.ects.numeral, "15");
    assert_eq!(info.block, vec![Block::Three]);
    assert_eq!(info.schedule, vec![Schedule::C]);
    assert_eq!(info.language, Language::English);
    assert_eq!(info.duration, Duration::TwoUnits);
    assert_eq!(info.degree, vec![Degree::Master]);
    assert_eq!(info.capacity, Capacity::Number(75));
}

#[test]
fn coerce_does_not_depend_on_the_order_of_the_pairs() {
    let mut reversed = danish();
    reversed.reverse();
    assert_eq!(
        coerce_course_info(pairs(&reversed)),
        coerce_course_info(pairs(&danish()))
    );
}

#[test]
fn coerce_ignores_unknown_labels() {
    let mut items = english();
    items.insert(3, ("Department", "Computer Science"));
    items.push(("Kursusansvarlig", "N.N."));
    assert_eq!(
        coerce_course_info(pairs(&items)),
        coerce_course_info(pairs(&english()))
    );
}

#[test]
fn coerce_later_value_replaces_earlier() {
    let mut items = english();
    items.push(("Sprog", "Dansk"));
    items.push(("Placering", "Blok 5"));
    let info = coerce_course_info(pairs(&items)).unwrap();
    assert_eq!(info.language, Language::Danish);
    assert_eq!(info.block, vec![Block::Five]);
}

#[test]
fn coerce_missing_capacity() {
    let mut items = danish();
    items.retain(|(label, _)| *label != "Kursuskapacitet");
    assert_eq!(
        coerce_course_info(pairs(&items)),
        Err(CourseError::MissingField(Field::Capacity))
    );
}

#[test]
fn coerce_names_each_missing_field() {
    let labels = [
        ("Kursuskode", Field::Id),
        ("Point", Field::Ects),
        ("Placering", Field::Block),
        ("Skemagruppe", Field::Schedule),
        ("Sprog", Field::Language),
        ("Varighed", Field::Duration),
        ("Niveau", Field::Degree),
        ("Kursuskapacitet", Field::Capacity),
    ];
    for (label, field) in labels {
        let mut items = danish();
        items.retain(|(l, _)| *l != label);
        assert_eq!(
            coerce_course_info(pairs(&items)),
            Err(CourseError::MissingField(field))
        );
    }
}

#[test]
fn coerce_reports_the_first_missing_field_in_record_order() {
    assert_eq!(
        coerce_course_info(Vec::new()),
        Err(CourseError::MissingField(Field::Id))
    );
    let items = [("Kursuskode", "X"), ("Sprog", "Dansk")];
    assert_eq!(
        coerce_course_info(pairs(&items)),
        Err(CourseError::MissingField(Field::Ects))
    );
}

#[test]
fn coerce_fails_on_a_value_that_does_not_fit() {
    let mut items = danish();
    items[0] = ("Sprog", "Svensk");
    assert_eq!(
        coerce_course_info(pairs(&items)),
        Err(CourseError::FieldParse { field: Field::Language, text: "Svensk".to_string() })
    );
}

#[test]
fn coerce_fails_on_phd_level() {
    let mut items = danish();
    items[3] = ("Niveau", "Ph.d.");
    assert_eq!(
        coerce_course_info(pairs(&items)),
        Err(CourseError::FieldParse { field: Field::Degree, text: "Ph.d.".to_string() })
    );
}

#[test]
fn coerce_reads_blocks_before_everything_else() {
    let items = [("Sprog", "Svensk"), ("Placering", "N/A")];
    assert_eq!(
        coerce_course_info(pairs(&items)),
        Err(CourseError::FieldParse { field: Field::Block, text: "N/A".to_string() })
    );
}

#[test]
fn coerce_fails_even_if_a_later_value_fits() {
    let items = [("Sprog", "Svensk"), ("Sprog", "Dansk")];
    assert_eq!(
        coerce_course_info(pairs(&items)),
        Err(CourseError::FieldParse { field: Field::Language, text: "Svensk".to_string() })
    );
}

#[test]
fn coerce_block_label_goes_by_its_first_five_characters() {
    let mut items = danish();
    items[5] = ("Place", "4");
    assert_eq!(coerce_course_info(pairs(&items)).unwrap().block, vec![Block::Four]);
    items[5] = ("Plac", "4");
    assert_eq!(
        coerce_course_info(pairs(&items)),
        Err(CourseError::MissingField(Field::Block))
    );
}

#[test]
fn coerce_rejects_an_empty_course_code() {
    let mut items = danish();
    items[1] = ("Kursuskode", "");
    assert_eq!(
        coerce_course_info(pairs(&items)),
        Err(CourseError::FieldParse { field: Field::Id, text: String::new() })
    );
}

#[test]
fn id_is_kept_as_it_stands() {
    assert_eq!(parse_id(" NDAB15009U\n"), Ok(" NDAB15009U\n".to_string()));
}

#[test]
fn label_table() {
    assert_eq!(field_of_label("Sprog"), Some(Field::Language));
    assert_eq!(field_of_label("Language"), Some(Field::Language));
    assert_eq!(field_of_label("Kursuskode"), Some(Field::Id));
    assert_eq!(field_of_label("Course code"), Some(Field::Id));
    assert_eq!(field_of_label("Point"), Some(Field::Ects));
    assert_eq!(field_of_label("Credit"), Some(Field::Ects));
    assert_eq!(field_of_label("Niveau"), Some(Field::Degree));
    assert_eq!(field_of_label("Level"), Some(Field::Degree));
    assert_eq!(field_of_label("Varighed"), Some(Field::Duration));
    assert_eq!(field_of_label("Duration"), Some(Field::Duration));
    assert_eq!(field_of_label("Skemagruppe"), Some(Field::Schedule));
    assert_eq!(field_of_label("Schedule"), Some(Field::Schedule));
    assert_eq!(field_of_label("Kursuskapacitet"), Some(Field::Capacity));
    assert_eq!(field_of_label("Course capacity"), Some(Field::Capacity));
    assert_eq!(field_of_label("Placering"), None);
    assert_eq!(field_of_label("language"), None);
    assert_eq!(field_of_label(""), None);
}

#[test]
fn parse_field_uses_the_grammar_of_the_field() {
    assert_eq!(parse_field(Field::Block, "2"), Ok(FieldValue::Block(vec![Block::Two])));
    assert_eq!(parse_field(Field::Capacity, "2"), Ok(FieldValue::Capacity(Capacity::Number(2))));
    assert_eq!(
        parse_field(Field::Schedule, "2"),
        Err(CourseError::FieldParse { field: Field::Schedule, text: "2".to_string() })
    );
}
