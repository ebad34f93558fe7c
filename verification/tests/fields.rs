use course_parser::error::{CourseError, Field};
use course_parser::fields::{
    capacity_from, degrees_in_prefix, parse_block, parse_capacity, parse_degree, parse_duration,
    parse_ects, parse_language, parse_schedule, Block, Capacity, Degree, Duration, Language,
    Schedule,
};

fn rejected(field: Field, text: &str) -> CourseError {
    CourseError::FieldParse { field, text: text.to_string() }
}

#[test]
fn language_english() {
    assert_eq!(parse_language("English"), Ok(Language::English));
}

#[test]
fn language_danish() {
    assert_eq!(parse_language("Dansk"), Ok(Language::Danish));
}

#[test]
fn language_is_exact() {
    assert_eq!(parse_language("english"), Err(rejected(Field::Language, "english")));
    assert_eq!(parse_language("English "), Err(rejected(Field::Language, "English ")));
    assert_eq!(parse_language(""), Err(rejected(Field::Language, "")));
}

#[test]
fn ects_with_fraction() {
    let credits = parse_ects("7.5 ECTS").unwrap();
    assert_eq!(credits.numeral, "7.5");
    assert_eq!(credits.numeral.parse::<f32>().unwrap(), 7.5);
}

#[test]
fn ects_whole() {
    let credits = parse_ects("15 ECTS").unwrap();
    assert_eq!(credits.numeral, "15");
    assert_eq!(credits.numeral.parse::<f32>().unwrap(), 15.0);
}

#[test]
fn ects_without_digits_fails() {
    assert_eq!(parse_ects("ECTS"), Err(rejected(Field::Ects, "ECTS")));
    assert_eq!(parse_ects(""), Err(rejected(Field::Ects, "")));
    assert_eq!(parse_ects(". ECTS"), Err(rejected(Field::Ects, ". ECTS")));
}

#[test]
fn ects_takes_at_most_one_point() {
    assert_eq!(parse_ects("7.5.3").unwrap().numeral, "7.5");
    assert_eq!(parse_ects("7..5").unwrap().numeral, "7.");
    assert_eq!(parse_ects(".5 ECTS").unwrap().numeral, ".5");
    assert_eq!(parse_ects("10.").unwrap().numeral, "10.");
}

#[test]
fn ects_numeral_always_reads_as_a_number() {
    for text in ["7.", ".5", "0", "007.250", "12345678901234567890.5"] {
        let credits = parse_ects(text).unwrap();
        assert!(credits.numeral.parse::<f64>().is_ok());
    }
}

#[test]
fn degree_bachelor() {
    assert_eq!(parse_degree("Bachelor"), Ok(vec![Degree::Bachelor]));
}

#[test]
fn degree_master_by_either_spelling() {
    assert_eq!(parse_degree("Master"), Ok(vec![Degree::Master]));
    assert_eq!(parse_degree("Kandidat"), Ok(vec![Degree::Master]));
}

#[test]
fn degree_reads_the_alphabetic_prefix_only() {
    assert_eq!(parse_degree("Bachelor/kandidat"), Ok(vec![Degree::Bachelor]));
    assert_eq!(parse_degree("Bachelor og Kandidat"), Ok(vec![Degree::Bachelor]));
}

#[test]
fn degree_both_levels_sorted_and_once() {
    assert_eq!(parse_degree("KandidatBachelor"), Ok(vec![Degree::Bachelor, Degree::Master]));
    assert_eq!(
        parse_degree("MasterBachelorKandidatBachelor"),
        Ok(vec![Degree::Bachelor, Degree::Master])
    );
}

#[test]
fn degree_phd_fails() {
    assert_eq!(parse_degree("Ph.d."), Err(rejected(Field::Degree, "Ph.d.")));
    assert_eq!(parse_degree("BachelorPhd"), Err(rejected(Field::Degree, "BachelorPhd")));
}

#[test]
fn degree_without_a_level_fails() {
    assert_eq!(parse_degree(""), Err(rejected(Field::Degree, "")));
    assert_eq!(parse_degree("B"), Err(rejected(Field::Degree, "B")));
    assert_eq!(parse_degree("bachelor"), Err(rejected(Field::Degree, "bachelor")));
    assert_eq!(parse_degree("1 Bachelor"), Err(rejected(Field::Degree, "1 Bachelor")));
}

#[test]
fn degree_prefix_runs_over_letters_beyond_ascii() {
    assert_eq!(parse_degree("åMaster"), Ok(vec![Degree::Master]));
    assert_eq!(parse_degree("BæMa"), Ok(vec![Degree::Master]));
}

#[test]
fn degrees_in_a_given_prefix() {
    assert_eq!(
        degrees_in_prefix("Bachelor/kandidat", "Bachelor"),
        Ok(vec![Degree::Bachelor])
    );
    assert_eq!(degrees_in_prefix("x", "Ph"), Err(rejected(Field::Degree, "x")));
    assert_eq!(degrees_in_prefix("x", ""), Err(rejected(Field::Degree, "x")));
}

#[test]
fn capacity_number() {
    assert_eq!(parse_capacity("75"), Ok(Capacity::Number(75)));
    assert_eq!(parse_capacity("75 studerende"), Ok(Capacity::Number(75)));
    assert_eq!(parse_capacity("0075"), Ok(Capacity::Number(75)));
}

#[test]
fn capacity_unlimited() {
    assert_eq!(
        parse_capacity("Ingen begrænsning"),
        Ok(Capacity::Text("ubegrænset".to_string()))
    );
    assert_eq!(parse_capacity("Ubegrænset"), Ok(Capacity::Text("ubegrænset".to_string())));
    assert_eq!(parse_capacity("UBEGRÆNSET"), Ok(Capacity::Text("ubegrænset".to_string())));
}

#[test]
fn capacity_open_fails() {
    assert_eq!(parse_capacity("open"), Err(rejected(Field::Capacity, "open")));
    assert_eq!(parse_capacity(""), Err(rejected(Field::Capacity, "")));
}

#[test]
fn capacity_number_comes_first() {
    assert_eq!(parse_capacity("30 (ellers ubegrænset)"), Ok(Capacity::Number(30)));
}

#[test]
fn capacity_number_must_fit() {
    assert_eq!(parse_capacity("4294967295"), Ok(Capacity::Number(4294967295)));
    assert_eq!(parse_capacity("4294967296"), Err(rejected(Field::Capacity, "4294967296")));
    assert_eq!(
        parse_capacity("99999999999999999999999 ubegrænset"),
        Ok(Capacity::Text("ubegrænset".to_string()))
    );
}

#[test]
fn capacity_from_a_given_lowercase_form() {
    assert_eq!(
        capacity_from("Ubegrænset", "ubegrænset"),
        Ok(Capacity::Text("ubegrænset".to_string()))
    );
    assert_eq!(
        capacity_from("Ubegrænset", "Ubegrænset"),
        Err(rejected(Field::Capacity, "Ubegrænset"))
    );
}

#[test]
fn schedule_two_groups() {
    assert_eq!(parse_schedule("A+B"), Ok(vec![Schedule::A, Schedule::B]));
}

#[test]
fn schedule_keeps_the_order_of_the_alphabet() {
    assert_eq!(
        parse_schedule("D, C, B, A, A"),
        Ok(vec![Schedule::A, Schedule::B, Schedule::C, Schedule::D])
    );
}

#[test]
fn schedule_none_fails() {
    assert_eq!(parse_schedule("none"), Err(rejected(Field::Schedule, "none")));
    assert_eq!(parse_schedule("a+b"), Err(rejected(Field::Schedule, "a+b")));
}

#[test]
fn block_two_blocks() {
    assert_eq!(parse_block("Blok 1 og 2"), Ok(vec![Block::One, Block::Two]));
}

#[test]
fn block_keeps_order_and_repeats() {
    assert_eq!(
        parse_block("5, 3, 3 and 4"),
        Ok(vec![Block::Five, Block::Three, Block::Three, Block::Four])
    );
    assert_eq!(parse_block("Block 12"), Ok(vec![Block::One, Block::Two]));
}

#[test]
fn block_without_digit_fails() {
    assert_eq!(parse_block("N/A"), Err(rejected(Field::Block, "N/A")));
    assert_eq!(parse_block("Blok 6, 7, 0"), Err(rejected(Field::Block, "Blok 6, 7, 0")));
}

#[test]
fn duration_one_block() {
    assert_eq!(parse_duration("1 blok"), Ok(Duration::OneUnit));
    assert_eq!(parse_duration("1 block"), Ok(Duration::OneUnit));
}

#[test]
fn duration_two_blocks() {
    assert_eq!(parse_duration("2 blokke"), Ok(Duration::TwoUnits));
}

#[test]
fn duration_semester() {
    assert_eq!(parse_duration("1 semester"), Ok(Duration::TwoUnits));
}

#[test]
fn duration_unknown_fails() {
    assert_eq!(parse_duration("xyz"), Err(rejected(Field::Duration, "xyz")));
    assert_eq!(parse_duration("1 "), Err(rejected(Field::Duration, "1 ")));
    assert_eq!(parse_duration("2 semestre"), Err(rejected(Field::Duration, "2 semestre")));
}

#[test]
fn ects_as_an_exact_fraction() {
    assert_eq!(parse_ects("7.5 ECTS").unwrap().as_fraction(), Some((75, 1)));
    assert_eq!(parse_ects("15 ECTS").unwrap().as_fraction(), Some((15, 0)));
    assert_eq!(parse_ects("7.").unwrap().as_fraction(), Some((7, 0)));
    assert_eq!(parse_ects(".5").unwrap().as_fraction(), Some((5, 1)));
    assert_eq!(parse_ects("007.250").unwrap().as_fraction(), Some((7250, 3)));
    assert_eq!(
        parse_ects("18446744073709551615").unwrap().as_fraction(),
        Some((u64::MAX, 0))
    );
    assert_eq!(parse_ects("18446744073709551616").unwrap().as_fraction(), None);
    assert_eq!(parse_ects("1844674407370955161.6").unwrap().as_fraction(), None);
}
