//! The typed fields of a course record and the grammar of each.
//!
//! Every parser takes the raw text of one value and either returns the typed
//! field or the failure that names the field and carries the text. What each
//! one returns is fixed by a spec function over the characters of the text.

use crate::error::{plain, reject, rejected, viewed, CourseError, Failure, Field};
use crate::text::{
    chars_of, contains, contains_char, contains_pair, contains_text, digit, digit_run_end,
    digits_value, has_pair, is_digit, is_word, lemma_digit_run_end, lemma_digits_value_grows,
    scan_digits, starts_with, to_digit,
};
use crate::unicode::{alphabetic, is_alphabetic, lowercased, to_lowercase};
use vstd::prelude::*;

verus! {

/// One of the five teaching blocks of a year.
#[derive(Clone, Copy, Debug, PartialEq, Eq, Hash, Structural)]
pub enum Block {
    One,
    Two,
    Three,
    Four,
    Five,
}

/// One of the four schedule groups.
#[derive(Clone, Copy, Debug, PartialEq, Eq, Hash, Structural)]
pub enum Schedule {
    A,
    B,
    C,
    D,
}

/// The language a course is taught in.
#[derive(Clone, Copy, Debug, PartialEq, Eq, Hash, Structural)]
pub enum Language {
    Danish,
    English,
}

/// How long a course runs: one block, or two (a semester counts as two).
#[derive(Clone, Copy, Debug, PartialEq, Eq, Hash, Structural)]
pub enum Duration {
    OneUnit,
    TwoUnits,
}

/// A degree level. `Phd` is recognised in the text but never part of a
/// record; the variants are declared in their sorting order.
#[derive(Clone, Copy, Debug, PartialEq, Eq, PartialOrd, Ord, Hash, Structural)]
pub enum Degree {
    Phd,
    Bachelor,
    Master,
}

/// How many students a course admits.
#[derive(Clone, Debug, PartialEq, Eq)]
pub enum Capacity {
    /// No limit; the text is always the marker `ubegrænset`.
    Text(String),
    Number(u32),
}

/// The model of a `Capacity`.
pub enum CapacityModel {
    Text(Seq<char>),
    Number(u32),
}

impl View for Capacity {
    type V = CapacityModel;

    open spec fn view(&self) -> CapacityModel {
        match *self {
            Capacity::Text(t) => CapacityModel::Text(t@),
            Capacity::Number(n) => CapacityModel::Number(n),
        }
    }
}

/// A credit weight, kept as the decimal numeral that the page gave: digits
/// with at most one point among them, and at least one digit.
#[derive(Clone, Debug, PartialEq, Eq)]
pub struct Credits {
    pub numeral: String,
}

impl View for Credits {
    type V = Seq<char>;

    open spec fn view(&self) -> Seq<char> {
        self.numeral@
    }
}

/// Whether `s` is a decimal numeral: digits and points only, at most one
/// point, at least one digit.
pub open spec fn is_numeral(s: Seq<char>) -> bool {
    &&& forall|i: int| 0 <= i < s.len() ==> is_digit(#[trigger] s[i]) || s[i] == '.'
    &&& forall|i: int, j: int|
        #![trigger s[i], s[j]]
        0 <= i < j < s.len() && s[i] == '.' ==> s[j] != '.'
    &&& exists|i: int| 0 <= i < s.len() && is_digit(#[trigger] s[i])
}

// ---------------------------------------------------------------- language

/// The language that `text` names: exactly `English` or exactly `Dansk`.
pub open spec fn language_outcome(text: Seq<char>) -> Result<Language, Failure> {
    if text == "English"@ {
        Ok(Language::English)
    } else if text == "Dansk"@ {
        Ok(Language::Danish)
    } else {
        Err(rejected(Field::Language, text))
    }
}

/// Reads the language of a course.
pub fn parse_language(language: &str) -> (r: Result<Language, CourseError>)
    ensures
        plain(r) == language_outcome(language@),
{
    let chars = chars_of(language);
    if is_word(&chars, "English") {
        Ok(Language::English)
    } else if is_word(&chars, "Dansk") {
        Ok(Language::Danish)
    } else {
        Err(reject(Field::Language, language))
    }
}

// ---------------------------------------------------------------- duration

/// The duration that `text` begins with: `1 b` for one unit, `2 b` or `1 s`
/// for two.
pub open spec fn duration_outcome(text: Seq<char>) -> Result<Duration, Failure> {
    if "1 b"@.is_prefix_of(text) {
        Ok(Duration::OneUnit)
    } else if "2 b"@.is_prefix_of(text) || "1 s"@.is_prefix_of(text) {
        Ok(Duration::TwoUnits)
    } else {
        Err(rejected(Field::Duration, text))
    }
}

/// Reads the duration of a course.
pub fn parse_duration(duration: &str) -> (r: Result<Duration, CourseError>)
    ensures
        plain(r) == duration_outcome(duration@),
{
    let chars = chars_of(duration);
    if starts_with(&chars, "1 b") {
        Ok(Duration::OneUnit)
    } else if starts_with(&chars, "2 b") || starts_with(&chars, "1 s") {
        Ok(Duration::TwoUnits)
    } else {
        Err(reject(Field::Duration, duration))
    }
}

// ---------------------------------------------------------------- schedule

/// `group` if the letter `c` occurs in `text`, nothing otherwise.
pub open spec fn group_if(text: Seq<char>, c: char, group: Schedule) -> Seq<Schedule> {
    if text.contains(c) {
        seq![group]
    } else {
        Seq::empty()
    }
}

/// The schedule groups whose capital letter occurs in `text`, in the order
/// A, B, C, D.
pub open spec fn schedule_groups(text: Seq<char>) -> Seq<Schedule> {
    group_if(text, 'A', Schedule::A) + group_if(text, 'B', Schedule::B) + group_if(
        text,
        'C',
        Schedule::C,
    ) + group_if(text, 'D', Schedule::D)
}

/// The schedule groups that `text` names, of which there must be one at
/// least.
pub open spec fn schedule_outcome(text: Seq<char>) -> Result<Seq<Schedule>, Failure> {
    if schedule_groups(text).len() > 0 {
        Ok(schedule_groups(text))
    } else {
        Err(rejected(Field::Schedule, text))
    }
}

/// Reads the schedule groups of a course.
pub fn parse_schedule(schedule: &str) -> (r: Result<Vec<Schedule>, CourseError>)
    ensures
        viewed(r) == schedule_outcome(schedule@),
{
    let chars = chars_of(schedule);
    let mut groups: Vec<Schedule> = Vec::new();
    if contains_char(&chars, 'A') {
        groups.push(Schedule::A);
    }
    assert(groups@ == group_if(chars@, 'A', Schedule::A));
    if contains_char(&chars, 'B') {
        groups.push(Schedule::B);
    }
    assert(groups@ == group_if(chars@, 'A', Schedule::A) + group_if(chars@, 'B', Schedule::B));
    if contains_char(&chars, 'C') {
        groups.push(Schedule::C);
    }
    assert(groups@ == group_if(chars@, 'A', Schedule::A) + group_if(chars@, 'B', Schedule::B)
        + group_if(chars@, 'C', Schedule::C));
    if contains_char(&chars, 'D') {
        groups.push(Schedule::D);
    }
    assert(groups@ == schedule_groups(chars@));
    if groups.len() > 0 {
        Ok(groups)
    } else {
        Err(reject(Field::Schedule, schedule))
    }
}

// ------------------------------------------------------------------- block

/// The block that the digit `c` stands for.
pub open spec fn block_of(c: char) -> Option<Block> {
    if c == '1' {
        Some(Block::One)
    } else if c == '2' {
        Some(Block::Two)
    } else if c == '3' {
        Some(Block::Three)
    } else if c == '4' {
        Some(Block::Four)
    } else if c == '5' {
        Some(Block::Five)
    } else {
        None
    }
}

/// The blocks that the digits 1 to 5 of `text` stand for, one for each
/// occurrence, in the order in which they occur.
pub open spec fn blocks_in(text: Seq<char>) -> Seq<Block>
    decreases text.len(),
{
    if text.len() == 0 {
        Seq::empty()
    } else {
        match block_of(text.last()) {
            Some(b) => blocks_in(text.drop_last()).push(b),
            None => blocks_in(text.drop_last()),
        }
    }
}

/// The blocks that `text` names, of which there must be one at least.
pub open spec fn block_outcome(text: Seq<char>) -> Result<Seq<Block>, Failure> {
    if blocks_in(text).len() > 0 {
        Ok(blocks_in(text))
    } else {
        Err(rejected(Field::Block, text))
    }
}

/// The block that the digit `c` stands for.
pub fn to_block(c: char) -> (b: Option<Block>)
    ensures
        b == block_of(c),
{
    match c {
        '1' => Some(Block::One),
        '2' => Some(Block::Two),
        '3' => Some(Block::Three),
        '4' => Some(Block::Four),
        '5' => Some(Block::Five),
        _ => None,
    }
}

/// Reads the teaching blocks of a course.
pub fn parse_block(input: &str) -> (r: Result<Vec<Block>, CourseError>)
    ensures
        viewed(r) == block_outcome(input@),
{
    let chars = chars_of(input);
    let mut blocks: Vec<Block> = Vec::new();
    let mut i: usize = 0;
    while i < chars.len()
        invariant
            i <= chars.len(),
            blocks@ == blocks_in(chars@.take(i as int)),
        decreases chars.len() - i,
    {
        assert(chars@.take(i + 1).drop_last() == chars@.take(i as int));
        match to_block(chars[i]) {
            Some(b) => blocks.push(b),
            None => {},
        }
        i = i + 1;
    }
    assert(chars@.take(chars.len() as int) == chars@);
    if blocks.len() > 0 {
        Ok(blocks)
    } else {
        Err(reject(Field::Block, input))
    }
}

// -------------------------------------------------------------------- ects

/// The length of the longest prefix of `text` that holds decimal digits and
/// at most one point: a run of digits, then, if a point follows, the point
/// and the run of digits behind it.
pub open spec fn numeral_len(text: Seq<char>) -> int {
    let whole = digit_run_end(text, 0);
    if whole < text.len() && text[whole] == '.' {
        digit_run_end(text, whole + 1)
    } else {
        whole
    }
}

/// Whether some character of `s` is a decimal digit.
pub open spec fn has_digit(s: Seq<char>) -> bool {
    exists|i: int| 0 <= i < s.len() && is_digit(#[trigger] s[i])
}

/// The credit weight that `text` begins with: its longest prefix of digits
/// and at most one point, provided that the prefix holds a digit.
pub open spec fn ects_outcome(text: Seq<char>) -> Result<Seq<char>, Failure> {
    let numeral = text.take(numeral_len(text));
    if has_digit(numeral) {
        Ok(numeral)
    } else {
        Err(rejected(Field::Ects, text))
    }
}

/// The prefix that `numeral_len` measures is made of digits and at most one
/// point, it cannot be made longer, and it holds a digit exactly when one of
/// its two runs of digits is not empty.
pub proof fn lemma_numeral_len(text: Seq<char>)
    ensures
        0 <= numeral_len(text) <= text.len(),
        forall|i: int|
            0 <= i < numeral_len(text) ==> is_digit(#[trigger] text[i]) || text[i] == '.',
        forall|i: int, j: int|
            #![trigger text[i], text[j]]
            0 <= i < j < numeral_len(text) && text[i] == '.' ==> text[j] != '.',
        numeral_len(text) < text.len() ==> !is_digit(text[numeral_len(text)]),
        numeral_len(text) < text.len() && text[numeral_len(text)] == '.' ==> exists|i: int|
            0 <= i < numeral_len(text) && #[trigger] text[i] == '.',
        has_digit(text.take(numeral_len(text))) <==> digit_run_end(text, 0) > 0 || numeral_len(
            text,
        ) > digit_run_end(text, 0) + 1,
{
    let whole = digit_run_end(text, 0);
    let end = numeral_len(text);
    let numeral = text.take(end);
    lemma_digit_run_end(text, 0);
    if whole < text.len() && text[whole] == '.' {
        lemma_digit_run_end(text, whole + 1);
        assert(text[whole] == '.');
        if end > whole + 1 {
            assert(is_digit(numeral[whole + 1]));
        }
    }
    if whole > 0 {
        assert(is_digit(numeral[0]));
    }
    if has_digit(numeral) {
        let i = choose|i: int| 0 <= i < numeral.len() && is_digit(#[trigger] numeral[i]);
        assert(numeral[i] == text[i]);
    }
}

/// Every credit weight that the grammar yields is a decimal numeral.
pub proof fn lemma_ects_is_numeral(text: Seq<char>)
    ensures
        ects_outcome(text) matches Ok(numeral) ==> is_numeral(numeral),
{
    lemma_numeral_len(text);
    let numeral = text.take(numeral_len(text));
    if has_digit(numeral) {
        let i = choose|i: int| 0 <= i < numeral.len() && is_digit(#[trigger] numeral[i]);
        assert(is_digit(numeral[i]));
        assert forall|i: int, j: int|
            #![trigger numeral[i], numeral[j]]
            0 <= i < j < numeral.len() && numeral[i] == '.' implies numeral[j] != '.' by {
            assert(numeral[i] == text[i] && numeral[j] == text[j]);
        }
        assert forall|i: int| 0 <= i < numeral.len() implies is_digit(#[trigger] numeral[i])
            || numeral[i] == '.' by {
            assert(numeral[i] == text[i]);
        }
    }
}

/// Reads the credit weight of a course.
pub fn parse_ects(ects: &str) -> (r: Result<Credits, CourseError>)
    ensures
        viewed(r) == ects_outcome(ects@),
        r matches Ok(credits) ==> is_numeral(credits@),
{
    let chars = chars_of(ects);
    let whole = scan_digits(&chars, 0);
    let end = if whole < chars.len() && chars[whole] == '.' {
        scan_digits(&chars, whole + 1)
    } else {
        whole
    };
    proof {
        lemma_numeral_len(ects@);
    }
    if whole > 0 || end > whole + 1 {
        let numeral = ects.substring_char(0, end);
        proof {
            lemma_ects_is_numeral(ects@);
        }
        Ok(Credits { numeral: numeral.to_owned() })
    } else {
        Err(reject(Field::Ects, ects))
    }
}

/// The whole number that the digits of `numeral` denote when the point is
/// left out: the weight is `mantissa(numeral) / 10^scale(numeral)`.
pub open spec fn mantissa(numeral: Seq<char>) -> nat
    decreases numeral.len(),
{
    if numeral.len() == 0 {
        0
    } else {
        match digit(numeral.last()) {
            Some(d) => 10 * mantissa(numeral.drop_last()) + d,
            None => mantissa(numeral.drop_last()),
        }
    }
}

/// The number of characters of `numeral` behind its last point; 0 if it has
/// no point.
pub open spec fn scale(numeral: Seq<char>) -> nat
    decreases numeral.len(),
{
    if numeral.len() == 0 || numeral.last() == '.' || !numeral.drop_last().contains('.') {
        0
    } else {
        scale(numeral.drop_last()) + 1
    }
}

/// Further characters never make the mantissa smaller.
pub proof fn lemma_mantissa_grows(numeral: Seq<char>, n: int)
    requires
        0 <= n <= numeral.len(),
    ensures
        mantissa(numeral.take(n)) <= mantissa(numeral),
    decreases numeral.len() - n,
{
    if n < numeral.len() {
        lemma_mantissa_grows(numeral, n + 1);
        assert(numeral.take(n + 1).drop_last() == numeral.take(n));
    } else {
        assert(numeral.take(n) == numeral);
    }
}

impl Credits {
    /// The weight as a fraction: the pair `(m, k)` stands for `m / 10^k`.
    /// `None` if `m` does not fit 64 bits.
    pub fn as_fraction(&self) -> (r: Option<(u64, usize)>)
        ensures
            match r {
                Some((m, k)) => m == mantissa(self@) && k == scale(self@),
                None => mantissa(self@) > u64::MAX,
            },
    {
        let chars = chars_of(self.numeral.as_str());
        let mut m: u64 = 0;
        let mut k: usize = 0;
        let mut seen_point = false;
        let mut i: usize = 0;
        while i < chars.len()
            invariant
                i <= chars.len(),
                chars@ == self@,
                m == mantissa(chars@.take(i as int)),
                k == scale(chars@.take(i as int)),
                k <= i,
                seen_point == chars@.take(i as int).contains('.'),
            decreases chars.len() - i,
        {
            let ghost before = chars@.take(i as int);
            let ghost now = chars@.take(i + 1);
            assert(now.drop_last() == before);
            assert(now.last() == chars@[i as int]);
            assert(now.contains('.') == (before.contains('.') || chars@[i as int] == '.')) by {
                if before.contains('.') {
                    let j = choose|j: int| 0 <= j < before.len() && before[j] == '.';
                    assert(now[j] == '.');
                }
                if chars@[i as int] == '.' {
                    assert(now[i as int] == '.');
                }
                if now.contains('.') {
                    let j = choose|j: int| 0 <= j < now.len() && now[j] == '.';
                    if j < i {
                        assert(before[j] == '.');
                    }
                }
            }
            let c = chars[i];
            match to_digit(c) {
                Some(d) => {
                    let next = match m.checked_mul(10) {
                        Some(tenfold) => tenfold.checked_add(d as u64),
                        None => None,
                    };
                    match next {
                        Some(v) => {
                            m = v;
                        },
                        None => {
                            proof {
                                lemma_mantissa_grows(chars@, i + 1);
                            }
                            return None;
                        },
                    }
                },
                None => {},
            }
            if c == '.' {
                seen_point = true;
                k = 0;
            } else if seen_point {
                k = k + 1;
            }
            i = i + 1;
        }
        assert(chars@.take(chars.len() as int) == chars@);
        Some((m, k))
    }
}

// ------------------------------------------------------------------ degree

/// The end of the run of alphabetic characters that starts at `from`.
pub open spec fn alphabetic_run_end(s: Seq<char>, from: int) -> int
    decreases s.len() - from,
{
    if 0 <= from < s.len() && alphabetic(s[from]) {
        alphabetic_run_end(s, from + 1)
    } else {
        from
    }
}

/// The degree levels that the letter pairs of `prefix` name, sorted and each
/// at most once: `Ba` names Bachelor, `Ma` and `Ka` name Master.
pub open spec fn degrees_named(prefix: Seq<char>) -> Seq<Degree> {
    (if has_pair(prefix, 'B', 'a') {
        seq![Degree::Bachelor]
    } else {
        Seq::empty()
    }) + (if has_pair(prefix, 'M', 'a') || has_pair(prefix, 'K', 'a') {
        seq![Degree::Master]
    } else {
        Seq::empty()
    })
}

/// The degree levels of the value `text` whose alphabetic prefix is
/// `prefix`: a failure if the pair `Ph` occurs in the prefix or no level is
/// named, the named levels otherwise.
pub open spec fn degree_outcome_for(text: Seq<char>, prefix: Seq<char>) -> Result<
    Seq<Degree>,
    Failure,
> {
    if has_pair(prefix, 'P', 'h') || degrees_named(prefix).len() == 0 {
        Err(rejected(Field::Degree, text))
    } else {
        Ok(degrees_named(prefix))
    }
}

/// The degree levels that `text` names in its longest alphabetic prefix.
pub open spec fn degree_outcome(text: Seq<char>) -> Result<Seq<Degree>, Failure> {
    degree_outcome_for(text, text.take(alphabetic_run_end(text, 0)))
}

/// Whether `levels` is one of the three sets of degree levels that a record
/// can hold: Bachelor, Master, or both in that order. `Phd` is never among
/// them.
pub open spec fn is_level_set(levels: Seq<Degree>) -> bool {
    levels == seq![Degree::Bachelor] || levels == seq![Degree::Master] || levels
        == seq![Degree::Bachelor, Degree::Master]
}

/// The degree grammar yields Bachelor, Master or both, sorted and each once,
/// and never `Phd`, whatever the text.
pub proof fn law_degree_levels(text: Seq<char>, prefix: Seq<char>)
    ensures
        degree_outcome_for(text, prefix) matches Ok(levels) ==> is_level_set(levels)
            && !levels.contains(Degree::Phd),
{
    let levels = degrees_named(prefix);
    assert(seq![Degree::Bachelor] + Seq::<Degree>::empty() == seq![Degree::Bachelor]);
    assert(Seq::<Degree>::empty() + seq![Degree::Master] == seq![Degree::Master]);
    assert(seq![Degree::Bachelor] + seq![Degree::Master] == seq![
        Degree::Bachelor,
        Degree::Master,
    ]);
    assert(Seq::<Degree>::empty() + Seq::<Degree>::empty() == Seq::<Degree>::empty());
}

/// The degree levels named in `prefix`, the alphabetic prefix of the value
/// `degree`.
pub fn degrees_in_prefix(degree: &str, prefix: &str) -> (r: Result<Vec<Degree>, CourseError>)
    ensures
        viewed(r) == degree_outcome_for(degree@, prefix@),
        r matches Ok(levels) ==> is_level_set(levels@),
{
    proof {
        law_degree_levels(degree@, prefix@);
    }
    let chars = chars_of(prefix);
    if contains_pair(&chars, 'P', 'h') {
        return Err(reject(Field::Degree, degree));
    }
    let mut degrees: Vec<Degree> = Vec::new();
    if contains_pair(&chars, 'B', 'a') {
        degrees.push(Degree::Bachelor);
    }
    if contains_pair(&chars, 'M', 'a') || contains_pair(&chars, 'K', 'a') {
        degrees.push(Degree::Master);
    }
    assert(degrees@ == degrees_named(prefix@));
    if degrees.len() > 0 {
        Ok(degrees)
    } else {
        Err(reject(Field::Degree, degree))
    }
}

/// Reads the degree levels of a course.
pub fn parse_degree(degree: &str) -> (r: Result<Vec<Degree>, CourseError>)
    ensures
        viewed(r) == degree_outcome(degree@),
        r matches Ok(levels) ==> is_level_set(levels@),
{
    let chars = chars_of(degree);
    let mut end: usize = 0;
    while end < chars.len() && is_alphabetic(chars[end])
        invariant
            end <= chars.len(),
            alphabetic_run_end(chars@, 0) == alphabetic_run_end(chars@, end as int),
        decreases chars.len() - end,
    {
        end = end + 1;
    }
    degrees_in_prefix(degree, degree.substring_char(0, end))
}

// ---------------------------------------------------------------- capacity

/// The marker that stands for a capacity without limit.
pub open spec fn unlimited() -> Seq<char> {
    "ubegrænset"@
}

/// The number that the leading run of digits of `text` denotes, if the run
/// is not empty and the number fits 32 bits.
pub open spec fn leading_number(text: Seq<char>) -> Option<u32> {
    let run = text.take(digit_run_end(text, 0));
    if run.len() > 0 && digits_value(run) <= u32::MAX {
        Some(digits_value(run) as u32)
    } else {
        None
    }
}

/// The capacity that the value `text` states, where `lowered` is its
/// lowercase form: the leading number if there is one, else no limit if
/// `lowered` holds one of the two phrases for it.
pub open spec fn capacity_outcome_for(text: Seq<char>, lowered: Seq<char>) -> Result<
    CapacityModel,
    Failure,
> {
    match leading_number(text) {
        Some(n) => Ok(CapacityModel::Number(n)),
        None => if contains_text(lowered, "ubegrænset"@) || contains_text(
            lowered,
            "ingen begrænsning"@,
        ) {
            Ok(CapacityModel::Text(unlimited()))
        } else {
            Err(rejected(Field::Capacity, text))
        },
    }
}

/// The capacity that `text` states.
pub open spec fn capacity_outcome(text: Seq<char>) -> Result<CapacityModel, Failure> {
    capacity_outcome_for(text, lowercased(text))
}

/// The number that the leading run of digits of `chars` denotes.
pub fn read_leading_number(chars: &Vec<char>) -> (n: Option<u32>)
    ensures
        n == leading_number(chars@),
{
    let end = scan_digits(chars, 0);
    let ghost run = chars@.take(end as int);
    proof {
        lemma_digit_run_end(chars@, 0);
    }
    if end == 0 {
        return None;
    }
    let mut value: u64 = 0;
    let mut i: usize = 0;
    while i < end
        invariant
            i <= end <= chars.len(),
            end == digit_run_end(chars@, 0),
            run == chars@.take(end as int),
            forall|k: int| 0 <= k < end ==> is_digit(#[trigger] chars@[k]),
            value == digits_value(run.take(i as int)),
            value <= u32::MAX,
        decreases end - i,
    {
        assert(run.take(i + 1).drop_last() == run.take(i as int));
        assert(run.take(i + 1).last() == chars@[i as int]);
        let d = match to_digit(chars[i]) {
            Some(d) => d,
            None => 0,
        };
        let next: u64 = value * 10 + d as u64;
        assert(next == digits_value(run.take(i + 1))) by {
            assert(run.take(i + 1).len() == i + 1);
            assert(digit(chars@[i as int]) == Some(d as nat));
        }
        if next > u32::MAX as u64 {
            proof {
                lemma_digits_value_grows(run, i + 1);
            }
            return None;
        }
        value = next;
        i = i + 1;
    }
    assert(run.take(end as int) == run);
    Some(value as u32)
}

/// The capacity that the value `capacity` states, given its lowercase form.
pub fn capacity_from(capacity: &str, lowered: &str) -> (r: Result<Capacity, CourseError>)
    ensures
        viewed(r) == capacity_outcome_for(capacity@, lowered@),
{
    let chars = chars_of(capacity);
    match read_leading_number(&chars) {
        Some(n) => Ok(Capacity::Number(n)),
        None => {
            let low = chars_of(lowered);
            if contains(&low, "ubegrænset") || contains(&low, "ingen begrænsning") {
                Ok(Capacity::Text("ubegrænset".to_owned()))
            } else {
                Err(reject(Field::Capacity, capacity))
            }
        },
    }
}

/// Reads the capacity of a course.
pub fn parse_capacity(capacity: &str) -> (r: Result<Capacity, CourseError>)
    ensures
        viewed(r) == capacity_outcome(capacity@),
{
    let lowered = to_lowercase(capacity);
    capacity_from(capacity, lowered.as_str())
}

} // verus!
