//! The course record and the coercion of label/value pairs into it.
//!
//! Coercion runs over the pairs twice. The first pass reads the teaching
//! blocks from every pair whose label begins with `Place`; the second
//! resolves each label through the table of synonyms and reads the value
//! with the grammar of its field, a later value replacing an earlier one.
//! The first value that does not fit its grammar ends the whole coercion.
//! A record is assembled only if all eight fields were read.

use crate::error::{reject, rejected, viewed, CourseError, Failure, Field};
use crate::fields::{
    block_outcome, capacity_outcome, degree_outcome, duration_outcome, ects_outcome,
    is_level_set, is_numeral, language_outcome, parse_block, parse_capacity, parse_degree,
    parse_duration, parse_ects, parse_language, parse_schedule, schedule_outcome, unlimited,
    Block, Capacity, CapacityModel, Credits, Degree, Duration, Language, Schedule,
};
use crate::text::{chars_of, is_word, starts_with};
use vstd::prelude::*;

verus! {

/// The eight fields of one course.
#[derive(Clone, Debug, PartialEq, Eq)]
pub struct CourseInformation {
    pub id: String,
    pub ects: Credits,
    pub block: Vec<Block>,
    pub schedule: Vec<Schedule>,
    pub language: Language,
    pub duration: Duration,
    pub degree: Vec<Degree>,
    pub capacity: Capacity,
}

/// The model of a `CourseInformation`.
pub struct Record {
    pub id: Seq<char>,
    pub ects: Seq<char>,
    pub block: Seq<Block>,
    pub schedule: Seq<Schedule>,
    pub language: Language,
    pub duration: Duration,
    pub degree: Seq<Degree>,
    pub capacity: CapacityModel,
}

impl View for CourseInformation {
    type V = Record;

    open spec fn view(&self) -> Record {
        Record {
            id: self.id@,
            ects: self.ects@,
            block: self.block@,
            schedule: self.schedule@,
            language: self.language,
            duration: self.duration,
            degree: self.degree@,
            capacity: self.capacity@,
        }
    }
}

impl Record {
    /// Whether every field is one that its grammar can yield.
    pub open spec fn wf(self) -> bool {
        &&& self.id.len() > 0
        &&& is_numeral(self.ects)
        &&& self.block.len() > 0
        &&& self.schedule.len() > 0
        &&& is_level_set(self.degree)
        &&& self.degree.len() > 0
        &&& !self.degree.contains(Degree::Phd)
        &&& self.capacity is Text ==> self.capacity == CapacityModel::Text(unlimited())
    }
}

/// A course, as read from its page. It is made by parsing only, so its
/// fields are always complete and valid.
#[derive(Clone, Debug, PartialEq, Eq)]
pub struct Course {
    info: CourseInformation,
}

impl View for Course {
    type V = Record;

    closed spec fn view(&self) -> Record {
        self.info@
    }
}

impl Course {
    pub(crate) fn new(info: CourseInformation) -> (course: Course)
        ensures
            course@ == info@,
    {
        Course { info }
    }

    /// The fields of the course.
    pub fn info(&self) -> (info: &CourseInformation)
        ensures
            info@ == self@,
    {
        &self.info
    }
}

/// The value of one field.
#[derive(Clone, Debug, PartialEq, Eq)]
pub enum FieldValue {
    Id(String),
    Ects(Credits),
    Block(Vec<Block>),
    Schedule(Vec<Schedule>),
    Language(Language),
    Duration(Duration),
    Degree(Vec<Degree>),
    Capacity(Capacity),
}

/// The model of a `FieldValue`.
pub enum Value {
    Id(Seq<char>),
    Ects(Seq<char>),
    Block(Seq<Block>),
    Schedule(Seq<Schedule>),
    Language(Language),
    Duration(Duration),
    Degree(Seq<Degree>),
    Capacity(CapacityModel),
}

impl View for FieldValue {
    type V = Value;

    open spec fn view(&self) -> Value {
        match *self {
            FieldValue::Id(v) => Value::Id(v@),
            FieldValue::Ects(v) => Value::Ects(v@),
            FieldValue::Block(v) => Value::Block(v@),
            FieldValue::Schedule(v) => Value::Schedule(v@),
            FieldValue::Language(v) => Value::Language(v),
            FieldValue::Duration(v) => Value::Duration(v),
            FieldValue::Degree(v) => Value::Degree(v@),
            FieldValue::Capacity(v) => Value::Capacity(v@),
        }
    }
}

impl Value {
    /// The field that this is a value of.
    pub open spec fn field(self) -> Field {
        match self {
            Value::Id(_) => Field::Id,
            Value::Ects(_) => Field::Ects,
            Value::Block(_) => Field::Block,
            Value::Schedule(_) => Field::Schedule,
            Value::Language(_) => Field::Language,
            Value::Duration(_) => Field::Duration,
            Value::Degree(_) => Field::Degree,
            Value::Capacity(_) => Field::Capacity,
        }
    }
}

/// The course code that `text` gives: the text itself, unless it is empty.
pub open spec fn id_outcome(text: Seq<char>) -> Result<Seq<char>, Failure> {
    if text.len() > 0 {
        Ok(text)
    } else {
        Err(rejected(Field::Id, text))
    }
}

/// What the grammar of `field` makes of `text`.
pub open spec fn field_outcome(field: Field, text: Seq<char>) -> Result<Value, Failure> {
    match field {
        Field::Id => match id_outcome(text) {
            Ok(v) => Ok(Value::Id(v)),
            Err(e) => Err(e),
        },
        Field::Ects => match ects_outcome(text) {
            Ok(v) => Ok(Value::Ects(v)),
            Err(e) => Err(e),
        },
        Field::Block => match block_outcome(text) {
            Ok(v) => Ok(Value::Block(v)),
            Err(e) => Err(e),
        },
        Field::Schedule => match schedule_outcome(text) {
            Ok(v) => Ok(Value::Schedule(v)),
            Err(e) => Err(e),
        },
        Field::Language => match language_outcome(text) {
            Ok(v) => Ok(Value::Language(v)),
            Err(e) => Err(e),
        },
        Field::Duration => match duration_outcome(text) {
            Ok(v) => Ok(Value::Duration(v)),
            Err(e) => Err(e),
        },
        Field::Degree => match degree_outcome(text) {
            Ok(v) => Ok(Value::Degree(v)),
            Err(e) => Err(e),
        },
        Field::Capacity => match capacity_outcome(text) {
            Ok(v) => Ok(Value::Capacity(v)),
            Err(e) => Err(e),
        },
    }
}

/// The course code that `id` gives.
pub fn parse_id(id: &str) -> (r: Result<String, CourseError>)
    ensures
        viewed(r) == id_outcome(id@),
{
    if !id.is_empty() {
        Ok(id.to_owned())
    } else {
        Err(reject(Field::Id, id))
    }
}

/// Reads `text` with the grammar of `field`.
pub fn parse_field(field: Field, text: &str) -> (r: Result<FieldValue, CourseError>)
    ensures
        viewed(r) == field_outcome(field, text@),
{
    match field {
        Field::Id => match parse_id(text) {
            Ok(v) => Ok(FieldValue::Id(v)),
            Err(e) => Err(e),
        },
        Field::Ects => match parse_ects(text) {
            Ok(v) => Ok(FieldValue::Ects(v)),
            Err(e) => Err(e),
        },
        Field::Block => match parse_block(text) {
            Ok(v) => Ok(FieldValue::Block(v)),
            Err(e) => Err(e),
        },
        Field::Schedule => match parse_schedule(text) {
            Ok(v) => Ok(FieldValue::Schedule(v)),
            Err(e) => Err(e),
        },
        Field::Language => match parse_language(text) {
            Ok(v) => Ok(FieldValue::Language(v)),
            Err(e) => Err(e),
        },
        Field::Duration => match parse_duration(text) {
            Ok(v) => Ok(FieldValue::Duration(v)),
            Err(e) => Err(e),
        },
        Field::Degree => match parse_degree(text) {
            Ok(v) => Ok(FieldValue::Degree(v)),
            Err(e) => Err(e),
        },
        Field::Capacity => match parse_capacity(text) {
            Ok(v) => Ok(FieldValue::Capacity(v)),
            Err(e) => Err(e),
        },
    }
}

// ---------------------------------------------------------------- coercion

/// The two passes of the coercion.
#[derive(Clone, Copy, Debug, PartialEq, Eq, Structural)]
pub enum Pass {
    /// Reads the teaching blocks only.
    BlockFirst,
    /// Reads the seven fields that the table of synonyms names.
    Generic,
}

/// The field that the table of synonyms gives for `label`: each field but
/// the teaching blocks has a Danish and an English label.
pub open spec fn label_field(label: Seq<char>) -> Option<Field> {
    if label == "Language"@ || label == "Sprog"@ {
        Some(Field::Language)
    } else if label == "Kursuskode"@ || label == "Course code"@ {
        Some(Field::Id)
    } else if label == "Point"@ || label == "Credit"@ {
        Some(Field::Ects)
    } else if label == "Level"@ || label == "Niveau"@ {
        Some(Field::Degree)
    } else if label == "Duration"@ || label == "Varighed"@ {
        Some(Field::Duration)
    } else if label == "Schedule"@ || label == "Skemagruppe"@ {
        Some(Field::Schedule)
    } else if label == "Course capacity"@ || label == "Kursuskapacitet"@ {
        Some(Field::Capacity)
    } else {
        None
    }
}

/// Whether `label` is a label of `field`. The teaching blocks go by every
/// label that begins with `Place`, the other fields by the table of synonyms.
pub open spec fn names(label: Seq<char>, field: Field) -> bool {
    if field == Field::Block {
        "Place"@.is_prefix_of(label)
    } else {
        label_field(label) == Some(field)
    }
}

/// The field whose value `pass` reads from a pair with the label `label`.
pub open spec fn target(pass: Pass, label: Seq<char>) -> Option<Field> {
    match pass {
        Pass::BlockFirst => if names(label, Field::Block) {
            Some(Field::Block)
        } else {
            None
        },
        Pass::Generic => label_field(label),
    }
}

/// The fields read so far.
pub struct Slots {
    pub id: Option<Seq<char>>,
    pub ects: Option<Seq<char>>,
    pub block: Option<Seq<Block>>,
    pub schedule: Option<Seq<Schedule>>,
    pub language: Option<Language>,
    pub duration: Option<Duration>,
    pub degree: Option<Seq<Degree>>,
    pub capacity: Option<CapacityModel>,
}

impl Slots {
    /// No field read yet.
    pub open spec fn empty() -> Slots {
        Slots {
            id: None,
            ects: None,
            block: None,
            schedule: None,
            language: None,
            duration: None,
            degree: None,
            capacity: None,
        }
    }

    /// The value read for `field`, if any.
    pub open spec fn get(self, field: Field) -> Option<Value> {
        match field {
            Field::Id => match self.id {
                Some(v) => Some(Value::Id(v)),
                None => None,
            },
            Field::Ects => match self.ects {
                Some(v) => Some(Value::Ects(v)),
                None => None,
            },
            Field::Block => match self.block {
                Some(v) => Some(Value::Block(v)),
                None => None,
            },
            Field::Schedule => match self.schedule {
                Some(v) => Some(Value::Schedule(v)),
                None => None,
            },
            Field::Language => match self.language {
                Some(v) => Some(Value::Language(v)),
                None => None,
            },
            Field::Duration => match self.duration {
                Some(v) => Some(Value::Duration(v)),
                None => None,
            },
            Field::Degree => match self.degree {
                Some(v) => Some(Value::Degree(v)),
                None => None,
            },
            Field::Capacity => match self.capacity {
                Some(v) => Some(Value::Capacity(v)),
                None => None,
            },
        }
    }

    /// These slots with `value` in the slot of its field.
    pub open spec fn put(self, value: Value) -> Slots {
        match value {
            Value::Id(v) => Slots { id: Some(v), ..self },
            Value::Ects(v) => Slots { ects: Some(v), ..self },
            Value::Block(v) => Slots { block: Some(v), ..self },
            Value::Schedule(v) => Slots { schedule: Some(v), ..self },
            Value::Language(v) => Slots { language: Some(v), ..self },
            Value::Duration(v) => Slots { duration: Some(v), ..self },
            Value::Degree(v) => Slots { degree: Some(v), ..self },
            Value::Capacity(v) => Slots { capacity: Some(v), ..self },
        }
    }
}

/// The slots after `pass` has run over `pairs`, starting from `start`: each
/// pair whose label has a target is read with the grammar of that field and
/// stored; the first value that does not fit ends the pass with its failure.
pub open spec fn pass_outcome(pass: Pass, pairs: Seq<(Seq<char>, Seq<char>)>, start: Slots) -> Result<
    Slots,
    Failure,
>
    decreases pairs.len(),
{
    if pairs.len() == 0 {
        Ok(start)
    } else {
        match pass_outcome(pass, pairs.drop_last(), start) {
            Err(e) => Err(e),
            Ok(slots) => match target(pass, pairs.last().0) {
                None => Ok(slots),
                Some(field) => match field_outcome(field, pairs.last().1) {
                    Ok(value) => Ok(slots.put(value)),
                    Err(e) => Err(e),
                },
            },
        }
    }
}

/// The record that the slots make up, or the first field, in the order of
/// the record, that was never read.
pub open spec fn finalize(slots: Slots) -> Result<Record, Failure> {
    if slots.id is None {
        Err(Failure::MissingField(Field::Id))
    } else if slots.ects is None {
        Err(Failure::MissingField(Field::Ects))
    } else if slots.block is None {
        Err(Failure::MissingField(Field::Block))
    } else if slots.schedule is None {
        Err(Failure::MissingField(Field::Schedule))
    } else if slots.language is None {
        Err(Failure::MissingField(Field::Language))
    } else if slots.duration is None {
        Err(Failure::MissingField(Field::Duration))
    } else if slots.degree is None {
        Err(Failure::MissingField(Field::Degree))
    } else if slots.capacity is None {
        Err(Failure::MissingField(Field::Capacity))
    } else {
        Ok(
            Record {
                id: slots.id->0,
                ects: slots.ects->0,
                block: slots.block->0,
                schedule: slots.schedule->0,
                language: slots.language->0,
                duration: slots.duration->0,
                degree: slots.degree->0,
                capacity: slots.capacity->0,
            },
        )
    }
}

/// What coercion makes of `pairs`: the block pass, then the generic pass,
/// then the assembly of the record.
pub open spec fn coerce_outcome(pairs: Seq<(Seq<char>, Seq<char>)>) -> Result<Record, Failure> {
    match pass_outcome(Pass::BlockFirst, pairs, Slots::empty()) {
        Err(e) => Err(e),
        Ok(blocks) => match pass_outcome(Pass::Generic, pairs, blocks) {
            Err(e) => Err(e),
            Ok(slots) => finalize(slots),
        },
    }
}

/// The label and value texts of `pairs`.
pub open spec fn texts(pairs: Seq<(String, String)>) -> Seq<(Seq<char>, Seq<char>)> {
    pairs.map_values(|p: (String, String)| (p.0@, p.1@))
}

/// A pass that has failed on the first `n` pairs fails in the same way on
/// all of them.
pub proof fn lemma_pass_stops(pass: Pass, pairs: Seq<(Seq<char>, Seq<char>)>, start: Slots, n: int)
    requires
        0 <= n <= pairs.len(),
        pass_outcome(pass, pairs.take(n), start) is Err,
    ensures
        pass_outcome(pass, pairs, start) == pass_outcome(pass, pairs.take(n), start),
    decreases pairs.len() - n,
{
    if n < pairs.len() {
        assert(pairs.take(n + 1).drop_last() == pairs.take(n));
        lemma_pass_stops(pass, pairs, start, n + 1);
    } else {
        assert(pairs.take(n) == pairs);
    }
}

/// The fields read so far, as the coercion holds them.
struct Draft {
    id: Option<String>,
    ects: Option<Credits>,
    block: Option<Vec<Block>>,
    schedule: Option<Vec<Schedule>>,
    language: Option<Language>,
    duration: Option<Duration>,
    degree: Option<Vec<Degree>>,
    capacity: Option<Capacity>,
}

impl View for Draft {
    type V = Slots;

    closed spec fn view(&self) -> Slots {
        Slots {
            id: match self.id {
                Some(v) => Some(v@),
                None => None,
            },
            ects: match self.ects {
                Some(v) => Some(v@),
                None => None,
            },
            block: match self.block {
                Some(v) => Some(v@),
                None => None,
            },
            schedule: match self.schedule {
                Some(v) => Some(v@),
                None => None,
            },
            language: self.language,
            duration: self.duration,
            degree: match self.degree {
                Some(v) => Some(v@),
                None => None,
            },
            capacity: match self.capacity {
                Some(v) => Some(v@),
                None => None,
            },
        }
    }
}

impl Draft {
    fn empty() -> (draft: Draft)
        ensures
            draft@ == Slots::empty(),
    {
        Draft {
            id: None,
            ects: None,
            block: None,
            schedule: None,
            language: None,
            duration: None,
            degree: None,
            capacity: None,
        }
    }

    fn put(self, value: FieldValue) -> (draft: Draft)
        ensures
            draft@ == self@.put(value@),
    {
        let mut draft = self;
        match value {
            FieldValue::Id(v) => draft.id = Some(v),
            FieldValue::Ects(v) => draft.ects = Some(v),
            FieldValue::Block(v) => draft.block = Some(v),
            FieldValue::Schedule(v) => draft.schedule = Some(v),
            FieldValue::Language(v) => draft.language = Some(v),
            FieldValue::Duration(v) => draft.duration = Some(v),
            FieldValue::Degree(v) => draft.degree = Some(v),
            FieldValue::Capacity(v) => draft.capacity = Some(v),
        }
        draft
    }

    fn assemble(self) -> (r: Result<CourseInformation, CourseError>)
        ensures
            viewed(r) == finalize(self@),
    {
        let Draft { id, ects, block, schedule, language, duration, degree, capacity } = self;
        let id = match id {
            Some(v) => v,
            None => return Err(CourseError::MissingField(Field::Id)),
        };
        let ects = match ects {
            Some(v) => v,
            None => return Err(CourseError::MissingField(Field::Ects)),
        };
        let block = match block {
            Some(v) => v,
            None => return Err(CourseError::MissingField(Field::Block)),
        };
        let schedule = match schedule {
            Some(v) => v,
            None => return Err(CourseError::MissingField(Field::Schedule)),
        };
        let language = match language {
            Some(v) => v,
            None => return Err(CourseError::MissingField(Field::Language)),
        };
        let duration = match duration {
            Some(v) => v,
            None => return Err(CourseError::MissingField(Field::Duration)),
        };
        let degree = match degree {
            Some(v) => v,
            None => return Err(CourseError::MissingField(Field::Degree)),
        };
        let capacity = match capacity {
            Some(v) => v,
            None => return Err(CourseError::MissingField(Field::Capacity)),
        };
        Ok(CourseInformation { id, ects, block, schedule, language, duration, degree, capacity })
    }
}

/// The field that the table of synonyms gives for `label`.
pub fn field_of_label(label: &str) -> (field: Option<Field>)
    ensures
        field == label_field(label@),
{
    let chars = chars_of(label);
    if is_word(&chars, "Language") || is_word(&chars, "Sprog") {
        Some(Field::Language)
    } else if is_word(&chars, "Kursuskode") || is_word(&chars, "Course code") {
        Some(Field::Id)
    } else if is_word(&chars, "Point") || is_word(&chars, "Credit") {
        Some(Field::Ects)
    } else if is_word(&chars, "Level") || is_word(&chars, "Niveau") {
        Some(Field::Degree)
    } else if is_word(&chars, "Duration") || is_word(&chars, "Varighed") {
        Some(Field::Duration)
    } else if is_word(&chars, "Schedule") || is_word(&chars, "Skemagruppe") {
        Some(Field::Schedule)
    } else if is_word(&chars, "Course capacity") || is_word(&chars, "Kursuskapacitet") {
        Some(Field::Capacity)
    } else {
        None
    }
}

/// The field whose value `pass` reads from a pair with the label `label`.
fn target_of(pass: Pass, label: &str) -> (field: Option<Field>)
    ensures
        field == target(pass, label@),
{
    match pass {
        Pass::BlockFirst => {
            let chars = chars_of(label);
            if starts_with(&chars, "Place") {
                Some(Field::Block)
            } else {
                None
            }
        },
        Pass::Generic => field_of_label(label),
    }
}

/// Runs `pass` over `pairs`, starting from `start`.
fn run_pass(pass: Pass, pairs: &Vec<(String, String)>, start: Draft) -> (r: Result<
    Draft,
    CourseError,
>)
    ensures
        viewed(r) == pass_outcome(pass, texts(pairs@), start@),
{
    let ghost all = texts(pairs@);
    let ghost first = start@;
    let mut draft = start;
    let mut i: usize = 0;
    while i < pairs.len()
        invariant
            i <= pairs.len(),
            all == texts(pairs@),
            first == start@,
            pass_outcome(pass, all.take(i as int), first) == Ok::<Slots, Failure>(draft@),
        decreases pairs.len() - i,
    {
        assert(all.take(i + 1).drop_last() == all.take(i as int));
        assert(all.take(i + 1).last() == (pairs@[i as int].0@, pairs@[i as int].1@));
        let pair = &pairs[i];
        match target_of(pass, pair.0.as_str()) {
            None => {},
            Some(field) => match parse_field(field, pair.1.as_str()) {
                Ok(value) => {
                    draft = draft.put(value);
                },
                Err(e) => {
                    proof {
                        lemma_pass_stops(pass, all, first, i + 1);
                    }
                    return Err(e);
                },
            },
        }
        i = i + 1;
    }
    assert(all.take(pairs.len() as int) == all);
    Ok(draft)
}

/// Coerces the label/value pairs of a definition list into a course record.
///
/// Returns the record if every value that a pass reads fits its grammar and
/// all eight fields are named; otherwise the first failure, in the order
/// block pass, generic pass, missing field.
pub fn coerce_course_info(course_info: Vec<(String, String)>) -> (r: Result<
    CourseInformation,
    CourseError,
>)
    ensures
        viewed(r) == coerce_outcome(texts(course_info@)),
        r matches Ok(info) ==> info@.wf(),
{
    proof {
        crate::laws::law_record_is_well_formed(texts(course_info@));
    }
    let blocks = match run_pass(Pass::BlockFirst, &course_info, Draft::empty()) {
        Ok(draft) => draft,
        Err(e) => return Err(e),
    };
    let draft = match run_pass(Pass::Generic, &course_info, blocks) {
        Ok(draft) => draft,
        Err(e) => return Err(e),
    };
    draft.assemble()
}

} // verus!
