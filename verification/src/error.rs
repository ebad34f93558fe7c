//! The ways in which reading a course page can fail.

use vstd::prelude::*;

verus! {

/// The eight fields of a course record.
#[derive(Clone, Copy, Debug, PartialEq, Eq, Hash, Structural)]
pub enum Field {
    Id,
    Ects,
    Block,
    Schedule,
    Language,
    Duration,
    Degree,
    Capacity,
}

impl Field {
    /// The place of the field in the order of the record, from 0.
    pub open spec fn position(self) -> int {
        match self {
            Field::Id => 0,
            Field::Ects => 1,
            Field::Block => 2,
            Field::Schedule => 3,
            Field::Language => 4,
            Field::Duration => 5,
            Field::Degree => 6,
            Field::Capacity => 7,
        }
    }
}

/// What is wrong with the markup of a page that does have a content region.
#[derive(Clone, Copy, Debug, PartialEq, Eq, Hash, Structural)]
pub enum StructuralFault {
    /// No panel body holds a definition list.
    NoDefinitionList,
    /// A node that the page refers to cannot be read as an element.
    UnreadableNode,
    /// The definition list holds an element that is neither label nor value.
    UnexpectedChild,
    /// The labels and values of the definition list do not pair up.
    HalfFormedPair,
}

/// Why no course record was produced.
#[derive(Clone, Debug, PartialEq, Eq)]
pub enum CourseError {
    /// The document is longer than the markup reader accepts.
    DocumentTooLarge,
    /// The page has no content region: it is not a course page of the known
    /// layout (a course that is not defined yet looks like this).
    UnrecognizedPageShape,
    /// The page has a content region, but its markup is not as expected.
    StructuralError(StructuralFault),
    /// The text given for a field does not fit the field's grammar.
    FieldParse { field: Field, text: String },
    /// No label of the definition list names this field.
    MissingField(Field),
}

/// The mathematical model of a `CourseError`: texts are character sequences.
pub enum Failure {
    DocumentTooLarge,
    UnrecognizedPageShape,
    StructuralError(StructuralFault),
    FieldParse { field: Field, text: Seq<char> },
    MissingField(Field),
}

impl View for CourseError {
    type V = Failure;

    open spec fn view(&self) -> Failure {
        match *self {
            CourseError::DocumentTooLarge => Failure::DocumentTooLarge,
            CourseError::UnrecognizedPageShape => Failure::UnrecognizedPageShape,
            CourseError::StructuralError(fault) => Failure::StructuralError(fault),
            CourseError::FieldParse { field, text } => Failure::FieldParse { field, text: text@ },
            CourseError::MissingField(field) => Failure::MissingField(field),
        }
    }
}

/// The model of a result whose value is its own model.
pub open spec fn plain<T>(r: Result<T, CourseError>) -> Result<T, Failure> {
    match r {
        Ok(v) => Ok(v),
        Err(e) => Err(e@),
    }
}

/// The model of a result whose value has a view.
pub open spec fn viewed<T: View>(r: Result<T, CourseError>) -> Result<T::V, Failure> {
    match r {
        Ok(v) => Ok(v@),
        Err(e) => Err(e@),
    }
}

/// The failure of `field` on the text `text`.
pub open spec fn rejected(field: Field, text: Seq<char>) -> Failure {
    Failure::FieldParse { field, text }
}

/// The error that reports that `text` does not fit the grammar of `field`.
pub fn reject(field: Field, text: &str) -> (e: CourseError)
    ensures
        e@ == rejected(field, text@),
{
    CourseError::FieldParse { field, text: text.to_owned() }
}

} // verus!
