//! Turns the definition list of a course page into a validated course record.
//!
//! `parse_course` takes the markup of one page and returns the `Course` or
//! the reason why there is none. The way there, leaves first:
//!
//! - `text`: characters, digits and searching in texts;
//! - `unicode`: the two character properties taken from the standard library;
//! - `error`: the failures;
//! - `fields`: the typed fields and the grammar of each;
//! - `record`: the record, and the coercion of label/value pairs into it;
//! - `page`: a page as plain data; locating the list and pairing its children;
//! - `dom`: reading a page from markup;
//! - `laws`: what holds of pairing, coercion and page reading in general.

pub mod dom;
pub mod error;
pub mod fields;
pub mod laws;
pub mod page;
pub mod record;
pub mod text;
pub mod unicode;

pub use dom::parse_course;
pub use record::Course;
