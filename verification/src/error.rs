//! The errors of the catalog and of edits to a selection.

use vstd::prelude::*;

verus! {

/// Why an edit to a selection was refused. The selection is unchanged.
#[derive(Debug, PartialEq, Eq, Clone, Copy, Structural)]
pub enum SelectionError {
    /// The semester index lies outside the program.
    IndexError,
    /// The semester index lies in the program, but outside the course's
    /// eligible window.
    OutOfWindow,
    /// The exam role is an advanced-level exam and the course is not a
    /// possible advanced-level subject.
    IneligibleSlot,
    /// No course of the selection has the given identifier.
    UnknownCourse,
}

/// A course of a catalog whose fixed duration ends behind the program.
#[derive(Debug, PartialEq, Eq, Clone)]
pub struct CatalogError {
    course_id: String,
}

impl View for CatalogError {
    type V = Seq<char>;

    /// The identifier of the offending course.
    closed spec fn view(&self) -> Seq<char> {
        self.course_id@
    }
}

impl CatalogError {
    /// The error for the course with the identifier `course_id`.
    pub fn new(course_id: &str) -> (r: CatalogError)
        ensures
            r@ == course_id@,
    {
        CatalogError { course_id: course_id.to_owned() }
    }

    /// The identifier of the offending course.
    pub fn course_id(&self) -> (r: &str)
        ensures
            r@ == self@,
    {
        self.course_id.as_str()
    }
}

} // verus!
