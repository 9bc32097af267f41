//! Course selection for the upper secondary years of a school: the catalog
//! of offered courses, a student's selection from it, and the host for the
//! graduation rules that a selection is held against.
//!
//! - [`course`], [`field`] and [`structure`] hold the catalog: courses with
//!   their tags and eligible windows, grouped in fields, over a program of a
//!   fixed number of semesters. [`catalog`] is the catalog of one school.
//! - [`instance`] holds a student's choices for one course; a
//!   `Structure<CourseInstance>` is a whole selection, edited course by
//!   course through `toggle_all_semesters`, `set_semester` and
//!   `assign_exam`. [`exam`] names the exam roles, [`error`] the errors.
//! - [`rules`] holds the rules that a script registers and makes their
//!   results against a selection. It runs no script itself: the program
//!   around it makes the calls into the script engine and hands back what
//!   came of them.
//!
//! The library is verified: each function is proved to meet its contract.
//! The contracts speak of what a value stands for: its view, written
//! `value@`.

pub mod catalog;
pub mod course;
mod engine;
pub mod error;
pub mod exam;
pub mod field;
pub mod instance;
pub mod rules;
pub mod search;
pub mod structure;
