//! Fields: named groups of courses that share a cap on the semesters that
//! count toward graduation.

use vstd::prelude::*;
use crate::course::Course;
use crate::course::CourseView;
use crate::error::SelectionError;
use crate::exam::Exam;
use crate::instance::CourseInstance;
use crate::instance::InstanceView;
use crate::search::first_where;
use crate::search::lemma_first_where_is;

verus! {

/// A named group of courses, of the catalog (`T = Course`) or of a
/// selection (`T = CourseInstance`).
#[derive(Debug, Clone)]
pub struct Field<T> {
    name: String,
    courses: Vec<T>,
    max_usable: Option<u32>,
}

/// What a `Field` stands for.
pub struct FieldView<C> {
    /// The name of the field.
    pub name: Seq<char>,
    /// The courses of the field, in their order.
    pub courses: Seq<C>,
    /// How many selected semesters of the field count at most, if capped.
    pub max_usable: Option<u32>,
}

impl<T: View> View for Field<T> {
    type V = FieldView<T::V>;

    closed spec fn view(&self) -> FieldView<T::V> {
        FieldView {
            name: self.name@,
            courses: self.courses@.map_values(|c: T| c@),
            max_usable: self.max_usable,
        }
    }
}

/// What a sequence of references to selection entries stands for.
pub open spec fn entries(refs: Seq<&CourseInstance>) -> Seq<InstanceView> {
    refs.map_values(|c: &CourseInstance| c@)
}

/// A fresh selection entry for `course` in a program of `total` semesters.
pub open spec fn fresh(course: CourseView, total: nat) -> InstanceView {
    InstanceView { course, semesters: Seq::new(total, |i: int| false), exam: None }
}

/// Fresh selection entries for `courses`, in their order.
pub open spec fn fresh_all(courses: Seq<CourseView>, total: nat) -> Seq<InstanceView> {
    courses.map_values(|c: CourseView| fresh(c, total))
}

/// The position of the first entry with the identifier `id`, or the number
/// of entries where there is none.
pub open spec fn position(courses: Seq<InstanceView>, id: Seq<char>) -> int {
    first_where(courses, |c: InstanceView| c.course.id == id)
}

/// The position of the first entry that holds the exam role `slot`, or the
/// number of entries where there is none.
pub open spec fn holder_position(courses: Seq<InstanceView>, slot: Exam) -> int {
    first_where(courses, |c: InstanceView| c.exam == Some(slot))
}

/// The position of the first course whose fixed duration ends behind a
/// program of `total` semesters, or the number of courses where there is
/// none.
pub open spec fn first_unfit(courses: Seq<CourseView>, total: nat) -> int {
    first_where(courses, |c: CourseView| !c.fits(total))
}

/// The selected semesters of all entries together.
pub open spec fn sum_selected(courses: Seq<InstanceView>) -> nat
    decreases courses.len(),
{
    if courses.len() == 0 {
        0
    } else {
        sum_selected(courses.drop_last()) + courses.last().selected()
    }
}

/// The entries that carry `tag`, in their order.
pub open spec fn tagged(courses: Seq<InstanceView>, tag: Seq<char>) -> Seq<InstanceView> {
    courses.filter(|c: InstanceView| c.course.tags.contains(tag))
}

impl<C> FieldView<C> {
    /// The field with the course at position `i` replaced by `course`.
    pub open spec fn with_course(self, i: int, course: C) -> FieldView<C> {
        FieldView { courses: self.courses.update(i, course), ..self }
    }
}

impl FieldView<InstanceView> {
    /// The selected semesters of all courses of the field together.
    pub open spec fn selected(self) -> nat {
        sum_selected(self.courses)
    }

    /// The selected semesters of the field that count toward graduation:
    /// all of them, but no more than the field's cap where it has one.
    pub open spec fn usable(self) -> nat {
        match self.max_usable {
            Some(cap) => if self.selected() <= cap {
                self.selected()
            } else {
                cap as nat
            },
            None => self.selected(),
        }
    }
}

/// The usable semesters of a field never exceed its cap where it has one,
/// and are exactly the selected semesters of its courses together where it
/// has none, whatever is selected.
pub proof fn law_usable_semesters(field: FieldView<InstanceView>)
    ensures
        field.max_usable matches Some(cap) ==> field.usable() <= cap,
        field.max_usable is None ==> field.usable() == field.selected(),
        field.usable() <= field.selected(),
{
}

impl<T: View> Field<T> {
    /// The name of the field.
    pub fn name(&self) -> (r: &str)
        ensures
            r@ == self@.name,
    {
        self.name.as_str()
    }

    /// How many selected semesters of the field count at most, if capped.
    pub fn max_usable(&self) -> (r: Option<u32>)
        ensures
            r == self@.max_usable,
    {
        self.max_usable
    }

    /// The courses of the field, in their order.
    pub fn courses(&self) -> (r: &Vec<T>)
        ensures
            r@.map_values(|c: T| c@) == self@.courses,
    {
        &self.courses
    }

    /// The number of courses of the field.
    pub fn len(&self) -> (r: usize)
        ensures
            r == self@.courses.len(),
    {
        self.courses.len()
    }

    /// The course at position `i`, if the field has that many.
    pub fn course(&self, i: usize) -> (r: Option<&T>)
        ensures
            match r {
                Some(c) => i < self@.courses.len() && c@ == self@.courses[i as int],
                None => i >= self@.courses.len(),
            },
    {
        if i < self.courses.len() {
            Some(&self.courses[i])
        } else {
            None
        }
    }
}

impl Field<Course> {
    /// A field without a cap.
    pub fn new(name: &str, courses: Vec<Course>) -> (r: Field<Course>)
        ensures
            r@ == (FieldView {
                name: name@,
                courses: courses@.map_values(|c: Course| c@),
                max_usable: None,
            }),
    {
        Field { name: name.to_owned(), courses, max_usable: None }
    }

    /// A field of which at most `max_usable` selected semesters count.
    pub fn new_max_usable(name: &str, subjects: Vec<Course>, max_usable: u32) -> (r: Field<Course>)
        ensures
            r@ == (FieldView {
                name: name@,
                courses: subjects@.map_values(|c: Course| c@),
                max_usable: Some(max_usable),
            }),
    {
        Field { name: name.to_owned(), courses: subjects, max_usable: Some(max_usable) }
    }

    /// The position of the first course whose fixed duration ends behind a
    /// program of `total` semesters, or the number of courses where there
    /// is none.
    pub fn first_unfit(&self, total: usize) -> (r: usize)
        ensures
            r == first_unfit(self@.courses, total as nat),
            r <= self@.courses.len(),
    {
        let mut i: usize = 0;
        while i < self.courses.len()
            invariant
                i <= self.courses.len(),
                forall|j: int| 0 <= j < i ==> (#[trigger] self@.courses[j]).fits(total as nat),
            decreases self.courses.len() - i,
        {
            if !self.courses[i].fits(total) {
                proof {
                    lemma_first_where_is(
                        self@.courses,
                        |c: CourseView| !c.fits(total as nat),
                        i as int,
                    );
                }
                return i;
            }
            i += 1;
        }
        proof {
            lemma_first_where_is(self@.courses, |c: CourseView| !c.fits(total as nat), i as int);
        }
        i
    }

    /// The field for a fresh selection in a program of `num_semesters`
    /// semesters: the same name, cap and courses, nothing selected.
    pub fn instantiate(&self, num_semesters: usize) -> (r: Field<CourseInstance>)
        ensures
            r@ == (FieldView {
                name: self@.name,
                courses: fresh_all(self@.courses, num_semesters as nat),
                max_usable: self@.max_usable,
            }),
    {
        let mut courses: Vec<CourseInstance> = Vec::new();
        let mut i: usize = 0;
        while i < self.courses.len()
            invariant
                i <= self.courses.len(),
                courses@.map_values(|c: CourseInstance| c@) == fresh_all(
                    self@.courses.take(i as int),
                    num_semesters as nat,
                ),
            decreases self.courses.len() - i,
        {
            let ghost before = courses@.map_values(|c: CourseInstance| c@);
            let entry = self.courses[i].clone().as_instance(num_semesters);
            assert(entry@ == fresh(self@.courses[i as int], num_semesters as nat)) by {
                assert(entry@.semesters =~= fresh(
                    self@.courses[i as int],
                    num_semesters as nat,
                ).semesters);
            }
            courses.push(entry);
            assert(courses@.map_values(|c: CourseInstance| c@) =~= before.push(entry@));
            assert(self@.courses.take(i + 1) =~= self@.courses.take(i as int).push(
                self@.courses[i as int],
            ));
            assert(fresh_all(self@.courses.take(i + 1), num_semesters as nat) =~= before.push(
                entry@,
            ));
            i += 1;
        }
        assert(self@.courses.take(i as int) =~= self@.courses);
        Field { name: self.name.clone(), courses, max_usable: self.max_usable }
    }
}

impl Field<CourseInstance> {
    /// The position of the first course with the identifier `id`, or the
    /// number of courses where there is none.
    pub fn index_of(&self, id: &str) -> (r: usize)
        ensures
            r == position(self@.courses, id@),
            r <= self@.courses.len(),
    {
        let mut i: usize = 0;
        while i < self.courses.len()
            invariant
                i <= self.courses.len(),
                forall|j: int| 0 <= j < i ==> (#[trigger] self@.courses[j]).course.id != id@,
            decreases self.courses.len() - i,
        {
            if self.courses[i].course().has_id(id) {
                proof {
                    lemma_first_where_is(
                        self@.courses,
                        |c: InstanceView| c.course.id == id@,
                        i as int,
                    );
                }
                return i;
            }
            i += 1;
        }
        proof {
            lemma_first_where_is(self@.courses, |c: InstanceView| c.course.id == id@, i as int);
        }
        i
    }

    /// The position of the first course that holds the exam role `slot`, or
    /// the number of courses where there is none.
    pub fn index_of_holder(&self, slot: Exam) -> (r: usize)
        ensures
            r == holder_position(self@.courses, slot),
            r <= self@.courses.len(),
    {
        let mut i: usize = 0;
        while i < self.courses.len()
            invariant
                i <= self.courses.len(),
                forall|j: int| 0 <= j < i ==> (#[trigger] self@.courses[j]).exam != Some(slot),
            decreases self.courses.len() - i,
        {
            if self.courses[i].exam() == Some(slot) {
                proof {
                    lemma_first_where_is(
                        self@.courses,
                        |c: InstanceView| c.exam == Some(slot),
                        i as int,
                    );
                }
                return i;
            }
            i += 1;
        }
        proof {
            lemma_first_where_is(self@.courses, |c: InstanceView| c.exam == Some(slot), i as int);
        }
        i
    }

    /// The first course of the field with the identifier `id`.
    pub fn find_by_id(&self, id: &str) -> (r: Option<&CourseInstance>)
        ensures
            match r {
                Some(c) => position(self@.courses, id@) < self@.courses.len() && c@
                    == self@.courses[position(self@.courses, id@)],
                None => position(self@.courses, id@) == self@.courses.len(),
            },
    {
        let i = self.index_of(id);
        if i < self.courses.len() {
            Some(&self.courses[i])
        } else {
            None
        }
    }

    /// The courses of the field that carry `tag`, in their order.
    pub fn find_by_tag(&self, tag: &str) -> (r: Vec<&CourseInstance>)
        ensures
            entries(r@) == tagged(self@.courses, tag@),
    {
        let mut found: Vec<&CourseInstance> = Vec::new();
        let mut i: usize = 0;
        while i < self.courses.len()
            invariant
                i <= self.courses.len(),
                entries(found@) == tagged(self@.courses.take(i as int), tag@),
            decreases self.courses.len() - i,
        {
            let course = &self.courses[i];
            proof {
                let carries = |c: InstanceView| c.course.tags.contains(tag@);
                let head = self@.courses.take(i as int);
                assert(self@.courses.take(i + 1) =~= head.push(course@));
                head.lemma_filter_push(course@, carries);
            }
            let ghost before = entries(found@);
            if course.course().has_tag(tag) {
                found.push(course);
                assert(entries(found@) =~= before.push(course@));
            }
            i += 1;
        }
        assert(self@.courses.take(i as int) =~= self@.courses);
        found
    }

    /// Toggles the semesters of the eligible window of the first course
    /// with the identifier `id`. Fails with `UnknownCourse` where the field
    /// has no such course.
    pub fn toggle_all_semesters(&mut self, id: &str) -> (r: Result<(), SelectionError>)
        ensures
            position(old(self)@.courses, id@) < old(self)@.courses.len() ==> r == Ok::<
                (),
                SelectionError,
            >(()) && final(self)@ == old(self)@.with_course(
                position(old(self)@.courses, id@),
                old(self)@.courses[position(old(self)@.courses, id@)].toggled(),
            ),
            position(old(self)@.courses, id@) >= old(self)@.courses.len() ==> r == Err::<
                (),
                SelectionError,
            >(SelectionError::UnknownCourse) && final(self)@ == old(self)@,
    {
        let i = self.index_of(id);
        if i < self.courses.len() {
            self.courses[i].toggle_all_semesters();
            assert(self@.courses =~= old(self)@.courses.update(
                i as int,
                old(self)@.courses[i as int].toggled(),
            ));
            Ok(())
        } else {
            Err(SelectionError::UnknownCourse)
        }
    }

    /// Sets the flag of semester `index` of the first course with the
    /// identifier `id`. Fails with `UnknownCourse` where the field has no
    /// such course, and as `CourseInstance::set_semester` does.
    pub fn set_semester(&mut self, id: &str, index: usize, value: bool) -> (r: Result<
        (),
        SelectionError,
    >)
        ensures
            r == set_semester_result(old(self)@.courses, id@, index, value),
            final(self)@ == (FieldView {
                courses: set_semester_effect(old(self)@.courses, id@, index, value),
                ..old(self)@
            }),
    {
        let i = self.index_of(id);
        if i < self.courses.len() {
            let r = self.courses[i].set_semester(index, value);
            assert(self@.courses =~= set_semester_effect(old(self)@.courses, id@, index, value));
            r
        } else {
            assert(self@.courses =~= set_semester_effect(old(self)@.courses, id@, index, value));
            Err(SelectionError::UnknownCourse)
        }
    }

    /// Gives the first course with the identifier `id` the exam role
    /// `slot`, or none. Fails with `UnknownCourse` where the field has no
    /// such course, and as `CourseInstance::assign_exam` does.
    pub fn assign_exam(&mut self, id: &str, slot: Option<Exam>) -> (r: Result<(), SelectionError>)
        ensures
            r == assign_exam_result(old(self)@.courses, id@, slot),
            final(self)@ == (FieldView {
                courses: assign_exam_effect(old(self)@.courses, id@, slot),
                ..old(self)@
            }),
    {
        let i = self.index_of(id);
        if i < self.courses.len() {
            let r = self.courses[i].assign_exam(slot);
            assert(self@.courses =~= assign_exam_effect(old(self)@.courses, id@, slot));
            r
        } else {
            assert(self@.courses =~= assign_exam_effect(old(self)@.courses, id@, slot));
            Err(SelectionError::UnknownCourse)
        }
    }
}

/// What `set_semester` answers for the first of `courses` with the
/// identifier `id`.
pub open spec fn set_semester_result(
    courses: Seq<InstanceView>,
    id: Seq<char>,
    index: usize,
    value: bool,
) -> Result<(), SelectionError> {
    let p = position(courses, id);
    if p >= courses.len() {
        Err(SelectionError::UnknownCourse)
    } else if index >= courses[p].total() {
        Err(SelectionError::IndexError)
    } else if !courses[p].in_window(index as int) {
        Err(SelectionError::OutOfWindow)
    } else {
        Ok(())
    }
}

/// The courses after `set_semester`: where it succeeds, the first course
/// with the identifier `id` has its flag set; otherwise nothing changes.
pub open spec fn set_semester_effect(
    courses: Seq<InstanceView>,
    id: Seq<char>,
    index: usize,
    value: bool,
) -> Seq<InstanceView> {
    let p = position(courses, id);
    if set_semester_result(courses, id, index, value) is Ok {
        courses.update(p, courses[p].with_semester(index as int, value))
    } else {
        courses
    }
}

/// What `assign_exam` answers for the first of `courses` with the
/// identifier `id`.
pub open spec fn assign_exam_result(
    courses: Seq<InstanceView>,
    id: Seq<char>,
    slot: Option<Exam>,
) -> Result<(), SelectionError> {
    let p = position(courses, id);
    if p >= courses.len() {
        Err(SelectionError::UnknownCourse)
    } else if !courses[p].may_hold(slot) {
        Err(SelectionError::IneligibleSlot)
    } else {
        Ok(())
    }
}

/// The courses after `assign_exam`: where it succeeds, the first course
/// with the identifier `id` holds `slot`; otherwise nothing changes.
pub open spec fn assign_exam_effect(
    courses: Seq<InstanceView>,
    id: Seq<char>,
    slot: Option<Exam>,
) -> Seq<InstanceView> {
    let p = position(courses, id);
    if assign_exam_result(courses, id, slot) is Ok {
        courses.update(p, courses[p].with_exam(slot))
    } else {
        courses
    }
}

/// The selected semesters of all courses of `field` together.
pub fn field_selected_semesters(field: &Field<CourseInstance>) -> (r: u128)
    ensures
        r == field@.selected(),
{
    let mut sum: u128 = 0;
    let mut i: usize = 0;
    while i < field.courses.len()
        invariant
            i <= field.courses.len(),
            sum == sum_selected(field@.courses.take(i as int)),
            sum <= i * 0x1_0000_0000_0000_0000,
        decreases field.courses.len() - i,
    {
        assert(field@.courses.take(i + 1).drop_last() =~= field@.courses.take(i as int));
        let count = field.courses[i].selected_semester_count();
        sum = sum + count as u128;
        i += 1;
    }
    assert(field@.courses.take(i as int) =~= field@.courses);
    sum
}

/// The selected semesters of `field` that count toward graduation: the sum
/// over its courses, but no more than the field's cap where it has one.
pub fn field_usable_semesters(field: &Field<CourseInstance>) -> (r: u128)
    ensures
        r == field@.usable(),
        field@.max_usable matches Some(cap) ==> r <= cap,
        field@.max_usable is None ==> r == field@.selected(),
{
    let sum = field_selected_semesters(field);
    match field.max_usable {
        Some(cap) => if sum <= cap as u128 {
            sum
        } else {
            cap as u128
        },
        None => sum,
    }
}

} // verus!
