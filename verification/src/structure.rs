//! The catalog of a school and a student's selection from it: fields of
//! courses over a program of a fixed number of semesters.

use vstd::prelude::*;
use crate::course::Course;
use crate::course::CourseView;
use crate::error::CatalogError;
use crate::error::SelectionError;
use crate::exam::Exam;
use crate::field::entries;
use crate::field::first_unfit;
use crate::field::fresh_all;
use crate::field::holder_position;
use crate::field::position;
use crate::field::tagged;
use crate::field::Field;
use crate::field::FieldView;
use crate::instance::law_toggle_fixed_duration;
use crate::instance::lemma_toggled_valid;
use crate::instance::lemma_with_semester_valid;
use crate::instance::CourseInstance;
use crate::instance::selected_within;
use crate::instance::InstanceView;
use crate::search::first_where;
use crate::search::lemma_first_where;
use crate::search::lemma_first_where_is;

verus! {

/// The fields of a program: the catalog of a school (`T = Course`) or a
/// student's selection from it (`T = CourseInstance`).
#[derive(Debug, Clone)]
pub struct Structure<T> {
    fields: Vec<Field<T>>,
    num_semesters: usize,
    school: String,
    version: String,
}

/// The catalog of a school.
pub type Catalog = Structure<Course>;

/// A student's selection.
pub type SelectionModel = Structure<CourseInstance>;

/// What a `Structure` stands for.
pub struct StructureView<C> {
    /// The fields, in their order.
    pub fields: Seq<FieldView<C>>,
    /// The number of semesters of the program.
    pub num_semesters: usize,
    /// The name of the school.
    pub school: Seq<char>,
    /// The version of the catalog.
    pub version: Seq<char>,
}

impl<T: View> View for Structure<T> {
    type V = StructureView<T::V>;

    closed spec fn view(&self) -> StructureView<T::V> {
        StructureView {
            fields: self.fields@.map_values(|f: Field<T>| f@),
            num_semesters: self.num_semesters,
            school: self.school@,
            version: self.version@,
        }
    }
}

/// What a sequence of catalog fields stands for.
pub open spec fn field_views(fields: Seq<Field<Course>>) -> Seq<FieldView<CourseView>> {
    fields.map_values(|f: Field<Course>| f@)
}

/// What a sequence of references to courses stands for.
pub open spec fn course_views(refs: Seq<&Course>) -> Seq<CourseView> {
    refs.map_values(|c: &Course| c@)
}

/// The courses of all fields, field by field, each field's in its order.
pub open spec fn flat<C>(fields: Seq<FieldView<C>>) -> Seq<C> {
    fields.map_values(|f: FieldView<C>| f.courses).flatten()
}

/// Whether the window of every course lies inside a program of `total`
/// semesters.
pub open spec fn courses_fit(courses: Seq<CourseView>, total: nat) -> bool {
    forall|i: int| 0 <= i < courses.len() ==> (#[trigger] courses[i]).fits(total)
}

/// Whether the window of every course of every field lies inside a program
/// of `total` semesters.
pub open spec fn catalog_fits(fields: Seq<FieldView<CourseView>>, total: nat) -> bool {
    forall|i: int| 0 <= i < fields.len() ==> courses_fit((#[trigger] fields[i]).courses, total)
}

/// The position of the first field with a course whose fixed duration ends
/// behind a program of `total` semesters, or the number of fields where
/// there is none.
pub open spec fn first_unfit_field(fields: Seq<FieldView<CourseView>>, total: nat) -> int {
    first_where(
        fields,
        |f: FieldView<CourseView>| first_unfit(f.courses, total) < f.courses.len(),
    )
}

/// The identifier of the first course, in the catalog's order, whose fixed
/// duration ends behind a program of `total` semesters.
pub open spec fn catalog_defect(fields: Seq<FieldView<CourseView>>, total: nat) -> Option<
    Seq<char>,
> {
    let f = first_unfit_field(fields, total);
    if f < fields.len() {
        Some(fields[f].courses[first_unfit(fields[f].courses, total)].id)
    } else {
        None
    }
}

/// Whether `c` is a valid entry of a selection over `total` semesters: it
/// covers the program, its course's window lies inside it, and it is valid
/// in itself.
pub open spec fn entry_valid(c: InstanceView, total: nat) -> bool {
    c.total() == total && c.course.fits(total) && c.wf()
}

/// Whether all of `courses` are valid entries of a selection over `total`
/// semesters.
pub open spec fn entries_valid(courses: Seq<InstanceView>, total: nat) -> bool {
    forall|i: int| 0 <= i < courses.len() ==> entry_valid(#[trigger] courses[i], total)
}

/// Whether the courses of all fields are valid entries of a selection over
/// `total` semesters.
pub open spec fn selection_valid(fields: Seq<FieldView<InstanceView>>, total: nat) -> bool {
    forall|i: int| 0 <= i < fields.len() ==> entries_valid((#[trigger] fields[i]).courses, total)
}

/// The position of the first field that has a course with the identifier
/// `id`, or the number of fields where there is none.
pub open spec fn field_position(fields: Seq<FieldView<InstanceView>>, id: Seq<char>) -> int {
    first_where(
        fields,
        |f: FieldView<InstanceView>| position(f.courses, id) < f.courses.len(),
    )
}

/// The position of the first field that has a course holding the exam role
/// `slot`, or the number of fields where there is none.
pub open spec fn holder_field_position(fields: Seq<FieldView<InstanceView>>, slot: Exam) -> int {
    first_where(
        fields,
        |f: FieldView<InstanceView>| holder_position(f.courses, slot) < f.courses.len(),
    )
}

/// The fields for a fresh selection over `total` semesters.
pub open spec fn fresh_fields(fields: Seq<FieldView<CourseView>>, total: nat) -> Seq<
    FieldView<InstanceView>,
> {
    fields.map_values(
        |f: FieldView<CourseView>|
            FieldView {
                name: f.name,
                courses: fresh_all(f.courses, total),
                max_usable: f.max_usable,
            },
    )
}

impl<C> StructureView<C> {
    /// The courses of all fields, field by field, each field's in its
    /// order.
    pub open spec fn courses(self) -> Seq<C> {
        flat(self.fields)
    }

    /// The structure with the courses of field `f` replaced by `courses`.
    pub open spec fn with_courses(self, f: int, courses: Seq<C>) -> StructureView<C> {
        StructureView {
            fields: self.fields.update(f, FieldView { courses, ..self.fields[f] }),
            ..self
        }
    }
}

impl StructureView<CourseView> {
    /// The validity of a catalog: the window of every course lies inside
    /// the program.
    pub open spec fn wf(self) -> bool {
        catalog_fits(self.fields, self.num_semesters as nat)
    }

    /// The fresh selection from the catalog: every course with nothing
    /// selected and no exam role.
    pub open spec fn instantiated(self) -> StructureView<InstanceView> {
        StructureView {
            fields: fresh_fields(self.fields, self.num_semesters as nat),
            num_semesters: self.num_semesters,
            school: self.school,
            version: self.version,
        }
    }
}

impl StructureView<InstanceView> {
    /// The validity of a selection: every entry covers the program, the
    /// window of its course lies inside it, and it is valid in itself.
    pub open spec fn wf(self) -> bool {
        selection_valid(self.fields, self.num_semesters as nat)
    }

    /// The position of the first field with a course of the identifier
    /// `id`, or the number of fields.
    pub open spec fn field_of(self, id: Seq<char>) -> int {
        field_position(self.fields, id)
    }

    /// Whether a course has the identifier `id`.
    pub open spec fn has(self, id: Seq<char>) -> bool {
        self.field_of(id) < self.fields.len()
    }

    /// The entry found by the identifier `id`: the first with it in the
    /// first field that has one.
    pub open spec fn find(self, id: Seq<char>) -> InstanceView
        recommends
            self.has(id),
    {
        let courses = self.fields[self.field_of(id)].courses;
        courses[position(courses, id)]
    }

    /// The selection with the entry found by `id` replaced by `entry`.
    pub open spec fn with_entry(self, id: Seq<char>, entry: InstanceView) -> StructureView<
        InstanceView,
    >
        recommends
            self.has(id),
    {
        let courses = self.fields[self.field_of(id)].courses;
        self.with_courses(self.field_of(id), courses.update(position(courses, id), entry))
    }

    /// The selection after `toggle_all_semesters`.
    pub open spec fn toggled(self, id: Seq<char>) -> StructureView<InstanceView> {
        if self.has(id) {
            self.with_entry(id, self.find(id).toggled())
        } else {
            self
        }
    }

    /// What `set_semester` answers.
    pub open spec fn set_semester_result(self, id: Seq<char>, index: usize, value: bool) -> Result<
        (),
        SelectionError,
    > {
        if !self.has(id) {
            Err(SelectionError::UnknownCourse)
        } else if index >= self.find(id).total() {
            Err(SelectionError::IndexError)
        } else if !self.find(id).in_window(index as int) {
            Err(SelectionError::OutOfWindow)
        } else {
            Ok(())
        }
    }

    /// The selection after `set_semester`.
    pub open spec fn after_set_semester(
        self,
        id: Seq<char>,
        index: usize,
        value: bool,
    ) -> StructureView<InstanceView> {
        if self.set_semester_result(id, index, value) is Ok {
            self.with_entry(id, self.find(id).with_semester(index as int, value))
        } else {
            self
        }
    }

    /// What `assign_exam` answers.
    pub open spec fn assign_exam_result(self, id: Seq<char>, slot: Option<Exam>) -> Result<
        (),
        SelectionError,
    > {
        if !self.has(id) {
            Err(SelectionError::UnknownCourse)
        } else if !self.find(id).may_hold(slot) {
            Err(SelectionError::IneligibleSlot)
        } else {
            Ok(())
        }
    }

    /// The selection after `assign_exam`.
    pub open spec fn after_assign_exam(self, id: Seq<char>, slot: Option<Exam>) -> StructureView<
        InstanceView,
    > {
        if self.assign_exam_result(id, slot) is Ok {
            self.with_entry(id, self.find(id).with_exam(slot))
        } else {
            self
        }
    }

    /// The identifier of the course that holds the exam role `slot`: the
    /// first holder in the first field that has one.
    pub open spec fn exam_holder(self, slot: Exam) -> Option<Seq<char>> {
        let f = holder_field_position(self.fields, slot);
        if f < self.fields.len() {
            let courses = self.fields[f].courses;
            Some(courses[holder_position(courses, slot)].course.id)
        } else {
            None
        }
    }
}

/// A catalog has no defect exactly if every course's window lies inside the
/// program.
pub proof fn lemma_catalog_defect(fields: Seq<FieldView<CourseView>>, total: nat)
    ensures
        catalog_defect(fields, total) is None <==> catalog_fits(fields, total),
{
    let unfit = |c: CourseView| !c.fits(total);
    let holds_unfit = |f: FieldView<CourseView>| first_unfit(f.courses, total) < f.courses.len();
    lemma_first_where(fields, holds_unfit);
    let f = first_unfit_field(fields, total);
    if f < fields.len() {
        lemma_first_where(fields[f].courses, unfit);
        let c = first_unfit(fields[f].courses, total);
        assert(!fields[f].courses[c].fits(total));
    } else {
        assert forall|i: int| 0 <= i < fields.len() implies courses_fit(
            (#[trigger] fields[i]).courses,
            total,
        ) by {
            lemma_first_where(fields[i].courses, unfit);
            assert(!holds_unfit(fields[i]));
        }
    }
}

/// A fresh selection from a valid catalog is a valid selection.
pub proof fn lemma_instantiated_valid(catalog: StructureView<CourseView>)
    requires
        catalog.wf(),
    ensures
        catalog.instantiated().wf(),
{
    let total = catalog.num_semesters as nat;
    let fields = catalog.instantiated().fields;
    assert forall|i: int| 0 <= i < fields.len() implies entries_valid(
        (#[trigger] fields[i]).courses,
        total,
    ) by {
        let before = catalog.fields[i].courses;
        let courses = fields[i].courses;
        assert(courses_fit(before, total));
        assert forall|j: int| 0 <= j < courses.len() implies entry_valid(
            #[trigger] courses[j],
            total,
        ) by {
            assert(before[j].fits(total));
        }
    }
}

/// The entry found by an identifier is where `find` says, and is a valid
/// entry of a valid selection.
pub proof fn lemma_find(m: StructureView<InstanceView>, id: Seq<char>)
    requires
        m.has(id),
    ensures
        0 <= m.field_of(id) < m.fields.len(),
        0 <= position(m.fields[m.field_of(id)].courses, id),
        position(m.fields[m.field_of(id)].courses, id) < m.fields[m.field_of(id)].courses.len(),
        m.find(id).course.id == id,
        m.wf() ==> entry_valid(m.find(id), m.num_semesters as nat),
{
    let total = m.num_semesters as nat;
    let f = m.field_of(id);
    lemma_first_where(
        m.fields,
        |f: FieldView<InstanceView>| position(f.courses, id) < f.courses.len(),
    );
    let courses = m.fields[f].courses;
    lemma_first_where(courses, |c: InstanceView| c.course.id == id);
    if m.wf() {
        assert(entries_valid(courses, total));
        assert(entry_valid(courses[position(courses, id)], total));
    }
}

/// Replacing the entry found by `id` with a valid entry keeps a selection
/// valid.
pub proof fn lemma_with_entry_valid(
    m: StructureView<InstanceView>,
    id: Seq<char>,
    entry: InstanceView,
)
    requires
        m.wf(),
        m.has(id),
        entry_valid(entry, m.num_semesters as nat),
    ensures
        m.with_entry(id, entry).wf(),
{
    let total = m.num_semesters as nat;
    let f = m.field_of(id);
    lemma_find(m, id);
    let courses = m.fields[f].courses;
    let p = position(courses, id);
    assert(entries_valid(courses, total));
    let after = m.with_entry(id, entry).fields;
    assert forall|i: int| 0 <= i < after.len() implies entries_valid(
        (#[trigger] after[i]).courses,
        total,
    ) by {
        if i == f {
            let changed = after[i].courses;
            assert forall|j: int| 0 <= j < changed.len() implies entry_valid(
                #[trigger] changed[j],
                total,
            ) by {
                if j != p {
                    assert(entry_valid(courses[j], total));
                }
            }
        } else {
            assert(entries_valid(m.fields[i].courses, total));
        }
    }
}

/// After the entry found by `id` was replaced by one with the same
/// identifier, `id` finds the replacement, in the same place.
pub proof fn lemma_find_replaced(m: StructureView<InstanceView>, id: Seq<char>, entry: InstanceView)
    requires
        m.has(id),
        entry.course.id == id,
    ensures
        m.with_entry(id, entry).has(id),
        m.with_entry(id, entry).field_of(id) == m.field_of(id),
        m.with_entry(id, entry).find(id) == entry,
        m.with_entry(id, m.find(id)) == m,
        m.with_entry(id, entry).with_entry(id, m.find(id)) == m,
{
    let holds = |f: FieldView<InstanceView>| position(f.courses, id) < f.courses.len();
    let has_id = |c: InstanceView| c.course.id == id;
    lemma_find(m, id);
    let f = m.field_of(id);
    let courses = m.fields[f].courses;
    let p = position(courses, id);
    lemma_first_where(m.fields, holds);
    lemma_first_where(courses, has_id);
    let after = m.with_entry(id, entry);
    let changed = after.fields[f].courses;
    assert(changed == courses.update(p, entry));
    assert forall|j: int| 0 <= j < p implies !has_id(#[trigger] changed[j]) by {
        assert(!has_id(courses[j]));
    }
    lemma_first_where_is(changed, has_id, p);
    assert forall|i: int| 0 <= i < f implies !holds(#[trigger] after.fields[i]) by {
        assert(!holds(m.fields[i]));
    }
    lemma_first_where_is(after.fields, holds, f);
    assert(m.with_entry(id, m.find(id)).fields =~= m.fields) by {
        assert(courses.update(p, courses[p]) =~= courses);
    }
    assert(after.with_entry(id, m.find(id)).fields =~= m.fields) by {
        assert(changed.update(p, courses[p]) =~= courses);
    }
}

/// For a course with the fixed duration `d`: after `toggle_all_semesters`
/// the course has `0` or exactly `d` selected semesters, all of them in
/// `[semester_offset, semester_offset + d)`.
pub proof fn law_toggle_all_semesters(m: StructureView<InstanceView>, id: Seq<char>, d: usize)
    requires
        m.wf(),
        m.has(id),
        m.find(id).course.num_semesters == Some(d),
    ensures
        m.toggled(id).has(id),
        m.toggled(id).find(id).selected() == 0 || m.toggled(id).find(id).selected() == d,
        selected_within(
            m.toggled(id).find(id).semesters,
            m.find(id).course.semester_offset as int,
            m.find(id).course.semester_offset + d,
        ),
{
    lemma_find(m, id);
    law_toggle_fixed_duration(m.find(id), d);
    lemma_find_replaced(m, id, m.find(id).toggled());
}

/// Toggling a course of which nothing is selected twice gives the selection
/// back.
pub proof fn law_toggle_round_trip(m: StructureView<InstanceView>, id: Seq<char>)
    requires
        m.wf(),
        m.has(id),
        !m.find(id).any_selected(),
    ensures
        m.toggled(id).toggled(id) == m,
{
    let entry = m.find(id);
    lemma_find(m, id);
    crate::instance::law_toggle_round_trip(entry);
    lemma_find_replaced(m, id, entry.toggled());
}

/// `set_semester` with an index outside the course's window fails, with
/// `OutOfWindow` where the index lies in the program and with `IndexError`
/// where it does not, and leaves the selection as it was.
pub proof fn law_set_semester_outside_window(
    m: StructureView<InstanceView>,
    id: Seq<char>,
    index: usize,
    value: bool,
)
    requires
        m.wf(),
        m.has(id),
        !m.find(id).in_window(index as int),
    ensures
        index < m.num_semesters ==> m.set_semester_result(id, index, value) == Err::<
            (),
            SelectionError,
        >(SelectionError::OutOfWindow),
        index >= m.num_semesters ==> m.set_semester_result(id, index, value) == Err::<
            (),
            SelectionError,
        >(SelectionError::IndexError),
        m.after_set_semester(id, index, value) == m,
{
    lemma_find(m, id);
}

/// `set_semester` is idempotent: doing it again has the same outcome and
/// changes nothing more.
pub proof fn law_set_semester_idempotent(
    m: StructureView<InstanceView>,
    id: Seq<char>,
    index: usize,
    value: bool,
)
    ensures
        m.after_set_semester(id, index, value).set_semester_result(id, index, value)
            == m.set_semester_result(id, index, value),
        m.after_set_semester(id, index, value).after_set_semester(id, index, value)
            == m.after_set_semester(id, index, value),
{
    if m.set_semester_result(id, index, value) is Ok {
        let entry = m.find(id).with_semester(index as int, value);
        let once = m.with_entry(id, entry);
        lemma_find(m, id);
        lemma_find_replaced(m, id, entry);
        lemma_find_replaced(once, id, entry);
        assert(entry.with_semester(index as int, value).semesters =~= entry.semesters);
        assert(once.with_entry(id, entry).fields =~= once.fields);
    }
}

/// `assign_exam` fails with `IneligibleSlot` exactly where the role is an
/// advanced-level exam and the course is not a possible advanced-level
/// subject; otherwise it succeeds, and doing it again has the same outcome
/// and changes nothing more.
pub proof fn law_assign_exam(m: StructureView<InstanceView>, id: Seq<char>, slot: Option<Exam>)
    requires
        m.wf(),
        m.has(id),
    ensures
        m.assign_exam_result(id, slot) == if slot matches Some(e) && e.spec_is_lk() && !m.find(
            id,
        ).course.lk_eligible() {
            Err::<(), SelectionError>(SelectionError::IneligibleSlot)
        } else {
            Ok::<(), SelectionError>(())
        },
        m.after_assign_exam(id, slot).assign_exam_result(id, slot) == m.assign_exam_result(
            id,
            slot,
        ),
        m.after_assign_exam(id, slot).after_assign_exam(id, slot) == m.after_assign_exam(id, slot),
{
    lemma_find(m, id);
    if m.assign_exam_result(id, slot) is Ok {
        let entry = m.find(id).with_exam(slot);
        let once = m.with_entry(id, entry);
        lemma_find_replaced(m, id, entry);
        lemma_find_replaced(once, id, entry);
    }
}

impl<T: View> Structure<T> {
    /// The fields, in their order.
    pub fn fields(&self) -> (r: &Vec<Field<T>>)
        ensures
            r@.map_values(|f: Field<T>| f@) == self@.fields,
    {
        &self.fields
    }

    /// The number of fields.
    pub fn num_fields(&self) -> (r: usize)
        ensures
            r == self@.fields.len(),
    {
        self.fields.len()
    }

    /// The field at position `i`, if there are that many.
    pub fn field(&self, i: usize) -> (r: Option<&Field<T>>)
        ensures
            match r {
                Some(f) => i < self@.fields.len() && f@ == self@.fields[i as int],
                None => i >= self@.fields.len(),
            },
    {
        if i < self.fields.len() {
            Some(&self.fields[i])
        } else {
            None
        }
    }

    /// The number of semesters of the program.
    pub fn num_semesters(&self) -> (r: usize)
        ensures
            r == self@.num_semesters,
    {
        self.num_semesters
    }

    /// The name of the school.
    pub fn school(&self) -> (r: &str)
        ensures
            r@ == self@.school,
    {
        self.school.as_str()
    }

    /// The version of the catalog.
    pub fn version(&self) -> (r: &str)
        ensures
            r@ == self@.version,
    {
        self.version.as_str()
    }
}

impl Structure<Course> {
    /// The catalog with the given fields over `total_semesters` semesters.
    ///
    /// Fails where the fixed duration of a course ends behind the program,
    /// and names the first such course in the catalog's order.
    pub fn build(
        fields: Vec<Field<Course>>,
        total_semesters: usize,
        school: &str,
        version: &str,
    ) -> (r: Result<Structure<Course>, CatalogError>)
        ensures
            match r {
                Ok(catalog) => catalog_defect(field_views(fields@), total_semesters as nat) is None
                    && catalog@ == (StructureView {
                    fields: field_views(fields@),
                    num_semesters: total_semesters,
                    school: school@,
                    version: version@,
                }) && catalog@.wf(),
                Err(e) => catalog_defect(field_views(fields@), total_semesters as nat) == Some(e@),
            },
    {
        let ghost views = field_views(fields@);
        let ghost total = total_semesters as nat;
        let ghost holds_unfit = |f: FieldView<CourseView>|
            first_unfit(f.courses, total) < f.courses.len();
        let mut i: usize = 0;
        while i < fields.len()
            invariant
                i <= fields.len(),
                views == field_views(fields@),
                total == total_semesters as nat,
                holds_unfit == |f: FieldView<CourseView>|
                    first_unfit(f.courses, total) < f.courses.len(),
                forall|j: int| 0 <= j < i ==> !holds_unfit(#[trigger] views[j]),
            decreases fields.len() - i,
        {
            let c = fields[i].first_unfit(total_semesters);
            match fields[i].course(c) {
                Some(course) => {
                    proof {
                        lemma_first_where_is(views, holds_unfit, i as int);
                    }
                    return Err(CatalogError::new(course.id()));
                },
                None => {},
            }
            i += 1;
        }
        proof {
            lemma_first_where_is(views, holds_unfit, i as int);
            lemma_catalog_defect(views, total);
        }
        Ok(
            Structure {
                fields,
                num_semesters: total_semesters,
                school: school.to_owned(),
                version: version.to_owned(),
            },
        )
    }

    /// A fresh selection from the catalog: every course with nothing
    /// selected and no exam role. The catalog is not changed.
    pub fn instantiate(&self) -> (r: Structure<CourseInstance>)
        ensures
            r@ == self@.instantiated(),
            self@.wf() ==> r@.wf(),
    {
        let ghost total = self.num_semesters as nat;
        let mut fields: Vec<Field<CourseInstance>> = Vec::new();
        let mut i: usize = 0;
        while i < self.fields.len()
            invariant
                i <= self.fields.len(),
                total == self.num_semesters as nat,
                fields@.map_values(|f: Field<CourseInstance>| f@) == fresh_fields(
                    self@.fields.take(i as int),
                    total,
                ),
            decreases self.fields.len() - i,
        {
            let ghost before = fields@.map_values(|f: Field<CourseInstance>| f@);
            let field = self.fields[i].instantiate(self.num_semesters);
            fields.push(field);
            assert(fields@.map_values(|f: Field<CourseInstance>| f@) =~= before.push(field@));
            assert(self@.fields.take(i + 1) =~= self@.fields.take(i as int).push(
                self@.fields[i as int],
            ));
            assert(fresh_fields(self@.fields.take(i + 1), total) =~= before.push(field@));
            i += 1;
        }
        assert(self@.fields.take(i as int) =~= self@.fields);
        proof {
            if self@.wf() {
                lemma_instantiated_valid(self@);
            }
        }
        Structure {
            fields,
            num_semesters: self.num_semesters,
            school: self.school.clone(),
            version: self.version.clone(),
        }
    }

    /// The courses of all fields, field by field, each field's in its
    /// order.
    pub fn iter_courses(&self) -> (r: Vec<&Course>)
        ensures
            course_views(r@) == self@.courses(),
    {
        let mut all: Vec<&Course> = Vec::new();
        let mut i: usize = 0;
        while i < self.fields.len()
            invariant
                i <= self.fields.len(),
                course_views(all@) == flat(self@.fields.take(i as int)),
            decreases self.fields.len() - i,
        {
            let field = &self.fields[i];
            let ghost done = course_views(all@);
            let mut j: usize = 0;
            while j < field.len()
                invariant
                    j <= field@.courses.len(),
                    field@ == self@.fields[i as int],
                    course_views(all@) == done + field@.courses.take(j as int),
                decreases field@.courses.len() - j,
            {
                let ghost before = course_views(all@);
                match field.course(j) {
                    Some(course) => {
                        all.push(course);
                        assert(course_views(all@) =~= before.push(course@));
                        assert(field@.courses.take(j + 1) =~= field@.courses.take(j as int).push(
                            course@,
                        ));
                    },
                    None => {},
                }
                j += 1;
            }
            proof {
                let head = self@.fields.take(i as int);
                let lists = head.map_values(|f: FieldView<CourseView>| f.courses);
                assert(field@.courses.take(j as int) =~= field@.courses);
                assert(self@.fields.take(i + 1) =~= head.push(field@));
                assert(self@.fields.take(i + 1).map_values(|f: FieldView<CourseView>| f.courses)
                    =~= lists.push(field@.courses));
                lists.lemma_flatten_push(field@.courses);
            }
            i += 1;
        }
        assert(self@.fields.take(i as int) =~= self@.fields);
        all
    }
}

impl Structure<CourseInstance> {
    /// The position of the first field with a course of the identifier
    /// `id`, or the number of fields where there is none.
    pub fn field_index_of(&self, id: &str) -> (r: usize)
        ensures
            r == self@.field_of(id@),
            r <= self@.fields.len(),
            r < self@.fields.len() ==> position(self@.fields[r as int].courses, id@)
                < self@.fields[r as int].courses.len(),
    {
        let ghost holds = |f: FieldView<InstanceView>| position(f.courses, id@) < f.courses.len();
        let mut i: usize = 0;
        while i < self.fields.len()
            invariant
                i <= self.fields.len(),
                holds == |f: FieldView<InstanceView>| position(f.courses, id@) < f.courses.len(),
                forall|j: int| 0 <= j < i ==> !holds(#[trigger] self@.fields[j]),
            decreases self.fields.len() - i,
        {
            if self.fields[i].index_of(id) < self.fields[i].len() {
                proof {
                    lemma_first_where_is(self@.fields, holds, i as int);
                }
                return i;
            }
            i += 1;
        }
        proof {
            lemma_first_where_is(self@.fields, holds, i as int);
        }
        i
    }

    /// The course with the identifier `id`: the first with it in the first
    /// field that has one.
    pub fn find_by_id(&self, id: &str) -> (r: Option<&CourseInstance>)
        ensures
            match r {
                Some(c) => self@.has(id@) && c@ == self@.find(id@),
                None => !self@.has(id@),
            },
    {
        let f = self.field_index_of(id);
        if f < self.fields.len() {
            self.fields[f].find_by_id(id)
        } else {
            None
        }
    }

    /// The courses that carry `tag`, in the catalog's order.
    pub fn find_by_tag(&self, tag: &str) -> (r: Vec<&CourseInstance>)
        ensures
            entries(r@) == tagged(self@.courses(), tag@),
    {
        let ghost carries = |c: InstanceView| c.course.tags.contains(tag@);
        let mut found: Vec<&CourseInstance> = Vec::new();
        let mut i: usize = 0;
        while i < self.fields.len()
            invariant
                i <= self.fields.len(),
                entries(found@) == tagged(flat(self@.fields.take(i as int)), tag@),
            decreases self.fields.len() - i,
        {
            let ghost done = entries(found@);
            let mut more = self.fields[i].find_by_tag(tag);
            let ghost added = entries(more@);
            found.append(&mut more);
            proof {
                let field = self@.fields[i as int];
                let head = self@.fields.take(i as int);
                let lists = head.map_values(|f: FieldView<InstanceView>| f.courses);
                assert(entries(found@) =~= done + added);
                assert(self@.fields.take(i + 1) =~= head.push(field));
                assert(self@.fields.take(i + 1).map_values(|f: FieldView<InstanceView>| f.courses)
                    =~= lists.push(field.courses));
                lists.lemma_flatten_push(field.courses);
                Seq::filter_distributes_over_add(
                    flat(head),
                    field.courses,
                    |c: InstanceView| c.course.tags.contains(tag@),
                );
            }
            i += 1;
        }
        assert(self@.fields.take(i as int) =~= self@.fields);
        found
    }

    /// Toggles the semesters of the eligible window of the course with the
    /// identifier `id` together: if one of them is selected, all are
    /// cleared; otherwise all are selected. Semesters outside the window
    /// are not touched. Fails with `UnknownCourse` where no course has the
    /// identifier.
    pub fn toggle_all_semesters(&mut self, id: &str) -> (r: Result<(), SelectionError>)
        ensures
            old(self)@.has(id@) ==> r == Ok::<(), SelectionError>(()),
            !old(self)@.has(id@) ==> r == Err::<(), SelectionError>(SelectionError::UnknownCourse),
            final(self)@ == old(self)@.toggled(id@),
            old(self)@.wf() ==> final(self)@.wf(),
    {
        let f = self.field_index_of(id);
        if f < self.fields.len() {
            let r = self.fields[f].toggle_all_semesters(id);
            proof {
                assert(self@.fields =~= old(self)@.toggled(id@).fields);
                lemma_find(old(self)@, id@);
                if old(self)@.wf() {
                    lemma_toggled_valid(old(self)@.find(id@));
                    lemma_with_entry_valid(old(self)@, id@, old(self)@.find(id@).toggled());
                }
            }
            r
        } else {
            Err(SelectionError::UnknownCourse)
        }
    }

    /// Sets the flag of semester `index` of the course with the identifier
    /// `id` to `value`.
    ///
    /// Fails with `UnknownCourse` where no course has the identifier, with
    /// `IndexError` where `index` lies outside the program, and with
    /// `OutOfWindow` where it lies in the program but outside the course's
    /// eligible window. A failed call changes nothing.
    pub fn set_semester(&mut self, id: &str, index: usize, value: bool) -> (r: Result<
        (),
        SelectionError,
    >)
        ensures
            r == old(self)@.set_semester_result(id@, index, value),
            final(self)@ == old(self)@.after_set_semester(id@, index, value),
            r is Err ==> final(self)@ == old(self)@,
            old(self)@.wf() ==> final(self)@.wf(),
            old(self)@.wf() && old(self)@.has(id@) && index >= old(self)@.num_semesters ==> r
                == Err::<(), SelectionError>(SelectionError::IndexError),
    {
        let f = self.field_index_of(id);
        if f < self.fields.len() {
            let r = self.fields[f].set_semester(id, index, value);
            proof {
                let before = old(self)@;
                assert(r == before.set_semester_result(id@, index, value));
                assert(self@.fields =~= before.after_set_semester(id@, index, value).fields);
                lemma_find(before, id@);
                if r is Ok && before.wf() {
                    lemma_with_semester_valid(before.find(id@), index as int, value);
                    lemma_with_entry_valid(
                        before,
                        id@,
                        before.find(id@).with_semester(index as int, value),
                    );
                }
            }
            r
        } else {
            Err(SelectionError::UnknownCourse)
        }
    }

    /// Gives the course with the identifier `id` the exam role `slot`, or
    /// none.
    ///
    /// Fails with `UnknownCourse` where no course has the identifier, and
    /// with `IneligibleSlot` where `slot` is an advanced-level exam and the
    /// course is not a possible advanced-level subject. A failed call
    /// changes nothing. Whether another course holds the role already is
    /// not looked at: see `exam_holder`.
    pub fn assign_exam(&mut self, id: &str, slot: Option<Exam>) -> (r: Result<(), SelectionError>)
        ensures
            r == old(self)@.assign_exam_result(id@, slot),
            final(self)@ == old(self)@.after_assign_exam(id@, slot),
            r is Err ==> final(self)@ == old(self)@,
            old(self)@.wf() ==> final(self)@.wf(),
    {
        let f = self.field_index_of(id);
        if f < self.fields.len() {
            let r = self.fields[f].assign_exam(id, slot);
            proof {
                let before = old(self)@;
                assert(r == before.assign_exam_result(id@, slot));
                assert(self@.fields =~= before.after_assign_exam(id@, slot).fields);
                lemma_find(before, id@);
                if r is Ok && before.wf() {
                    lemma_with_entry_valid(before, id@, before.find(id@).with_exam(slot));
                }
            }
            r
        } else {
            Err(SelectionError::UnknownCourse)
        }
    }

    /// The identifier of the course that holds the exam role `slot`, if one
    /// does: the first holder in the catalog's order.
    pub fn exam_holder(&self, slot: Exam) -> (r: Option<&str>)
        ensures
            match r {
                Some(id) => self@.exam_holder(slot) == Some(id@),
                None => self@.exam_holder(slot) is None,
            },
    {
        let ghost holds = |f: FieldView<InstanceView>|
            holder_position(f.courses, slot) < f.courses.len();
        let mut i: usize = 0;
        while i < self.fields.len()
            invariant
                i <= self.fields.len(),
                holds == |f: FieldView<InstanceView>|
                    holder_position(f.courses, slot) < f.courses.len(),
                forall|j: int| 0 <= j < i ==> !holds(#[trigger] self@.fields[j]),
            decreases self.fields.len() - i,
        {
            let c = self.fields[i].index_of_holder(slot);
            match self.fields[i].course(c) {
                Some(holder) => {
                    proof {
                        lemma_first_where_is(self@.fields, holds, i as int);
                    }
                    return Some(holder.course().id());
                },
                None => {},
            }
            i += 1;
        }
        proof {
            lemma_first_where_is(self@.fields, holds, i as int);
        }
        None
    }

    /// The number of selected semesters of the course with the identifier
    /// `id`, if there is such a course.
    pub fn selected_semester_count(&self, id: &str) -> (r: Option<usize>)
        ensures
            match r {
                Some(n) => self@.has(id@) && n == self@.find(id@).selected(),
                None => !self@.has(id@),
            },
    {
        match self.find_by_id(id) {
            Some(c) => Some(c.selected_semester_count()),
            None => None,
        }
    }
}

} // verus!
