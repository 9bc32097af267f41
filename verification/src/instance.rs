//! A student's choices for one course.

use vstd::prelude::*;
use crate::course::Course;
use crate::course::CourseView;
use crate::error::SelectionError;
use crate::exam::Exam;

verus! {

/// How many entries of `s` are `true`.
pub open spec fn count_selected(s: Seq<bool>) -> nat
    decreases s.len(),
{
    if s.len() == 0 {
        0
    } else {
        count_selected(s.drop_last()) + if s.last() {
            1nat
        } else {
            0nat
        }
    }
}

/// Whether every selected entry of `s` lies at `from..to`.
pub open spec fn selected_within(s: Seq<bool>, from: int, to: int) -> bool {
    forall|i: int| 0 <= i < s.len() && s[i] ==> from <= i < to
}

/// Whether an entry of `s` at `from..to` is selected.
pub open spec fn any_selected_in(s: Seq<bool>, from: int, to: int) -> bool {
    exists|i: int| from <= i < to && s[i]
}

/// Whether the `len` entries of `s` from `start` on are all selected.
pub open spec fn run_at(s: Seq<bool>, start: int, len: nat) -> bool {
    forall|j: int| start <= j < start + len ==> s[j]
}

/// Whether `len` entries in a row are selected somewhere in `s`.
pub open spec fn has_run(s: Seq<bool>, len: nat) -> bool {
    exists|start: int| 0 <= start && start + len <= s.len() && #[trigger] run_at(s, start, len)
}

/// `s` with the entries at `from..to` set to `value`.
pub open spec fn fill_range(s: Seq<bool>, from: int, to: int, value: bool) -> Seq<bool> {
    Seq::new(
        s.len(),
        |i: int|
            if from <= i < to {
                value
            } else {
                s[i]
            },
    )
}

/// A course together with what the student chose of it: one flag for each
/// semester of the program, and the exam role the course holds, if any.
#[derive(Debug)]
pub struct CourseInstance {
    course: Course,
    semesters: Vec<bool>,
    exam: Option<Exam>,
}

/// What a `CourseInstance` stands for.
pub struct InstanceView {
    /// The course the choices are about.
    pub course: CourseView,
    /// For each semester of the program, whether the course is selected.
    pub semesters: Seq<bool>,
    /// The exam role the course holds, if any.
    pub exam: Option<Exam>,
}

impl InstanceView {
    /// The number of semesters of the program.
    pub open spec fn total(self) -> nat {
        self.semesters.len()
    }

    /// The start of the course's eligible window.
    pub open spec fn window_start(self) -> nat {
        self.course.window_start(self.total())
    }

    /// The end (exclusive) of the course's eligible window.
    pub open spec fn window_end(self) -> nat {
        self.course.window_end(self.total())
    }

    /// Whether semester `i` lies in the course's eligible window.
    pub open spec fn in_window(self, i: int) -> bool {
        self.course.in_window(self.total(), i)
    }

    /// The validity of a selection entry: no semester outside the eligible
    /// window is selected, and an advanced-level exam role is held only by a
    /// possible advanced-level subject.
    pub open spec fn wf(self) -> bool {
        &&& selected_within(
            self.semesters,
            self.window_start() as int,
            self.window_end() as int,
        )
        &&& self.may_hold(self.exam)
    }

    /// The number of selected semesters.
    pub open spec fn selected(self) -> nat {
        count_selected(self.semesters)
    }

    /// Whether a semester of the eligible window is selected.
    pub open spec fn any_selected(self) -> bool {
        any_selected_in(self.semesters, self.window_start() as int, self.window_end() as int)
    }

    /// The entry after all semesters of the eligible window were toggled
    /// together: cleared if one of them was selected, selected otherwise.
    /// Semesters outside the window keep their flag.
    pub open spec fn toggled(self) -> InstanceView {
        InstanceView {
            semesters: fill_range(
                self.semesters,
                self.window_start() as int,
                self.window_end() as int,
                !self.any_selected(),
            ),
            ..self
        }
    }

    /// The entry with the flag of semester `i` set to `value`.
    pub open spec fn with_semester(self, i: int, value: bool) -> InstanceView {
        InstanceView { semesters: self.semesters.update(i, value), ..self }
    }

    /// The entry holding the exam role `slot`, or none.
    pub open spec fn with_exam(self, slot: Option<Exam>) -> InstanceView {
        InstanceView { exam: slot, ..self }
    }

    /// Whether the course may hold the exam role `slot`.
    pub open spec fn may_hold(self, slot: Option<Exam>) -> bool {
        match slot {
            Some(e) => e.open_to(self.course.lk_eligible()),
            None => true,
        }
    }

    /// The length of the block that `has_block` looks for: `min_len`, or
    /// the length of the program where that is shorter.
    pub open spec fn block_len(self, min_len: nat) -> nat {
        if min_len <= self.semesters.len() {
            min_len
        } else {
            self.semesters.len()
        }
    }

    /// Whether `block_len(min_len)` semesters in a row are selected.
    pub open spec fn has_block(self, min_len: nat) -> bool {
        has_run(self.semesters, self.block_len(min_len))
    }
}

impl View for CourseInstance {
    type V = InstanceView;

    closed spec fn view(&self) -> InstanceView {
        InstanceView { course: self.course@, semesters: self.semesters@, exam: self.exam }
    }
}

/// A sequence whose `true` entries are exactly those at `from..to` has
/// `to - from` of them.
pub proof fn lemma_count_range(s: Seq<bool>, from: int, to: int)
    requires
        0 <= from <= to <= s.len(),
        forall|i: int| 0 <= i < s.len() ==> (s[i] <==> from <= i < to),
    ensures
        count_selected(s) == to - from,
    decreases s.len(),
{
    if s.len() > 0 {
        let head = s.drop_last();
        if to == s.len() {
            if from == to {
                lemma_count_range(head, from - 1, to - 1);
            } else {
                lemma_count_range(head, from, to - 1);
            }
        } else {
            lemma_count_range(head, from, to);
        }
    }
}

/// Toggling keeps an entry valid, and leaves its course, the length of the
/// program and its exam role as they were.
pub proof fn lemma_toggled_valid(v: InstanceView)
    requires
        v.wf(),
    ensures
        v.toggled().wf(),
        v.toggled().course == v.course,
        v.toggled().total() == v.total(),
        v.toggled().exam == v.exam,
{
}

/// After the semesters of the eligible window were toggled together,
/// either none or all of them are selected, and no semester outside the
/// window is: all of them where none was selected before, none otherwise.
pub proof fn law_toggle_all_or_nothing(v: InstanceView)
    requires
        v.wf(),
    ensures
        v.any_selected() ==> v.toggled().selected() == 0,
        !v.any_selected() ==> v.toggled().selected() == v.window_end() - v.window_start(),
        selected_within(v.toggled().semesters, v.window_start() as int, v.window_end() as int),
{
    let after = v.toggled().semesters;
    if v.any_selected() {
        lemma_count_range(after, 0, 0);
    } else {
        lemma_count_range(after, v.window_start() as int, v.window_end() as int);
    }
}

/// For a course with the fixed duration `d` whose window lies inside the
/// program: after the toggle the number of selected semesters is `0` or
/// exactly `d`, and every selected semester lies in
/// `[semester_offset, semester_offset + d)`.
pub proof fn law_toggle_fixed_duration(v: InstanceView, d: usize)
    requires
        v.wf(),
        v.course.num_semesters == Some(d),
        v.course.fits(v.total()),
    ensures
        v.toggled().selected() == 0 || v.toggled().selected() == d,
        selected_within(
            v.toggled().semesters,
            v.course.semester_offset as int,
            v.course.semester_offset + d,
        ),
{
    law_toggle_all_or_nothing(v);
}

/// Toggling an entry with nothing selected twice gives the entry back.
pub proof fn law_toggle_round_trip(v: InstanceView)
    requires
        v.wf(),
        !v.any_selected(),
    ensures
        v.toggled().toggled() == v,
{
    let once = v.toggled();
    let from = v.window_start() as int;
    let to = v.window_end() as int;
    if from < to {
        assert(once.semesters[from]);
        assert(once.any_selected());
    }
    assert(once.toggled().semesters =~= v.semesters);
}

/// Setting a flag of the eligible window keeps an entry valid.
pub proof fn lemma_with_semester_valid(v: InstanceView, i: int, value: bool)
    requires
        v.wf(),
        v.in_window(i),
    ensures
        v.with_semester(i, value).wf(),
        v.with_semester(i, value).total() == v.total(),
{
}

/// Setting a flag to the value it has changes nothing: `set_semester` is
/// idempotent.
pub proof fn law_set_semester_idempotent(v: InstanceView, i: int, value: bool)
    requires
        0 <= i < v.total(),
    ensures
        v.with_semester(i, value).with_semester(i, value) == v.with_semester(i, value),
{
    assert(v.with_semester(i, value).with_semester(i, value).semesters =~= v.with_semester(
        i,
        value,
    ).semesters);
}

/// An exam role that the course may hold can be given again with the same
/// outcome: `assign_exam` is idempotent.
pub proof fn law_assign_exam_idempotent(v: InstanceView, slot: Option<Exam>)
    requires
        v.wf(),
        v.may_hold(slot),
    ensures
        v.with_exam(slot).wf(),
        v.with_exam(slot).may_hold(slot),
        v.with_exam(slot).with_exam(slot) == v.with_exam(slot),
{
}

impl Course {
    /// The course as a fresh selection entry in a program of
    /// `num_semesters` semesters: nothing selected, no exam role.
    pub fn as_instance(self, num_semesters: usize) -> (r: CourseInstance)
        ensures
            r@.course == self@,
            r@.semesters == Seq::new(num_semesters as nat, |i: int| false),
            r@.exam == None::<Exam>,
            r@.wf(),
    {
        let mut semesters: Vec<bool> = Vec::new();
        let mut i: usize = 0;
        while i < num_semesters
            invariant
                i <= num_semesters,
                semesters@ == Seq::new(i as nat, |j: int| false),
            decreases num_semesters - i,
        {
            semesters.push(false);
            assert(semesters@ =~= Seq::new((i + 1) as nat, |j: int| false));
            i += 1;
        }
        CourseInstance { course: self, semesters, exam: None }
    }
}

impl CourseInstance {
    /// Every value of the type is a valid selection entry.
    #[verifier::type_invariant]
    spec fn valid(self) -> bool {
        self@.wf()
    }

    /// The course the choices are about.
    pub fn course(&self) -> (r: &Course)
        ensures
            r@ == self@.course,
    {
        &self.course
    }

    /// For each semester of the program, whether the course is selected.
    pub fn semesters(&self) -> (r: &Vec<bool>)
        ensures
            r@ == self@.semesters,
            self@.wf(),
    {
        proof {
            use_type_invariant(self);
        }
        &self.semesters
    }

    /// The exam role the course holds, if any.
    pub fn exam(&self) -> (r: Option<Exam>)
        ensures
            r == self@.exam,
            self@.wf(),
    {
        proof {
            use_type_invariant(self);
        }
        self.exam
    }

    /// The number of semesters of the program.
    pub fn num_semesters(&self) -> (r: usize)
        ensures
            r == self@.total(),
    {
        self.semesters.len()
    }

    /// The eligible window `[start, end)` of the course: its fixed duration
    /// from its offset on, or the rest of the program from its offset on.
    pub fn eligible_window(&self) -> (r: (usize, usize))
        ensures
            r.0 == self@.window_start(),
            r.1 == self@.window_end(),
            r.0 <= r.1 <= self@.total(),
    {
        self.course.eligible_window(self.semesters.len())
    }

    /// The number of selected semesters.
    pub fn selected_semester_count(&self) -> (r: usize)
        ensures
            r == self@.selected(),
    {
        let mut count: usize = 0;
        let mut i: usize = 0;
        while i < self.semesters.len()
            invariant
                i <= self.semesters.len(),
                count == count_selected(self.semesters@.take(i as int)),
                count <= i,
            decreases self.semesters.len() - i,
        {
            assert(self.semesters@.take(i + 1).drop_last() =~= self.semesters@.take(i as int));
            if self.semesters[i] {
                count += 1;
            }
            i += 1;
        }
        assert(self.semesters@.take(i as int) =~= self.semesters@);
        count
    }

    /// Whether the course holds one of the two advanced-level exam roles.
    pub fn is_lk(&self) -> (r: bool)
        ensures
            r == match self@.exam {
                Some(e) => e.spec_is_lk(),
                None => false,
            },
    {
        match self.exam {
            Some(e) => e.is_lk(),
            None => false,
        }
    }

    /// Whether the `len` semesters from `start` on are all selected.
    fn run_selected(&self, start: usize, len: usize) -> (r: bool)
        requires
            start + len <= self@.semesters.len(),
        ensures
            r == run_at(self@.semesters, start as int, len as nat),
    {
        let mut j: usize = start;
        while j < start + len
            invariant
                start <= j <= start + len <= self.semesters.len(),
                forall|k: int| start <= k < j ==> self.semesters@[k],
            decreases start + len - j,
        {
            if !self.semesters[j] {
                assert(!self@.semesters[j as int]);
                return false;
            }
            j += 1;
        }
        true
    }

    /// Whether `min_len` semesters in a row are selected; where the program
    /// is shorter than `min_len`, whether all of its semesters are.
    pub fn has_block(&self, min_len: usize) -> (r: bool)
        ensures
            r == self@.has_block(min_len as nat),
    {
        let len = self.semesters.len();
        let k: usize = if min_len <= len {
            min_len
        } else {
            len
        };
        let mut start: usize = 0;
        while start <= len - k
            invariant
                k == self@.block_len(min_len as nat),
                k <= len == self.semesters.len(),
                start <= len - k + 1,
                forall|s: int| 0 <= s < start ==> !#[trigger] run_at(self.semesters@, s, k as nat),
            decreases len - k + 1 - start,
        {
            if self.run_selected(start, k) {
                return true;
            }
            start += 1;
        }
        false
    }

    /// Toggles the semesters of the eligible window together: if one of
    /// them is selected, all are cleared; otherwise all are selected.
    /// Semesters outside the window are not touched.
    pub fn toggle_all_semesters(&mut self)
        ensures
            final(self)@ == old(self)@.toggled(),
            final(self)@.wf(),
    {
        proof {
            use_type_invariant(&*self);
        }
        let (start, end) = self.eligible_window();
        let mut any: bool = false;
        let mut i: usize = start;
        while i < end
            invariant
                start <= i <= end <= self.semesters.len(),
                any == any_selected_in(self.semesters@, start as int, i as int),
            decreases end - i,
        {
            if self.semesters[i] {
                any = true;
            }
            i += 1;
        }
        assert(any == old(self)@.any_selected());
        let fill: bool = !any;
        let mut i: usize = start;
        while i < end
            invariant
                start <= i <= end <= self.semesters.len(),
                start == old(self)@.window_start(),
                end == old(self)@.window_end(),
                self.course == old(self).course,
                self.exam == old(self).exam,
                old(self)@.wf(),
                self.semesters@ == fill_range(old(self)@.semesters, start as int, i as int, fill),
            decreases end - i,
        {
            let ghost before = self.semesters@;
            self.semesters[i] = fill;
            assert(self.semesters@ =~= fill_range(old(self)@.semesters, start as int, i + 1, fill));
            i += 1;
        }
    }

    /// Sets the flag of semester `index` to `value`.
    ///
    /// Fails with `IndexError` where `index` lies outside the program, and
    /// with `OutOfWindow` where it lies in the program but outside the
    /// course's eligible window. A failed call changes nothing.
    pub fn set_semester(&mut self, index: usize, value: bool) -> (r: Result<(), SelectionError>)
        ensures
            index >= old(self)@.total() ==> r == Err::<(), SelectionError>(
                SelectionError::IndexError,
            ),
            index < old(self)@.total() && !old(self)@.in_window(index as int) ==> r == Err::<
                (),
                SelectionError,
            >(SelectionError::OutOfWindow),
            old(self)@.in_window(index as int) ==> r == Ok::<(), SelectionError>(()),
            r is Ok ==> final(self)@ == old(self)@.with_semester(index as int, value),
            r is Err ==> final(self)@ == old(self)@,
            final(self)@.wf(),
    {
        proof {
            use_type_invariant(&*self);
        }
        if index >= self.semesters.len() {
            return Err(SelectionError::IndexError);
        }
        let (start, end) = self.eligible_window();
        if index < start || index >= end {
            return Err(SelectionError::OutOfWindow);
        }
        self.semesters[index] = value;
        Ok(())
    }

    /// Gives the course the exam role `slot`, or none.
    ///
    /// Fails with `IneligibleSlot` where `slot` is an advanced-level exam
    /// and the course is not a possible advanced-level subject. A failed
    /// call changes nothing. Whether another course holds the role already
    /// is not looked at.
    pub fn assign_exam(&mut self, slot: Option<Exam>) -> (r: Result<(), SelectionError>)
        ensures
            !old(self)@.may_hold(slot) ==> r == Err::<(), SelectionError>(
                SelectionError::IneligibleSlot,
            ) && final(self)@ == old(self)@,
            old(self)@.may_hold(slot) ==> r == Ok::<(), SelectionError>(()) && final(self)@ == old(
                self,
            )@.with_exam(slot),
            final(self)@.wf(),
    {
        proof {
            use_type_invariant(&*self);
        }
        match slot {
            Some(e) => {
                if e.is_lk() && !self.course.is_lk_eligible() {
                    return Err(SelectionError::IneligibleSlot);
                }
            },
            None => {},
        }
        self.exam = slot;
        Ok(())
    }
}

} // verus!
