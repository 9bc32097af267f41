//! Courses as the catalog offers them.

use vstd::prelude::*;

verus! {

/// The tag that marks a course as a possible advanced-level subject.
pub open spec fn lk_tag() -> Seq<char> {
    "lk"@
}

/// The texts of a sequence of strings.
pub open spec fn texts(v: Seq<String>) -> Seq<Seq<char>> {
    v.map_values(|s: String| s@)
}

/// The texts of a sequence of string slices.
pub open spec fn slice_texts(v: Seq<&str>) -> Seq<Seq<char>> {
    v.map_values(|s: &str| s@)
}

/// A course of the catalog: what is offered, not what a student chose.
#[derive(Debug)]
pub struct Course {
    name: String,
    id: String,
    tags: Vec<String>,
    num_semesters: Option<usize>,
    semester_offset: usize,
    lessons_per_week: Option<usize>,
}

/// What a `Course` stands for.
pub struct CourseView {
    /// The name shown to the student.
    pub name: Seq<char>,
    /// The identifier by which rules and edits find the course.
    pub id: Seq<char>,
    /// The capability labels of the course.
    pub tags: Set<Seq<char>>,
    /// The fixed duration in semesters, if the course has one.
    pub num_semesters: Option<usize>,
    /// The first semester in which the course can be chosen.
    pub semester_offset: usize,
    /// The weekly lesson count, if it is known.
    pub lessons_per_week: Option<usize>,
}

impl CourseView {
    /// The end (exclusive) of the eligible window in a program of `total`
    /// semesters: `semester_offset + num_semesters` for a course of fixed
    /// duration, the end of the program otherwise; never past the program.
    pub open spec fn window_end(self, total: nat) -> nat {
        match self.num_semesters {
            Some(d) => if self.semester_offset + d <= total {
                (self.semester_offset + d) as nat
            } else {
                total
            },
            None => total,
        }
    }

    /// The start of the eligible window in a program of `total` semesters:
    /// `semester_offset`, or the window's end where the offset lies behind it.
    pub open spec fn window_start(self, total: nat) -> nat {
        if self.semester_offset <= self.window_end(total) {
            self.semester_offset as nat
        } else {
            self.window_end(total)
        }
    }

    /// Whether semester `i` lies in the eligible window.
    pub open spec fn in_window(self, total: nat, i: int) -> bool {
        self.window_start(total) <= i < self.window_end(total)
    }

    /// Whether the course's window lies inside a program of `total`
    /// semesters: a fixed duration must end by the program's end.
    pub open spec fn fits(self, total: nat) -> bool {
        match self.num_semesters {
            Some(d) => self.semester_offset + d <= total,
            None => true,
        }
    }

    /// Whether the course is a possible advanced-level subject.
    pub open spec fn lk_eligible(self) -> bool {
        self.tags.contains(lk_tag())
    }
}

impl View for Course {
    type V = CourseView;

    closed spec fn view(&self) -> CourseView {
        CourseView {
            name: self.name@,
            id: self.id@,
            tags: texts(self.tags@).to_set(),
            num_semesters: self.num_semesters,
            semester_offset: self.semester_offset,
            lessons_per_week: self.lessons_per_week,
        }
    }
}

impl Clone for Course {
    /// A copy of the course.
    fn clone(&self) -> (r: Course)
        ensures
            r@ == self@,
    {
        proof {
            use_type_invariant(self);
        }
        let mut tags: Vec<String> = Vec::new();
        let mut i: usize = 0;
        while i < self.tags.len()
            invariant
                i <= self.tags.len(),
                texts(tags@) == texts(self.tags@).take(i as int),
            decreases self.tags.len() - i,
        {
            let ghost before = tags@;
            let tag = self.tags[i].clone();
            assert(tag@ == texts(self.tags@)[i as int]);
            tags.push(tag);
            assert(texts(tags@) =~= texts(before).push(tag@));
            assert(texts(self.tags@).take(i + 1) =~= texts(self.tags@).take(i as int).push(tag@));
            i += 1;
        }
        assert(texts(self.tags@).take(i as int) =~= texts(self.tags@));
        Course {
            name: self.name.clone(),
            id: self.id.clone(),
            tags,
            num_semesters: self.num_semesters,
            semester_offset: self.semester_offset,
            lessons_per_week: self.lessons_per_week,
        }
    }
}

/// Whether `probe` is among `tags`.
fn holds(tags: &Vec<String>, probe: &String) -> (r: bool)
    ensures
        r == texts(tags@).contains(probe@),
{
    let mut i: usize = 0;
    while i < tags.len()
        invariant
            i <= tags.len(),
            forall|j: int| 0 <= j < i ==> texts(tags@)[j] != probe@,
        decreases tags.len() - i,
    {
        if tags[i] == *probe {
            assert(texts(tags@)[i as int] == probe@);
            return true;
        }
        i += 1;
    }
    false
}

impl Course {
    /// No tag is stored twice.
    #[verifier::type_invariant]
    spec fn distinct_tags(self) -> bool {
        texts(self.tags@).no_duplicates()
    }

    /// A course with the given name, identifier and tags, without a fixed
    /// duration, open from the first semester on. A tag given twice counts
    /// once.
    pub fn new(name: &str, id: &str, tags: Vec<&str>) -> (r: Course)
        ensures
            r@ == (CourseView {
                name: name@,
                id: id@,
                tags: slice_texts(tags@).to_set(),
                num_semesters: None,
                semester_offset: 0,
                lessons_per_week: None,
            }),
    {
        let mut kept: Vec<String> = Vec::new();
        let mut i: usize = 0;
        while i < tags.len()
            invariant
                i <= tags.len(),
                texts(kept@).no_duplicates(),
                forall|t: Seq<char>|
                    texts(kept@).contains(t) <==> slice_texts(tags@).take(i as int).contains(t),
            decreases tags.len() - i,
        {
            let tag = tags[i].to_owned();
            let ghost before = kept@;
            let ghost seen = slice_texts(tags@).take(i as int);
            let ghost next = slice_texts(tags@).take(i + 1);
            assert(next =~= seen.push(tag@));
            if !holds(&kept, &tag) {
                kept.push(tag);
                assert(texts(kept@) =~= texts(before).push(tag@));
            }
            assert forall|t: Seq<char>| texts(kept@).contains(t) <==> next.contains(t) by {
                if texts(kept@).contains(t) {
                    if t != tag@ {
                        let k = choose|k: int| 0 <= k < texts(kept@).len() && texts(kept@)[k] == t;
                        assert(texts(before)[k] == t);
                        assert(texts(before).contains(t));
                        let m = choose|m: int| 0 <= m < seen.len() && seen[m] == t;
                        assert(next[m] == t);
                    } else {
                        assert(next[i as int] == t);
                    }
                }
                if next.contains(t) {
                    let m = choose|m: int| 0 <= m < next.len() && next[m] == t;
                    if m < i {
                        assert(seen[m] == t);
                        assert(seen.contains(t));
                        assert(texts(before).contains(t));
                        let k = choose|k: int|
                            0 <= k < texts(before).len() && texts(before)[k] == t;
                        assert(texts(kept@)[k] == t);
                    } else {
                        assert(t == tag@);
                        if texts(before).contains(t) {
                            let k = choose|k: int|
                                0 <= k < texts(before).len() && texts(before)[k] == t;
                            assert(texts(kept@)[k] == t);
                        } else {
                            assert(texts(kept@)[before.len() as int] == t);
                        }
                    }
                }
            }
            i += 1;
        }
        assert(slice_texts(tags@).take(i as int) =~= slice_texts(tags@));
        assert(texts(kept@).to_set() =~= slice_texts(tags@).to_set());
        Course {
            name: name.to_owned(),
            id: id.to_owned(),
            tags: kept,
            num_semesters: None,
            semester_offset: 0,
            lessons_per_week: None,
        }
    }

    /// The same course with a fixed duration of `num_semesters` semesters.
    pub fn with_semesters(self, num_semesters: usize) -> (r: Course)
        ensures
            r@ == (CourseView { num_semesters: Some(num_semesters), ..self@ }),
    {
        proof {
            use_type_invariant(&self);
        }
        Course {
            name: self.name,
            id: self.id,
            tags: self.tags,
            num_semesters: Some(num_semesters),
            semester_offset: self.semester_offset,
            lessons_per_week: self.lessons_per_week,
        }
    }

    /// The same course, open from semester `offset` on.
    pub fn with_offset(self, offset: usize) -> (r: Course)
        ensures
            r@ == (CourseView { semester_offset: offset, ..self@ }),
    {
        proof {
            use_type_invariant(&self);
        }
        Course {
            name: self.name,
            id: self.id,
            tags: self.tags,
            num_semesters: self.num_semesters,
            semester_offset: offset,
            lessons_per_week: self.lessons_per_week,
        }
    }

    /// The same course with `lessons` lessons a week.
    pub fn with_lessons_per_week(self, lessons: usize) -> (r: Course)
        ensures
            r@ == (CourseView { lessons_per_week: Some(lessons), ..self@ }),
    {
        proof {
            use_type_invariant(&self);
        }
        Course {
            name: self.name,
            id: self.id,
            tags: self.tags,
            num_semesters: self.num_semesters,
            semester_offset: self.semester_offset,
            lessons_per_week: Some(lessons),
        }
    }

    /// The name shown to the student.
    pub fn name(&self) -> (r: &str)
        ensures
            r@ == self@.name,
    {
        self.name.as_str()
    }

    /// The identifier of the course.
    pub fn id(&self) -> (r: &str)
        ensures
            r@ == self@.id,
    {
        self.id.as_str()
    }

    /// The tags of the course, each once.
    pub fn tags(&self) -> (r: &Vec<String>)
        ensures
            texts(r@).to_set() == self@.tags,
            texts(r@).no_duplicates(),
    {
        proof {
            use_type_invariant(self);
        }
        &self.tags
    }

    /// The fixed duration in semesters, if the course has one.
    pub fn num_semesters(&self) -> (r: Option<usize>)
        ensures
            r == self@.num_semesters,
    {
        self.num_semesters
    }

    /// The first semester in which the course can be chosen.
    pub fn semester_offset(&self) -> (r: usize)
        ensures
            r == self@.semester_offset,
    {
        self.semester_offset
    }

    /// The weekly lesson count, if it is known.
    pub fn lessons_per_week(&self) -> (r: Option<usize>)
        ensures
            r == self@.lessons_per_week,
    {
        self.lessons_per_week
    }

    /// Whether the course carries `tag`.
    pub fn has_tag(&self, tag: &str) -> (r: bool)
        ensures
            r == self@.tags.contains(tag@),
    {
        let probe = tag.to_owned();
        holds(&self.tags, &probe)
    }

    /// Whether the course is a possible advanced-level subject.
    pub fn is_lk_eligible(&self) -> (r: bool)
        ensures
            r == self@.lk_eligible(),
    {
        self.has_tag("lk")
    }

    /// Whether the course has the identifier `id`.
    pub fn has_id(&self, id: &str) -> (r: bool)
        ensures
            r == (self@.id == id@),
    {
        let probe = id.to_owned();
        self.id == probe
    }

    /// The eligible window `[start, end)` of the course in a program of
    /// `total` semesters.
    pub fn eligible_window(&self, total: usize) -> (r: (usize, usize))
        ensures
            r.0 == self@.window_start(total as nat),
            r.1 == self@.window_end(total as nat),
            r.0 <= r.1 <= total,
    {
        let end: usize = match self.num_semesters {
            Some(d) => if self.semester_offset <= total && d <= total - self.semester_offset {
                self.semester_offset + d
            } else {
                total
            },
            None => total,
        };
        let start: usize = if self.semester_offset <= end {
            self.semester_offset
        } else {
            end
        };
        (start, end)
    }

    /// Whether the course's window lies inside a program of `total`
    /// semesters.
    pub fn fits(&self, total: usize) -> (r: bool)
        ensures
            r == self@.fits(total as nat),
    {
        match self.num_semesters {
            Some(d) => self.semester_offset <= total && d <= total - self.semester_offset,
            None => true,
        }
    }
}

} // verus!
