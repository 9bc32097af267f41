//! The catalog of the Hans-Carossa-Gymnasium.

use vstd::prelude::*;
use crate::course::slice_texts;
use crate::course::Course;
use crate::course::CourseView;
use crate::field::Field;
use crate::field::FieldView;
use crate::structure::catalog_fits;
use crate::structure::courses_fit;
use crate::structure::field_views;
use crate::structure::lemma_catalog_defect;
use crate::structure::Structure;
use crate::structure::StructureView;

verus! {

/// A course as `Course::new` makes it: without a fixed duration, open from
/// the first semester on.
pub open spec fn offered(name: Seq<char>, id: Seq<char>, tags: Set<Seq<char>>) -> CourseView {
    CourseView {
        name,
        id,
        tags,
        num_semesters: None,
        semester_offset: 0,
        lessons_per_week: None,
    }
}

/// The course with a fixed duration of `semesters` semesters.
pub open spec fn lasting(course: CourseView, semesters: usize) -> CourseView {
    CourseView { num_semesters: Some(semesters), ..course }
}

/// The course, open from semester `offset` on.
pub open spec fn starting(course: CourseView, offset: usize) -> CourseView {
    CourseView { semester_offset: offset, ..course }
}

/// No tag at all.
pub open spec fn no_tags() -> Set<Seq<char>> {
    Set::empty()
}

/// The first field: languages and arts.
pub open spec fn first_field() -> FieldView<CourseView> {
    FieldView {
        name: "1. AF"@,
        courses: seq![
            offered("Deutsch"@, "de"@, set!["lang"@, "lk"@]),
            offered("Englisch"@, "en"@, set!["lang"@, "lk"@]),
            offered("Französisch"@, "frz"@, set!["lang"@, "lk"@]),
            offered("Latein"@, "lat"@, set!["lang"@]),
            offered("Russisch"@, "rus"@, set!["lang"@]),
            offered("Spanisch"@, "sp"@, set!["lang"@]),
            offered("Musik"@, "mus"@, set!["lk"@]),
            offered("Kunst"@, "kun"@, set!["lk"@]),
            offered("Darstellendes Spiel"@, "ds"@, no_tags()),
        ],
        max_usable: None,
    }
}

/// The second field: the social sciences.
pub open spec fn second_field() -> FieldView<CourseView> {
    FieldView {
        name: "2. AF"@,
        courses: seq![
            offered("Politikwissenschaft"@, "pw"@, set!["lk"@]),
            offered("Geschichte"@, "ges"@, set!["lk"@]),
            offered("Geographie"@, "geo"@, set!["lk"@]),
            offered("Philosophie"@, "philo"@, no_tags()),
        ],
        max_usable: None,
    }
}

/// The third field: mathematics and the natural sciences.
pub open spec fn third_field() -> FieldView<CourseView> {
    FieldView {
        name: "3. AF"@,
        courses: seq![
            offered("Mathematik"@, "mat"@, set!["lk"@]),
            offered("Physik"@, "phy"@, set!["lk"@, "nawi"@]),
            offered("Chemie"@, "ch"@, set!["lk"@, "nawi"@]),
            offered("Biologie"@, "bio"@, set!["lk"@, "nawi"@]),
            offered("Informatik"@, "inf"@, no_tags()),
        ],
        max_usable: None,
    }
}

/// Sport, with its theory from the third semester on.
pub open spec fn sport() -> FieldView<CourseView> {
    FieldView {
        name: "Sport"@,
        courses: seq![
            offered("Sport"@, "spo"@, no_tags()),
            starting(offered("Sport-Theorie"@, "spo-th"@, no_tags()), 2),
        ],
        max_usable: None,
    }
}

/// The ensembles; two of their semesters count.
pub open spec fn ensembles() -> FieldView<CourseView> {
    FieldView {
        name: "Ensemblemusik"@,
        courses: seq![
            offered("Chor"@, "chor"@, no_tags()), offered("Bläser"@, "blaeser"@, no_tags()),
        ],
        max_usable: Some(2),
    }
}

/// The additional courses; two of their semesters count.
pub open spec fn extras() -> FieldView<CourseView> {
    FieldView {
        name: "Zusatzkurse"@,
        courses: seq![
            offered("CCC"@, "ccc"@, no_tags()),
            offered("Debating"@, "debating"@, no_tags()),
            lasting(offered("Digitale Welten"@, "dw"@, no_tags()), 2),
        ],
        max_usable: Some(2),
    }
}

/// The seminar courses of two semesters each; two of their semesters count.
pub open spec fn seminars() -> FieldView<CourseView> {
    FieldView {
        name: "Seminarkurse"@,
        courses: seq![
            lasting(offered("Neurowissenschaften"@, "neuro"@, no_tags()), 2),
            lasting(offered("Doping"@, "doping"@, no_tags()), 2),
            lasting(offered("Finanzmathematik"@, "fima"@, no_tags()), 2),
        ],
        max_usable: Some(2),
    }
}

/// The winter sport course of the second semester.
pub open spec fn winter_sport() -> FieldView<CourseView> {
    FieldView {
        name: "Sport"@,
        courses: seq![
            starting(lasting(offered("Ski und Snowboard"@, "ski"@, no_tags()), 1), 1),
        ],
        max_usable: None,
    }
}

/// The catalog of the school, field by field and course by course: eight
/// fields over a program of four semesters.
pub open spec fn school_catalog() -> StructureView<CourseView> {
    StructureView {
        fields: seq![
            first_field(),
            second_field(),
            third_field(),
            sport(),
            ensembles(),
            extras(),
            seminars(),
            winter_sport(),
        ],
        num_semesters: 4,
        school: "Hans-Carossa-Gymnasium"@,
        version: "1.0"@,
    }
}

/// The identifiers of the courses of the school, in the catalog's order.
pub open spec fn school_identifiers() -> Seq<Seq<char>> {
    seq![
        "de"@,
        "en"@,
        "frz"@,
        "lat"@,
        "rus"@,
        "sp"@,
        "mus"@,
        "kun"@,
        "ds"@,
        "pw"@,
        "ges"@,
        "geo"@,
        "philo"@,
        "mat"@,
        "phy"@,
        "ch"@,
        "bio"@,
        "inf"@,
        "spo"@,
        "spo-th"@,
        "chor"@,
        "blaeser"@,
        "ccc"@,
        "debating"@,
        "dw"@,
        "neuro"@,
        "doping"@,
        "fima"@,
        "ski"@,
    ]
}

/// The courses of the school, field by field, are those of its eight
/// fields one after the other.
pub proof fn lemma_school_courses()
    ensures
        school_catalog().courses() == first_field().courses + second_field().courses
            + third_field().courses + sport().courses + ensembles().courses + extras().courses
            + seminars().courses + winter_sport().courses,
{
    let lists = |f: FieldView<CourseView>| f.courses;
    let none = Seq::<FieldView<CourseView>>::empty();
    let upto_1 = none.push(first_field());
    assert(upto_1.map_values(lists) =~= none.map_values(lists).push(first_field().courses));
    none.map_values(lists).lemma_flatten_push(first_field().courses);
    let upto_2 = upto_1.push(second_field());
    assert(upto_2.map_values(lists) =~= upto_1.map_values(lists).push(second_field().courses));
    upto_1.map_values(lists).lemma_flatten_push(second_field().courses);
    let upto_3 = upto_2.push(third_field());
    assert(upto_3.map_values(lists) =~= upto_2.map_values(lists).push(third_field().courses));
    upto_2.map_values(lists).lemma_flatten_push(third_field().courses);
    let upto_4 = upto_3.push(sport());
    assert(upto_4.map_values(lists) =~= upto_3.map_values(lists).push(sport().courses));
    upto_3.map_values(lists).lemma_flatten_push(sport().courses);
    let upto_5 = upto_4.push(ensembles());
    assert(upto_5.map_values(lists) =~= upto_4.map_values(lists).push(ensembles().courses));
    upto_4.map_values(lists).lemma_flatten_push(ensembles().courses);
    let upto_6 = upto_5.push(extras());
    assert(upto_6.map_values(lists) =~= upto_5.map_values(lists).push(extras().courses));
    upto_5.map_values(lists).lemma_flatten_push(extras().courses);
    let upto_7 = upto_6.push(seminars());
    assert(upto_7.map_values(lists) =~= upto_6.map_values(lists).push(seminars().courses));
    upto_6.map_values(lists).lemma_flatten_push(seminars().courses);
    let upto_8 = upto_7.push(winter_sport());
    assert(upto_8.map_values(lists) =~= upto_7.map_values(lists).push(winter_sport().courses));
    upto_7.map_values(lists).lemma_flatten_push(winter_sport().courses);
    assert(school_catalog().fields =~= upto_8);
    assert(none.map_values(lists).flatten() =~= Seq::<CourseView>::empty());
}

/// A number that tells the identifiers of the school apart: made of the
/// length and the first three characters.
spec fn mark(id: Seq<char>) -> int {
    id.len() * 1000000 + (id[0] as int) * 10000 + (id[1] as int) * 100 + if id.len() > 2 {
        (id[2] as int) % 100
    } else {
        0
    }
}

/// The courses of the school have the identifiers `school_identifiers()`,
/// and no two of them the same: an identifier finds one course at most.
pub proof fn law_school_identifiers()
    ensures
        school_catalog().courses().map_values(|c: CourseView| c.id) == school_identifiers(),
        school_identifiers().no_duplicates(),
{
    lemma_school_courses();
    assert(school_catalog().courses().map_values(|c: CourseView| c.id) =~= school_identifiers());
    reveal_strlit("de");
    reveal_strlit("en");
    reveal_strlit("frz");
    reveal_strlit("lat");
    reveal_strlit("rus");
    reveal_strlit("sp");
    reveal_strlit("mus");
    reveal_strlit("kun");
    reveal_strlit("ds");
    reveal_strlit("pw");
    reveal_strlit("ges");
    reveal_strlit("geo");
    reveal_strlit("philo");
    reveal_strlit("mat");
    reveal_strlit("phy");
    reveal_strlit("ch");
    reveal_strlit("bio");
    reveal_strlit("inf");
    reveal_strlit("spo");
    reveal_strlit("spo-th");
    reveal_strlit("chor");
    reveal_strlit("blaeser");
    reveal_strlit("ccc");
    reveal_strlit("debating");
    reveal_strlit("dw");
    reveal_strlit("neuro");
    reveal_strlit("doping");
    reveal_strlit("fima");
    reveal_strlit("ski");
    let ids = school_identifiers();
    assert(ids.len() == 29);
    assert(ids[0] == "de"@ && mark(ids[0]) == 3010100);
    assert(ids[1] == "en"@ && mark(ids[1]) == 3021000);
    assert(ids[2] == "frz"@ && mark(ids[2]) == 4031422);
    assert(ids[3] == "lat"@ && mark(ids[3]) == 4089716);
    assert(ids[4] == "rus"@ && mark(ids[4]) == 4151715);
    assert(ids[5] == "sp"@ && mark(ids[5]) == 3161200);
    assert(ids[6] == "mus"@ && mark(ids[6]) == 4101715);
    assert(ids[7] == "kun"@ && mark(ids[7]) == 4081710);
    assert(ids[8] == "ds"@ && mark(ids[8]) == 3011500);
    assert(ids[9] == "pw"@ && mark(ids[9]) == 3131900);
    assert(ids[10] == "ges"@ && mark(ids[10]) == 4040115);
    assert(ids[11] == "geo"@ && mark(ids[11]) == 4040111);
    assert(ids[12] == "philo"@ && mark(ids[12]) == 6130405);
    assert(ids[13] == "mat"@ && mark(ids[13]) == 4099716);
    assert(ids[14] == "phy"@ && mark(ids[14]) == 4130421);
    assert(ids[15] == "ch"@ && mark(ids[15]) == 3000400);
    assert(ids[16] == "bio"@ && mark(ids[16]) == 3990511);
    assert(ids[17] == "inf"@ && mark(ids[17]) == 4061002);
    assert(ids[18] == "spo"@ && mark(ids[18]) == 4161211);
    assert(ids[19] == "spo-th"@ && mark(ids[19]) == 7161211);
    assert(ids[20] == "chor"@ && mark(ids[20]) == 5000411);
    assert(ids[21] == "blaeser"@ && mark(ids[21]) == 7990897);
    assert(ids[22] == "ccc"@ && mark(ids[22]) == 3999999);
    assert(ids[23] == "debating"@ && mark(ids[23]) == 9010198);
    assert(ids[24] == "dw"@ && mark(ids[24]) == 3011900);
    assert(ids[25] == "neuro"@ && mark(ids[25]) == 6110117);
    assert(ids[26] == "doping"@ && mark(ids[26]) == 7011112);
    assert(ids[27] == "fima"@ && mark(ids[27]) == 5030509);
    assert(ids[28] == "ski"@ && mark(ids[28]) == 4160705);
    assert forall|i: int, j: int| 0 <= i < ids.len() && 0 <= j < ids.len() && i != j implies ids[i]
        != ids[j] by {
        assert(mark(ids[i]) != mark(ids[j]));
    }
}

/// Every course of the school opens within the program, and a fixed
/// duration is of one semester at least and ends within the program.
pub proof fn law_school_windows()
    ensures
        school_catalog().wf(),
        forall|f: int, c: int|
            0 <= f < school_catalog().fields.len() && 0 <= c
                < school_catalog().fields[f].courses.len() ==> {
                let course = #[trigger] school_catalog().fields[f].courses[c];
                &&& course.semester_offset < 4
                &&& course.num_semesters matches Some(d) ==> 1 <= d && course.semester_offset
                    + d <= 4
            },
{
    let fields = school_catalog().fields;
    assert forall|f: int| 0 <= f < fields.len() implies courses_fit(
        (#[trigger] fields[f]).courses,
        4,
    ) by {
        let list = fields[f].courses;
        assert forall|c: int| 0 <= c < list.len() implies (#[trigger] list[c]).fits(4) by {}
    }
}

/// The identifiers of those of `courses` that carry `tag`, in their order.
pub open spec fn ids_tagged(courses: Seq<CourseView>, tag: Seq<char>) -> Seq<Seq<char>> {
    courses.filter(|c: CourseView| c.tags.contains(tag)).map_values(|c: CourseView| c.id)
}

/// The tagged courses of two lists, one after the other, are those of the
/// first and then those of the second.
proof fn lemma_ids_tagged_joined(a: Seq<CourseView>, b: Seq<CourseView>, tag: Seq<char>)
    ensures
        ids_tagged(a + b, tag) == ids_tagged(a, tag) + ids_tagged(b, tag),
{
    let carries = |c: CourseView| c.tags.contains(tag);
    Seq::filter_distributes_over_add(a, b, carries);
    assert(ids_tagged(a + b, tag) =~= ids_tagged(a, tag) + ids_tagged(b, tag));
}

/// The tagged courses of a list with one more course.
proof fn lemma_ids_tagged_push(courses: Seq<CourseView>, course: CourseView, tag: Seq<char>)
    ensures
        ids_tagged(courses.push(course), tag) == if course.tags.contains(tag) {
            ids_tagged(courses, tag).push(course.id)
        } else {
            ids_tagged(courses, tag)
        },
{
    let carries = |c: CourseView| c.tags.contains(tag);
    courses.lemma_filter_push(course, carries);
    assert(ids_tagged(courses.push(course), tag) =~= if course.tags.contains(tag) {
        ids_tagged(courses, tag).push(course.id)
    } else {
        ids_tagged(courses, tag)
    });
}

/// The tags of the school are three different words.
proof fn lemma_tags_differ()
    ensures
        "lk"@ != "lang"@,
        "lk"@ != "nawi"@,
        "lang"@ != "nawi"@,
{
    reveal_strlit("lk");
    reveal_strlit("nawi");
    reveal_strlit("lang");
    assert("lk"@.len() == 2 && "lang"@.len() == 4 && "nawi"@.len() == 4);
    assert("lang"@[0] == 'l' && "nawi"@[0] == 'n');
}

/// A list of which no course carries the tag has no tagged course.
proof fn lemma_none_tagged(courses: Seq<CourseView>, tag: Seq<char>)
    requires
        forall|i: int| 0 <= i < courses.len() ==> !(#[trigger] courses[i]).tags.contains(tag),
    ensures
        ids_tagged(courses, tag) == Seq::<Seq<char>>::empty(),
{
    let carries = |c: CourseView| c.tags.contains(tag);
    courses.lemma_all_neg_filter_empty(carries);
    assert(ids_tagged(courses, tag) =~= Seq::<Seq<char>>::empty());
}

/// The possible advanced-level subjects of the first field.
proof fn lemma_first_field_lk()
    ensures
        ids_tagged(first_field().courses, "lk"@) == seq!["de"@, "en"@, "frz"@, "mus"@, "kun"@],
{
    lemma_tags_differ();
    let list = first_field().courses;
    let tag = "lk"@;
    lemma_none_tagged(list.take(0), tag);
    assert(list.take(1) =~= list.take(0).push(list[0]));
    lemma_ids_tagged_push(list.take(0), list[0], tag);
    assert(ids_tagged(list.take(1), tag) =~= seq!["de"@]);
    assert(list.take(2) =~= list.take(1).push(list[1]));
    lemma_ids_tagged_push(list.take(1), list[1], tag);
    assert(ids_tagged(list.take(2), tag) =~= seq!["de"@, "en"@]);
    assert(list.take(3) =~= list.take(2).push(list[2]));
    lemma_ids_tagged_push(list.take(2), list[2], tag);
    assert(ids_tagged(list.take(3), tag) =~= seq!["de"@, "en"@, "frz"@]);
    assert(list.take(4) =~= list.take(3).push(list[3]));
    lemma_ids_tagged_push(list.take(3), list[3], tag);
    assert(ids_tagged(list.take(4), tag) =~= seq!["de"@, "en"@, "frz"@]);
    assert(list.take(5) =~= list.take(4).push(list[4]));
    lemma_ids_tagged_push(list.take(4), list[4], tag);
    assert(ids_tagged(list.take(5), tag) =~= seq!["de"@, "en"@, "frz"@]);
    assert(list.take(6) =~= list.take(5).push(list[5]));
    lemma_ids_tagged_push(list.take(5), list[5], tag);
    assert(ids_tagged(list.take(6), tag) =~= seq!["de"@, "en"@, "frz"@]);
    assert(list.take(7) =~= list.take(6).push(list[6]));
    lemma_ids_tagged_push(list.take(6), list[6], tag);
    assert(ids_tagged(list.take(7), tag) =~= seq!["de"@, "en"@, "frz"@, "mus"@]);
    assert(list.take(8) =~= list.take(7).push(list[7]));
    lemma_ids_tagged_push(list.take(7), list[7], tag);
    assert(ids_tagged(list.take(8), tag) =~= seq!["de"@, "en"@, "frz"@, "mus"@, "kun"@]);
    assert(list.take(9) =~= list.take(8).push(list[8]));
    lemma_ids_tagged_push(list.take(8), list[8], tag);
    assert(ids_tagged(list.take(9), tag) =~= seq!["de"@, "en"@, "frz"@, "mus"@, "kun"@]);
    assert(list.take(9) =~= list);
}

/// The possible advanced-level subjects of the second field.
proof fn lemma_second_field_lk()
    ensures
        ids_tagged(second_field().courses, "lk"@) == seq!["pw"@, "ges"@, "geo"@],
{
    lemma_tags_differ();
    let list = second_field().courses;
    let tag = "lk"@;
    lemma_none_tagged(list.take(0), tag);
    assert(list.take(1) =~= list.take(0).push(list[0]));
    lemma_ids_tagged_push(list.take(0), list[0], tag);
    assert(ids_tagged(list.take(1), tag) =~= seq!["pw"@]);
    assert(list.take(2) =~= list.take(1).push(list[1]));
    lemma_ids_tagged_push(list.take(1), list[1], tag);
    assert(ids_tagged(list.take(2), tag) =~= seq!["pw"@, "ges"@]);
    assert(list.take(3) =~= list.take(2).push(list[2]));
    lemma_ids_tagged_push(list.take(2), list[2], tag);
    assert(ids_tagged(list.take(3), tag) =~= seq!["pw"@, "ges"@, "geo"@]);
    assert(list.take(4) =~= list.take(3).push(list[3]));
    lemma_ids_tagged_push(list.take(3), list[3], tag);
    assert(ids_tagged(list.take(4), tag) =~= seq!["pw"@, "ges"@, "geo"@]);
    assert(list.take(4) =~= list);
}

/// The possible advanced-level subjects of the third field.
proof fn lemma_third_field_lk()
    ensures
        ids_tagged(third_field().courses, "lk"@) == seq!["mat"@, "phy"@, "ch"@, "bio"@],
{
    lemma_tags_differ();
    let list = third_field().courses;
    let tag = "lk"@;
    lemma_none_tagged(list.take(0), tag);
    assert(list.take(1) =~= list.take(0).push(list[0]));
    lemma_ids_tagged_push(list.take(0), list[0], tag);
    assert(ids_tagged(list.take(1), tag) =~= seq!["mat"@]);
    assert(list.take(2) =~= list.take(1).push(list[1]));
    lemma_ids_tagged_push(list.take(1), list[1], tag);
    assert(ids_tagged(list.take(2), tag) =~= seq!["mat"@, "phy"@]);
    assert(list.take(3) =~= list.take(2).push(list[2]));
    lemma_ids_tagged_push(list.take(2), list[2], tag);
    assert(ids_tagged(list.take(3), tag) =~= seq!["mat"@, "phy"@, "ch"@]);
    assert(list.take(4) =~= list.take(3).push(list[3]));
    lemma_ids_tagged_push(list.take(3), list[3], tag);
    assert(ids_tagged(list.take(4), tag) =~= seq!["mat"@, "phy"@, "ch"@, "bio"@]);
    assert(list.take(5) =~= list.take(4).push(list[4]));
    lemma_ids_tagged_push(list.take(4), list[4], tag);
    assert(ids_tagged(list.take(5), tag) =~= seq!["mat"@, "phy"@, "ch"@, "bio"@]);
    assert(list.take(5) =~= list);
}

/// The natural sciences of the third field.
proof fn lemma_third_field_nawi()
    ensures
        ids_tagged(third_field().courses, "nawi"@) == seq!["phy"@, "ch"@, "bio"@],
{
    lemma_tags_differ();
    let list = third_field().courses;
    let tag = "nawi"@;
    lemma_none_tagged(list.take(0), tag);
    assert(list.take(1) =~= list.take(0).push(list[0]));
    lemma_ids_tagged_push(list.take(0), list[0], tag);
    assert(ids_tagged(list.take(1), tag) =~= Seq::<Seq<char>>::empty());
    assert(list.take(2) =~= list.take(1).push(list[1]));
    lemma_ids_tagged_push(list.take(1), list[1], tag);
    assert(ids_tagged(list.take(2), tag) =~= seq!["phy"@]);
    assert(list.take(3) =~= list.take(2).push(list[2]));
    lemma_ids_tagged_push(list.take(2), list[2], tag);
    assert(ids_tagged(list.take(3), tag) =~= seq!["phy"@, "ch"@]);
    assert(list.take(4) =~= list.take(3).push(list[3]));
    lemma_ids_tagged_push(list.take(3), list[3], tag);
    assert(ids_tagged(list.take(4), tag) =~= seq!["phy"@, "ch"@, "bio"@]);
    assert(list.take(5) =~= list.take(4).push(list[4]));
    lemma_ids_tagged_push(list.take(4), list[4], tag);
    assert(ids_tagged(list.take(5), tag) =~= seq!["phy"@, "ch"@, "bio"@]);
    assert(list.take(5) =~= list);
}

/// The courses of the school that are possible advanced-level subjects
/// (tag `lk`) and those that are natural sciences (tag `nawi`), by their
/// identifiers in the catalog's order.
pub proof fn law_school_tags()
    ensures
        ids_tagged(school_catalog().courses(), "lk"@) == seq![
            "de"@,
            "en"@,
            "frz"@,
            "mus"@,
            "kun"@,
            "pw"@,
            "ges"@,
            "geo"@,
            "mat"@,
            "phy"@,
            "ch"@,
            "bio"@,
        ],
        ids_tagged(school_catalog().courses(), "nawi"@) == seq!["phy"@, "ch"@, "bio"@],
{
    lemma_school_courses();
    lemma_tags_differ();
    let upto_1 = first_field().courses;
    let upto_2 = upto_1 + second_field().courses;
    let upto_3 = upto_2 + third_field().courses;
    let upto_4 = upto_3 + sport().courses;
    let upto_5 = upto_4 + ensembles().courses;
    let upto_6 = upto_5 + extras().courses;
    let upto_7 = upto_6 + seminars().courses;
    let upto_8 = upto_7 + winter_sport().courses;
    assert(ids_tagged(school_catalog().courses(), "lk"@) =~= seq![
        "de"@,
        "en"@,
        "frz"@,
        "mus"@,
        "kun"@,
        "pw"@,
        "ges"@,
        "geo"@,
        "mat"@,
        "phy"@,
        "ch"@,
        "bio"@,
    ]) by {
        let tag = "lk"@;
        lemma_first_field_lk();
        lemma_second_field_lk();
        lemma_ids_tagged_joined(upto_1, second_field().courses, tag);
        lemma_third_field_lk();
        lemma_ids_tagged_joined(upto_2, third_field().courses, tag);
        lemma_none_tagged(sport().courses, tag);
        lemma_ids_tagged_joined(upto_3, sport().courses, tag);
        lemma_none_tagged(ensembles().courses, tag);
        lemma_ids_tagged_joined(upto_4, ensembles().courses, tag);
        lemma_none_tagged(extras().courses, tag);
        lemma_ids_tagged_joined(upto_5, extras().courses, tag);
        lemma_none_tagged(seminars().courses, tag);
        lemma_ids_tagged_joined(upto_6, seminars().courses, tag);
        lemma_none_tagged(winter_sport().courses, tag);
        lemma_ids_tagged_joined(upto_7, winter_sport().courses, tag);
    }
    assert(ids_tagged(school_catalog().courses(), "nawi"@) =~= seq!["phy"@, "ch"@, "bio"@]) by {
        let tag = "nawi"@;
        lemma_none_tagged(first_field().courses, tag);
        lemma_none_tagged(second_field().courses, tag);
        lemma_ids_tagged_joined(upto_1, second_field().courses, tag);
        lemma_third_field_nawi();
        lemma_ids_tagged_joined(upto_2, third_field().courses, tag);
        lemma_none_tagged(sport().courses, tag);
        lemma_ids_tagged_joined(upto_3, sport().courses, tag);
        lemma_none_tagged(ensembles().courses, tag);
        lemma_ids_tagged_joined(upto_4, ensembles().courses, tag);
        lemma_none_tagged(extras().courses, tag);
        lemma_ids_tagged_joined(upto_5, extras().courses, tag);
        lemma_none_tagged(seminars().courses, tag);
        lemma_ids_tagged_joined(upto_6, seminars().courses, tag);
        lemma_none_tagged(winter_sport().courses, tag);
        lemma_ids_tagged_joined(upto_7, winter_sport().courses, tag);
    }
}

/// A list of no tags stands for no tag, a list of one tag for that tag, and
/// a list of two for both.
proof fn lemma_tag_lists()
    ensures
        forall|tags: Seq<&str>|
            tags.len() == 0 ==> #[trigger] slice_texts(tags).to_set() == no_tags(),
        forall|tags: Seq<&str>|
            tags.len() == 1 ==> #[trigger] slice_texts(tags).to_set() == set![tags[0]@],
        forall|tags: Seq<&str>|
            tags.len() == 2 ==> #[trigger] slice_texts(tags).to_set() == set![tags[0]@, tags[1]@],
{
    assert forall|tags: Seq<&str>| tags.len() == 0 implies #[trigger] slice_texts(
        tags,
    ).to_set() == no_tags() by {
        assert(slice_texts(tags).to_set() =~= no_tags());
    }
    assert forall|tags: Seq<&str>| tags.len() == 1 implies #[trigger] slice_texts(
        tags,
    ).to_set() == set![tags[0]@] by {
        let list = slice_texts(tags);
        assert(list[0] == tags[0]@);
        assert(list.to_set() =~= set![tags[0]@]);
    }
    assert forall|tags: Seq<&str>| tags.len() == 2 implies #[trigger] slice_texts(
        tags,
    ).to_set() == set![tags[0]@, tags[1]@] by {
        let list = slice_texts(tags);
        assert(list[0] == tags[0]@);
        assert(list[1] == tags[1]@);
        assert(list.to_set() =~= set![tags[0]@, tags[1]@]);
    }
}

/// The catalog of the school: exactly `school_catalog()`. Every course
/// fits the program, so the catalog is valid.
pub fn courses() -> (catalog: Structure<Course>)
    ensures
        catalog@ == school_catalog(),
        catalog@.wf(),
        catalog@.num_semesters == 4,
        catalog@.fields.len() == 8,
        catalog@.school == "Hans-Carossa-Gymnasium"@,
        catalog@.version == "1.0"@,
{
    let first_field_built = Field::new(
        "1. AF",
        vec![
            Course::new("Deutsch", "de", vec!["lang", "lk"]),
            Course::new("Englisch", "en", vec!["lang", "lk"]),
            Course::new("Französisch", "frz", vec!["lang", "lk"]),
            Course::new("Latein", "lat", vec!["lang"]),
            Course::new("Russisch", "rus", vec!["lang"]),
            Course::new("Spanisch", "sp", vec!["lang"]),
            Course::new("Musik", "mus", vec!["lk"]),
            Course::new("Kunst", "kun", vec!["lk"]),
            Course::new("Darstellendes Spiel", "ds", vec![]),
        ],
    );
    proof {
        lemma_tag_lists();
        assert(first_field_built@.courses =~= first_field().courses);
    }
    let second_field_built = Field::new(
        "2. AF",
        vec![
            Course::new("Politikwissenschaft", "pw", vec!["lk"]),
            Course::new("Geschichte", "ges", vec!["lk"]),
            Course::new("Geographie", "geo", vec!["lk"]),
            Course::new("Philosophie", "philo", vec![]),
        ],
    );
    proof {
        lemma_tag_lists();
        assert(second_field_built@.courses =~= second_field().courses);
    }
    let third_field_built = Field::new(
        "3. AF",
        vec![
            Course::new("Mathematik", "mat", vec!["lk"]),
            Course::new("Physik", "phy", vec!["lk", "nawi"]),
            Course::new("Chemie", "ch", vec!["lk", "nawi"]),
            Course::new("Biologie", "bio", vec!["lk", "nawi"]),
            Course::new("Informatik", "inf", vec![]),
        ],
    );
    proof {
        lemma_tag_lists();
        assert(third_field_built@.courses =~= third_field().courses);
    }
    let sport_built = Field::new(
        "Sport",
        vec![
            Course::new("Sport", "spo", vec![]),
            Course::new("Sport-Theorie", "spo-th", vec![]).with_offset(2),
        ],
    );
    proof {
        lemma_tag_lists();
        assert(sport_built@.courses =~= sport().courses);
    }
    let ensembles_built = Field::new_max_usable(
        "Ensemblemusik",
        vec![Course::new("Chor", "chor", vec![]), Course::new("Bläser", "blaeser", vec![])],
        2,
    );
    proof {
        lemma_tag_lists();
        assert(ensembles_built@.courses =~= ensembles().courses);
    }
    let extras_built = Field::new_max_usable(
        "Zusatzkurse",
        vec![
            Course::new("CCC", "ccc", vec![]),
            Course::new("Debating", "debating", vec![]),
            Course::new("Digitale Welten", "dw", vec![]).with_semesters(2),
        ],
        2,
    );
    proof {
        lemma_tag_lists();
        assert(extras_built@.courses =~= extras().courses);
    }
    let seminars_built = Field::new_max_usable(
        "Seminarkurse",
        vec![
            Course::new("Neurowissenschaften", "neuro", vec![]).with_semesters(2),
            Course::new("Doping", "doping", vec![]).with_semesters(2),
            Course::new("Finanzmathematik", "fima", vec![]).with_semesters(2),
        ],
        2,
    );
    proof {
        lemma_tag_lists();
        assert(seminars_built@.courses =~= seminars().courses);
    }
    let winter_sport_built = Field::new(
        "Sport",
        vec![
            Course::new("Ski und Snowboard", "ski", vec![]).with_semesters(1).with_offset(1),
        ],
    );
    proof {
        lemma_tag_lists();
        assert(winter_sport_built@.courses =~= winter_sport().courses);
    }
    let ghost listed = seq![
        first_field_built@,
        second_field_built@,
        third_field_built@,
        sport_built@,
        ensembles_built@,
        extras_built@,
        seminars_built@,
        winter_sport_built@,
    ];
    let fields = vec![
        first_field_built,
        second_field_built,
        third_field_built,
        sport_built,
        ensembles_built,
        extras_built,
        seminars_built,
        winter_sport_built,
    ];
    assert(field_views(fields@) =~= listed);
    assert(listed =~= school_catalog().fields);
    proof {
        let views = field_views(fields@);
        assert forall|i: int| 0 <= i < views.len() implies courses_fit(
            (#[trigger] views[i]).courses,
            4,
        ) by {
            let list = views[i].courses;
            assert forall|j: int| 0 <= j < list.len() implies (#[trigger] list[j]).fits(4) by {}
        }
        assert(catalog_fits(views, 4));
        lemma_catalog_defect(views, 4);
    }
    match Structure::build(fields, 4, "Hans-Carossa-Gymnasium", "1.0") {
        Ok(catalog) => catalog,
        Err(_) => unreached(),
    }
}

} // verus!
