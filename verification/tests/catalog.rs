use kurswahl::catalog::courses;
use kurswahl::course::Course;
use kurswahl::exam::Exam;
use kurswahl::field::Field;
use kurswahl::structure::Structure;

#[test]
fn build_names_the_first_course_that_does_not_fit() {
    let fields = vec![
        Field::new("A", vec![Course::new("Gut", "ok", vec![]).with_semesters(4)]),
        Field::new(
            "B",
            vec![
                Course::new("Passt", "fine", vec![]).with_offset(9),
                Course::new("Zu lang", "long", vec![]).with_semesters(4).with_offset(1),
                Course::new("Auch zu lang", "longer", vec![]).with_semesters(9),
            ],
        ),
        Field::new("C", vec![Course::new("Zu spät", "late", vec![]).with_semesters(1).with_offset(4)]),
    ];
    let error = Structure::build(fields, 4, "Schule", "1").unwrap_err();
    assert_eq!(error.course_id(), "long");
}

#[test]
fn build_accepts_a_duration_that_ends_with_the_program() {
    let fields = vec![Field::new(
        "A",
        vec![
            Course::new("Ganz", "all", vec![]).with_semesters(4),
            Course::new("Ende", "end", vec![]).with_semesters(1).with_offset(3),
            Course::new("Nichts", "none", vec![]).with_semesters(0).with_offset(4),
        ],
    )];
    let catalog = Structure::build(fields, 4, "Schule", "1").unwrap();
    assert_eq!(catalog.num_semesters(), 4);
    assert_eq!(catalog.school(), "Schule");
    assert_eq!(catalog.version(), "1");
    assert_eq!(catalog.num_fields(), 1);
}

#[test]
fn build_rejects_a_duration_in_an_empty_program() {
    let fields = vec![Field::new("A", vec![Course::new("Eins", "one", vec![]).with_semesters(1)])];
    assert_eq!(Structure::build(fields, 0, "Schule", "1").unwrap_err().course_id(), "one");
    let none: Vec<Field<Course>> = vec![];
    assert!(Structure::build(none, 0, "Schule", "1").is_ok());
}

#[test]
fn instantiate_selects_nothing_and_keeps_the_catalog() {
    let catalog = Structure::build(
        vec![
            Field::new("A", vec![Course::new("Deutsch", "de", vec!["lk"])]),
            Field::new_max_usable("B", vec![Course::new("Chor", "chor", vec![])], 2),
        ],
        4,
        "Schule",
        "2.1",
    )
    .unwrap();
    let model = catalog.instantiate();
    assert_eq!(model.num_semesters(), 4);
    assert_eq!(model.school(), "Schule");
    assert_eq!(model.version(), "2.1");
    assert_eq!(model.num_fields(), 2);
    assert_eq!(model.field(1).unwrap().name(), "B");
    assert_eq!(model.field(1).unwrap().max_usable(), Some(2));
    assert_eq!(model.field(0).unwrap().max_usable(), None);
    assert!(model.field(2).is_none());
    assert_eq!(model.field(0).unwrap().course(0).unwrap().course().id(), "de");
    assert!(model.field(0).unwrap().course(1).is_none());
    for field in model.fields() {
        for entry in field.courses() {
            assert_eq!(entry.semesters(), &vec![false; 4]);
            assert_eq!(entry.exam(), None);
            assert_eq!(entry.selected_semester_count(), 0);
        }
    }
    let again = catalog.instantiate();
    assert_eq!(again.find_by_id("chor").unwrap().course().name(), "Chor");
    assert_eq!(catalog.iter_courses().len(), 2);
}

#[test]
fn iter_courses_goes_field_by_field() {
    let catalog = Structure::build(
        vec![
            Field::new("A", vec![Course::new("a1", "a1", vec![]), Course::new("a2", "a2", vec![])]),
            Field::new("B", vec![]),
            Field::new("C", vec![Course::new("c1", "c1", vec![])]),
        ],
        2,
        "Schule",
        "1",
    )
    .unwrap();
    let ids: Vec<&str> = catalog.iter_courses().iter().map(|c| c.id()).collect();
    assert_eq!(ids, vec!["a1", "a2", "c1"]);
}

#[test]
fn a_course_counts_each_tag_once() {
    let course = Course::new("Physik", "phy", vec!["lk", "nawi", "lk"]);
    assert_eq!(course.tags().len(), 2);
    assert!(course.has_tag("lk"));
    assert!(course.has_tag("nawi"));
    assert!(!course.has_tag("lang"));
    assert!(course.is_lk_eligible());
    assert!(!Course::new("Latein", "lat", vec!["lang"]).is_lk_eligible());
    assert_eq!(course.name(), "Physik");
    assert_eq!(course.id(), "phy");
    assert_eq!(course.num_semesters(), None);
    assert_eq!(course.semester_offset(), 0);
    assert_eq!(course.lessons_per_week(), None);
}

#[test]
fn the_builders_set_one_attribute_each() {
    let course = Course::new("Ski", "ski", vec![]).with_semesters(1).with_offset(1).with_lessons_per_week(3);
    assert_eq!(course.num_semesters(), Some(1));
    assert_eq!(course.semester_offset(), 1);
    assert_eq!(course.lessons_per_week(), Some(3));
    let copy = course.clone();
    assert_eq!(copy.id(), "ski");
    assert_eq!(copy.num_semesters(), Some(1));
    assert_eq!(copy.semester_offset(), 1);
    assert_eq!(copy.lessons_per_week(), Some(3));
}

#[test]
fn the_exam_roles_in_order() {
    assert_eq!(Exam::list(), vec![Exam::Lf1, Exam::Lf2, Exam::Prf3, Exam::Prf4, Exam::Pk5]);
    assert!(Exam::Lf1.is_lk());
    assert!(Exam::Lf2.is_lk());
    assert!(!Exam::Prf3.is_lk());
    assert!(!Exam::Prf4.is_lk());
    assert!(!Exam::Pk5.is_lk());
}

#[test]
fn the_exam_roles_open_to_a_course() {
    let all = Exam::list();
    assert_eq!(Exam::filtered(&all, true), all);
    assert_eq!(Exam::filtered(&all, false), vec![Exam::Prf3, Exam::Prf4, Exam::Pk5]);
    assert_eq!(Exam::filtered(&[Exam::Pk5, Exam::Lf2, Exam::Pk5], false), vec![Exam::Pk5, Exam::Pk5]);
    assert_eq!(Exam::filtered(&[], true), vec![]);
}

#[test]
fn the_exam_labels() {
    assert_eq!(Exam::Lf1.label(), "1. LF");
    assert_eq!(Exam::Lf2.label(), "2. LF");
    assert_eq!(Exam::Prf3.label(), "3. PrF");
    assert_eq!(Exam::Prf4.label(), "4. PrF");
    assert_eq!(Exam::Pk5.label(), "5. PK");
}

#[test]
fn the_school_has_eight_fields_over_four_semesters() {
    let catalog = courses();
    assert_eq!(catalog.num_semesters(), 4);
    assert_eq!(catalog.school(), "Hans-Carossa-Gymnasium");
    assert_eq!(catalog.version(), "1.0");
    let names: Vec<&str> = catalog.fields().iter().map(|f| f.name()).collect();
    assert_eq!(
        names,
        vec!["1. AF", "2. AF", "3. AF", "Sport", "Ensemblemusik", "Zusatzkurse", "Seminarkurse", "Sport"]
    );
    let counts: Vec<usize> = catalog.fields().iter().map(|f| f.len()).collect();
    assert_eq!(counts, vec![9, 4, 5, 2, 2, 3, 3, 1]);
    let caps: Vec<Option<u32>> = catalog.fields().iter().map(|f| f.max_usable()).collect();
    assert_eq!(caps, vec![None, None, None, None, Some(2), Some(2), Some(2), None]);
}

#[test]
fn the_courses_of_the_school() {
    let catalog = courses();
    let all = catalog.iter_courses();
    let ids: Vec<&str> = all.iter().map(|c| c.id()).collect();
    assert_eq!(
        ids,
        vec![
            "de", "en", "frz", "lat", "rus", "sp", "mus", "kun", "ds", "pw", "ges", "geo", "philo",
            "mat", "phy", "ch", "bio", "inf", "spo", "spo-th", "chor", "blaeser", "ccc", "debating",
            "dw", "neuro", "doping", "fima", "ski",
        ]
    );
    let mut sorted = ids.clone();
    sorted.sort();
    sorted.dedup();
    assert_eq!(sorted.len(), 29);
    let lk: Vec<&str> = all.iter().filter(|c| c.has_tag("lk")).map(|c| c.id()).collect();
    assert_eq!(
        lk,
        vec!["de", "en", "frz", "mus", "kun", "pw", "ges", "geo", "mat", "phy", "ch", "bio"]
    );
    let nawi: Vec<&str> = all.iter().filter(|c| c.has_tag("nawi")).map(|c| c.id()).collect();
    assert_eq!(nawi, vec!["phy", "ch", "bio"]);
    let lang: Vec<&str> = all.iter().filter(|c| c.has_tag("lang")).map(|c| c.id()).collect();
    assert_eq!(lang, vec!["de", "en", "frz", "lat", "rus", "sp"]);
    assert_eq!(all[0].name(), "Deutsch");
    assert_eq!(all[2].name(), "Französisch");
    assert_eq!(all[21].name(), "Bläser");
    for course in &all {
        assert!(course.fits(4));
        assert!(course.semester_offset() < 4);
        assert!(course.num_semesters().map_or(true, |d| d >= 1));
        assert_eq!(course.lessons_per_week(), None);
        let special = ["spo-th", "ski", "dw", "neuro", "doping", "fima"].contains(&course.id());
        assert_eq!(course.semester_offset() == 0 && course.num_semesters().is_none(), !special);
    }
    let by_id = |id: &str| *all.iter().find(|c| c.id() == id).unwrap();
    assert_eq!((by_id("spo-th").semester_offset(), by_id("spo-th").num_semesters()), (2, None));
    assert_eq!((by_id("ski").semester_offset(), by_id("ski").num_semesters()), (1, Some(1)));
    assert_eq!((by_id("dw").semester_offset(), by_id("dw").num_semesters()), (0, Some(2)));
    assert_eq!((by_id("neuro").semester_offset(), by_id("neuro").num_semesters()), (0, Some(2)));
}

#[test]
fn the_fresh_selection_of_the_school() {
    let model = courses().instantiate();
    let counts: Vec<usize> = model.fields().iter().map(|f| f.len()).collect();
    assert_eq!(counts, vec![9, 4, 5, 2, 2, 3, 3, 1]);
    for field in model.fields() {
        assert_eq!(kurswahl::field::field_usable_semesters(field), 0);
        for entry in field.courses() {
            assert_eq!(entry.semesters(), &vec![false; 4]);
            assert_eq!(entry.exam(), None);
        }
    }
    let first = model.field(0).unwrap();
    let lk: Vec<&str> = first.find_by_tag("lk").iter().map(|c| c.course().id()).collect();
    assert_eq!(lk, vec!["de", "en", "frz", "mus", "kun"]);
    assert_eq!(model.find_by_id("ski").unwrap().eligible_window(), (1, 2));
}
