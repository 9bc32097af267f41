use kurswahl::course::Course;
use kurswahl::error::SelectionError;
use kurswahl::exam::Exam;
use kurswahl::field::field_selected_semesters;
use kurswahl::field::field_usable_semesters;
use kurswahl::field::Field;
use kurswahl::instance::CourseInstance;
use kurswahl::structure::Structure;

fn sport() -> Structure<CourseInstance> {
    let catalog = Structure::build(
        vec![Field::new("Sport", vec![Course::new("Sport", "spo", vec![])])],
        4,
        "Schule",
        "1.0",
    )
    .unwrap();
    catalog.instantiate()
}

fn school() -> Structure<CourseInstance> {
    let catalog = Structure::build(
        vec![
            Field::new(
                "1. AF",
                vec![
                    Course::new("Deutsch", "de", vec!["lang", "lk"]),
                    Course::new("Latein", "lat", vec!["lang"]),
                    Course::new("Darstellendes Spiel", "ds", vec![]),
                ],
            ),
            Field::new(
                "Sport",
                vec![
                    Course::new("Sport", "spo", vec![]),
                    Course::new("Sport-Theorie", "spo-th", vec![]).with_offset(2),
                    Course::new("Ski und Snowboard", "ski", vec![]).with_semesters(1).with_offset(1),
                ],
            ),
            Field::new_max_usable(
                "Zusatzkurse",
                vec![
                    Course::new("CCC", "ccc", vec![]),
                    Course::new("Digitale Welten", "dw", vec![]).with_semesters(2),
                ],
                2,
            ),
        ],
        4,
        "Hans-Carossa-Gymnasium",
        "1.0",
    )
    .unwrap();
    catalog.instantiate()
}

fn flags(model: &Structure<CourseInstance>, id: &str) -> Vec<bool> {
    model.find_by_id(id).unwrap().semesters().clone()
}

#[test]
fn toggle_all_round_trip_without_duration() {
    let mut model = sport();
    assert_eq!(flags(&model, "spo"), vec![false, false, false, false]);
    assert_eq!(model.toggle_all_semesters("spo"), Ok(()));
    assert_eq!(flags(&model, "spo"), vec![true, true, true, true]);
    assert_eq!(model.selected_semester_count("spo"), Some(4));
    assert_eq!(model.toggle_all_semesters("spo"), Ok(()));
    assert_eq!(flags(&model, "spo"), vec![false, false, false, false]);
    assert_eq!(model.selected_semester_count("spo"), Some(0));
}

#[test]
fn toggle_all_selects_exactly_the_fixed_duration() {
    let mut model = school();
    assert_eq!(model.toggle_all_semesters("ski"), Ok(()));
    assert_eq!(flags(&model, "ski"), vec![false, true, false, false]);
    assert_eq!(model.selected_semester_count("ski"), Some(1));
    assert_eq!(model.toggle_all_semesters("dw"), Ok(()));
    assert_eq!(flags(&model, "dw"), vec![true, true, false, false]);
    assert_eq!(model.selected_semester_count("dw"), Some(2));
    assert_eq!(model.toggle_all_semesters("ski"), Ok(()));
    assert_eq!(model.selected_semester_count("ski"), Some(0));
}

#[test]
fn toggle_all_respects_the_offset() {
    let mut model = school();
    assert_eq!(model.toggle_all_semesters("spo-th"), Ok(()));
    assert_eq!(flags(&model, "spo-th"), vec![false, false, true, true]);
}

#[test]
fn toggle_all_clears_a_partly_selected_window() {
    let mut model = school();
    assert_eq!(model.set_semester("de", 2, true), Ok(()));
    assert_eq!(model.toggle_all_semesters("de"), Ok(()));
    assert_eq!(flags(&model, "de"), vec![false, false, false, false]);
}

#[test]
fn toggle_all_of_an_unknown_course_fails() {
    let mut model = school();
    assert_eq!(model.toggle_all_semesters("nope"), Err(SelectionError::UnknownCourse));
}

#[test]
fn set_semester_outside_the_window_is_refused_and_changes_nothing() {
    let mut model = school();
    assert_eq!(model.set_semester("ski", 1, true), Ok(()));
    let before = flags(&model, "ski");
    assert_eq!(model.set_semester("ski", 0, true), Err(SelectionError::OutOfWindow));
    assert_eq!(model.set_semester("ski", 2, true), Err(SelectionError::OutOfWindow));
    assert_eq!(model.set_semester("ski", 3, false), Err(SelectionError::OutOfWindow));
    assert_eq!(model.set_semester("spo-th", 1, true), Err(SelectionError::OutOfWindow));
    assert_eq!(flags(&model, "ski"), before);
    assert_eq!(flags(&model, "spo-th"), vec![false, false, false, false]);
}

#[test]
fn set_semester_outside_the_program_is_an_index_error() {
    let mut model = school();
    assert_eq!(model.set_semester("de", 4, true), Err(SelectionError::IndexError));
    assert_eq!(model.set_semester("ski", 4, true), Err(SelectionError::IndexError));
    assert_eq!(model.set_semester("de", usize::MAX, true), Err(SelectionError::IndexError));
    assert_eq!(flags(&model, "de"), vec![false, false, false, false]);
}

#[test]
fn set_semester_is_idempotent() {
    let mut model = school();
    assert_eq!(model.set_semester("de", 3, true), Ok(()));
    let once = flags(&model, "de");
    assert_eq!(model.set_semester("de", 3, true), Ok(()));
    assert_eq!(flags(&model, "de"), once);
    assert_eq!(once, vec![false, false, false, true]);
    assert_eq!(model.set_semester("de", 3, false), Ok(()));
    assert_eq!(flags(&model, "de"), vec![false, false, false, false]);
}

#[test]
fn set_semester_of_an_unknown_course_fails() {
    let mut model = school();
    assert_eq!(model.set_semester("nope", 0, true), Err(SelectionError::UnknownCourse));
    assert_eq!(model.set_semester("nope", 9, true), Err(SelectionError::UnknownCourse));
}

#[test]
fn usable_semesters_are_capped_only_where_the_field_has_a_cap() {
    let mut model = school();
    model.toggle_all_semesters("ccc").unwrap();
    model.toggle_all_semesters("dw").unwrap();
    model.toggle_all_semesters("spo").unwrap();
    model.toggle_all_semesters("ski").unwrap();
    let extra = model.field(2).unwrap();
    assert_eq!(field_selected_semesters(extra), 6);
    assert_eq!(field_usable_semesters(extra), 2);
    let sport = model.field(1).unwrap();
    assert_eq!(field_selected_semesters(sport), 5);
    assert_eq!(field_usable_semesters(sport), 5);
}

#[test]
fn usable_semesters_below_the_cap_are_the_sum() {
    let mut model = school();
    model.set_semester("ccc", 0, true).unwrap();
    assert_eq!(field_usable_semesters(model.field(2).unwrap()), 1);
    assert_eq!(field_usable_semesters(model.field(0).unwrap()), 0);
}

#[test]
fn assign_exam_needs_the_tag_for_an_advanced_level_role() {
    let mut model = school();
    assert_eq!(model.assign_exam("ds", Some(Exam::Lf1)), Err(SelectionError::IneligibleSlot));
    assert_eq!(model.assign_exam("lat", Some(Exam::Lf2)), Err(SelectionError::IneligibleSlot));
    assert_eq!(model.find_by_id("ds").unwrap().exam(), None);
    assert_eq!(model.assign_exam("de", Some(Exam::Lf1)), Ok(()));
    assert_eq!(model.find_by_id("de").unwrap().exam(), Some(Exam::Lf1));
    assert!(model.find_by_id("de").unwrap().is_lk());
    assert_eq!(model.assign_exam("ds", Some(Exam::Prf3)), Ok(()));
    assert_eq!(model.find_by_id("ds").unwrap().exam(), Some(Exam::Prf3));
    assert!(!model.find_by_id("ds").unwrap().is_lk());
}

#[test]
fn assign_exam_is_idempotent_and_can_be_undone() {
    let mut model = school();
    assert_eq!(model.assign_exam("de", Some(Exam::Pk5)), Ok(()));
    assert_eq!(model.assign_exam("de", Some(Exam::Pk5)), Ok(()));
    assert_eq!(model.find_by_id("de").unwrap().exam(), Some(Exam::Pk5));
    assert_eq!(model.assign_exam("de", None), Ok(()));
    assert_eq!(model.find_by_id("de").unwrap().exam(), None);
    assert_eq!(model.assign_exam("ds", None), Ok(()));
}

#[test]
fn a_refused_exam_keeps_the_one_held() {
    let mut model = school();
    assert_eq!(model.assign_exam("lat", Some(Exam::Prf4)), Ok(()));
    assert_eq!(model.assign_exam("lat", Some(Exam::Lf1)), Err(SelectionError::IneligibleSlot));
    assert_eq!(model.find_by_id("lat").unwrap().exam(), Some(Exam::Prf4));
    assert_eq!(model.assign_exam("nope", Some(Exam::Prf4)), Err(SelectionError::UnknownCourse));
}

#[test]
fn exam_holder_names_the_first_course_with_the_role() {
    let mut model = school();
    assert_eq!(model.exam_holder(Exam::Prf3), None);
    model.assign_exam("spo", Some(Exam::Prf3)).unwrap();
    assert_eq!(model.exam_holder(Exam::Prf3), Some("spo"));
    model.assign_exam("lat", Some(Exam::Prf3)).unwrap();
    assert_eq!(model.exam_holder(Exam::Prf3), Some("lat"));
    assert_eq!(model.exam_holder(Exam::Lf1), None);
}

#[test]
fn find_by_id_gives_the_course_or_nothing() {
    let model = school();
    assert_eq!(model.find_by_id("spo-th").unwrap().course().name(), "Sport-Theorie");
    assert_eq!(model.find_by_id("spo-th").unwrap().course().semester_offset(), 2);
    assert!(model.find_by_id("").is_none());
    assert!(model.find_by_id("DE").is_none());
    assert_eq!(model.selected_semester_count("DE"), None);
}

#[test]
fn find_by_tag_keeps_the_catalog_order() {
    let model = school();
    let lang: Vec<&str> = model.find_by_tag("lang").iter().map(|c| c.course().id()).collect();
    assert_eq!(lang, vec!["de", "lat"]);
    let lk: Vec<&str> = model.find_by_tag("lk").iter().map(|c| c.course().id()).collect();
    assert_eq!(lk, vec!["de"]);
    assert!(model.find_by_tag("nawi").is_empty());
}

#[test]
fn eligible_window_of_each_kind_of_course() {
    let model = school();
    assert_eq!(model.find_by_id("de").unwrap().eligible_window(), (0, 4));
    assert_eq!(model.find_by_id("spo-th").unwrap().eligible_window(), (2, 4));
    assert_eq!(model.find_by_id("ski").unwrap().eligible_window(), (1, 2));
    assert_eq!(model.find_by_id("dw").unwrap().eligible_window(), (0, 2));
    let late = Course::new("Spät", "late", vec![]).with_offset(7);
    assert_eq!(late.eligible_window(4), (4, 4));
    let long = Course::new("Lang", "long", vec![]).with_semesters(3).with_offset(2);
    assert_eq!(long.eligible_window(4), (2, 4));
    assert!(!long.fits(4));
    assert!(long.fits(5));
    let huge = Course::new("Riesig", "huge", vec![]).with_semesters(usize::MAX).with_offset(2);
    assert_eq!(huge.eligible_window(4), (2, 4));
    assert!(!huge.fits(usize::MAX));
}

#[test]
fn an_entry_on_its_own_takes_edits_in_its_window_only() {
    let mut entry = Course::new("Ski", "ski", vec![]).with_semesters(1).with_offset(1).as_instance(4);
    assert_eq!(entry.num_semesters(), 4);
    assert_eq!(entry.set_semester(0, true), Err(SelectionError::OutOfWindow));
    assert_eq!(entry.set_semester(4, true), Err(SelectionError::IndexError));
    assert_eq!(entry.set_semester(1, true), Ok(()));
    assert_eq!(entry.selected_semester_count(), 1);
    entry.toggle_all_semesters();
    assert_eq!(entry.selected_semester_count(), 0);
    assert_eq!(entry.assign_exam(Some(Exam::Lf2)), Err(SelectionError::IneligibleSlot));
    assert_eq!(entry.assign_exam(Some(Exam::Pk5)), Ok(()));
    assert_eq!(entry.exam(), Some(Exam::Pk5));
}

#[test]
fn has_block_finds_a_run_of_selected_semesters() {
    let mut entry = Course::new("Deutsch", "de", vec!["lk"]).as_instance(4);
    assert!(entry.has_block(0));
    assert!(!entry.has_block(1));
    entry.set_semester(1, true).unwrap();
    entry.set_semester(2, true).unwrap();
    assert!(entry.has_block(1));
    assert!(entry.has_block(2));
    assert!(!entry.has_block(3));
    assert!(!entry.has_block(9));
    entry.set_semester(0, true).unwrap();
    entry.set_semester(3, true).unwrap();
    assert!(entry.has_block(4));
    assert!(entry.has_block(9));
    let nothing = Course::new("Leer", "leer", vec![]).as_instance(0);
    assert!(nothing.has_block(3));
}

#[test]
fn a_field_finds_and_edits_its_own_courses() {
    let catalog = Field::new_max_usable(
        "Zusatzkurse",
        vec![
            Course::new("CCC", "ccc", vec!["club"]),
            Course::new("Digitale Welten", "dw", vec!["club", "it"]).with_semesters(2),
            Course::new("Doppelt", "ccc", vec![]),
        ],
        3,
    );
    assert_eq!(catalog.first_unfit(4), 3);
    assert_eq!(catalog.first_unfit(1), 1);
    let mut field = catalog.instantiate(4);
    assert_eq!(field.len(), 3);
    assert_eq!(field.name(), "Zusatzkurse");
    assert_eq!(field.index_of("dw"), 1);
    assert_eq!(field.index_of("ccc"), 0);
    assert_eq!(field.index_of("nope"), 3);
    assert_eq!(field.find_by_id("ccc").unwrap().course().name(), "CCC");
    assert!(field.find_by_id("nope").is_none());
    let club: Vec<&str> = field.find_by_tag("club").iter().map(|c| c.course().id()).collect();
    assert_eq!(club, vec!["ccc", "dw"]);
    assert_eq!(field.toggle_all_semesters("dw"), Ok(()));
    assert_eq!(field.set_semester("ccc", 3, true), Ok(()));
    assert_eq!(field.set_semester("dw", 2, true), Err(SelectionError::OutOfWindow));
    assert_eq!(field.set_semester("dw", 4, true), Err(SelectionError::IndexError));
    assert_eq!(field.set_semester("nope", 0, true), Err(SelectionError::UnknownCourse));
    assert_eq!(field.toggle_all_semesters("nope"), Err(SelectionError::UnknownCourse));
    assert_eq!(field.course(0).unwrap().semesters(), &vec![false, false, false, true]);
    assert_eq!(field.course(1).unwrap().semesters(), &vec![true, true, false, false]);
    assert_eq!(field.course(2).unwrap().selected_semester_count(), 0);
    assert_eq!(field_selected_semesters(&field), 3);
    assert_eq!(field_usable_semesters(&field), 3);
    assert_eq!(field.set_semester("ccc", 0, true), Ok(()));
    assert_eq!(field_selected_semesters(&field), 4);
    assert_eq!(field_usable_semesters(&field), 3);
    assert_eq!(field.index_of_holder(Exam::Pk5), 3);
    assert_eq!(field.assign_exam("dw", Some(Exam::Pk5)), Ok(()));
    assert_eq!(field.assign_exam("dw", Some(Exam::Lf1)), Err(SelectionError::IneligibleSlot));
    assert_eq!(field.assign_exam("nope", None), Err(SelectionError::UnknownCourse));
    assert_eq!(field.index_of_holder(Exam::Pk5), 1);
    assert_eq!(field.index_of_holder(Exam::Lf1), 3);
}

#[test]
fn the_first_of_two_courses_with_one_identifier_is_the_one_found() {
    let catalog = Structure::build(
        vec![
            Field::new("A", vec![Course::new("Erster", "x", vec![]).with_semesters(1)]),
            Field::new("B", vec![Course::new("Zweiter", "x", vec![]), Course::new("Y", "y", vec![])]),
        ],
        2,
        "Schule",
        "1",
    )
    .unwrap();
    let mut model = catalog.instantiate();
    assert_eq!(model.field_index_of("x"), 0);
    assert_eq!(model.field_index_of("y"), 1);
    assert_eq!(model.field_index_of("z"), 2);
    assert_eq!(model.find_by_id("x").unwrap().course().name(), "Erster");
    assert_eq!(model.toggle_all_semesters("x"), Ok(()));
    assert_eq!(model.selected_semester_count("x"), Some(1));
    let second = model.field(1).unwrap().course(0).unwrap();
    assert_eq!(second.selected_semester_count(), 0);
    assert!(second.course().has_id("x"));
    assert!(!second.course().has_id("X"));
}

#[test]
fn a_window_of_no_semesters_takes_no_edit() {
    let mut entry = Course::new("Nichts", "none", vec![]).with_semesters(0).with_offset(2).as_instance(4);
    assert_eq!(entry.eligible_window(), (2, 2));
    entry.toggle_all_semesters();
    assert_eq!(entry.selected_semester_count(), 0);
    assert_eq!(entry.set_semester(2, true), Err(SelectionError::OutOfWindow));
    let mut late = Course::new("Spät", "late", vec![]).with_offset(9).as_instance(4);
    assert_eq!(late.eligible_window(), (4, 4));
    late.toggle_all_semesters();
    assert_eq!(late.semesters(), &vec![false; 4]);
}
