use sit_timetable::{
    extract_courses_logged, extract_timetable_logged, LogLevel,
    extract_courses, extract_timetable_from_html, CivilDateTime, EntryType, RawCourse, ScrapError,
};

fn s(v: &str) -> String {
    v.to_string()
}

fn row(section: &str, kind: &str, times: &str, room: &str, who: &str, dates: &str) -> Vec<String> {
    vec![s("1001"), s(section), s(kind), s(times), s(room), s(who), s(dates)]
}

fn header() -> Vec<String> {
    vec![s("Nbr"), s("Section"), s("Component"), s("Times"), s("Room"), s("Instructor"), s("Dates")]
}

fn course(name: &str, rows: Vec<Vec<String>>) -> RawCourse {
    let mut table = vec![header()];
    table.extend(rows);
    RawCourse { name_cells: vec![s(name)], meeting_tables: vec![vec![vec![s("head")]], table] }
}

fn at(day: u8, hour: u8, minute: u8) -> CivilDateTime {
    CivilDateTime { year: 2024, month: 1, day, hour, minute }
}

#[test]
fn empty_section_repeats_previous_row() {
    let c = course(
        " CSC1001 - Programming ",
        vec![
            row("LA1", "Lecture", "Mo 9:00AM - 11:00AM", "E2-01", "Dr. Tan", "15/01/2024 - 15/01/2024"),
            row("", "Tutorial", "Tu 9:00AM - 10:00AM", "E2-02", "Mr. Lim", "16/01/2024 - 16/01/2024"),
            row("LA2", "", "We 1:00PM - 3:00PM", "E2-03", " Ms. Lee. ", "17/01/2024 - 17/01/2024"),
        ],
    );
    let (summary, courses) = extract_courses(&vec![c]);
    assert_eq!(summary.skipped_unknown_course_count, 0);
    assert_eq!(summary.skipped_table_entry_count, 0);
    assert!(!summary.errors_present);
    assert_eq!(courses.len(), 1);
    assert_eq!(courses[0].course_name, "CSC1001 - Programming");
    let e = &courses[0].table_entries;
    assert_eq!(e.len(), 3);
    assert_eq!(e[1].class_section, e[0].class_section);
    assert_eq!(e[1].class_section, "LA1");
    assert_eq!(e[1].entry_type, EntryType::Tutorial);
    assert_eq!(e[2].class_section, "LA2");
    assert_eq!(e[2].entry_type, EntryType::Tutorial);
    assert_eq!(e[0].instructors, vec![s("Dr Tan")]);
    assert_eq!(e[2].instructors, vec![s("Ms Lee")]);
    assert_eq!(e[0].location, "E2-01");
    assert_eq!(e[0].start_datetime, at(15, 9, 0));
    assert_eq!(e[0].end_datetime, at(15, 11, 0));
    assert_eq!(e[2].start_datetime, at(17, 13, 0));
    assert_eq!(e[2].end_datetime, at(17, 15, 0));
}

#[test]
fn rows_start_as_all_sections_and_lectures() {
    let c = course(
        "X",
        vec![row("", "", "Mo 9:00AM - 11:00AM", "R", "P", "15/01/2024 - 20/01/2024")],
    );
    let (_, courses) = extract_courses(&vec![c]);
    let e = &courses[0].table_entries[0];
    assert_eq!(e.class_section, "ALL");
    assert_eq!(e.entry_type, EntryType::Lecture);
}

#[test]
fn labels_map_to_entry_types() {
    let c = course(
        "X",
        vec![
            row("A", "Quiz", "Mo 9:00AM - 10:00AM", "R", "P", "15/01/2024"),
            row("A", "Laboratory", "Mo 9:00AM - 10:00AM", "R", "P", "15/01/2024"),
            row("A", "Workshop", "Mo 9:00AM - 10:00AM", "R", "P", "15/01/2024"),
            row("A", "Lecture", "Mo 9:00AM - 10:00AM", "R", "P", "15/01/2024"),
        ],
    );
    let (summary, courses) = extract_courses(&vec![c]);
    let kinds: Vec<EntryType> = courses[0].table_entries.iter().map(|e| e.entry_type).collect();
    assert_eq!(kinds, vec![EntryType::Quiz, EntryType::Lab, EntryType::Workshop, EntryType::Lecture]);
    assert!(!summary.errors_present);
}

#[test]
fn unmapped_label_gives_unknown_entry() {
    let c = course(
        "X",
        vec![row("S1", "Seminar", "Mo 9:00AM - 10:00AM", "R", "P", "15/01/2024 - 15/01/2024")],
    );
    let (summary, courses) = extract_courses(&vec![c]);
    assert_eq!(courses[0].table_entries.len(), 1);
    assert_eq!(courses[0].table_entries[0].entry_type, EntryType::Unknown);
    assert!(summary.errors_present);
    assert_eq!(summary.skipped_table_entry_count, 0);
    assert_eq!(summary.skipped_unknown_course_count, 0);
}

#[test]
fn tba_row_is_skipped_without_error() {
    let c = course(
        "X",
        vec![
            row("S1", "Lecture", "TBA", "TBA", "Staff", "15/01/2024 - 15/01/2024"),
            row("S1", "Lecture", "Mo 9:00AM - 10:00AM", "R", "P", "15/01/2024"),
        ],
    );
    let (summary, courses) = extract_courses(&vec![c]);
    assert_eq!(courses[0].table_entries.len(), 1);
    assert_eq!(summary.skipped_table_entry_count, 1);
    assert!(!summary.errors_present);
}

#[test]
fn unreadable_row_is_skipped_with_error() {
    let c = course("X", vec![row("S1", "Lecture", "Mo 9:00AM", "R", "P", "15/01/2024")]);
    let (summary, courses) = extract_courses(&vec![c]);
    assert_eq!(courses.len(), 1);
    assert!(courses[0].table_entries.is_empty());
    assert_eq!(summary.skipped_table_entry_count, 1);
    assert!(summary.errors_present);
}

#[test]
fn row_ending_before_it_starts_is_skipped_with_error() {
    let c = course("X", vec![row("S1", "Lecture", "Mo 11:00AM - 9:00AM", "R", "P", "15/01/2024")]);
    let (summary, courses) = extract_courses(&vec![c]);
    assert!(courses[0].table_entries.is_empty());
    assert_eq!(summary.skipped_table_entry_count, 1);
    assert!(summary.errors_present);
}

#[test]
fn row_without_date_cell_uses_times_cell_alone() {
    let short = vec![s("1"), s("S"), s("Lecture"), s("Mo 9:00AM - 10:00AM 15/01/2024"), s("R"), s("P")];
    let c = course("X", vec![short]);
    let (summary, courses) = extract_courses(&vec![c]);
    assert_eq!(courses[0].table_entries.len(), 1);
    assert_eq!(courses[0].table_entries[0].start_datetime, at(15, 9, 0));
    assert!(!summary.errors_present);
}

#[test]
fn block_without_meeting_table_is_dropped_with_error() {
    let c = RawCourse { name_cells: vec![s("X")], meeting_tables: vec![vec![vec![s("head")]]] };
    let (summary, courses) = extract_courses(&vec![c]);
    assert!(courses.is_empty());
    assert_eq!(summary.skipped_unknown_course_count, 1);
    assert!(summary.errors_present);
}

#[test]
fn block_without_name_is_dropped_quietly() {
    let mut c = course("X", vec![row("S", "Lecture", "Mo 9:00AM - 10:00AM", "R", "P", "15/01/2024")]);
    c.name_cells.clear();
    let (summary, courses) = extract_courses(&vec![c]);
    assert!(courses.is_empty());
    assert_eq!(summary.skipped_unknown_course_count, 1);
    assert!(!summary.errors_present);
}

#[test]
fn carried_values_restart_for_each_course() {
    let a = course("A", vec![row("QZ9", "Quiz", "Mo 9:00AM - 10:00AM", "R", "P", "15/01/2024")]);
    let b = course("B", vec![row("", "", "Mo 9:00AM - 10:00AM", "R", "P", "15/01/2024")]);
    let (_, courses) = extract_courses(&vec![a, b]);
    assert_eq!(courses[1].table_entries[0].class_section, "ALL");
    assert_eq!(courses[1].table_entries[0].entry_type, EntryType::Lecture);
}

const PAGE: &str = r#"<html><body>
<table id="ACE_STDNT_ENRL_SSV2$0"><tbody>
<tr><td>&nbsp;</td></tr>
<tr><td>
  <table><tbody><tr><td class="PAGROUPDIVIDER"> CSC1001 - Programming </td></tr></tbody></table>
  <table class="PSLEVEL3GRIDWBO"><tbody><tr><td>
    <table class="PSLEVEL3GRID"><tbody><tr><th>Status</th></tr></tbody></table>
    <table class="PSLEVEL3GRID"><tbody>
      <tr><th>Nbr</th><th>Section</th><th>Component</th><th>Times</th><th>Room</th><th>Instructor</th><th>Dates</th></tr>
      <tr><td>1001</td><td>LA1</td><td>Lecture</td><td>Mo 9:00AM - 11:00AM</td><td>E2-01</td><td>Dr. Tan</td><td>15/01/2024 - 15/01/2024</td></tr>
      <tr><td>1002</td><td>&nbsp;</td><td>Tutorial</td><td>Tu 9:00AM - 10:00AM</td><td>E2-02</td><td>Mr. Lim</td><td>16/01/2024 - 16/01/2024</td></tr>
      <tr><td>1003</td><td>LA2</td><td>Laboratory</td><td>We 1:00PM - 3:00PM</td><td>E2-03</td><td>Ms. Lee</td><td>17/01/2024 - 17/01/2024</td></tr>
    </tbody></table>
  </td></tr></tbody></table>
</td></tr>
</tbody></table>
</body></html>"#;

#[test]
fn page_with_three_rows_gives_three_meetings() {
    let (summary, courses) = extract_timetable_from_html(PAGE).unwrap();
    assert_eq!(summary.skipped_unknown_course_count, 0);
    assert_eq!(summary.skipped_table_entry_count, 0);
    assert!(!summary.errors_present);
    assert_eq!(courses.len(), 1);
    assert_eq!(courses[0].course_name, "CSC1001 - Programming");
    let e = &courses[0].table_entries;
    assert_eq!(e.len(), 3);
    assert_eq!(e[1].class_section, e[0].class_section);
    assert_eq!(e[1].entry_type, EntryType::Tutorial);
    assert_eq!(e[2].entry_type, EntryType::Lab);
    assert_eq!(e[0].instructors, vec![s("Dr Tan")]);
    assert_eq!(e[2].start_datetime, at(17, 13, 0));
}

#[test]
fn extracting_twice_gives_the_same_result() {
    let (s1, c1) = extract_timetable_from_html(PAGE).unwrap();
    let (s2, c2) = extract_timetable_from_html(PAGE).unwrap();
    assert_eq!(s1, s2);
    assert_eq!(format!("{:?}", c1), format!("{:?}", c2));
}

#[test]
fn page_without_root_table_fails() {
    let r = extract_timetable_from_html("<html><body><table id=\"other\"><tbody><tr><td>x</td></tr></tbody></table></body></html>");
    match r {
        Err(ScrapError::HtmlParseError(m)) => assert_eq!(m, "Table selector not found"),
        _ => panic!("expected the structural error"),
    }
}

#[test]
fn extraction_logs_skips_and_unknown_labels() {
    let a = course(
        "X",
        vec![
            row("S1", "Seminar", "Mo 9:00AM - 10:00AM", "R", "P", "15/01/2024"),
            row("S1", "Lecture", "TBA", "R", "P", "15/01/2024"),
            row("S1", "Lecture", "Mo 9:00AM", "R", "P", "15/01/2024"),
        ],
    );
    let b = RawCourse { name_cells: vec![], meeting_tables: vec![] };
    let c = RawCourse { name_cells: vec![s("Y")], meeting_tables: vec![] };
    let (_, _, logs) = extract_courses_logged(&vec![a, b, c]);
    let lines: Vec<(&str, LogLevel)> = logs.iter().map(|l| (l.0.as_str(), l.1)).collect();
    assert_eq!(
        lines,
        vec![
            ("Parsing X timetable", LogLevel::Info),
            ("Encountered unknown entry type when parsing table: Seminar, no matches found", LogLevel::Warn),
            ("Default to 'unknown', continuing...", LogLevel::Warn),
            ("Table entry skipped for X, meeting info not available", LogLevel::Warn),
            ("Table entry skipped for X, CHECK results", LogLevel::Error),
            ("Course name selector, not found", LogLevel::Error),
            ("Course skipped, verify generated timetable.", LogLevel::Error),
            ("Parsing Y timetable", LogLevel::Info),
            ("Timetable selector, not found", LogLevel::Error),
            ("Y skipped, verify generated timetable.", LogLevel::Error),
        ]
    );
}

#[test]
fn page_extraction_logs_each_course() {
    let (_, courses, logs) = extract_timetable_logged(PAGE).unwrap();
    assert_eq!(courses.len(), 1);
    assert_eq!(logs.len(), 1);
    assert_eq!(logs[0].0, "Parsing CSC1001 - Programming timetable");
}
