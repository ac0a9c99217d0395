//! Turning the study-list page into courses and meetings.
//!
//! The page is a root table whose non-blank child blocks are courses. Each
//! course block holds a name cell and a nested meeting table; the meeting
//! table's first row is a header. Rows may leave the section and the kind of
//! meeting blank when they repeat the row above: those values are carried
//! forward from row to row within a course.
use crate::datetime::{start_end_of, try_parse_string_to_start_end_dt};
use crate::error::{ScrapError, ScrapErrorView};
use crate::models::{
    CourseInfo, CourseView, EntryType, EntryView, LogLevel, ScrapResult, TimeTableEntry,
};
use crate::text::{before_dash, has_tba, trim, without_dots};
use crate::text::{contains_tba, remove_dots, same_text, text_before_dash, trim_text};
use vstd::prelude::*;

verus! {

/// The texts read out of one course block, before any interpretation.
pub struct RawCourse {
    /// Text of each course-name cell of the block, as found.
    pub name_cells: Vec<String>,
    /// For each meeting-table body of the block: its rows, each as the text
    /// of its cells, as found.
    pub meeting_tables: Vec<Vec<Vec<String>>>,
}

pub struct RawCourseView {
    pub name_cells: Seq<Seq<char>>,
    pub meeting_tables: Seq<Seq<Seq<Seq<char>>>>,
}

impl View for RawCourse {
    type V = RawCourseView;

    open spec fn view(&self) -> RawCourseView {
        RawCourseView {
            name_cells: self.name_cells.deep_view(),
            meeting_tables: self.meeting_tables.deep_view(),
        }
    }
}

/// The values carried from one row of a meeting table to the next.
pub struct Carry {
    pub section: Seq<char>,
    pub entry_type: EntryType,
}

/// What a course's rows start from: every section, and lectures.
pub open spec fn initial_carry() -> Carry {
    Carry { section: "ALL"@, entry_type: EntryType::Lecture }
}

/// Text of cell `i` of a row, trimmed; empty when the row has no such cell.
pub open spec fn cell_text(row: Seq<Seq<char>>, i: int) -> Seq<char> {
    if 0 <= i < row.len() {
        trim(row[i])
    } else {
        Seq::empty()
    }
}

pub open spec fn is_known_label(label: Seq<char>) -> bool {
    label == "Quiz"@ || label == "Tutorial"@ || label == "Laboratory"@ || label == "Lecture"@
        || label == "Workshop"@
}

/// The kind of meeting that a label names.
pub open spec fn entry_type_of(label: Seq<char>) -> EntryType {
    if label == "Quiz"@ {
        EntryType::Quiz
    } else if label == "Tutorial"@ {
        EntryType::Tutorial
    } else if label == "Laboratory"@ {
        EntryType::Lab
    } else if label == "Lecture"@ {
        EntryType::Lecture
    } else if label == "Workshop"@ {
        EntryType::Workshop
    } else {
        EntryType::Unknown
    }
}

/// The carried values after a row: a non-empty cell replaces the value, an
/// empty one keeps it.
pub open spec fn next_carry(c: Carry, row: Seq<Seq<char>>) -> Carry {
    Carry {
        section: if cell_text(row, 1).len() > 0 {
            cell_text(row, 1)
        } else {
            c.section
        },
        entry_type: if cell_text(row, 2).len() > 0 {
            entry_type_of(cell_text(row, 2))
        } else {
            c.entry_type
        },
    }
}

/// The row names a kind of meeting that is not known.
pub open spec fn has_unknown_label(row: Seq<Seq<char>>) -> bool {
    cell_text(row, 2).len() > 0 && !is_known_label(cell_text(row, 2))
}

/// The meeting time text of a row: cell 3, then a space and the part of cell 6
/// before its first `-`, when the row has a cell 6.
pub open spec fn meeting_text(row: Seq<Seq<char>>) -> Seq<char> {
    if row.len() > 6 {
        cell_text(row, 3) + seq![' '] + before_dash(cell_text(row, 6))
    } else {
        cell_text(row, 3)
    }
}

/// The instructor of a row: cell 5 without dots, trimmed.
pub open spec fn instructor_of(row: Seq<Seq<char>>) -> Seq<char> {
    trim(without_dots(cell_text(row, 5)))
}

pub enum RowOutcome {
    Entry(EntryView),
    /// The meeting has no fixed time yet.
    Unscheduled,
    /// The meeting time text could not be read.
    Unreadable,
}

/// What a row gives, with `c` the values carried into it.
pub open spec fn row_outcome(c: Carry, row: Seq<Seq<char>>) -> RowOutcome {
    let n = next_carry(c, row);
    let text = meeting_text(row);
    if has_tba(text) {
        RowOutcome::Unscheduled
    } else {
        match start_end_of(text) {
            Ok((s, e)) => RowOutcome::Entry(
                EntryView {
                    entry_type: n.entry_type,
                    class_section: n.section,
                    location: cell_text(row, 4),
                    instructors: seq![instructor_of(row)],
                    start_datetime: s,
                    end_datetime: e,
                },
            ),
            Err(_) => RowOutcome::Unreadable,
        }
    }
}

/// One more, short of the largest `u32`.
pub open spec fn bump(n: int) -> int {
    if n < u32::MAX {
        n + 1
    } else {
        n
    }
}

/// The state of the walk over one course's rows.
pub struct RowScan {
    pub carry: Carry,
    pub entries: Seq<EntryView>,
    pub skipped: int,
    pub errors: bool,
    /// The trimmed name of the course the rows belong to.
    pub course: Seq<char>,
    /// The lines logged so far.
    pub logs: Seq<(Seq<char>, LogLevel)>,
}

pub const MSG_UNKNOWN_HEAD: &'static str = "Encountered unknown entry type when parsing table: ";

pub const MSG_UNKNOWN_TAIL: &'static str = ", no matches found";

pub const MSG_DEFAULT_UNKNOWN: &'static str = "Default to 'unknown', continuing...";

pub const MSG_SKIPPED_ENTRY: &'static str = "Table entry skipped for ";

pub const MSG_UNSCHEDULED_TAIL: &'static str = ", meeting info not available";

pub const MSG_UNREADABLE_TAIL: &'static str = ", CHECK results";

pub const MSG_NO_NAME: &'static str = "Course name selector, not found";

pub const MSG_NAMELESS_SKIPPED: &'static str = "Course skipped, verify generated timetable.";

pub const MSG_PARSING_HEAD: &'static str = "Parsing ";

pub const MSG_PARSING_TAIL: &'static str = " timetable";

pub const MSG_NO_TABLE: &'static str = "Timetable selector, not found";

pub const MSG_COURSE_SKIPPED_TAIL: &'static str = " skipped, verify generated timetable.";

/// The lines logged for a row of course `course` that gave `outcome`.
pub open spec fn row_logs(course: Seq<char>, row: Seq<Seq<char>>, outcome: RowOutcome) -> Seq<
    (Seq<char>, LogLevel),
> {
    (if has_unknown_label(row) {
        seq![
            (MSG_UNKNOWN_HEAD@ + cell_text(row, 2) + MSG_UNKNOWN_TAIL@, LogLevel::Warn),
            (MSG_DEFAULT_UNKNOWN@, LogLevel::Warn),
        ]
    } else {
        Seq::empty()
    }) + match outcome {
        RowOutcome::Entry(_) => Seq::empty(),
        RowOutcome::Unscheduled => seq![
            (MSG_SKIPPED_ENTRY@ + course + MSG_UNSCHEDULED_TAIL@, LogLevel::Warn),
        ],
        RowOutcome::Unreadable => seq![
            (MSG_SKIPPED_ENTRY@ + course + MSG_UNREADABLE_TAIL@, LogLevel::Error),
        ],
    }
}

pub open spec fn row_step(s: RowScan, row: Seq<Seq<char>>) -> RowScan {
    let errors = s.errors || has_unknown_label(row);
    let carry = next_carry(s.carry, row);
    let outcome = row_outcome(s.carry, row);
    let logs = s.logs + row_logs(s.course, row, outcome);
    match outcome {
        RowOutcome::Entry(e) => RowScan {
            carry,
            entries: s.entries.push(e),
            skipped: s.skipped,
            errors,
            course: s.course,
            logs,
        },
        RowOutcome::Unscheduled => RowScan {
            carry,
            entries: s.entries,
            skipped: bump(s.skipped),
            errors,
            course: s.course,
            logs,
        },
        RowOutcome::Unreadable => RowScan {
            carry,
            entries: s.entries,
            skipped: bump(s.skipped),
            errors: true,
            course: s.course,
            logs,
        },
    }
}

/// The walk over `rows`, from `init`, as a left fold of `row_step`.
pub open spec fn scan_rows(init: RowScan, rows: Seq<Seq<Seq<char>>>) -> RowScan
    decreases rows.len(),
{
    if rows.len() == 0 {
        init
    } else {
        row_step(scan_rows(init, rows.drop_last()), rows.last())
    }
}

/// The rows of a meeting table after its header row.
pub open spec fn data_rows(table: Seq<Seq<Seq<char>>>) -> Seq<Seq<Seq<char>>> {
    if table.len() == 0 {
        table
    } else {
        table.drop_first()
    }
}

/// What extraction has produced so far.
pub struct Tally {
    pub courses: Seq<CourseView>,
    pub unknown_courses: int,
    pub skipped_entries: int,
    pub errors: bool,
    pub logs: Seq<(Seq<char>, LogLevel)>,
}

pub open spec fn parsing_line(name: Seq<char>) -> (Seq<char>, LogLevel) {
    (MSG_PARSING_HEAD@ + name + MSG_PARSING_TAIL@, LogLevel::Info)
}

pub open spec fn course_step(t: Tally, c: RawCourseView) -> Tally {
    if c.name_cells.len() == 0 {
        Tally {
            unknown_courses: bump(t.unknown_courses),
            logs: t.logs + seq![
                (MSG_NO_NAME@, LogLevel::Error),
                (MSG_NAMELESS_SKIPPED@, LogLevel::Error),
            ],
            ..t
        }
    } else if c.meeting_tables.len() < 2 {
        let name = trim(c.name_cells[0]);
        Tally {
            unknown_courses: bump(t.unknown_courses),
            errors: true,
            logs: t.logs + seq![
                parsing_line(name),
                (MSG_NO_TABLE@, LogLevel::Error),
                (name + MSG_COURSE_SKIPPED_TAIL@, LogLevel::Error),
            ],
            ..t
        }
    } else {
        let r = scan_rows(
            table_start(
                t.skipped_entries,
                t.errors,
                trim(c.name_cells[0]),
                t.logs.push(parsing_line(trim(c.name_cells[0]))),
            ),
            data_rows(c.meeting_tables[1]),
        );
        Tally {
            courses: t.courses.push(
                CourseView { course_name: trim(c.name_cells[0]), table_entries: r.entries },
            ),
            unknown_courses: t.unknown_courses,
            skipped_entries: r.skipped,
            errors: r.errors,
            logs: r.logs,
        }
    }
}

pub open spec fn tally_from(init: Tally, blocks: Seq<RawCourseView>) -> Tally
    decreases blocks.len(),
{
    if blocks.len() == 0 {
        init
    } else {
        course_step(tally_from(init, blocks.drop_last()), blocks.last())
    }
}

pub open spec fn empty_tally() -> Tally {
    Tally {
        courses: Seq::empty(),
        unknown_courses: 0,
        skipped_entries: 0,
        errors: false,
        logs: Seq::empty(),
    }
}

/// What extraction gives for the course blocks `blocks`, in order.
pub open spec fn tally(blocks: Seq<RawCourseView>) -> Tally {
    tally_from(empty_tally(), blocks)
}

pub open spec fn summary_of(t: Tally) -> ScrapResult {
    ScrapResult {
        skipped_unknown_course_count: t.unknown_courses as u32,
        skipped_table_entry_count: t.skipped_entries as u32,
        errors_present: t.errors,
    }
}

pub open spec fn course_views(v: Seq<CourseInfo>) -> Seq<CourseView> {
    v.map_values(|c: CourseInfo| c@)
}

pub open spec fn raw_views(v: Seq<RawCourse>) -> Seq<RawCourseView> {
    v.map_values(|c: RawCourse| c@)
}

/// The kind of meeting a non-empty label names, and whether it was known.
fn entry_type_for_label(label: &str) -> (r: (EntryType, bool))
    ensures
        r.0 == entry_type_of(label@),
        r.1 == is_known_label(label@),
{
    if same_text(label, "Quiz") {
        (EntryType::Quiz, true)
    } else if same_text(label, "Tutorial") {
        (EntryType::Tutorial, true)
    } else if same_text(label, "Laboratory") {
        (EntryType::Lab, true)
    } else if same_text(label, "Lecture") {
        (EntryType::Lecture, true)
    } else if same_text(label, "Workshop") {
        (EntryType::Workshop, true)
    } else {
        (EntryType::Unknown, false)
    }
}

fn cell(row: &Vec<String>, i: usize) -> (r: String)
    ensures
        r@ == cell_text(row.deep_view(), i as int),
{
    if i < row.len() {
        assert(row.deep_view()[i as int] == row@[i as int]@);
        trim_text(row[i].as_str())
    } else {
        String::new()
    }
}

/// What reading one row gave.
pub enum RowRead {
    Entry(TimeTableEntry),
    Unscheduled,
    Unreadable,
}

impl View for RowRead {
    type V = RowOutcome;

    open spec fn view(&self) -> RowOutcome {
        match self {
            RowRead::Entry(e) => RowOutcome::Entry(e@),
            RowRead::Unscheduled => RowOutcome::Unscheduled,
            RowRead::Unreadable => RowOutcome::Unreadable,
        }
    }
}

/// Reads one data row, given the section and kind of meeting carried into it.
/// Returns the carried values after the row, whether its label was unknown,
/// and what the row gives.
pub fn read_row(section: &String, entry_type: EntryType, row: &Vec<String>) -> (r: (
    String,
    EntryType,
    bool,
    RowRead,
))
    ensures
        ({
            let c = Carry { section: section@, entry_type };
            let n = next_carry(c, row.deep_view());
            &&& r.0@ == n.section
            &&& r.1 == n.entry_type
            &&& r.2 == has_unknown_label(row.deep_view())
            &&& r.3@ == row_outcome(c, row.deep_view())
        }),
{
    let ghost rv = row.deep_view();
    let sec_text = cell(row, 1);
    let new_section = if sec_text.unicode_len() > 0 {
        sec_text
    } else {
        section.clone()
    };
    let type_text = cell(row, 2);
    let (new_type, unknown) = if type_text.unicode_len() > 0 {
        let (t, known) = entry_type_for_label(type_text.as_str());
        (t, !known)
    } else {
        (entry_type, false)
    };
    let mut when = cell(row, 3);
    if row.len() > 6 {
        let tail = cell(row, 6);
        let head = text_before_dash(tail.as_str());
        when.append(" ");
        proof {
            reveal_strlit(" ");
        }
        when.append(head.as_str());
    }
    assert(when@ =~= meeting_text(rv));
    if contains_tba(when.as_str()) {
        return (new_section, new_type, unknown, RowRead::Unscheduled);
    }
    match try_parse_string_to_start_end_dt(when.as_str()) {
        Ok((start, end)) => {
            let location = cell(row, 4);
            let raw_instructor = cell(row, 5);
            let no_dots = remove_dots(raw_instructor.as_str());
            let instructor = trim_text(no_dots.as_str());
            let mut instructors: Vec<String> = Vec::new();
            instructors.push(instructor);
            let entry = TimeTableEntry {
                entry_type: new_type,
                class_section: new_section.clone(),
                location,
                instructors,
                start_datetime: start,
                end_datetime: end,
            };
            assert(entry@.instructors =~= seq![instructor_of(rv)]);
            (new_section, new_type, unknown, RowRead::Entry(entry))
        },
        Err(_) => (new_section, new_type, unknown, RowRead::Unreadable),
    }
}

pub open spec fn entry_views(v: Seq<TimeTableEntry>) -> Seq<EntryView> {
    v.map_values(|e: TimeTableEntry| e@)
}

pub open spec fn table_start(
    skipped: int,
    errors: bool,
    course: Seq<char>,
    logs: Seq<(Seq<char>, LogLevel)>,
) -> RowScan {
    RowScan { carry: initial_carry(), entries: Seq::empty(), skipped, errors, course, logs }
}

pub open spec fn log_views(v: Seq<(String, LogLevel)>) -> Seq<(Seq<char>, LogLevel)> {
    v.map_values(|p: (String, LogLevel)| (p.0@, p.1))
}

fn push_log(logs: &mut Vec<(String, LogLevel)>, m: String, level: LogLevel)
    ensures
        log_views(final(logs)@) == log_views(old(logs)@).push((m@, level)),
{
    let ghost before = log_views(logs@);
    logs.push((m, level));
    assert(log_views(logs@) =~= before.push((m@, level)));
}

fn joined(a: &str, b: &str, c: &str) -> (r: String)
    ensures
        r@ == a@ + b@ + c@,
{
    let mut m = String::from_str(a);
    m.append(b);
    m.append(c);
    m
}

/// Logs the lines for a row of course `course`.
fn push_row_logs(
    logs: &mut Vec<(String, LogLevel)>,
    course: &str,
    row: &Vec<String>,
    unknown: bool,
    outcome: &RowRead,
)
    requires
        unknown == has_unknown_label(row.deep_view()),
    ensures
        log_views(final(logs)@) == log_views(old(logs)@) + row_logs(
            course@,
            row.deep_view(),
            outcome@,
        ),
{
    let ghost start = log_views(logs@);
    if unknown {
        let label = cell(row, 2);
        push_log(logs, joined(MSG_UNKNOWN_HEAD, label.as_str(), MSG_UNKNOWN_TAIL), LogLevel::Warn);
        push_log(logs, String::from_str(MSG_DEFAULT_UNKNOWN), LogLevel::Warn);
    }
    let ghost mid = log_views(logs@);
    match outcome {
        RowRead::Entry(_) => {},
        RowRead::Unscheduled => {
            push_log(logs, joined(MSG_SKIPPED_ENTRY, course, MSG_UNSCHEDULED_TAIL), LogLevel::Warn);
        },
        RowRead::Unreadable => {
            push_log(logs, joined(MSG_SKIPPED_ENTRY, course, MSG_UNREADABLE_TAIL), LogLevel::Error);
        },
    }
    assert(log_views(logs@) =~= start + row_logs(course@, row.deep_view(), outcome@));
}

fn bump_count(n: u32) -> (r: u32)
    ensures
        r == bump(n as int),
{
    if n < u32::MAX {
        n + 1
    } else {
        n
    }
}

/// Walks the data rows of one meeting table, with the skip count and error
/// flag reached so far; returns the meetings, the new count and the new flag.
pub fn scan_table(
    table: &Vec<Vec<String>>,
    skipped: u32,
    errors: bool,
    course: &str,
    logs: Vec<(String, LogLevel)>,
) -> (r: (Vec<TimeTableEntry>, u32, bool, Vec<(String, LogLevel)>))
    ensures
        ({
            let s = scan_rows(
                table_start(skipped as int, errors, course@, log_views(logs@)),
                data_rows(table.deep_view()),
            );
            &&& entry_views(r.0@) == s.entries
            &&& r.1 == s.skipped
            &&& r.2 == s.errors
            &&& log_views(r.3@) == s.logs
        }),
{
    let ghost tv = table.deep_view();
    let ghost init = table_start(skipped as int, errors, course@, log_views(logs@));
    let mut logs = logs;
    let mut entries: Vec<TimeTableEntry> = Vec::new();
    let mut section = String::from_str("ALL");
    let mut entry_type = EntryType::Lecture;
    let mut sk = skipped;
    let mut err = errors;
    if table.len() == 0 {
        assert(entry_views(entries@) =~= Seq::<EntryView>::empty());
        return (entries, sk, err, logs);
    }
    let n = table.len();
    let mut i: usize = 1;
    assert(data_rows(tv).subrange(0, 0) =~= Seq::<Seq<Seq<char>>>::empty());
    assert(entry_views(entries@) =~= Seq::<EntryView>::empty());
    while i < n
        invariant
            n == table@.len() == tv.len(),
            tv == table.deep_view(),
            1 <= i <= n,
            init == table_start(skipped as int, errors, course@, init.logs),
            scan_rows(init, data_rows(tv).subrange(0, i - 1)) == (RowScan {
                carry: Carry { section: section@, entry_type },
                entries: entry_views(entries@),
                skipped: sk as int,
                errors: err,
                course: course@,
                logs: log_views(logs@),
            }),
        decreases n - i,
    {
        let ghost done = data_rows(tv).subrange(0, i - 1);
        let ghost next = data_rows(tv).subrange(0, i as int);
        assert(next.drop_last() =~= done);
        assert(next.last() == tv[i as int]);
        assert(tv[i as int] == table@[i as int].deep_view());
        let ghost before = entry_views(entries@);
        let (new_section, new_type, unknown, outcome) = read_row(&section, entry_type, &table[i]);
        push_row_logs(&mut logs, course, &table[i], unknown, &outcome);
        if unknown {
            err = true;
        }
        match outcome {
            RowRead::Entry(e) => {
                entries.push(e);
                assert(entry_views(entries@) =~= before.push(e@));
            },
            RowRead::Unscheduled => {
                sk = bump_count(sk);
            },
            RowRead::Unreadable => {
                sk = bump_count(sk);
                err = true;
            },
        }
        section = new_section;
        entry_type = new_type;
        i = i + 1;
    }
    assert(data_rows(tv).subrange(0, n - 1) =~= data_rows(tv));
    (entries, sk, err, logs)
}

/// Interprets the course blocks of a page, in order: the courses found, with
/// how many courses and meetings were left out, whether anything looked wrong,
/// and the lines to log about it.
pub fn extract_courses_logged(blocks: &Vec<RawCourse>) -> (r: (
    ScrapResult,
    Vec<CourseInfo>,
    Vec<(String, LogLevel)>,
))
    ensures
        ({
            let t = tally(raw_views(blocks@));
            &&& r.0 == summary_of(t)
            &&& course_views(r.1@) == t.courses
            &&& log_views(r.2@) == t.logs
        }),
{
    let ghost bv = raw_views(blocks@);
    let mut courses: Vec<CourseInfo> = Vec::new();
    let mut unknown: u32 = 0;
    let mut skipped: u32 = 0;
    let mut errors = false;
    let mut logs: Vec<(String, LogLevel)> = Vec::new();
    let mut i: usize = 0;
    assert(bv.subrange(0, 0) =~= Seq::<RawCourseView>::empty());
    assert(course_views(courses@) =~= Seq::<CourseView>::empty());
    assert(log_views(logs@) =~= Seq::<(Seq<char>, LogLevel)>::empty());
    while i < blocks.len()
        invariant
            bv == raw_views(blocks@),
            i <= blocks@.len(),
            tally_from(empty_tally(), bv.subrange(0, i as int)) == (Tally {
                courses: course_views(courses@),
                unknown_courses: unknown as int,
                skipped_entries: skipped as int,
                errors,
                logs: log_views(logs@),
            }),
        decreases blocks@.len() - i,
    {
        assert(bv.subrange(0, i + 1).drop_last() =~= bv.subrange(0, i as int));
        let block = &blocks[i];
        assert(bv.subrange(0, i + 1).last() == block@);
        let ghost before_logs = log_views(logs@);
        if block.name_cells.len() == 0 {
            unknown = bump_count(unknown);
            push_log(&mut logs, String::from_str(MSG_NO_NAME), LogLevel::Error);
            push_log(&mut logs, String::from_str(MSG_NAMELESS_SKIPPED), LogLevel::Error);
            assert(log_views(logs@) =~= before_logs + seq![
                (MSG_NO_NAME@, LogLevel::Error),
                (MSG_NAMELESS_SKIPPED@, LogLevel::Error),
            ]);
        } else {
            assert(block@.name_cells[0] == block.name_cells@[0]@);
            let name = trim_text(block.name_cells[0].as_str());
            push_log(&mut logs, joined(MSG_PARSING_HEAD, name.as_str(), MSG_PARSING_TAIL), LogLevel::Info);
            if block.meeting_tables.len() < 2 {
                unknown = bump_count(unknown);
                errors = true;
                push_log(&mut logs, String::from_str(MSG_NO_TABLE), LogLevel::Error);
                let mut m = name.clone();
                m.append(MSG_COURSE_SKIPPED_TAIL);
                push_log(&mut logs, m, LogLevel::Error);
                assert(log_views(logs@) =~= before_logs + seq![
                    parsing_line(name@),
                    (MSG_NO_TABLE@, LogLevel::Error),
                    (name@ + MSG_COURSE_SKIPPED_TAIL@, LogLevel::Error),
                ]);
            } else {
                assert(block@.meeting_tables[1] == block.meeting_tables@[1].deep_view());
                let (entries, sk, err, new_logs) = scan_table(
                    &block.meeting_tables[1],
                    skipped,
                    errors,
                    name.as_str(),
                    logs,
                );
                logs = new_logs;
                let ghost before = course_views(courses@);
                let course = CourseInfo { course_name: name, table_entries: entries };
                courses.push(course);
                assert(course_views(courses@) =~= before.push(course@));
                skipped = sk;
                errors = err;
            }
        }
        i = i + 1;
    }
    assert(bv.subrange(0, blocks@.len() as int) =~= bv);
    (ScrapResult {
        skipped_unknown_course_count: unknown,
        skipped_table_entry_count: skipped,
        errors_present: errors,
    }, courses, logs)
}

/// Interprets the course blocks of a page, in order: the courses found, with
/// how many courses and meetings were left out and whether anything looked wrong.
pub fn extract_courses(blocks: &Vec<RawCourse>) -> (r: (ScrapResult, Vec<CourseInfo>))
    ensures
        ({
            let t = tally(raw_views(blocks@));
            &&& r.0 == summary_of(t)
            &&& course_views(r.1@) == t.courses
        }),
{
    let (summary, courses, _) = extract_courses_logged(blocks);
    (summary, courses)
}

/// Where the course blocks hang in the study-list page.
pub const ROOT_SELECTOR: &'static str = "#ACE_STDNT_ENRL_SSV2\\$0 > tbody";

/// The course-name cell inside a course block.
pub const NAME_SELECTOR: &'static str = "td.PAGROUPDIVIDER";

/// The meeting-table bodies inside a course block; the first one found is a
/// header table, the second holds the meetings.
pub const MEETING_SELECTOR: &'static str = "table.PSLEVEL3GRIDWBO table.PSLEVEL3GRID > tbody";

/// For each element of the document `markup` that `selector` matches, in
/// document order: each of its child elements, as its text and its markup.
pub uninterp spec fn document_child_blocks(markup: Seq<char>, selector: Seq<char>) -> Seq<
    Seq<(Seq<char>, Seq<char>)>,
>;

/// The text of each element of the fragment `markup` that `selector` matches.
pub uninterp spec fn fragment_texts(markup: Seq<char>, selector: Seq<char>) -> Seq<Seq<char>>;

/// For each element of the fragment `markup` that `selector` matches: its
/// child elements, each as the texts of its own child elements.
pub uninterp spec fn fragment_grids(markup: Seq<char>, selector: Seq<char>) -> Seq<
    Seq<Seq<Seq<char>>>,
>;

/// Relies on scraper: `Html::parse_document`, `Selector::parse` (an invalid
/// selector matches nothing), `Html::select`, `ElementRef::child_elements`,
/// and `ElementRef::text` and `ElementRef::html` on each child.
#[verifier::external_body]
fn select_child_blocks(markup: &str, selector: &str) -> (r: Vec<Vec<(String, String)>>)
    ensures
        r.deep_view() == document_child_blocks(markup@, selector@),
{
    let doc = scraper::Html::parse_document(markup);
    match scraper::Selector::parse(selector) {
        Ok(sel) => doc.select(&sel).map(|m| {
            m.child_elements().map(|c| (c.text().collect::<String>(), c.html())).collect()
        }).collect(),
        Err(_) => Vec::new(),
    }
}

/// Relies on scraper: `Html::parse_fragment`, `Selector::parse` (an invalid
/// selector matches nothing), `Html::select` and `ElementRef::text`.
#[verifier::external_body]
fn select_fragment_texts(markup: &str, selector: &str) -> (r: Vec<String>)
    ensures
        r.deep_view() == fragment_texts(markup@, selector@),
{
    let doc = scraper::Html::parse_fragment(markup);
    match scraper::Selector::parse(selector) {
        Ok(sel) => doc.select(&sel).map(|m| m.text().collect::<String>()).collect(),
        Err(_) => Vec::new(),
    }
}

/// Relies on scraper: `Html::parse_fragment`, `Selector::parse` (an invalid
/// selector matches nothing), `Html::select`, `ElementRef::child_elements`
/// at two levels and `ElementRef::text`.
#[verifier::external_body]
fn select_fragment_grids(markup: &str, selector: &str) -> (r: Vec<Vec<Vec<String>>>)
    ensures
        r.deep_view() == fragment_grids(markup@, selector@),
{
    let doc = scraper::Html::parse_fragment(markup);
    match scraper::Selector::parse(selector) {
        Ok(sel) => doc.select(&sel).map(|t| {
            t.child_elements().map(|row| {
                row.child_elements().map(|c| c.text().collect::<String>()).collect()
            }).collect()
        }).collect(),
        Err(_) => Vec::new(),
    }
}

/// The markup of the children whose text is not blank, in order.
pub open spec fn non_blank_blocks(children: Seq<(Seq<char>, Seq<char>)>) -> Seq<Seq<char>>
    decreases children.len(),
{
    if children.len() == 0 {
        Seq::empty()
    } else {
        let rest = non_blank_blocks(children.drop_last());
        if trim(children.last().0).len() > 0 {
            rest.push(children.last().1)
        } else {
            rest
        }
    }
}

/// What a course block's markup gives to read.
pub open spec fn raw_course_of(block: Seq<char>) -> RawCourseView {
    RawCourseView {
        name_cells: fragment_texts(block, NAME_SELECTOR@),
        meeting_tables: fragment_grids(block, MEETING_SELECTOR@),
    }
}

/// What extraction gives for the page `markup`: `None` when the root table is
/// absent.
pub open spec fn extraction_of(markup: Seq<char>) -> Option<Tally> {
    let found = document_child_blocks(markup, ROOT_SELECTOR@);
    if found.len() == 0 {
        None
    } else {
        Some(tally(non_blank_blocks(found[0]).map_values(|b: Seq<char>| raw_course_of(b))))
    }
}

/// Reads one course block's name cells and meeting tables.
pub fn read_course(block: &str) -> (r: RawCourse)
    ensures
        r@ == raw_course_of(block@),
{
    RawCourse {
        name_cells: select_fragment_texts(block, NAME_SELECTOR),
        meeting_tables: select_fragment_grids(block, MEETING_SELECTOR),
    }
}

/// Extracts the courses and their meetings from the study-list page, with the
/// lines to log about it.
/// Fails only when the page has no root table; every other fault is counted
/// in the summary and extraction goes on.
pub fn extract_timetable_logged(html: &str) -> (r: Result<
    (ScrapResult, Vec<CourseInfo>, Vec<(String, LogLevel)>),
    ScrapError,
>)
    ensures
        match extraction_of(html@) {
            None => r is Err && r->Err_0@ == ScrapErrorView::HtmlParseError(
                "Table selector not found"@,
            ),
            Some(t) => r is Ok && r->Ok_0.0 == summary_of(t) && course_views(r->Ok_0.1@)
                == t.courses && log_views(r->Ok_0.2@) == t.logs,
        },
{
    let found = select_child_blocks(html, ROOT_SELECTOR);
    if found.len() == 0 {
        return Err(ScrapError::HtmlParseError(String::from_str("Table selector not found")));
    }
    let children = &found[0];
    let ghost cv = children.deep_view();
    assert(cv == found.deep_view()[0]);
    let mut raws: Vec<RawCourse> = Vec::new();
    let mut i: usize = 0;
    assert(cv.subrange(0, 0) =~= Seq::<(Seq<char>, Seq<char>)>::empty());
    assert(raw_views(raws@) =~= non_blank_blocks(cv.subrange(0, 0)).map_values(
        |b: Seq<char>| raw_course_of(b),
    ));
    while i < children.len()
        invariant
            cv == children.deep_view(),
            i <= children@.len(),
            raw_views(raws@) == non_blank_blocks(cv.subrange(0, i as int)).map_values(
                |b: Seq<char>| raw_course_of(b),
            ),
        decreases children@.len() - i,
    {
        assert(cv.subrange(0, i + 1).drop_last() =~= cv.subrange(0, i as int));
        assert(cv.subrange(0, i + 1).last() == cv[i as int]);
        assert(cv[i as int] == (children@[i as int].0@, children@[i as int].1@));
        let ghost before = raw_views(raws@);
        let text = trim_text(children[i].0.as_str());
        if text.unicode_len() > 0 {
            let raw = read_course(children[i].1.as_str());
            raws.push(raw);
            assert(raw_views(raws@) =~= before.push(raw@));
            assert(non_blank_blocks(cv.subrange(0, i + 1)).map_values(
                |b: Seq<char>| raw_course_of(b),
            ) =~= before.push(raw@));
        }
        i = i + 1;
    }
    assert(cv.subrange(0, children@.len() as int) =~= cv);
    Ok(extract_courses_logged(&raws))
}

/// Extracts the courses and their meetings from the study-list page.
/// Fails only when the page has no root table; every other fault is counted
/// in the summary and extraction goes on.
pub fn extract_timetable_from_html(html: &str) -> (r: Result<(ScrapResult, Vec<CourseInfo>), ScrapError>)
    ensures
        match extraction_of(html@) {
            None => r is Err && r->Err_0@ == ScrapErrorView::HtmlParseError(
                "Table selector not found"@,
            ),
            Some(t) => r is Ok && r->Ok_0.0 == summary_of(t) && course_views(r->Ok_0.1@)
                == t.courses,
        },
{
        match extract_timetable_logged(html) {
        Ok((summary, courses, _)) => Ok((summary, courses)),
        Err(e) => Err(e),
    }
}

/// The carried values after `rows`, from `c`.
pub open spec fn carry_after(c: Carry, rows: Seq<Seq<Seq<char>>>) -> Carry
    decreases rows.len(),
{
    if rows.len() == 0 {
        c
    } else {
        next_carry(carry_after(c, rows.drop_last()), rows.last())
    }
}

proof fn lemma_scan_carry(init: RowScan, rows: Seq<Seq<Seq<char>>>)
    ensures
        scan_rows(init, rows).carry == carry_after(init.carry, rows),
    decreases rows.len(),
{
    if rows.len() > 0 {
        lemma_scan_carry(init, rows.drop_last());
    }
}

/// The values with which row `k` of `rows` is read, the walk having started from `init`.
pub open spec fn carry_at(init: RowScan, rows: Seq<Seq<Seq<char>>>, k: int) -> Carry {
    next_carry(scan_rows(init, rows.subrange(0, k)).carry, rows[k])
}

proof fn lemma_carry_at(init: RowScan, rows: Seq<Seq<Seq<char>>>, k: int)
    requires
        0 <= k < rows.len(),
    ensures
        carry_at(init, rows, k) == carry_after(init.carry, rows.subrange(0, k + 1)),
{
    lemma_scan_carry(init, rows.subrange(0, k));
    assert(rows.subrange(0, k + 1).drop_last() =~= rows.subrange(0, k));
}

/// Within a course's rows, when row `j` has a non-empty cell in column `col`
/// (1, the section, or 2, the kind of meeting) and every later row up to row
/// `k` leaves that cell empty, row `k` is read with the value of row `j`, and
/// a meeting that row `k` gives carries it.
pub proof fn lemma_carried_from_row(
    init: RowScan,
    rows: Seq<Seq<Seq<char>>>,
    col: int,
    j: int,
    k: int,
)
    requires
        col == 1 || col == 2,
        0 <= j <= k < rows.len(),
        cell_text(rows[j], col).len() > 0,
        forall|i: int| j < i <= k ==> (#[trigger] cell_text(rows[i], col)).len() == 0,
    ensures
        col == 1 ==> carry_at(init, rows, k).section == cell_text(rows[j], 1),
        col == 2 ==> carry_at(init, rows, k).entry_type == entry_type_of(cell_text(rows[j], 2)),
        match row_outcome(scan_rows(init, rows.subrange(0, k)).carry, rows[k]) {
            RowOutcome::Entry(e) => {
                &&& col == 1 ==> e.class_section == cell_text(rows[j], 1)
                &&& col == 2 ==> e.entry_type == entry_type_of(cell_text(rows[j], 2))
            },
            _ => true,
        },
    decreases k - j,
{
    lemma_carry_at(init, rows, k);
    if k > j {
        lemma_carried_from_row(init, rows, col, j, k - 1);
        lemma_carry_at(init, rows, k - 1);
        assert(rows.subrange(0, k + 1).drop_last() =~= rows.subrange(0, k));
        assert(cell_text(rows[k], col).len() == 0);
    } else {
        assert(rows.subrange(0, k + 1).last() == rows[k]);
    }
}

/// Within a course's rows, when no row up to row `k` has a non-empty cell in
/// column `col` (1, the section, or 2, the kind of meeting), row `k` is read
/// with the starting value: section `ALL`, or a lecture.
pub proof fn lemma_carried_from_start(
    init: RowScan,
    rows: Seq<Seq<Seq<char>>>,
    col: int,
    k: int,
)
    requires
        init.carry == initial_carry(),
        col == 1 || col == 2,
        0 <= k < rows.len(),
        forall|i: int| 0 <= i <= k ==> (#[trigger] cell_text(rows[i], col)).len() == 0,
    ensures
        col == 1 ==> carry_at(init, rows, k).section == "ALL"@,
        col == 2 ==> carry_at(init, rows, k).entry_type == EntryType::Lecture,
        match row_outcome(scan_rows(init, rows.subrange(0, k)).carry, rows[k]) {
            RowOutcome::Entry(e) => {
                &&& col == 1 ==> e.class_section == "ALL"@
                &&& col == 2 ==> e.entry_type == EntryType::Lecture
            },
            _ => true,
        },
    decreases k,
{
    lemma_carry_at(init, rows, k);
    assert(rows.subrange(0, k + 1).drop_last() =~= rows.subrange(0, k));
    assert(cell_text(rows[k], col).len() == 0);
    if k > 0 {
        lemma_carried_from_start(init, rows, col, k - 1);
        lemma_carry_at(init, rows, k - 1);
    } else {
        assert(rows.subrange(0, 0) =~= Seq::<Seq<Seq<char>>>::empty());
    }
}

/// A course block that has a name cell but fewer than two meeting tables adds
/// no course, counts one more unknown course, and marks that errors occurred.
pub proof fn lemma_block_without_meetings(blocks: Seq<RawCourseView>, c: RawCourseView)
    requires
        c.name_cells.len() > 0,
        c.meeting_tables.len() < 2,
        tally(blocks).unknown_courses < u32::MAX,
    ensures
        tally(blocks.push(c)).courses == tally(blocks).courses,
        tally(blocks.push(c)).unknown_courses == tally(blocks).unknown_courses + 1,
        tally(blocks.push(c)).skipped_entries == tally(blocks).skipped_entries,
        tally(blocks.push(c)).errors,
{
    assert(blocks.push(c).drop_last() =~= blocks);
}

proof fn lemma_rows_keep_errors(init: RowScan, rows: Seq<Seq<Seq<char>>>)
    ensures
        init.errors ==> scan_rows(init, rows).errors,
    decreases rows.len(),
{
    if rows.len() > 0 {
        lemma_rows_keep_errors(init, rows.drop_last());
    }
}

proof fn lemma_blocks_keep_errors(init: Tally, blocks: Seq<RawCourseView>)
    ensures
        init.errors ==> tally_from(init, blocks).errors,
    decreases blocks.len(),
{
    if blocks.len() > 0 {
        let t = tally_from(init, blocks.drop_last());
        lemma_blocks_keep_errors(init, blocks.drop_last());
        let c = blocks.last();
        if c.name_cells.len() > 0 && c.meeting_tables.len() >= 2 {
            lemma_rows_keep_errors(
                table_start(
                    t.skipped_entries,
                    t.errors,
                    trim(c.name_cells[0]),
                    t.logs.push(parsing_line(trim(c.name_cells[0]))),
                ),
                data_rows(c.meeting_tables[1]),
            );
        }
    }
}

proof fn lemma_tally_split(init: Tally, a: Seq<RawCourseView>, b: Seq<RawCourseView>)
    ensures
        tally_from(init, a + b) == tally_from(tally_from(init, a), b),
    decreases b.len(),
{
    if b.len() == 0 {
        assert(a + b =~= a);
    } else {
        lemma_tally_split(init, a, b.drop_last());
        assert((a + b).drop_last() =~= a + b.drop_last());
        assert((a + b).last() == b.last());
    }
}

/// A page with a course block that has a name cell but fewer than two meeting
/// tables reports that errors occurred, whatever the blocks before and after it.
pub proof fn lemma_block_without_meetings_flags_page(
    before: Seq<RawCourseView>,
    c: RawCourseView,
    after: Seq<RawCourseView>,
)
    requires
        c.name_cells.len() > 0,
        c.meeting_tables.len() < 2,
    ensures
        tally(before.push(c) + after).errors,
{
    assert(before.push(c).drop_last() =~= before);
    lemma_tally_split(empty_tally(), before.push(c), after);
    lemma_blocks_keep_errors(tally(before.push(c)), after);
}

/// A row whose meeting time text holds `TBA` adds no meeting and counts one
/// more skipped meeting; unless its label is unknown, it leaves the error flag
/// as it was.
pub proof fn lemma_unscheduled_row(init: RowScan, rows: Seq<Seq<Seq<char>>>, row: Seq<Seq<char>>)
    requires
        has_tba(meeting_text(row)),
        !has_unknown_label(row),
        scan_rows(init, rows).skipped < u32::MAX,
    ensures
        scan_rows(init, rows.push(row)).entries == scan_rows(init, rows).entries,
        scan_rows(init, rows.push(row)).skipped == scan_rows(init, rows).skipped + 1,
        scan_rows(init, rows.push(row)).errors == scan_rows(init, rows).errors,
{
    assert(rows.push(row).drop_last() =~= rows);
}

/// Row `k` of `rows` gives the meeting `e` when read with the values carried into it.
pub open spec fn gives_entry(init: RowScan, rows: Seq<Seq<Seq<char>>>, k: int, e: EntryView) -> bool {
    0 <= k < rows.len() && row_outcome(scan_rows(init, rows.subrange(0, k)).carry, rows[k])
        == RowOutcome::Entry(e)
}

/// Some row of `rows` gives the meeting `e`.
pub open spec fn comes_from_row(init: RowScan, rows: Seq<Seq<Seq<char>>>, e: EntryView) -> bool {
    exists|k: int| #[trigger] gives_entry(init, rows, k, e)
}

/// Every meeting that a walk over `rows` adds comes from one of the rows, read
/// with the values carried into that row (see `lemma_carried_from_row` and
/// `lemma_carried_from_start` for what those values are).
pub proof fn lemma_entries_come_from_rows(init: RowScan, rows: Seq<Seq<Seq<char>>>)
    ensures
        scan_rows(init, rows).entries.len() >= init.entries.len(),
        forall|m: int|
            init.entries.len() <= m < scan_rows(init, rows).entries.len() ==> #[trigger] comes_from_row(
                init,
                rows,
                scan_rows(init, rows).entries[m],
            ),
    decreases rows.len(),
{
    if rows.len() > 0 {
        let prev = rows.drop_last();
        lemma_entries_come_from_rows(init, prev);
        let before = scan_rows(init, prev);
        let now = scan_rows(init, rows);
        let last = rows.len() - 1;
        assert(rows.subrange(0, last) =~= prev);
        assert forall|m: int| init.entries.len() <= m < now.entries.len() implies #[trigger] comes_from_row(
            init,
            rows,
            now.entries[m],
        ) by {
            if m < before.entries.len() {
                assert(comes_from_row(init, prev, before.entries[m]));
                let k = choose|k: int| #[trigger] gives_entry(init, prev, k, before.entries[m]);
                assert(prev.subrange(0, k) =~= rows.subrange(0, k));
                assert(now.entries[m] == before.entries[m]);
                assert(gives_entry(init, rows, k, now.entries[m]));
            } else {
                assert(gives_entry(init, rows, last, now.entries[m]));
            }
        }
    }
}

/// Two rows that differ only in their label cell give the same count of
/// skipped meetings and the same number of meetings: a label, known or not,
/// changes no count.
pub proof fn lemma_label_changes_no_count(s: RowScan, row1: Seq<Seq<char>>, row2: Seq<Seq<char>>)
    requires
        row1.len() == row2.len(),
        forall|i: int| 0 <= i < row1.len() && i != 2 ==> row1[i] == row2[i],
    ensures
        row_step(s, row1).skipped == row_step(s, row2).skipped,
        row_step(s, row1).entries.len() == row_step(s, row2).entries.len(),
{
    assert(cell_text(row1, 3) == cell_text(row2, 3));
    assert(cell_text(row1, 6) == cell_text(row2, 6));
    assert(meeting_text(row1) == meeting_text(row2));
}

/// Extraction is a function of the markup alone: the same markup gives the
/// same courses, counts and flag.
pub proof fn lemma_extraction_repeatable(a: Seq<char>, b: Seq<char>)
    requires
        a == b,
    ensures
        extraction_of(a) == extraction_of(b),
{
}

} // verus!
