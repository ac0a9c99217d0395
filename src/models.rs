//! The values that flow between the session, the extractor and their callers.
use crate::text::same_text;
use vstd::prelude::*;

verus! {

/// How much a log line matters.
#[derive(Clone, Copy, Debug, PartialEq, Eq, Structural)]
pub enum LogLevel {
    Debug,
    Info,
    Warn,
    Error,
}

/// A log line as the user interface receives it: level 0 is debug, 1 info,
/// 2 warn and 3 error.
#[derive(Debug)]
pub struct LogEvent {
    pub message: String,
    pub level: u8,
}

/// What the caller asks of one run of the session.
#[derive(Clone, Copy, Debug, PartialEq, Eq, Structural)]
pub struct ScrapOptions {
    pub filter_dropped: bool,
    pub filter_waitlisted: bool,
    pub debug_mode: bool,
}

/// The kind of a meeting.
#[derive(Clone, Copy, Debug, PartialEq, Eq, Structural)]
pub enum EntryType {
    Quiz,
    Tutorial,
    Lab,
    Lecture,
    Workshop,
    Unknown,
}

/// A date and a time of day without an offset, read in the institution's
/// own time zone. `hour` runs from 0 to 23.
#[derive(Clone, Copy, Debug, PartialEq, Eq, Structural)]
pub struct CivilDateTime {
    pub year: u16,
    pub month: u8,
    pub day: u8,
    pub hour: u8,
    pub minute: u8,
}

/// `a` comes strictly before `b`.
pub open spec fn precedes(a: CivilDateTime, b: CivilDateTime) -> bool {
    if a.year != b.year {
        a.year < b.year
    } else if a.month != b.month {
        a.month < b.month
    } else if a.day != b.day {
        a.day < b.day
    } else if a.hour != b.hour {
        a.hour < b.hour
    } else {
        a.minute < b.minute
    }
}

impl CivilDateTime {
    /// Whether this moment comes strictly before `other`.
    pub fn is_before(&self, other: &CivilDateTime) -> (r: bool)
        ensures
            r == precedes(*self, *other),
    {
        if self.year != other.year {
            self.year < other.year
        } else if self.month != other.month {
            self.month < other.month
        } else if self.day != other.day {
            self.day < other.day
        } else if self.hour != other.hour {
            self.hour < other.hour
        } else {
            self.minute < other.minute
        }
    }
}

/// One scheduled meeting of a class section.
#[derive(Debug)]
pub struct TimeTableEntry {
    pub entry_type: EntryType,
    pub class_section: String,
    pub location: String,
    /// The page names a meeting's instructors in one cell; that text, without
    /// dots, is kept as the single item of this list.
    pub instructors: Vec<String>,
    pub start_datetime: CivilDateTime,
    pub end_datetime: CivilDateTime,
}

pub struct EntryView {
    pub entry_type: EntryType,
    pub class_section: Seq<char>,
    pub location: Seq<char>,
    pub instructors: Seq<Seq<char>>,
    pub start_datetime: CivilDateTime,
    pub end_datetime: CivilDateTime,
}

impl View for TimeTableEntry {
    type V = EntryView;

    open spec fn view(&self) -> EntryView {
        EntryView {
            entry_type: self.entry_type,
            class_section: self.class_section@,
            location: self.location@,
            instructors: self.instructors@.map_values(|s: String| s@),
            start_datetime: self.start_datetime,
            end_datetime: self.end_datetime,
        }
    }
}

/// A course and its meetings, in the order the page lists them.
#[derive(Debug)]
pub struct CourseInfo {
    pub course_name: String,
    pub table_entries: Vec<TimeTableEntry>,
}

pub struct CourseView {
    pub course_name: Seq<char>,
    pub table_entries: Seq<EntryView>,
}

impl View for CourseInfo {
    type V = CourseView;

    open spec fn view(&self) -> CourseView {
        CourseView {
            course_name: self.course_name@,
            table_entries: self.table_entries@.map_values(|e: TimeTableEntry| e@),
        }
    }
}

/// How much of the page the extractor had to leave out. The counts stop at
/// the largest `u32`.
#[derive(Clone, Copy, Debug, PartialEq, Eq, Structural)]
pub struct ScrapResult {
    pub skipped_unknown_course_count: u32,
    pub skipped_table_entry_count: u32,
    pub errors_present: bool,
}

/// The part of the release service's answer that the update check reads.
#[derive(Debug)]
pub struct GithubLatestReleaseRes {
    pub tag_name: String,
}

/// The number the user interface knows a level by.
pub open spec fn level_number(l: LogLevel) -> u8 {
    match l {
        LogLevel::Debug => 0,
        LogLevel::Info => 1,
        LogLevel::Warn => 2,
        LogLevel::Error => 3,
    }
}

/// Builds a log line, prefixed with `[stamp] ` when a time stamp is given.
pub fn log_event(msg: &str, level: LogLevel, stamp: Option<&str>) -> (r: LogEvent)
    ensures
        r.level == level_number(level),
        r.message@ == match stamp {
            Some(t) => "["@ + t@ + "] "@ + msg@,
            None => msg@,
        },
{
    let message = match stamp {
        Some(t) => {
            let mut m = String::from_str("[");
            m.append(t);
            m.append("] ");
            m.append(msg);
            m
        },
        None => String::from_str(msg),
    };
    let level = match level {
        LogLevel::Debug => 0,
        LogLevel::Info => 1,
        LogLevel::Warn => 2,
        LogLevel::Error => 3,
    };
    LogEvent { message, level }
}

pub open spec fn entry_type_name(t: EntryType) -> Seq<char> {
    match t {
        EntryType::Quiz => "Quiz"@,
        EntryType::Tutorial => "Tutorial"@,
        EntryType::Lab => "Lab"@,
        EntryType::Lecture => "Lecture"@,
        EntryType::Workshop => "Workshop"@,
        EntryType::Unknown => "Unknown"@,
    }
}

impl EntryType {
    /// The variant's name.
    pub fn name(&self) -> (r: String)
        ensures
            r@ == entry_type_name(*self),
    {
        match self {
            EntryType::Quiz => String::from_str("Quiz"),
            EntryType::Tutorial => String::from_str("Tutorial"),
            EntryType::Lab => String::from_str("Lab"),
            EntryType::Lecture => String::from_str("Lecture"),
            EntryType::Workshop => String::from_str("Workshop"),
            EntryType::Unknown => String::from_str("Unknown"),
        }
    }
}

/// What a calendar event made of one meeting shows.
pub struct CalendarEvent {
    pub summary: String,
    pub description: String,
    pub location: String,
    pub start: CivilDateTime,
    pub end: CivilDateTime,
}

/// The names joined with a line break between each two.
pub open spec fn joined_lines(names: Seq<Seq<char>>) -> Seq<char>
    decreases names.len(),
{
    if names.len() == 0 {
        Seq::empty()
    } else if names.len() == 1 {
        names[0]
    } else {
        joined_lines(names.drop_last()) + "\n"@ + names.last()
    }
}

/// The summary of the event for a meeting of course `course`.
pub open spec fn event_summary(course: Seq<char>, e: EntryView) -> Seq<char> {
    course + " - "@ + e.class_section + " - "@ + entry_type_name(e.entry_type)
}

/// The description of the event for a meeting: a header, then the instructors.
pub open spec fn event_description(e: EntryView) -> Seq<char> {
    "Profs\n"@ + joined_lines(e.instructors)
}

fn join_lines(names: &Vec<String>) -> (r: String)
    ensures
        r@ == joined_lines(names@.map_values(|s: String| s@)),
{
    let ghost nv = names@.map_values(|s: String| s@);
    let mut out = String::new();
    let mut i: usize = 0;
    assert(nv.subrange(0, 0) =~= Seq::<Seq<char>>::empty());
    while i < names.len()
        invariant
            nv == names@.map_values(|s: String| s@),
            i <= names@.len(),
            out@ == joined_lines(nv.subrange(0, i as int)),
        decreases names@.len() - i,
    {
        assert(nv.subrange(0, i + 1).drop_last() =~= nv.subrange(0, i as int));
        if i > 0 {
            out.append("\n");
        }
        out.append(names[i].as_str());
        proof {
            if i == 0 {
                assert(out@ =~= nv.subrange(0, 1)[0]);
            }
        }
        i = i + 1;
    }
    assert(nv.subrange(0, names@.len() as int) =~= nv);
    out
}

impl CourseInfo {
    /// One calendar event per meeting, in order.
    pub fn calendar_events(&self) -> (r: Vec<CalendarEvent>)
        ensures
            r@.len() == self@.table_entries.len(),
            forall|i: int|
                0 <= i < r@.len() ==> {
                    let e = self@.table_entries[i];
                    &&& (#[trigger] r@[i]).summary@ == event_summary(self.course_name@, e)
                    &&& r@[i].description@ == event_description(e)
                    &&& r@[i].location@ == e.location
                    &&& r@[i].start == e.start_datetime
                    &&& r@[i].end == e.end_datetime
                },
    {
        let mut out: Vec<CalendarEvent> = Vec::new();
        let mut i: usize = 0;
        while i < self.table_entries.len()
            invariant
                i <= self.table_entries@.len(),
                out@.len() == i,
                forall|k: int|
                    0 <= k < i ==> {
                        let e = self@.table_entries[k];
                        &&& (#[trigger] out@[k]).summary@ == event_summary(self.course_name@, e)
                        &&& out@[k].description@ == event_description(e)
                        &&& out@[k].location@ == e.location
                        &&& out@[k].start == e.start_datetime
                        &&& out@[k].end == e.end_datetime
                    },
            decreases self.table_entries@.len() - i,
        {
            let e = &self.table_entries[i];
            let mut summary = self.course_name.clone();
            summary.append(" - ");
            summary.append(e.class_section.as_str());
            summary.append(" - ");
            let kind = e.entry_type.name();
            summary.append(kind.as_str());
            let mut description = String::from_str("Profs\n");
            let names = join_lines(&e.instructors);
            description.append(names.as_str());
            out.push(
                CalendarEvent {
                    summary,
                    description,
                    location: e.location.clone(),
                    start: e.start_datetime,
                    end: e.end_datetime,
                },
            );
            i = i + 1;
        }
        out
    }
}

/// What the application keeps between commands: the courses of the last run
/// and the version it was built as.
pub struct AppState {
    pub scrapped_info: Vec<CourseInfo>,
    pub version_string: String,
}

impl AppState {
    /// No courses yet, at version `1.0.0`.
    pub fn new() -> (r: AppState)
        ensures
            r.scrapped_info@.len() == 0,
            r.version_string@ == "1.0.0"@,
    {
        AppState { scrapped_info: Vec::new(), version_string: String::from_str("1.0.0") }
    }

    /// The notice to show when the latest release is not this build.
    pub fn update_notice(&self, latest: &str) -> (r: Option<String>)
        ensures
            r is Some <==> self.version_string@ != latest@,
            r is Some ==> r->0@ == "An update is available, latest: "@ + latest@,
    {
        if same_text(self.version_string.as_str(), latest) {
            None
        } else {
            let mut m = String::from_str("An update is available, latest: ");
            m.append(latest);
            Some(m)
        }
    }
}

} // verus!
