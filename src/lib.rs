//! Reading a student's class timetable out of the portal's rendered study-list
//! page, and the decisions of the browser session that fetches that page.
pub mod datetime;
pub mod error;
pub mod extract;
pub mod models;
pub mod session;
pub mod text;

pub use datetime::{try_parse_string_to_start_end_dt, DateTimeError};
pub use error::{BrowserFault, ScrapError};
pub use extract::{
    extract_courses, extract_courses_logged, extract_timetable_from_html, extract_timetable_logged,
    RawCourse,
};
pub use models::{
    log_event, AppState, CalendarEvent, CivilDateTime, CourseInfo, EntryType, GithubLatestReleaseRes,
    LogEvent, LogLevel, ScrapOptions, ScrapResult, TimeTableEntry,
};
pub use session::{Action, BrowserEvent, Phase, Session, Step};
