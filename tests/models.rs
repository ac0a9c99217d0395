use sit_timetable::{
    log_event, AppState, BrowserFault, CivilDateTime, CourseInfo, EntryType, LogLevel, ScrapError,
    TimeTableEntry,
};

#[test]
fn log_lines_carry_level_and_stamp() {
    let e = log_event("Done!", LogLevel::Info, Some("19/10 10:00:00"));
    assert_eq!(e.message, "[19/10 10:00:00] Done!");
    assert_eq!(e.level, 1);
    let e = log_event("x", LogLevel::Error, None);
    assert_eq!(e.message, "x");
    assert_eq!(e.level, 3);
    assert_eq!(log_event("", LogLevel::Debug, None).level, 0);
    assert_eq!(log_event("", LogLevel::Warn, None).level, 2);
}

#[test]
fn faults_map_to_failures() {
    assert!(matches!(ScrapError::from_fault(BrowserFault::Timeout), ScrapError::NetworkError));
    match ScrapError::from_fault(BrowserFault::FrameNotFound("F1".to_string())) {
        ScrapError::NavigationError(m) => assert_eq!(m, "iFrame F1 not found"),
        _ => panic!(),
    }
    match ScrapError::from_fault(BrowserFault::NotFound) {
        ScrapError::NavigationError(m) => assert_eq!(m, "Selector not found"),
        _ => panic!(),
    }
    match ScrapError::from_fault(BrowserFault::Chrome(-32000)) {
        ScrapError::NavigationError(m) => assert_eq!(m, "Selector not found"),
        _ => panic!(),
    }
    match ScrapError::from_fault(BrowserFault::Chrome(-1)) {
        ScrapError::BrowserError(m) => assert_eq!(m, "Generic Browser error"),
        _ => panic!(),
    }
    match ScrapError::from_fault(BrowserFault::JavascriptException("boom".to_string())) {
        ScrapError::JSException(m) => assert_eq!(m, "boom"),
        _ => panic!(),
    }
}

#[test]
fn failures_describe_themselves() {
    assert_eq!(ScrapError::LoginFailed.describe("t"), "[t] Login Failed");
    assert_eq!(
        ScrapError::HtmlParseError("gone".to_string()).describe("01/01/24 00:00:00"),
        "[01/01/24 00:00:00] HTML Parsing Error: gone"
    );
    assert_eq!(ScrapError::NetworkError.describe(""), "[] Network Error");
}

#[test]
fn meetings_become_calendar_events() {
    let when = CivilDateTime { year: 2024, month: 1, day: 15, hour: 9, minute: 0 };
    let c = CourseInfo {
        course_name: "CSC1001".to_string(),
        table_entries: vec![TimeTableEntry {
            entry_type: EntryType::Lab,
            class_section: "LA1".to_string(),
            location: "E2-01".to_string(),
            instructors: vec!["Dr Tan".to_string(), "Ms Lee".to_string()],
            start_datetime: when,
            end_datetime: CivilDateTime { hour: 11, ..when },
        }],
    };
    let events = c.calendar_events();
    assert_eq!(events.len(), 1);
    assert_eq!(events[0].summary, "CSC1001 - LA1 - Lab");
    assert_eq!(events[0].description, "Profs\nDr Tan\nMs Lee");
    assert_eq!(events[0].location, "E2-01");
    assert_eq!(events[0].end.hour, 11);
    assert_eq!(EntryType::Unknown.name(), "Unknown");
}

#[test]
fn state_starts_empty() {
    let s = AppState::new();
    assert!(s.scrapped_info.is_empty());
    assert_eq!(s.version_string, "1.0.0");
}

#[test]
fn update_notice_only_for_other_release() {
    let s = AppState::new();
    assert_eq!(s.update_notice("1.0.0"), None);
    assert_eq!(s.update_notice("v1.1.0").unwrap(), "An update is available, latest: v1.1.0");
}
