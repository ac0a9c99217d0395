use sit_timetable::session::{
    CALENDER_LINK, DROPPED_TOGGLE, LANDING_PAGE, PASSWORD_FIELD, SHOW_BUTTON, SUBMIT_BUTTON,
    USERNAME_FIELD, WAITLISTED_TOGGLE,
};
use sit_timetable::{Action, BrowserEvent, LogLevel, Phase, ScrapError, ScrapOptions, Session};

fn options(dropped: bool, waitlisted: bool, debug: bool) -> ScrapOptions {
    ScrapOptions { filter_dropped: dropped, filter_waitlisted: waitlisted, debug_mode: debug }
}

fn url(u: &str) -> BrowserEvent {
    BrowserEvent::Url(Some(u.to_string()))
}

fn clicks(a: &Action, locator: &str) -> bool {
    matches!(a, Action::Click(l) if l == locator)
}

/// Drives a session through login up to the study-list view.
fn logged_in(o: ScrapOptions) -> Session {
    let mut s = Session::new(o, "student", "secret");
    assert!(matches!(s.advance(BrowserEvent::Done).action, Action::Launch { .. }));
    assert!(matches!(s.advance(BrowserEvent::Done).action, Action::OpenPage(ref u) if u == LANDING_PAGE));
    assert!(matches!(s.advance(BrowserEvent::Done).action, Action::ReadUrl));
    let step = s.advance(url("https://login.example.org/adfs"));
    let lines: Vec<&str> = step.logs.iter().map(|l| l.0.as_str()).collect();
    assert_eq!(lines, vec!["Website loaded, logging in", "Entering email address"]);
    match step.action {
        Action::TypeInto { locator, text } => {
            assert_eq!(locator, USERNAME_FIELD);
            assert_eq!(text, "student");
        }
        _ => panic!("expected the user name to be typed"),
    }
    match s.advance(BrowserEvent::Done).action {
        Action::TypeInto { locator, text } => {
            assert_eq!(locator, PASSWORD_FIELD);
            assert_eq!(text, "secret");
        }
        _ => panic!("expected the password to be typed"),
    }
    assert!(clicks(&s.advance(BrowserEvent::Done).action, SUBMIT_BUTTON));
    assert!(matches!(s.advance(BrowserEvent::Done).action, Action::WaitNavigation { pause_secs: 2 }));
    assert!(matches!(s.advance(BrowserEvent::Done).action, Action::ReadUrl));
    let step = s.advance(url("https://in4sit.singaporetech.edu.sg/psc/home"));
    assert!(matches!(step.action, Action::ReadUrl));
    assert_eq!(step.logs[0].0, "User logged in");
    assert_eq!(s.phase, Phase::CheckingCalendar(0));
    s
}

#[test]
fn full_run_returns_page_markup() {
    let mut s = logged_in(options(false, false, false));
    let step = s.advance(url(CALENDER_LINK));
    assert!(clicks(&step.action, SHOW_BUTTON));
    assert!(matches!(s.advance(BrowserEvent::Done).action, Action::WaitNavigation { pause_secs: 2 }));
    assert!(matches!(s.advance(BrowserEvent::Done).action, Action::ReadContent));
    match s.advance(BrowserEvent::Content("<html></html>".to_string())).action {
        Action::Finish(Ok(html)) => assert_eq!(html, "<html></html>"),
        _ => panic!("expected the markup"),
    }
    assert_eq!(s.phase, Phase::Finished);
}

#[test]
fn filters_are_clicked_in_order() {
    let mut s = logged_in(options(true, true, false));
    assert!(clicks(&s.advance(url(CALENDER_LINK)).action, DROPPED_TOGGLE));
    assert!(clicks(&s.advance(BrowserEvent::Done).action, WAITLISTED_TOGGLE));
    assert!(clicks(&s.advance(BrowserEvent::Done).action, SHOW_BUTTON));
}

#[test]
fn calendar_view_is_requested_at_most_three_times() {
    let mut s = logged_in(options(false, true, false));
    for attempt in 1..=3u8 {
        assert!(matches!(s.advance(url("https://elsewhere/")).action, Action::Goto(ref u) if u == CALENDER_LINK));
        let step = s.advance(BrowserEvent::Done);
        assert!(matches!(step.action, Action::ReadUrl));
        assert_eq!(step.logs.len(), if attempt >= 2 { 1 } else { 0 });
        for (_, level) in step.logs.iter() {
            assert_eq!(*level, LogLevel::Warn);
        }
    }
    assert!(clicks(&s.advance(url("https://elsewhere/")).action, WAITLISTED_TOGGLE));
}

#[test]
fn foreign_host_after_login_fails() {
    let mut s = Session::new(options(false, false, false), "u", "p");
    s.advance(BrowserEvent::Done);
    s.advance(BrowserEvent::Done);
    s.advance(BrowserEvent::Done);
    s.advance(url(LANDING_PAGE));
    assert!(matches!(s.advance(BrowserEvent::Done).action, Action::ReadUrl));
    let step = s.advance(url("https://login.example.org/adfs?error=1"));
    assert!(matches!(step.action, Action::Finish(Err(ScrapError::LoginFailed))));
    assert_eq!(step.logs[0].1, LogLevel::Error);
}

#[test]
fn already_signed_in_skips_login() {
    let mut s = Session::new(options(false, false, true), "u", "p");
    assert!(matches!(s.advance(BrowserEvent::Done).action, Action::Launch { headed: true }));
    s.advance(BrowserEvent::Done);
    s.advance(BrowserEvent::Done);
    let step = s.advance(url(LANDING_PAGE));
    assert!(matches!(step.action, Action::WaitNavigation { pause_secs: 2 }));
    assert_eq!(step.logs[0].0, "Website loaded, already logged in");
}

#[test]
fn malformed_or_missing_url_fails() {
    let mut s = Session::new(options(false, false, false), "u", "p");
    for _ in 0..3 {
        s.advance(BrowserEvent::Done);
    }
    s.advance(url(LANDING_PAGE));
    s.advance(BrowserEvent::Done);
    match s.advance(url("not a url")).action {
        Action::Finish(Err(ScrapError::NavigationError(m))) => assert_eq!(m, "URL malformed"),
        _ => panic!("expected a navigation error"),
    }
    let mut t = Session::new(options(false, false, false), "u", "p");
    for _ in 0..3 {
        t.advance(BrowserEvent::Done);
    }
    t.advance(url(LANDING_PAGE));
    t.advance(BrowserEvent::Done);
    match t.advance(BrowserEvent::Url(None)).action {
        Action::Finish(Err(ScrapError::NavigationError(m))) => assert_eq!(m, "No URL strangely"),
        _ => panic!("expected a navigation error"),
    }
}

#[test]
fn debug_run_waits_for_browser_exit() {
    let mut s = logged_in(options(false, false, true));
    s.advance(url(CALENDER_LINK));
    s.advance(BrowserEvent::Done);
    s.advance(BrowserEvent::Done);
    let step = s.advance(BrowserEvent::Content("page".to_string()));
    assert!(matches!(step.action, Action::WaitBrowserExit));
    let lines: Vec<&str> = step.logs.iter().map(|l| l.0.as_str()).collect();
    assert_eq!(lines, vec!["Waiting for browser exit", "Close the browser to continue"]);
    match s.advance(BrowserEvent::Done).action {
        Action::Finish(Ok(html)) => assert_eq!(html, "page"),
        _ => panic!("expected the markup"),
    }
}

#[test]
fn browser_failure_ends_run() {
    let mut s = Session::new(options(false, false, false), "u", "p");
    s.advance(BrowserEvent::Done);
    s.advance(BrowserEvent::Done);
    let step = s.advance(BrowserEvent::Failed(ScrapError::NetworkError));
    assert!(matches!(step.action, Action::Finish(Err(ScrapError::NetworkError))));
    assert_eq!(s.phase, Phase::Finished);
}

#[test]
fn launch_failure_is_a_browser_error() {
    let mut s = Session::new(options(false, false, false), "u", "p");
    s.advance(BrowserEvent::Done);
    match s.advance(BrowserEvent::Failed(ScrapError::NetworkError)).action {
        Action::Finish(Err(ScrapError::BrowserError(m))) => assert_eq!(m, "Network Error"),
        _ => panic!("expected a browser error"),
    }
    let mut t = Session::new(options(false, false, false), "u", "p");
    t.advance(BrowserEvent::Done);
    let e = ScrapError::NavigationError("Selector not found".to_string());
    match t.advance(BrowserEvent::Failed(e)).action {
        Action::Finish(Err(ScrapError::BrowserError(m))) => assert_eq!(m, "Selector not found"),
        _ => panic!("expected a browser error"),
    }
    let mut u = Session::new(options(false, false, false), "u", "p");
    u.advance(BrowserEvent::Done);
    let e = ScrapError::BrowserError("no chrome".to_string());
    match u.advance(BrowserEvent::Failed(e)).action {
        Action::Finish(Err(ScrapError::BrowserError(m))) => assert_eq!(m, "no chrome"),
        _ => panic!("expected a browser error"),
    }
}
