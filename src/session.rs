//! The decisions of a browser session that logs in to the portal, opens the
//! study-list view, applies the filters and hands back the page.
//!
//! The session is a state machine: the caller performs each `Action` with a
//! real browser and answers with the `BrowserEvent` it observed, until the
//! action is `Finish`.
use crate::error::{launch_error, ScrapError, ScrapErrorView};
use crate::models::{LogLevel, ScrapOptions};
use crate::text::same_text;
use vstd::prelude::*;

verus! {

/// The portal page that a signed-in session lands on.
pub const LANDING_PAGE: &'static str =
    "https://in4sit.singaporetech.edu.sg/psc/CSSISSTD/EMPLOYEE/SA/c/NUI_FRAMEWORK.PT_LANDINGPAGE.GBL";

/// The study-list view that holds the timetable.
pub const CALENDER_LINK: &'static str =
    "https://in4sit.singaporetech.edu.sg/psc/CSSISSTD_4/EMPLOYEE/SA/c/SA_LEARNER_SERVICES.SSR_SSENRL_LIST.GBL?Page=SSR_SSENRL_LIST&Action=A";

/// The host of every portal page; after a login elsewhere, the login failed.
pub const PORTAL_HOST: &'static str = "in4sit.singaporetech.edu.sg";

pub const USERNAME_FIELD: &'static str = "//*[@id=\"userNameInput\"]";

pub const PASSWORD_FIELD: &'static str = "//*[@id=\"passwordInput\"]";

pub const SUBMIT_BUTTON: &'static str = "//*[@id=\"submitButton\"]";

pub const DROPPED_TOGGLE: &'static str = "//*[@id=\"DERIVED_REGFRM1_SA_STUDYLIST_D\"]";

pub const WAITLISTED_TOGGLE: &'static str = "//*[@id=\"DERIVED_REGFRM1_SA_STUDYLIST_W\"]";

pub const SHOW_BUTTON: &'static str = "//*[@id=\"DERIVED_REGFRM1_SA_STUDYLIST_SHOW$14$\"]";

/// How many times the study-list view is requested before going on with
/// whatever page is shown.
pub const CALENDAR_ATTEMPTS: u8 = 3;

/// Seconds to let the page settle after a login or a form submission.
pub const SETTLE_SECS: u64 = 2;

pub const MSG_ALREADY_IN: &'static str = "Website loaded, already logged in";

pub const MSG_LOGGING_IN: &'static str = "Website loaded, logging in";

pub const MSG_USERNAME: &'static str = "Entering email address";

pub const MSG_PASSWORD: &'static str = "Entering password";

pub const MSG_SUBMIT: &'static str = "Submitting sign in form";

pub const MSG_LOGIN_FAILED: &'static str = "Login failed, Check credentials";

pub const MSG_LOGGED_IN: &'static str = "User logged in";

pub const MSG_RETRY: &'static str = "Attempting to load Calender view again";

pub const MSG_CALENDAR: &'static str = "Loaded Calender view";

pub const MSG_DROPPED: &'static str = "Unchecked 'Show Dropped Classes'";

pub const MSG_WAITLISTED: &'static str = "Unchecked 'Show Waitlisted Classes'";

pub const MSG_FILTERED: &'static str = "Filtering done";

pub const MSG_WAIT_EXIT: &'static str = "Waiting for browser exit";

pub const MSG_CLOSE: &'static str = "Close the browser to continue";

pub const NO_URL: &'static str = "No URL strangely";

pub const BAD_URL: &'static str = "URL malformed";

pub const UNEXPECTED: &'static str = "Unexpected browser reply";

/// Where the session stands.
#[derive(Clone, Copy, Debug, PartialEq, Eq, Structural)]
pub enum Phase {
    Start,
    Launching,
    OpeningLanding,
    CheckingLanding,
    TypingUsername,
    TypingPassword,
    Submitting,
    AwaitingLogin,
    CheckingHost,
    /// Looking at the URL after this many requests of the study-list view.
    CheckingCalendar(u8),
    /// The study-list view has been requested this many times.
    LoadingCalendar(u8),
    FilteringDropped,
    FilteringWaitlisted,
    Showing,
    Settling,
    Reading,
    Lingering,
    Finished,
}

/// What the caller is to do with the browser next.
pub enum Action {
    /// Start a browser with a window (`headed`) or without one.
    Launch { headed: bool },
    /// Open a page at the URL, wait for it to load, then pause a second.
    OpenPage(String),
    /// Report the URL of the page.
    ReadUrl,
    /// Find the field by its locator, click it and type the text.
    TypeInto { locator: String, text: String },
    /// Find the control by its locator and click it.
    Click(String),
    /// Wait for the page to load, then pause this many seconds.
    WaitNavigation { pause_secs: u64 },
    /// Go to the URL, wait for it to load, then pause a second.
    Goto(String),
    /// Report the page's markup.
    ReadContent,
    /// Wait until the operator closes the browser window.
    WaitBrowserExit,
    /// The run is over, with this outcome.
    Finish(Result<String, ScrapError>),
}

/// What the browser answered to the last action.
pub enum BrowserEvent {
    Done,
    Url(Option<String>),
    Content(String),
    Failed(ScrapError),
}

pub enum ActionView {
    Launch { headed: bool },
    OpenPage(Seq<char>),
    ReadUrl,
    TypeInto { locator: Seq<char>, text: Seq<char> },
    Click(Seq<char>),
    WaitNavigation { pause_secs: u64 },
    Goto(Seq<char>),
    ReadContent,
    WaitBrowserExit,
    FinishOk(Seq<char>),
    FinishErr(ScrapErrorView),
}

pub enum EventView {
    Done,
    Url(Option<Seq<char>>),
    Content(Seq<char>),
    Failed(ScrapErrorView),
}

impl View for Action {
    type V = ActionView;

    open spec fn view(&self) -> ActionView {
        match self {
            Action::Launch { headed } => ActionView::Launch { headed: *headed },
            Action::OpenPage(u) => ActionView::OpenPage(u@),
            Action::ReadUrl => ActionView::ReadUrl,
            Action::TypeInto { locator, text } => ActionView::TypeInto {
                locator: locator@,
                text: text@,
            },
            Action::Click(l) => ActionView::Click(l@),
            Action::WaitNavigation { pause_secs } => ActionView::WaitNavigation {
                pause_secs: *pause_secs,
            },
            Action::Goto(u) => ActionView::Goto(u@),
            Action::ReadContent => ActionView::ReadContent,
            Action::WaitBrowserExit => ActionView::WaitBrowserExit,
            Action::Finish(Ok(m)) => ActionView::FinishOk(m@),
            Action::Finish(Err(e)) => ActionView::FinishErr(e@),
        }
    }
}

impl View for BrowserEvent {
    type V = EventView;

    open spec fn view(&self) -> EventView {
        match self {
            BrowserEvent::Done => EventView::Done,
            BrowserEvent::Url(u) => EventView::Url(
                match u {
                    Some(s) => Some(s@),
                    None => None,
                },
            ),
            BrowserEvent::Content(c) => EventView::Content(c@),
            BrowserEvent::Failed(e) => EventView::Failed(e@),
        }
    }
}

/// One decision: the action to perform, and the lines to log first, in order.
pub struct Step {
    pub action: Action,
    pub logs: Vec<(String, LogLevel)>,
}

pub struct StepView {
    pub action: ActionView,
    pub logs: Seq<(Seq<char>, LogLevel)>,
}

impl View for Step {
    type V = StepView;

    open spec fn view(&self) -> StepView {
        StepView {
            action: self.action@,
            logs: self.logs@.map_values(|p: (String, LogLevel)| (p.0@, p.1)),
        }
    }
}

/// A run of the session: what it was asked, and how far it has come.
pub struct Session {
    pub phase: Phase,
    pub options: ScrapOptions,
    pub username: String,
    pub password: String,
    /// The page read, kept while the operator inspects the browser.
    pub markup: String,
}

/// The parts of a session that change from step to step.
pub struct SessionView {
    pub phase: Phase,
    pub markup: Seq<char>,
}

/// Whether the URL's host, as the `url` crate reads it, is known: `None` when
/// the text is not a URL.
pub uninterp spec fn url_host(s: Seq<char>) -> Option<Option<Seq<char>>>;

/// Relies on url's `Url::parse` (an error gives `None`) and `Url::host_str`.
#[verifier::external_body]
fn host_of(s: &str) -> (r: Option<Option<String>>)
    ensures
        r.deep_view() == url_host(s@),
{
    match url::Url::parse(s) {
        Ok(u) => Some(u.host_str().map(|h| h.to_string())),
        Err(_) => None,
    }
}

pub open spec fn finish_err(e: ScrapErrorView) -> StepView {
    StepView { action: ActionView::FinishErr(e), logs: Seq::empty() }
}

pub open spec fn act(a: ActionView) -> StepView {
    StepView { action: a, logs: Seq::empty() }
}

pub open spec fn act_logged(a: ActionView, m: Seq<char>, l: LogLevel) -> StepView {
    StepView { action: a, logs: seq![(m, l)] }
}

pub open spec fn act_logged_twice(
    a: ActionView,
    m1: Seq<char>,
    l1: LogLevel,
    m2: Seq<char>,
    l2: LogLevel,
) -> StepView {
    StepView { action: a, logs: seq![(m1, l1), (m2, l2)] }
}

/// The first filter click after the study-list view is loaded, or the
/// show button when no filter is asked for.
pub open spec fn first_filter(o: ScrapOptions) -> (Phase, ActionView) {
    if o.filter_dropped {
        (Phase::FilteringDropped, ActionView::Click(DROPPED_TOGGLE@))
    } else if o.filter_waitlisted {
        (Phase::FilteringWaitlisted, ActionView::Click(WAITLISTED_TOGGLE@))
    } else {
        (Phase::Showing, ActionView::Click(SHOW_BUTTON@))
    }
}

/// The next phase and step, from phase `p` of a run with options `o` and
/// credentials `user` and `pass`, once the browser answered `e`. A failure
/// reported by the browser ends the run with that failure; one reported while
/// starting the browser ends it as a browser failure.
pub open spec fn transition(
    p: Phase,
    o: ScrapOptions,
    user: Seq<char>,
    pass: Seq<char>,
    markup: Seq<char>,
    e: EventView,
) -> (SessionView, StepView) {
    let same = SessionView { phase: p, markup };
    let to = |q: Phase| SessionView { phase: q, markup };
    let done = SessionView { phase: Phase::Finished, markup };
    match e {
        EventView::Failed(err) => if p == Phase::Finished {
            (same, finish_err(ScrapErrorView::NavigationError(UNEXPECTED@)))
        } else if p == Phase::Launching {
            (done, finish_err(launch_error(err)))
        } else {
            (done, finish_err(err))
        },
        _ => match (p, e) {
            (Phase::Start, _) => (
                to(Phase::Launching),
                act(ActionView::Launch { headed: o.debug_mode }),
            ),
            (Phase::Launching, EventView::Done) => (
                to(Phase::OpeningLanding),
                act(ActionView::OpenPage(LANDING_PAGE@)),
            ),
            (Phase::OpeningLanding, EventView::Done) => (
                to(Phase::CheckingLanding),
                act(ActionView::ReadUrl),
            ),
            (Phase::CheckingLanding, EventView::Url(u)) => if u == Some(LANDING_PAGE@) {
                (
                    to(Phase::AwaitingLogin),
                    act_logged(
                        ActionView::WaitNavigation { pause_secs: SETTLE_SECS },
                        MSG_ALREADY_IN@,
                        LogLevel::Info,
                    ),
                )
            } else {
                (
                    to(Phase::TypingUsername),
                    act_logged_twice(
                        ActionView::TypeInto { locator: USERNAME_FIELD@, text: user },
                        MSG_LOGGING_IN@,
                        LogLevel::Info,
                        MSG_USERNAME@,
                        LogLevel::Info,
                    ),
                )
            },
            (Phase::TypingUsername, EventView::Done) => (
                to(Phase::TypingPassword),
                act_logged(
                    ActionView::TypeInto { locator: PASSWORD_FIELD@, text: pass },
                    MSG_PASSWORD@,
                    LogLevel::Info,
                ),
            ),
            (Phase::TypingPassword, EventView::Done) => (
                to(Phase::Submitting),
                act_logged(ActionView::Click(SUBMIT_BUTTON@), MSG_SUBMIT@, LogLevel::Info),
            ),
            (Phase::Submitting, EventView::Done) => (
                to(Phase::AwaitingLogin),
                act(ActionView::WaitNavigation { pause_secs: SETTLE_SECS }),
            ),
            (Phase::AwaitingLogin, EventView::Done) => (
                to(Phase::CheckingHost),
                act(ActionView::ReadUrl),
            ),
            (Phase::CheckingHost, EventView::Url(u)) => match u {
                None => (done, finish_err(ScrapErrorView::NavigationError(NO_URL@))),
                Some(s) => match url_host(s) {
                    None => (done, finish_err(ScrapErrorView::NavigationError(BAD_URL@))),
                    Some(h) => if h == Some(PORTAL_HOST@) {
                        (
                            to(Phase::CheckingCalendar(0)),
                            act_logged(ActionView::ReadUrl, MSG_LOGGED_IN@, LogLevel::Info),
                        )
                    } else {
                        (
                            done,
                            act_logged(
                                ActionView::FinishErr(ScrapErrorView::LoginFailed),
                                MSG_LOGIN_FAILED@,
                                LogLevel::Error,
                            ),
                        )
                    },
                },
            },
            (Phase::CheckingCalendar(n), EventView::Url(u)) => if u == Some(CALENDER_LINK@) || n
                >= CALENDAR_ATTEMPTS {
                let (q, a) = first_filter(o);
                (to(q), act_logged(a, MSG_CALENDAR@, LogLevel::Info))
            } else {
                (to(Phase::LoadingCalendar((n + 1) as u8)), act(ActionView::Goto(CALENDER_LINK@)))
            },
            (Phase::LoadingCalendar(n), EventView::Done) => if n >= 2 {
                (
                    to(Phase::CheckingCalendar(n)),
                    act_logged(ActionView::ReadUrl, MSG_RETRY@, LogLevel::Warn),
                )
            } else {
                (to(Phase::CheckingCalendar(n)), act(ActionView::ReadUrl))
            },
            (Phase::FilteringDropped, EventView::Done) => if o.filter_waitlisted {
                (
                    to(Phase::FilteringWaitlisted),
                    act_logged(
                        ActionView::Click(WAITLISTED_TOGGLE@),
                        MSG_DROPPED@,
                        LogLevel::Info,
                    ),
                )
            } else {
                (
                    to(Phase::Showing),
                    act_logged(ActionView::Click(SHOW_BUTTON@), MSG_DROPPED@, LogLevel::Info),
                )
            },
            (Phase::FilteringWaitlisted, EventView::Done) => (
                to(Phase::Showing),
                act_logged(ActionView::Click(SHOW_BUTTON@), MSG_WAITLISTED@, LogLevel::Info),
            ),
            (Phase::Showing, EventView::Done) => (
                to(Phase::Settling),
                act(ActionView::WaitNavigation { pause_secs: SETTLE_SECS }),
            ),
            (Phase::Settling, EventView::Done) => (
                to(Phase::Reading),
                act_logged(ActionView::ReadContent, MSG_FILTERED@, LogLevel::Info),
            ),
            (Phase::Reading, EventView::Content(html)) => if o.debug_mode {
                (
                    SessionView { phase: Phase::Lingering, markup: html },
                    act_logged_twice(
                        ActionView::WaitBrowserExit,
                        MSG_WAIT_EXIT@,
                        LogLevel::Debug,
                        MSG_CLOSE@,
                        LogLevel::Debug,
                    ),
                )
            } else {
                (
                    SessionView { phase: Phase::Finished, markup: html },
                    act(ActionView::FinishOk(html)),
                )
            },
            (Phase::Lingering, EventView::Done) => (done, act(ActionView::FinishOk(markup))),
            (Phase::Finished, _) => (same, finish_err(ScrapErrorView::NavigationError(UNEXPECTED@))),
            _ => (done, finish_err(ScrapErrorView::NavigationError(UNEXPECTED@))),
        },
    }
}

fn text(s: &str) -> (r: String)
    ensures
        r@ == s@,
{
    String::from_str(s)
}

fn plain(action: Action) -> (r: Step)
    ensures
        r@ == act(action@),
{
    let r = Step { action, logs: Vec::new() };
    assert(r@.logs =~= Seq::<(Seq<char>, LogLevel)>::empty());
    r
}

fn logged(action: Action, m: &str, level: LogLevel) -> (r: Step)
    ensures
        r@ == act_logged(action@, m@, level),
{
    let mut logs: Vec<(String, LogLevel)> = Vec::new();
    logs.push((text(m), level));
    let r = Step { action, logs };
    assert(r@.logs =~= seq![(m@, level)]);
    r
}

fn logged_twice(action: Action, m1: &str, l1: LogLevel, m2: &str, l2: LogLevel) -> (r: Step)
    ensures
        r@ == act_logged_twice(action@, m1@, l1, m2@, l2),
{
    let mut logs: Vec<(String, LogLevel)> = Vec::new();
    logs.push((text(m1), l1));
    logs.push((text(m2), l2));
    let r = Step { action, logs };
    assert(r@.logs =~= seq![(m1@, l1), (m2@, l2)]);
    r
}

fn failed(e: ScrapError) -> (r: Step)
    ensures
        r@ == finish_err(e@),
{
    let r = Step { action: Action::Finish(Err(e)), logs: Vec::new() };
    assert(r@.logs =~= Seq::<(Seq<char>, LogLevel)>::empty());
    r
}

fn url_is(u: &Option<String>, target: &str) -> (r: bool)
    ensures
        r == (match u {
            Some(s) => Some(s@),
            None => None::<Seq<char>>,
        } == Some(target@)),
{
    match u {
        Some(s) => same_text(s.as_str(), target),
        None => false,
    }
}

impl Session {
    pub open spec fn view_parts(&self) -> SessionView {
        SessionView { phase: self.phase, markup: self.markup@ }
    }

    /// A run that has not started yet.
    pub fn new(options: ScrapOptions, username: &str, password: &str) -> (r: Session)
        ensures
            r.phase == Phase::Start,
            r.options == options,
            r.username@ == username@,
            r.password@ == password@,
            r.markup@ == Seq::<char>::empty(),
    {
        Session {
            phase: Phase::Start,
            options,
            username: text(username),
            password: text(password),
            markup: String::new(),
        }
    }

    fn first_filter_step(&mut self) -> (r: Step)
        ensures
            final(self).phase == first_filter(old(self).options).0,
            r@ == act_logged(first_filter(old(self).options).1, MSG_CALENDAR@, LogLevel::Info),
            final(self).options == old(self).options,
            final(self).username == old(self).username,
            final(self).password == old(self).password,
            final(self).markup == old(self).markup,
    {
        if self.options.filter_dropped {
            self.phase = Phase::FilteringDropped;
            logged(Action::Click(text(DROPPED_TOGGLE)), MSG_CALENDAR, LogLevel::Info)
        } else if self.options.filter_waitlisted {
            self.phase = Phase::FilteringWaitlisted;
            logged(Action::Click(text(WAITLISTED_TOGGLE)), MSG_CALENDAR, LogLevel::Info)
        } else {
            self.phase = Phase::Showing;
            logged(Action::Click(text(SHOW_BUTTON)), MSG_CALENDAR, LogLevel::Info)
        }
    }

    /// Takes the browser's answer to the last action and decides the next one.
    pub fn advance(&mut self, event: BrowserEvent) -> (r: Step)
        ensures
            (final(self).view_parts(), r@) == transition(
                old(self).phase,
                old(self).options,
                old(self).username@,
                old(self).password@,
                old(self).markup@,
                event@,
            ),
            final(self).options == old(self).options,
            final(self).username == old(self).username,
            final(self).password == old(self).password,
    {
        let p = self.phase;
        let o = self.options;
        if let BrowserEvent::Failed(err) = event {
            if p == Phase::Finished {
                return failed(ScrapError::NavigationError(text(UNEXPECTED)));
            }
            self.phase = Phase::Finished;
            if p == Phase::Launching {
                return failed(err.into_launch_error());
            }
            return failed(err);
        }
        match (p, event) {
            (Phase::Start, _) => {
                self.phase = Phase::Launching;
                plain(Action::Launch { headed: o.debug_mode })
            },
            (Phase::Launching, BrowserEvent::Done) => {
                self.phase = Phase::OpeningLanding;
                plain(Action::OpenPage(text(LANDING_PAGE)))
            },
            (Phase::OpeningLanding, BrowserEvent::Done) => {
                self.phase = Phase::CheckingLanding;
                plain(Action::ReadUrl)
            },
            (Phase::CheckingLanding, BrowserEvent::Url(u)) => {
                if url_is(&u, LANDING_PAGE) {
                    self.phase = Phase::AwaitingLogin;
                    logged(
                        Action::WaitNavigation { pause_secs: SETTLE_SECS },
                        MSG_ALREADY_IN,
                        LogLevel::Info,
                    )
                } else {
                    self.phase = Phase::TypingUsername;
                    let user = self.username.clone();
                    logged_twice(
                        Action::TypeInto { locator: text(USERNAME_FIELD), text: user },
                        MSG_LOGGING_IN,
                        LogLevel::Info,
                        MSG_USERNAME,
                        LogLevel::Info,
                    )
                }
            },
            (Phase::TypingUsername, BrowserEvent::Done) => {
                self.phase = Phase::TypingPassword;
                let pass = self.password.clone();
                logged(
                    Action::TypeInto { locator: text(PASSWORD_FIELD), text: pass },
                    MSG_PASSWORD,
                    LogLevel::Info,
                )
            },
            (Phase::TypingPassword, BrowserEvent::Done) => {
                self.phase = Phase::Submitting;
                logged(Action::Click(text(SUBMIT_BUTTON)), MSG_SUBMIT, LogLevel::Info)
            },
            (Phase::Submitting, BrowserEvent::Done) => {
                self.phase = Phase::AwaitingLogin;
                plain(Action::WaitNavigation { pause_secs: SETTLE_SECS })
            },
            (Phase::AwaitingLogin, BrowserEvent::Done) => {
                self.phase = Phase::CheckingHost;
                plain(Action::ReadUrl)
            },
            (Phase::CheckingHost, BrowserEvent::Url(u)) => {
                self.phase = Phase::Finished;
                match u {
                    None => failed(ScrapError::NavigationError(text(NO_URL))),
                    Some(s) => match host_of(s.as_str()) {
                        None => failed(ScrapError::NavigationError(text(BAD_URL))),
                        Some(h) => {
                            if url_is(&h, PORTAL_HOST) {
                                self.phase = Phase::CheckingCalendar(0);
                                logged(Action::ReadUrl, MSG_LOGGED_IN, LogLevel::Info)
                            } else {
                                logged(
                                    Action::Finish(Err(ScrapError::LoginFailed)),
                                    MSG_LOGIN_FAILED,
                                    LogLevel::Error,
                                )
                            }
                        },
                    },
                }
            },
            (Phase::CheckingCalendar(n), BrowserEvent::Url(u)) => {
                if url_is(&u, CALENDER_LINK) || n >= CALENDAR_ATTEMPTS {
                    self.first_filter_step()
                } else {
                    self.phase = Phase::LoadingCalendar(n + 1);
                    plain(Action::Goto(text(CALENDER_LINK)))
                }
            },
            (Phase::LoadingCalendar(n), BrowserEvent::Done) => {
                self.phase = Phase::CheckingCalendar(n);
                if n >= 2 {
                    logged(Action::ReadUrl, MSG_RETRY, LogLevel::Warn)
                } else {
                    plain(Action::ReadUrl)
                }
            },
            (Phase::FilteringDropped, BrowserEvent::Done) => {
                if o.filter_waitlisted {
                    self.phase = Phase::FilteringWaitlisted;
                    logged(Action::Click(text(WAITLISTED_TOGGLE)), MSG_DROPPED, LogLevel::Info)
                } else {
                    self.phase = Phase::Showing;
                    logged(Action::Click(text(SHOW_BUTTON)), MSG_DROPPED, LogLevel::Info)
                }
            },
            (Phase::FilteringWaitlisted, BrowserEvent::Done) => {
                self.phase = Phase::Showing;
                logged(Action::Click(text(SHOW_BUTTON)), MSG_WAITLISTED, LogLevel::Info)
            },
            (Phase::Showing, BrowserEvent::Done) => {
                self.phase = Phase::Settling;
                plain(Action::WaitNavigation { pause_secs: SETTLE_SECS })
            },
            (Phase::Settling, BrowserEvent::Done) => {
                self.phase = Phase::Reading;
                logged(Action::ReadContent, MSG_FILTERED, LogLevel::Info)
            },
            (Phase::Reading, BrowserEvent::Content(html)) => {
                if o.debug_mode {
                    self.phase = Phase::Lingering;
                    self.markup = html;
                    logged_twice(
                        Action::WaitBrowserExit,
                        MSG_WAIT_EXIT,
                        LogLevel::Debug,
                        MSG_CLOSE,
                        LogLevel::Debug,
                    )
                } else {
                    self.phase = Phase::Finished;
                    let out = html.clone();
                    self.markup = html;
                    plain(Action::Finish(Ok(out)))
                }
            },
            (Phase::Lingering, BrowserEvent::Done) => {
                self.phase = Phase::Finished;
                plain(Action::Finish(Ok(self.markup.clone())))
            },
            (Phase::Finished, _) => failed(ScrapError::NavigationError(text(UNEXPECTED))),
            _ => {
                self.phase = Phase::Finished;
                failed(ScrapError::NavigationError(text(UNEXPECTED)))
            },
        }
    }
}

} // verus!
