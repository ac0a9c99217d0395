//! Failures of a run, as the caller sees them.
use vstd::prelude::*;

verus! {

/// Why a run gave no timetable.
#[derive(Debug)]
pub enum ScrapError {
    /// The browser could not be started or configured.
    BrowserError(String),
    /// A control was missing, a URL was malformed, or navigation went wrong.
    NavigationError(String),
    /// A script inside the page failed.
    JSException(String),
    /// The portal did not accept the credentials.
    LoginFailed,
    /// The page is not the expected view.
    HtmlParseError(String),
    /// The browser timed out.
    NetworkError,
}

pub enum ScrapErrorView {
    BrowserError(Seq<char>),
    NavigationError(Seq<char>),
    JSException(Seq<char>),
    LoginFailed,
    HtmlParseError(Seq<char>),
    NetworkError,
}

impl View for ScrapError {
    type V = ScrapErrorView;

    open spec fn view(&self) -> ScrapErrorView {
        match self {
            ScrapError::BrowserError(m) => ScrapErrorView::BrowserError(m@),
            ScrapError::NavigationError(m) => ScrapErrorView::NavigationError(m@),
            ScrapError::JSException(m) => ScrapErrorView::JSException(m@),
            ScrapError::LoginFailed => ScrapErrorView::LoginFailed,
            ScrapError::HtmlParseError(m) => ScrapErrorView::HtmlParseError(m@),
            ScrapError::NetworkError => ScrapErrorView::NetworkError,
        }
    }
}

/// A browser failure, as the browser library classifies it.
pub enum BrowserFault {
    Timeout,
    /// A frame was missing; the text names it.
    FrameNotFound(String),
    ScrollingFailed(String),
    NotFound,
    JavascriptException(String),
    /// A URL could not be parsed; the text says why.
    Url(String),
    /// The browser answered with an error of this code.
    Chrome(i64),
    Other,
}

pub const SELECTOR_NOT_FOUND: &'static str = "Selector not found";

pub const GENERIC_BROWSER_ERROR: &'static str = "Generic Browser error";

/// The browser's error code for a node that could not be found.
pub const CHROME_NODE_MISSING: i64 = -32000;

/// The failure of a run that a browser failure stands for.
pub open spec fn fault_error(f: BrowserFault) -> ScrapErrorView {
    match f {
        BrowserFault::Timeout => ScrapErrorView::NetworkError,
        BrowserFault::FrameNotFound(id) => ScrapErrorView::NavigationError(
            "iFrame "@ + id@ + " not found"@,
        ),
        BrowserFault::ScrollingFailed(m) => ScrapErrorView::NavigationError(m@),
        BrowserFault::NotFound => ScrapErrorView::NavigationError(SELECTOR_NOT_FOUND@),
        BrowserFault::JavascriptException(m) => ScrapErrorView::JSException(m@),
        BrowserFault::Url(m) => ScrapErrorView::NavigationError(m@),
        BrowserFault::Chrome(code) => if code == CHROME_NODE_MISSING {
            ScrapErrorView::NavigationError(SELECTOR_NOT_FOUND@)
        } else {
            ScrapErrorView::BrowserError(GENERIC_BROWSER_ERROR@)
        },
        BrowserFault::Other => ScrapErrorView::BrowserError(GENERIC_BROWSER_ERROR@),
    }
}

/// The text a failure is shown with, after the time `stamp`.
pub open spec fn error_text(e: ScrapErrorView, stamp: Seq<char>) -> Seq<char> {
    let head = "["@ + stamp + "] "@;
    match e {
        ScrapErrorView::BrowserError(m) => head + "Browser Error: "@ + m,
        ScrapErrorView::NavigationError(m) => head + "Navigation Error: "@ + m,
        ScrapErrorView::JSException(m) => head + "JavaScript Exception: "@ + m,
        ScrapErrorView::NetworkError => head + "Network Error"@,
        ScrapErrorView::HtmlParseError(m) => head + "HTML Parsing Error: "@ + m,
        ScrapErrorView::LoginFailed => head + "Login Failed"@,
    }
}

/// The failure that a failure reported while starting the browser stands
/// for: always a browser failure, keeping the message where there is one.
pub open spec fn launch_error(e: ScrapErrorView) -> ScrapErrorView {
    match e {
        ScrapErrorView::BrowserError(m) => ScrapErrorView::BrowserError(m),
        ScrapErrorView::NavigationError(m) => ScrapErrorView::BrowserError(m),
        ScrapErrorView::JSException(m) => ScrapErrorView::BrowserError(m),
        ScrapErrorView::HtmlParseError(m) => ScrapErrorView::BrowserError(m),
        ScrapErrorView::NetworkError => ScrapErrorView::BrowserError("Network Error"@),
        ScrapErrorView::LoginFailed => ScrapErrorView::BrowserError("Login Failed"@),
    }
}

impl ScrapError {
    /// This failure, reported while starting the browser, as a browser failure.
    pub fn into_launch_error(self) -> (r: ScrapError)
        ensures
            r@ == launch_error(self@),
    {
        match self {
            ScrapError::BrowserError(m) => ScrapError::BrowserError(m),
            ScrapError::NavigationError(m) => ScrapError::BrowserError(m),
            ScrapError::JSException(m) => ScrapError::BrowserError(m),
            ScrapError::HtmlParseError(m) => ScrapError::BrowserError(m),
            ScrapError::NetworkError => ScrapError::BrowserError(String::from_str("Network Error")),
            ScrapError::LoginFailed => ScrapError::BrowserError(String::from_str("Login Failed")),
        }
    }

    /// The failure of a run that a browser failure stands for.
    pub fn from_fault(f: BrowserFault) -> (r: ScrapError)
        ensures
            r@ == fault_error(f),
    {
        match f {
            BrowserFault::Timeout => ScrapError::NetworkError,
            BrowserFault::FrameNotFound(id) => {
                let mut m = String::from_str("iFrame ");
                m.append(id.as_str());
                m.append(" not found");
                ScrapError::NavigationError(m)
            },
            BrowserFault::ScrollingFailed(m) => ScrapError::NavigationError(m),
            BrowserFault::NotFound => ScrapError::NavigationError(
                String::from_str(SELECTOR_NOT_FOUND),
            ),
            BrowserFault::JavascriptException(m) => ScrapError::JSException(m),
            BrowserFault::Url(m) => ScrapError::NavigationError(m),
            BrowserFault::Chrome(code) => if code == CHROME_NODE_MISSING {
                ScrapError::NavigationError(String::from_str(SELECTOR_NOT_FOUND))
            } else {
                ScrapError::BrowserError(String::from_str(GENERIC_BROWSER_ERROR))
            },
            BrowserFault::Other => ScrapError::BrowserError(String::from_str(GENERIC_BROWSER_ERROR)),
        }
    }

    /// The text this failure is shown with, after the time `stamp`.
    pub fn describe(&self, stamp: &str) -> (r: String)
        ensures
            r@ == error_text(self@, stamp@),
    {
        let mut out = String::from_str("[");
        out.append(stamp);
        out.append("] ");
        match self {
            ScrapError::BrowserError(m) => {
                out.append("Browser Error: ");
                out.append(m.as_str());
            },
            ScrapError::NavigationError(m) => {
                out.append("Navigation Error: ");
                out.append(m.as_str());
            },
            ScrapError::JSException(m) => {
                out.append("JavaScript Exception: ");
                out.append(m.as_str());
            },
            ScrapError::NetworkError => {
                out.append("Network Error");
            },
            ScrapError::HtmlParseError(m) => {
                out.append("HTML Parsing Error: ");
                out.append(m.as_str());
            },
            ScrapError::LoginFailed => {
                out.append("Login Failed");
            },
        }
        out
    }
}

} // verus!
