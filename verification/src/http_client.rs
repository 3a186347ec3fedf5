//! The shape of outbound requests and the reading of what comes back.
//!
//! Nothing here touches the network. A caller sends the request that
//! `get_request` or `post_form_request` describes, reports what happened as an
//! `HttpOutcome`, and gets the page text or the error from `response_text`.

use crate::text::{concat2, decimal, text_model, to_decimal};
use vstd::prelude::*;
use vstd::string::*;

verus! {

/// Seconds after which a request is given up.
pub const TIMEOUT_SECONDS: u64 = 15;

/// The user agent that every request carries.
pub const USER_AGENT: &'static str =
    "Mozilla/5.0 (Windows NT 10.0; Win64; x64) AppleWebKit/537.36 (KHTML, like Gecko) Chrome/138.0.0.0 Safari/537.36 (AnimeSearch API)";

/// The languages that every page request asks for.
pub const ACCEPT_LANGUAGE: &'static str = "zh-CN,zh;q=0.9,en;q=0.8";

/// Why a request gave no page.
#[derive(Debug, PartialEq, Eq)]
pub enum HttpClientError {
    /// No answer came in time.
    Timeout,
    /// The request could not be sent, or its answer could not be read.
    RequestFailed(String),
    /// The answer's status was not a success.
    BadStatus(u16),
}

pub ghost enum HttpClientErrorModel {
    Timeout,
    RequestFailed(Seq<char>),
    BadStatus(u16),
}

impl DeepView for HttpClientError {
    type V = HttpClientErrorModel;

    open spec fn deep_view(&self) -> HttpClientErrorModel {
        match self {
            HttpClientError::Timeout => HttpClientErrorModel::Timeout,
            HttpClientError::RequestFailed(detail) => HttpClientErrorModel::RequestFailed(
                detail@,
            ),
            HttpClientError::BadStatus(status) => HttpClientErrorModel::BadStatus(*status),
        }
    }
}

impl View for HttpClientError {
    type V = HttpClientErrorModel;

    open spec fn view(&self) -> HttpClientErrorModel {
        self.deep_view()
    }
}

impl HttpClientErrorModel {
    /// The text shown for the error.
    pub open spec fn message(self) -> Seq<char> {
        match self {
            HttpClientErrorModel::Timeout => "请求超时"@,
            HttpClientErrorModel::RequestFailed(detail) => "请求失败: "@ + detail,
            HttpClientErrorModel::BadStatus(status) => "响应异常状态码: "@ + decimal(status as nat),
        }
    }
}

impl HttpClientError {
    /// The text shown for the error.
    pub fn message(&self) -> (r: String)
        ensures
            r@ == self@.message(),
    {
        match self {
            HttpClientError::Timeout => String::from_str("请求超时"),
            HttpClientError::RequestFailed(detail) => concat2("请求失败: ", detail.as_str()),
            HttpClientError::BadStatus(status) => {
                let digits = to_decimal(*status as usize);
                concat2("响应异常状态码: ", digits.as_str())
            },
        }
    }
}

impl Clone for HttpClientError {
    fn clone(&self) -> (r: HttpClientError)
        ensures
            r@ == self@,
    {
        match self {
            HttpClientError::Timeout => HttpClientError::Timeout,
            HttpClientError::RequestFailed(detail) => HttpClientError::RequestFailed(
                detail.clone(),
            ),
            HttpClientError::BadStatus(status) => HttpClientError::BadStatus(*status),
        }
    }
}

/// Whether `status` reports success: it lies between 200 and 299.
pub open spec fn is_success(status: u16) -> bool {
    200 <= status <= 299
}

/// Accepts a successful status and refuses any other.
pub fn check_status(status: u16) -> (r: Result<(), HttpClientError>)
    ensures
        r is Ok <==> is_success(status),
        r matches Err(e) ==> e@ == HttpClientErrorModel::BadStatus(status),
{
    if 200 <= status && status <= 299 {
        Ok(())
    } else {
        Err(HttpClientError::BadStatus(status))
    }
}

/// The error for a request that was never answered.
pub fn send_failure(timed_out: bool, detail: String) -> (e: HttpClientError)
    ensures
        e@ == send_failure_model(timed_out, detail@),
{
    if timed_out {
        HttpClientError::Timeout
    } else {
        HttpClientError::RequestFailed(detail)
    }
}

pub open spec fn send_failure_model(timed_out: bool, detail: Seq<char>) -> HttpClientErrorModel {
    if timed_out {
        HttpClientErrorModel::Timeout
    } else {
        HttpClientErrorModel::RequestFailed(detail)
    }
}

/// What became of one request.
#[derive(Debug, PartialEq, Eq)]
pub enum HttpOutcome {
    /// The request failed before any answer came; `detail` says how.
    SendFailed { timed_out: bool, detail: String },
    /// An answer came with `status`; `body` is its text, or says why the text
    /// could not be read.
    Answered { status: u16, body: Result<String, String> },
}

pub ghost enum HttpOutcomeModel {
    SendFailed { timed_out: bool, detail: Seq<char> },
    Answered { status: u16, body: Result<Seq<char>, Seq<char>> },
}

impl DeepView for HttpOutcome {
    type V = HttpOutcomeModel;

    open spec fn deep_view(&self) -> HttpOutcomeModel {
        match self {
            HttpOutcome::SendFailed { timed_out, detail } => HttpOutcomeModel::SendFailed {
                timed_out: *timed_out,
                detail: detail@,
            },
            HttpOutcome::Answered { status, body } => HttpOutcomeModel::Answered {
                status: *status,
                body: match body {
                    Ok(text) => Ok(text@),
                    Err(detail) => Err(detail@),
                },
            },
        }
    }
}

impl View for HttpOutcome {
    type V = HttpOutcomeModel;

    open spec fn view(&self) -> HttpOutcomeModel {
        self.deep_view()
    }
}

/// The page text of an outcome, or the error it amounts to. A request that was
/// not answered is a timeout or a failed request; an answer without a success
/// status is a bad status, whatever its body; a body that could not be read is a
/// failed request.
pub open spec fn text_of(outcome: HttpOutcomeModel) -> Result<Seq<char>, HttpClientErrorModel> {
    match outcome {
        HttpOutcomeModel::SendFailed { timed_out, detail } => Err(
            send_failure_model(timed_out, detail),
        ),
        HttpOutcomeModel::Answered { status, body } => if !is_success(status) {
            Err(HttpClientErrorModel::BadStatus(status))
        } else {
            match body {
                Ok(text) => Ok(text),
                Err(detail) => Err(HttpClientErrorModel::RequestFailed(detail)),
            }
        },
    }
}

/// The model of a page: its text, or the error that stood in its way.
pub open spec fn page_model(page: Result<String, HttpClientError>) -> Result<
    Seq<char>,
    HttpClientErrorModel,
> {
    match page {
        Ok(text) => Ok(text@),
        Err(e) => Err(e@),
    }
}

/// The page text of `outcome`, or the error it amounts to.
pub fn response_text(outcome: HttpOutcome) -> (r: Result<String, HttpClientError>)
    ensures
        page_model(r) == text_of(outcome@),
{
    match outcome {
        HttpOutcome::SendFailed { timed_out, detail } => Err(send_failure(timed_out, detail)),
        HttpOutcome::Answered { status, body } => match check_status(status) {
            Err(e) => Err(e),
            Ok(_) => match body {
                Ok(text) => Ok(text),
                Err(detail) => Err(HttpClientError::RequestFailed(detail)),
            },
        },
    }
}

/// How a request is sent.
#[derive(Debug, Clone, Copy, PartialEq, Eq)]
pub enum Method {
    Get,
    PostForm,
}

/// One outbound request: where it goes, what form it posts, which headers it
/// carries besides the user agent.
#[derive(Debug, PartialEq, Eq)]
pub struct HttpRequest {
    pub method: Method,
    pub url: String,
    pub form: Vec<(String, String)>,
    pub headers: Vec<(String, String)>,
}

pub ghost struct HttpRequestModel {
    pub method: Method,
    pub url: Seq<char>,
    pub form: Seq<(Seq<char>, Seq<char>)>,
    pub headers: Seq<(Seq<char>, Seq<char>)>,
}

impl DeepView for HttpRequest {
    type V = HttpRequestModel;

    open spec fn deep_view(&self) -> HttpRequestModel {
        HttpRequestModel {
            method: self.method,
            url: self.url@,
            form: self.form.deep_view(),
            headers: self.headers.deep_view(),
        }
    }
}

impl View for HttpRequest {
    type V = HttpRequestModel;

    open spec fn view(&self) -> HttpRequestModel {
        self.deep_view()
    }
}

/// The headers of a page request: the referer if there is one, then the accepted
/// languages, then the wish to keep the connection.
pub open spec fn page_headers(referer: Option<Seq<char>>) -> Seq<(Seq<char>, Seq<char>)> {
    let fixed = seq![("Accept-Language"@, ACCEPT_LANGUAGE@), ("Connection"@, "keep-alive"@)];
    match referer {
        Some(r) => seq![("Referer"@, r)] + fixed,
        None => fixed,
    }
}

fn make_page_headers(referer: Option<&str>) -> (headers: Vec<(String, String)>)
    ensures
        headers.deep_view() == page_headers(text_model(referer)),
{
    let mut headers: Vec<(String, String)> = Vec::new();
    match referer {
        Some(r) => {
            headers.push((String::from_str("Referer"), String::from_str(r)));
        },
        None => {},
    }
    headers.push((String::from_str("Accept-Language"), String::from_str(ACCEPT_LANGUAGE)));
    headers.push((String::from_str("Connection"), String::from_str("keep-alive")));
    assert(headers.deep_view() =~= page_headers(text_model(referer)));
    headers
}

/// The request that gets the page at `url`.
pub fn get_request(url: &str, referer: Option<&str>) -> (r: HttpRequest)
    ensures
        r@.method == Method::Get,
        r@.url == url@,
        r@.form.len() == 0,
        r@.headers == page_headers(text_model(referer)),
{
    let r = HttpRequest {
        method: Method::Get,
        url: String::from_str(url),
        form: Vec::new(),
        headers: make_page_headers(referer),
    };
    assert(r.form.deep_view() =~= Seq::empty());
    r
}

/// The request that posts `form` to `url`.
pub fn post_form_request(url: &str, form: Vec<(String, String)>, referer: Option<&str>) -> (r:
    HttpRequest)
    ensures
        r@.method == Method::PostForm,
        r@.url == url@,
        r@.form == form.deep_view(),
        r@.headers == page_headers(text_model(referer)),
{
    HttpRequest {
        method: Method::PostForm,
        url: String::from_str(url),
        form,
        headers: make_page_headers(referer),
    }
}

} // verus!
