//! Typed assertions evaluated against one HTTP response.
//!
//! Evaluation never fails: an invalid regex or an unparsable JSON body
//! degrades to a failed assertion result carrying a diagnostic, never an
//! error.

use vstd::prelude::*;
use crate::json::{self, JsonValue, JsonType, Jv};
use crate::response::{HttpResponse, RespV, header_lookup};
use crate::text;

verus! {

/// Whether `pattern` is a valid regular expression; a pure function of the
/// pattern.
pub uninterp spec fn regex_ok(pattern: Seq<char>) -> bool;

/// Whether a valid `pattern` matches anywhere in `hay`; a pure function of
/// pattern and text.
pub uninterp spec fn regex_match(pattern: Seq<char>, hay: Seq<char>) -> bool;

/// The compiler's diagnostic for an invalid pattern; a pure function of
/// the pattern.
pub uninterp spec fn regex_err(pattern: Seq<char>) -> Seq<char>;

/// Compiles `pattern` and tests it against `hay`.
///
/// Relies on `regex::Regex::new` and `regex::Regex::is_match`: whether the
/// pattern compiles, whether it matches, and the diagnostic all depend on
/// the pattern and the text alone.
#[verifier::external_body]
fn regex_is_match(pattern: &str, hay: &str) -> (r: Result<bool, String>)
    ensures
        r is Ok == regex_ok(pattern@),
        r matches Ok(b) ==> b == regex_match(pattern@, hay@),
        r matches Err(e) ==> e@ == regex_err(pattern@),
{
    match regex::Regex::new(pattern) {
        Ok(re) => Ok(re.is_match(hay)),
        Err(e) => Err(e.to_string()),
    }
}

/// One typed, pass/fail check against a single response.
#[derive(Debug)]
pub enum Assertion {
    /// The status code equals the expected one.
    StatusCode(u16),
    /// The status code lies in an inclusive range.
    StatusRange { min: u16, max: u16 },
    /// A header with this name is present (name compared case-insensitively).
    HeaderExists(String),
    /// The named header holds exactly this value.
    HeaderValue { name: String, expected: String },
    /// The body contains this text.
    BodyContains(String),
    /// The body matches this regular expression.
    BodyRegex(String),
    /// The body, read as JSON, holds this value under a dotted key path.
    JsonPath { path: String, expected: JsonValue },
    /// The body, read as JSON, holds a value of this type under a path.
    JsonType { path: String, expected_type: JsonType },
    /// The exchange took at most this many milliseconds.
    ResponseTime { max_ms: u64 },
    /// The body's size in bytes lies in an inclusive range.
    ResponseSize { min: usize, max: usize },
}

/// The mathematical shape of an assertion.
pub enum AsrtV {
    StatusCode(u16),
    StatusRange { min: u16, max: u16 },
    HeaderExists(Seq<char>),
    HeaderValue { name: Seq<char>, expected: Seq<char> },
    BodyContains(Seq<char>),
    BodyRegex(Seq<char>),
    JsonPath { path: Seq<char>, expected: Jv },
    JsonType { path: Seq<char>, expected_type: JsonType },
    ResponseTime { max_ms: u64 },
    ResponseSize { min: usize, max: usize },
}

impl Assertion {
    /// A copy of this assertion.
    pub fn duplicate(&self) -> (r: Assertion)
        ensures
            r@ == self@,
    {
        match self {
            Assertion::StatusCode(e) => Assertion::StatusCode(*e),
            Assertion::StatusRange { min, max } => Assertion::StatusRange { min: *min, max: *max },
            Assertion::HeaderExists(n) => Assertion::HeaderExists(n.clone()),
            Assertion::HeaderValue { name, expected } => Assertion::HeaderValue {
                name: name.clone(),
                expected: expected.clone(),
            },
            Assertion::BodyContains(t) => Assertion::BodyContains(t.clone()),
            Assertion::BodyRegex(p) => Assertion::BodyRegex(p.clone()),
            Assertion::JsonPath { path, expected } => Assertion::JsonPath {
                path: path.clone(),
                expected: expected.duplicate(),
            },
            Assertion::JsonType { path, expected_type } => Assertion::JsonType {
                path: path.clone(),
                expected_type: *expected_type,
            },
            Assertion::ResponseTime { max_ms } => Assertion::ResponseTime { max_ms: *max_ms },
            Assertion::ResponseSize { min, max } => Assertion::ResponseSize {
                min: *min,
                max: *max,
            },
        }
    }
}

impl View for Assertion {
    type V = AsrtV;

    open spec fn view(&self) -> AsrtV {
        match self {
            Assertion::StatusCode(e) => AsrtV::StatusCode(*e),
            Assertion::StatusRange { min, max } => AsrtV::StatusRange { min: *min, max: *max },
            Assertion::HeaderExists(n) => AsrtV::HeaderExists(n@),
            Assertion::HeaderValue { name, expected } => AsrtV::HeaderValue {
                name: name@,
                expected: expected@,
            },
            Assertion::BodyContains(t) => AsrtV::BodyContains(t@),
            Assertion::BodyRegex(p) => AsrtV::BodyRegex(p@),
            Assertion::JsonPath { path, expected } => AsrtV::JsonPath {
                path: path@,
                expected: expected@,
            },
            Assertion::JsonType { path, expected_type } => AsrtV::JsonType {
                path: path@,
                expected_type: *expected_type,
            },
            Assertion::ResponseTime { max_ms } => AsrtV::ResponseTime { max_ms: *max_ms },
            Assertion::ResponseSize { min, max } => AsrtV::ResponseSize { min: *min, max: *max },
        }
    }
}

/// The byte length of a body, as the platform reports it.
pub open spec fn body_size(body: Seq<char>) -> int {
    vstd::utf8::encode_utf8(body).len() as usize as int
}

/// Whether an assertion holds of a response.
pub open spec fn asrt_passes(resp: RespV, a: AsrtV) -> bool {
    match a {
        AsrtV::StatusCode(e) => resp.status == e,
        AsrtV::StatusRange { min, max } => min <= resp.status <= max,
        AsrtV::HeaderExists(n) => header_lookup(resp.headers, n) is Some,
        AsrtV::HeaderValue { name, expected } => header_lookup(resp.headers, name) == Some(
            expected,
        ),
        AsrtV::BodyContains(t) => text::contains_sub(resp.body, t),
        AsrtV::BodyRegex(p) => regex_ok(p) && regex_match(p, resp.body),
        AsrtV::JsonPath { path, expected } => json::json_doc(resp.body) matches Some(doc) && (
        json::get_path_spec(doc, text::split_spec(path, '.')) matches Some(v) && v@ == expected),
        AsrtV::JsonType { path, expected_type } => json::json_doc(resp.body) matches Some(doc)
            && (json::get_path_spec(doc, text::split_spec(path, '.')) matches Some(v)
            && json::jv_type_of(v@) == expected_type),
        AsrtV::ResponseTime { max_ms } => resp.duration_ms <= max_ms,
        AsrtV::ResponseSize { min, max } => min <= body_size(resp.body) <= max,
    }
}

/// The short kind name an assertion result reports.
pub open spec fn kind_name(a: AsrtV) -> Seq<char> {
    match a {
        AsrtV::StatusCode(_) => "status_code"@,
        AsrtV::StatusRange { .. } => "status_range"@,
        AsrtV::HeaderExists(_) => "header_exists"@,
        AsrtV::HeaderValue { .. } => "header_value"@,
        AsrtV::BodyContains(_) => "body_contains"@,
        AsrtV::BodyRegex(_) => "body_regex"@,
        AsrtV::JsonPath { .. } => "json_path"@,
        AsrtV::JsonType { .. } => "json_type"@,
        AsrtV::ResponseTime { .. } => "response_time"@,
        AsrtV::ResponseSize { .. } => "response_size"@,
    }
}

/// The `expected` text an evaluated assertion reports.
pub open spec fn expected_text(resp: RespV, a: AsrtV) -> Seq<char> {
    match a {
        AsrtV::StatusCode(e) => text::dec_str(e as int),
        AsrtV::StatusRange { min, max } => text::dec_str(min as int) + seq!['-'] + text::dec_str(
            max as int,
        ),
        AsrtV::HeaderExists(n) => n,
        AsrtV::HeaderValue { expected, .. } => expected,
        AsrtV::BodyContains(t) => t,
        AsrtV::BodyRegex(p) => p,
        AsrtV::JsonPath { path, expected } => if json::json_doc(resp.body) is Some {
            path + ": "@ + json::jv_text(expected)
        } else {
            path
        },
        AsrtV::JsonType { path, expected_type } => if json::json_doc(resp.body) is Some {
            expected_type.spec_name()
        } else {
            path
        },
        AsrtV::ResponseTime { max_ms } => text::dec_str(max_ms as int) + "ms"@,
        AsrtV::ResponseSize { min, max } => text::dec_str(min as int) + seq!['-'] + text::dec_str(
            max as int,
        ) + " bytes"@,
    }
}

/// The `actual` text an evaluated assertion reports.
pub open spec fn actual_text(resp: RespV, a: AsrtV) -> Seq<char> {
    match a {
        AsrtV::StatusCode(_) => text::dec_str(resp.status as int),
        AsrtV::StatusRange { .. } => text::dec_str(resp.status as int),
        AsrtV::HeaderExists(n) => if header_lookup(resp.headers, n) is Some {
            "found"@
        } else {
            "not found"@
        },
        AsrtV::HeaderValue { name, .. } => match header_lookup(resp.headers, name) {
            Some(v) => v,
            None => "header not found"@,
        },
        AsrtV::BodyContains(t) => if text::contains_sub(resp.body, t) {
            "found"@
        } else {
            "not found"@
        },
        AsrtV::BodyRegex(p) => if regex_ok(p) {
            if regex_match(p, resp.body) {
                "matched"@
            } else {
                "no match"@
            }
        } else {
            "regex error: "@ + regex_err(p)
        },
        AsrtV::JsonPath { path, .. } => match json::json_doc(resp.body) {
            Some(doc) => match json::get_path_spec(doc, text::split_spec(path, '.')) {
                Some(v) => json::jv_text(v@),
                None => "path not found"@,
            },
            None => "json parse error: "@ + json::json_err(resp.body),
        },
        AsrtV::JsonType { path, .. } => match json::json_doc(resp.body) {
            Some(doc) => match json::get_path_spec(doc, text::split_spec(path, '.')) {
                Some(v) => json::jv_type_of(v@).spec_name(),
                None => "path not found"@,
            },
            None => "json parse error: "@ + json::json_err(resp.body),
        },
        AsrtV::ResponseTime { .. } => text::dec_str(resp.duration_ms as int) + "ms"@,
        AsrtV::ResponseSize { .. } => text::dec_str(body_size(resp.body)) + " bytes"@,
    }
}

/// The remediation hint for a failed assertion, chosen by its kind name.
pub open spec fn suggestion_for(kind: Seq<char>) -> Seq<char> {
    if text::contains_sub(kind, "status"@) {
        "Check that the endpoint is responding with the correct status code"@
    } else if text::contains_sub(kind, "header"@) {
        "Verify the header is present in the response"@
    } else if text::contains_sub(kind, "body"@) {
        "Ensure the response body contains the expected content"@
    } else if text::contains_sub(kind, "json"@) {
        "Validate the JSON structure and values"@
    } else if text::contains_sub(kind, "time"@) {
        "Check server performance or network latency"@
    } else if text::contains_sub(kind, "size"@) {
        "Verify the response size is within expected bounds"@
    } else {
        "Check the assertion criteria"@
    }
}

/// One evaluated assertion: verdict, what was expected, what was seen, a
/// message, and a hint when it failed.
#[derive(Debug)]
pub struct AssertionResult {
    pub passed: bool,
    pub assertion: String,
    pub expected: String,
    pub actual: String,
    pub message: String,
    pub suggestion: Option<String>,
}

/// The mathematical shape of an evaluated assertion.
#[verifier::ext_equal]
pub struct AresV {
    pub passed: bool,
    pub assertion: Seq<char>,
    pub expected: Seq<char>,
    pub actual: Seq<char>,
    pub message: Seq<char>,
    pub suggestion: Option<Seq<char>>,
}

impl View for AssertionResult {
    type V = AresV;

    open spec fn view(&self) -> AresV {
        AresV {
            passed: self.passed,
            assertion: self.assertion@,
            expected: self.expected@,
            actual: self.actual@,
            message: self.message@,
            suggestion: match self.suggestion {
                Some(s) => Some(s@),
                None => None,
            },
        }
    }
}

impl AssertionResult {
    /// Packs an evaluation's parts; a failed result gets a hint chosen by
    /// the assertion's kind name.
    pub fn new(passed: bool, assertion: String, expected: String, actual: String, message: String)
        -> (r: AssertionResult)
        ensures
            r.passed == passed,
            r.assertion@ == assertion@,
            r.expected@ == expected@,
            r.actual@ == actual@,
            r.message@ == message@,
            if passed {
                r.suggestion is None
            } else {
                r.suggestion matches Some(s) && s@ == suggestion_for(assertion@)
            },
    {
        let suggestion = if !passed {
            Some(Self::generate_suggestion(assertion.as_str()))
        } else {
            None
        };
        AssertionResult { passed, assertion, expected, actual, message, suggestion }
    }

    fn generate_suggestion(assertion: &str) -> (r: String)
        ensures
            r@ == suggestion_for(assertion@),
    {
        if text::contains_str(assertion, "status") {
            String::from_str("Check that the endpoint is responding with the correct status code")
        } else if text::contains_str(assertion, "header") {
            String::from_str("Verify the header is present in the response")
        } else if text::contains_str(assertion, "body") {
            String::from_str("Ensure the response body contains the expected content")
        } else if text::contains_str(assertion, "json") {
            String::from_str("Validate the JSON structure and values")
        } else if text::contains_str(assertion, "time") {
            String::from_str("Check server performance or network latency")
        } else if text::contains_str(assertion, "size") {
            String::from_str("Verify the response size is within expected bounds")
        } else {
            String::from_str("Check the assertion criteria")
        }
    }

    /// Renders a failed result for human reading.
    pub fn format_failure(&self) -> (r: String)
        ensures
            r@ == "FAILED: "@ + self.message@ + "\nExpected: "@ + self.expected@ + "\nActual: "@
                + self.actual@ + (match self.suggestion {
                Some(s) => "\nSuggestion: "@ + s@,
                None => Seq::<char>::empty(),
            }),
    {
        let mut out = String::from_str("FAILED: ");
        out.append(self.message.as_str());
        out.append("\nExpected: ");
        out.append(self.expected.as_str());
        out.append("\nActual: ");
        out.append(self.actual.as_str());
        match &self.suggestion {
            Some(s) => {
                out.append("\nSuggestion: ");
                out.append(s.as_str());
            },
            None => {},
        }
        out
    }
}

/// Appends a `u64` in decimal to `out`.
fn push_num(out: &mut String, n: u64)
    ensures
        final(out)@ == old(out)@ + text::dec_str(n as int),
{
    text::push_u64(out, n);
}

/// Evaluates one assertion against one response.
///
/// The verdict is exactly `asrt_passes`; the reported kind, expected and
/// actual fields follow the assertion's shape.
pub fn assert_response(response: &HttpResponse, assertion: &Assertion) -> (r: AssertionResult)
    ensures
        r.passed == asrt_passes(response@, assertion@),
        r.assertion@ == kind_name(assertion@),
        r.expected@ == expected_text(response@, assertion@),
        r.actual@ == actual_text(response@, assertion@),
        if r.passed {
            r.suggestion is None
        } else {
            r.suggestion matches Some(s) && s@ == suggestion_for(kind_name(assertion@))
        },
{
    match assertion {
        Assertion::StatusCode(expected) => assert_status_code(response, *expected),
        Assertion::StatusRange { min, max } => assert_status_range(response, *min, *max),
        Assertion::HeaderExists(name) => assert_header_exists(response, name.as_str()),
        Assertion::HeaderValue { name, expected } => assert_header_value(
            response,
            name.as_str(),
            expected.as_str(),
        ),
        Assertion::BodyContains(t) => assert_body_contains(response, t.as_str()),
        Assertion::BodyRegex(p) => assert_body_regex(response, p.as_str()),
        Assertion::JsonPath { path, expected } => assert_json_path(
            response,
            path.as_str(),
            expected,
        ),
        Assertion::JsonType { path, expected_type } => assert_json_type(
            response,
            path.as_str(),
            *expected_type,
        ),
        Assertion::ResponseTime { max_ms } => assert_response_time(response, *max_ms),
        Assertion::ResponseSize { min, max } => assert_response_size(response, *min, *max),
    }
}

fn assert_status_code(response: &HttpResponse, expected: u16) -> (r: AssertionResult)
    ensures
        r.passed == asrt_passes(response@, AsrtV::StatusCode(expected)),
        r.assertion@ == "status_code"@,
        r.expected@ == text::dec_str(expected as int),
        r.actual@ == text::dec_str(response@.status as int),
        if r.passed {
            r.suggestion is None
        } else {
            r.suggestion matches Some(s) && s@ == suggestion_for("status_code"@)
        },
{
    let actual = response.status;
    let passed = actual == expected;
    let mut message = String::from_str("Status code assertion failed: expected ");
    push_num(&mut message, expected as u64);
    message.append(", got ");
    push_num(&mut message, actual as u64);
    AssertionResult::new(
        passed,
        String::from_str("status_code"),
        text::u64_to_string(expected as u64),
        text::u64_to_string(actual as u64),
        message,
    )
}

fn assert_status_range(response: &HttpResponse, min: u16, max: u16) -> (r: AssertionResult)
    ensures
        r.passed == asrt_passes(response@, AsrtV::StatusRange { min, max }),
        r.assertion@ == "status_range"@,
        r.expected@ == text::dec_str(min as int) + seq!['-'] + text::dec_str(max as int),
        r.actual@ == text::dec_str(response@.status as int),
        if r.passed {
            r.suggestion is None
        } else {
            r.suggestion matches Some(s) && s@ == suggestion_for("status_range"@)
        },
{
    let actual = response.status;
    let passed = actual >= min && actual <= max;
    let mut range = String::new();
    push_num(&mut range, min as u64);
    text::push_char(&mut range, '-');
    push_num(&mut range, max as u64);
    let mut message = String::from_str("Status code range assertion failed: expected ");
    message.append(range.as_str());
    message.append(", got ");
    push_num(&mut message, actual as u64);
    proof {
        assert(range@ =~= text::dec_str(min as int) + seq!['-'] + text::dec_str(max as int));
    }
    AssertionResult::new(
        passed,
        String::from_str("status_range"),
        range,
        text::u64_to_string(actual as u64),
        message,
    )
}

fn assert_header_exists(response: &HttpResponse, name: &str) -> (r: AssertionResult)
    ensures
        r.passed == asrt_passes(response@, AsrtV::HeaderExists(name@)),
        r.assertion@ == "header_exists"@,
        r.expected@ == name@,
        r.actual@ == (if r.passed {
            "found"@
        } else {
            "not found"@
        }),
        if r.passed {
            r.suggestion is None
        } else {
            r.suggestion matches Some(s) && s@ == suggestion_for("header_exists"@)
        },
{
    let exists = match response.header(name) {
        Some(_) => true,
        None => false,
    };
    let actual = if exists {
        String::from_str("found")
    } else {
        String::from_str("not found")
    };
    let mut message = String::from_str("Header '");
    message.append(name);
    message.append("' not found in response");
    AssertionResult::new(
        exists,
        String::from_str("header_exists"),
        String::from_str(name),
        actual,
        message,
    )
}

fn assert_header_value(response: &HttpResponse, name: &str, expected: &str) -> (r:
    AssertionResult)
    ensures
        r.passed == asrt_passes(
            response@,
            AsrtV::HeaderValue { name: name@, expected: expected@ },
        ),
        r.assertion@ == "header_value"@,
        r.expected@ == expected@,
        r.actual@ == (match header_lookup(response@.headers, name@) {
            Some(v) => v,
            None => "header not found"@,
        }),
        if r.passed {
            r.suggestion is None
        } else {
            r.suggestion matches Some(s) && s@ == suggestion_for("header_value"@)
        },
{
    let (actual, passed): (String, bool) = match response.header(name) {
        Some(v) => (String::from_str(v), text::str_eq(v, expected)),
        None => (String::from_str("header not found"), false),
    };
    let mut message = String::from_str("Header '");
    message.append(name);
    message.append("' value mismatch: expected '");
    message.append(expected);
    message.append("', got '");
    message.append(actual.as_str());
    message.append("'");
    AssertionResult::new(
        passed,
        String::from_str("header_value"),
        String::from_str(expected),
        actual,
        message,
    )
}

fn assert_body_contains(response: &HttpResponse, t: &str) -> (r: AssertionResult)
    ensures
        r.passed == asrt_passes(response@, AsrtV::BodyContains(t@)),
        r.assertion@ == "body_contains"@,
        r.expected@ == t@,
        r.actual@ == (if r.passed {
            "found"@
        } else {
            "not found"@
        }),
        if r.passed {
            r.suggestion is None
        } else {
            r.suggestion matches Some(s) && s@ == suggestion_for("body_contains"@)
        },
{
    let passed = text::contains_str(response.body.as_str(), t);
    let actual = if passed {
        String::from_str("found")
    } else {
        String::from_str("not found")
    };
    let mut message = String::from_str("Response body does not contain: '");
    message.append(t);
    message.append("'");
    AssertionResult::new(passed, String::from_str("body_contains"), String::from_str(t), actual, message)
}

fn assert_body_regex(response: &HttpResponse, pattern: &str) -> (r: AssertionResult)
    ensures
        r.passed == asrt_passes(response@, AsrtV::BodyRegex(pattern@)),
        r.assertion@ == "body_regex"@,
        r.expected@ == pattern@,
        r.actual@ == (if regex_ok(pattern@) {
            if r.passed {
                "matched"@
            } else {
                "no match"@
            }
        } else {
            "regex error: "@ + regex_err(pattern@)
        }),
        if r.passed {
            r.suggestion is None
        } else {
            r.suggestion matches Some(s) && s@ == suggestion_for("body_regex"@)
        },
{
    match regex_is_match(pattern, response.body.as_str()) {
        Ok(passed) => {
            let actual = if passed {
                String::from_str("matched")
            } else {
                String::from_str("no match")
            };
            let mut message = String::from_str("Response body does not match regex: '");
            message.append(pattern);
            message.append("'");
            AssertionResult::new(
                passed,
                String::from_str("body_regex"),
                String::from_str(pattern),
                actual,
                message,
            )
        },
        Err(e) => {
            let mut actual = String::from_str("regex error: ");
            actual.append(e.as_str());
            let mut message = String::from_str("Invalid regex pattern: '");
            message.append(pattern);
            message.append("'");
            AssertionResult::new(
                false,
                String::from_str("body_regex"),
                String::from_str(pattern),
                actual,
                message,
            )
        },
    }
}

fn assert_json_path(response: &HttpResponse, path: &str, expected: &JsonValue) -> (r:
    AssertionResult)
    ensures
        r.passed == asrt_passes(response@, AsrtV::JsonPath { path: path@, expected: expected@ }),
        r.assertion@ == "json_path"@,
        r.expected@ == expected_text(
            response@,
            AsrtV::JsonPath { path: path@, expected: expected@ },
        ),
        r.actual@ == actual_text(response@, AsrtV::JsonPath { path: path@, expected: expected@ }),
        if r.passed {
            r.suggestion is None
        } else {
            r.suggestion matches Some(s) && s@ == suggestion_for("json_path"@)
        },
{
    match json::parse_json(response.body.as_str()) {
        Ok(doc) => {
            let found = json::get_json_value(&doc, path);
            let (passed, actual): (bool, String) = match &found {
                Some(v) => (v.deep_eq(expected), json::to_json_text(v)),
                None => (false, String::from_str("path not found")),
            };
            let mut exp = String::from_str(path);
            exp.append(": ");
            let exp_text = json::to_json_text(expected);
            exp.append(exp_text.as_str());
            proof {
                assert(exp@ =~= path@ + ": "@ + json::jv_text(expected@));
            }
            let mut message = String::from_str("JSON path '");
            message.append(path);
            message.append("' value mismatch");
            AssertionResult::new(passed, String::from_str("json_path"), exp, actual, message)
        },
        Err(e) => {
            let mut actual = String::from_str("json parse error: ");
            actual.append(e.as_str());
            let mut message = String::from_str("Response body is not valid JSON: ");
            message.append(e.as_str());
            AssertionResult::new(
                false,
                String::from_str("json_path"),
                String::from_str(path),
                actual,
                message,
            )
        },
    }
}

fn assert_json_type(response: &HttpResponse, path: &str, expected_type: JsonType) -> (r:
    AssertionResult)
    ensures
        r.passed == asrt_passes(
            response@,
            AsrtV::JsonType { path: path@, expected_type },
        ),
        r.assertion@ == "json_type"@,
        r.expected@ == expected_text(response@, AsrtV::JsonType { path: path@, expected_type }),
        r.actual@ == actual_text(response@, AsrtV::JsonType { path: path@, expected_type }),
        if r.passed {
            r.suggestion is None
        } else {
            r.suggestion matches Some(s) && s@ == suggestion_for("json_type"@)
        },
{
    match json::parse_json(response.body.as_str()) {
        Ok(doc) => {
            let found = json::get_json_value(&doc, path);
            let (passed, actual): (bool, String) = match &found {
                Some(v) => {
                    let t = json::determine_json_type(v);
                    proof {
                        json::lemma_type_of_view(*v);
                    }
                    (t == expected_type, t.name_text())
                },
                None => (false, String::from_str("path not found")),
            };
            let mut message = String::from_str("JSON path '");
            message.append(path);
            message.append("' type mismatch");
            AssertionResult::new(
                passed,
                String::from_str("json_type"),
                expected_type.name_text(),
                actual,
                message,
            )
        },
        Err(e) => {
            let mut actual = String::from_str("json parse error: ");
            actual.append(e.as_str());
            let mut message = String::from_str("Response body is not valid JSON: ");
            message.append(e.as_str());
            AssertionResult::new(
                false,
                String::from_str("json_type"),
                String::from_str(path),
                actual,
                message,
            )
        },
    }
}

fn assert_response_time(response: &HttpResponse, max_ms: u64) -> (r: AssertionResult)
    ensures
        r.passed == asrt_passes(response@, AsrtV::ResponseTime { max_ms }),
        r.assertion@ == "response_time"@,
        r.expected@ == text::dec_str(max_ms as int) + "ms"@,
        r.actual@ == text::dec_str(response@.duration_ms as int) + "ms"@,
        if r.passed {
            r.suggestion is None
        } else {
            r.suggestion matches Some(s) && s@ == suggestion_for("response_time"@)
        },
{
    let actual_ms = response.duration_ms;
    let passed = actual_ms <= max_ms;
    let mut exp = String::new();
    push_num(&mut exp, max_ms);
    exp.append("ms");
    let mut act = String::new();
    push_num(&mut act, actual_ms);
    act.append("ms");
    let mut message = String::from_str("Response time exceeded: expected <= ");
    push_num(&mut message, max_ms);
    message.append("ms, got ");
    push_num(&mut message, actual_ms);
    message.append("ms");
    proof {
        assert(exp@ =~= text::dec_str(max_ms as int) + "ms"@);
        assert(act@ =~= text::dec_str(response@.duration_ms as int) + "ms"@);
    }
    AssertionResult::new(passed, String::from_str("response_time"), exp, act, message)
}

fn assert_response_size(response: &HttpResponse, min: usize, max: usize) -> (r: AssertionResult)
    ensures
        r.passed == asrt_passes(response@, AsrtV::ResponseSize { min, max }),
        r.assertion@ == "response_size"@,
        r.expected@ == text::dec_str(min as int) + seq!['-'] + text::dec_str(max as int)
            + " bytes"@,
        r.actual@ == text::dec_str(body_size(response@.body)) + " bytes"@,
        if r.passed {
            r.suggestion is None
        } else {
            r.suggestion matches Some(s) && s@ == suggestion_for("response_size"@)
        },
{
    let actual_size = response.body.as_str().len();
    let passed = actual_size >= min && actual_size <= max;
    let mut exp = String::new();
    push_num(&mut exp, min as u64);
    text::push_char(&mut exp, '-');
    push_num(&mut exp, max as u64);
    exp.append(" bytes");
    let mut act = String::new();
    push_num(&mut act, actual_size as u64);
    act.append(" bytes");
    let mut message = String::from_str("Response size out of range: expected ");
    push_num(&mut message, min as u64);
    text::push_char(&mut message, '-');
    push_num(&mut message, max as u64);
    message.append(" bytes, got ");
    push_num(&mut message, actual_size as u64);
    proof {
        assert(exp@ =~= text::dec_str(min as int) + seq!['-'] + text::dec_str(max as int)
            + " bytes"@);
        assert(act@ =~= text::dec_str(body_size(response@.body)) + " bytes"@);
    }
    AssertionResult::new(passed, String::from_str("response_size"), exp, act, message)
}

} // verus!
