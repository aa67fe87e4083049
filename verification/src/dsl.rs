//! The line-oriented test definition language and its parser.
//!
//! A file is a sequence of `@test` blocks; each block names a test, gives
//! one request line, and any number of assertion and tag directives.
//! Parsing is fail-fast: the first structural error aborts the whole parse.

use vstd::prelude::*;
use crate::assertions::{Assertion, AsrtV};
use crate::json::{JsonValue, Jv};
use crate::suite::{TcV, TestCase, TestRequest, TreqV};
use crate::text;

verus! {

/// Where and why a parse failed.
#[derive(Debug)]
pub struct ParseError {
    pub line: usize,
    pub message: String,
    pub context: String,
}

/// The mathematical shape of a parse error.
#[verifier::ext_equal]
pub struct PeV {
    pub line: int,
    pub message: Seq<char>,
    pub context: Seq<char>,
}

impl View for ParseError {
    type V = PeV;

    open spec fn view(&self) -> PeV {
        PeV { line: self.line as int, message: self.message@, context: self.context@ }
    }
}

impl ParseError {
    /// Renders the error with its line number and context.
    pub fn describe(&self) -> (r: String)
        ensures
            r@ == "Parse error at line "@ + text::dec_str(self.line as int) + ": "@
                + self.message@ + "\nContext: "@ + self.context@,
    {
        let mut out = String::from_str("Parse error at line ");
        text::push_u64(&mut out, self.line as u64);
        out.append(": ");
        out.append(self.message.as_str());
        out.append("\nContext: ");
        out.append(self.context.as_str());
        out
    }
}

/// A test case in the making: what the directives seen so far have set.
#[verifier::ext_equal]
pub struct BState {
    pub name: Seq<char>,
    pub method: Option<Seq<char>>,
    pub url: Option<Seq<char>>,
    pub assertions: Seq<AsrtV>,
    pub tags: Seq<Seq<char>>,
}

/// The parser's whole state: finished cases and the open builder, if any.
#[verifier::ext_equal]
pub struct PState {
    pub done: Seq<TcV>,
    pub cur: Option<BState>,
}

/// The default timeout a parsed case carries, in milliseconds.
pub open spec fn default_timeout_ms() -> u64 {
    30000
}

/// Finalizing a builder: both the method and the URL must have been set.
pub open spec fn build_case(b: BState) -> Result<TcV, PeV> {
    if b.method is None {
        Err(
            PeV {
                line: 0,
                message: "Test '"@ + b.name + "': HTTP method not specified"@,
                context: Seq::empty(),
            },
        )
    } else if b.url is None {
        Err(
            PeV {
                line: 0,
                message: "Test '"@ + b.name + "': URL not specified"@,
                context: Seq::empty(),
            },
        )
    } else {
        Ok(
            TcV {
                name: b.name,
                request: TreqV {
                    method: b.method->0,
                    url: b.url->0,
                    headers: Seq::empty(),
                    body: None,
                },
                assertions: b.assertions,
                tags: b.tags,
                timeout_ms: default_timeout_ms(),
            },
        )
    }
}

/// The value text of an `assert_json` directive, interpreted: `true`,
/// `false` and `null` literally, a double-quoted string with its quotes
/// stripped, an integer numeral as a number, anything else as raw text.
pub open spec fn json_directive_value(s: Seq<char>) -> Jv {
    if s == "true"@ {
        Jv::Bool(true)
    } else if s == "false"@ {
        Jv::Bool(false)
    } else if s == "null"@ {
        Jv::Null
    } else if s.len() >= 2 && s[0] == '"' && s[s.len() - 1] == '"' {
        Jv::Str(s.subrange(1, s.len() - 1))
    } else if text::i64_numeral(s) is Some {
        Jv::Int(text::i64_numeral(s)->0)
    } else {
        Jv::Str(s)
    }
}

/// The request-line methods the grammar recognises.
pub open spec fn dsl_method_prefix(t: Seq<char>) -> bool {
    ||| text::has_prefix(t, "GET"@)
    ||| text::has_prefix(t, "POST"@)
    ||| text::has_prefix(t, "PUT"@)
    ||| text::has_prefix(t, "DELETE"@)
    ||| text::has_prefix(t, "PATCH"@)
    ||| text::has_prefix(t, "HEAD"@)
}

/// The error for a directive found outside an open `@test` block.
pub open spec fn outside_err(lineno: int, line: Seq<char>, message: Seq<char>) -> PeV {
    PeV { line: lineno, message, context: line }
}

/// One line applied to the parser state.  `lineno` is 1-based.
pub open spec fn parse_line(st: PState, line: Seq<char>, lineno: int) -> Result<PState, PeV> {
    let t = text::trim_spec(line);
    if t.len() == 0 || t[0] == '#' {
        Ok(st)
    } else if text::has_prefix(t, "@test"@) {
        let flushed: Result<Seq<TcV>, PeV> = match st.cur {
            Some(b) => match build_case(b) {
                Ok(c) => Ok(st.done.push(c)),
                Err(e) => Err(e),
            },
            None => Ok(st.done),
        };
        match flushed {
            Err(e) => Err(e),
            Ok(done) => {
                let name = text::trim_spec(t.subrange(5, t.len() as int));
                if name.len() == 0 {
                    Err(outside_err(lineno, line, "Test name required"@))
                } else {
                    Ok(
                        PState {
                            done,
                            cur: Some(
                                BState {
                                    name,
                                    method: None,
                                    url: None,
                                    assertions: Seq::empty(),
                                    tags: Seq::empty(),
                                },
                            ),
                        },
                    )
                }
            },
        }
    } else if dsl_method_prefix(t) {
        match st.cur {
            None => Err(
                outside_err(lineno, line, "Request must be inside a @test section"@),
            ),
            Some(b) => {
                let k = text::index_of(t, ' ');
                if k < 0 {
                    Err(outside_err(lineno, line, "URL required for request"@))
                } else {
                    Ok(
                        PState {
                            done: st.done,
                            cur: Some(
                                BState {
                                    method: Some(t.subrange(0, k)),
                                    url: Some(
                                        text::trim_spec(t.subrange(k + 1, t.len() as int)),
                                    ),
                                    ..b
                                },
                            ),
                        },
                    )
                }
            },
        }
    } else if text::has_prefix(t, "assert_status:"@) {
        match st.cur {
            None => Err(
                outside_err(lineno, line, "Directive must be inside a @test section"@),
            ),
            Some(b) => {
                let s = text::trim_spec(t.subrange(14, t.len() as int));
                if s.len() > 0 && text::all_digits(s) && text::dec_val(s) <= u16::MAX {
                    Ok(
                        PState {
                            done: st.done,
                            cur: Some(
                                BState {
                                    assertions: b.assertions.push(
                                        AsrtV::StatusCode(text::dec_val(s) as u16),
                                    ),
                                    ..b
                                },
                            ),
                        },
                    )
                } else {
                    Err(outside_err(lineno, line, "Invalid status code: "@ + s))
                }
            },
        }
    } else if text::has_prefix(t, "assert_header:"@) {
        match st.cur {
            None => Err(
                outside_err(lineno, line, "Directive must be inside a @test section"@),
            ),
            Some(b) => {
                let s = text::trim_spec(t.subrange(14, t.len() as int));
                let k = text::index_of(s, '=');
                let a: AsrtV = if k >= 0 {
                    AsrtV::HeaderValue {
                        name: text::trim_spec(s.subrange(0, k)),
                        expected: text::trim_spec(s.subrange(k + 1, s.len() as int)),
                    }
                } else {
                    AsrtV::HeaderExists(s)
                };
                Ok(
                    PState {
                        done: st.done,
                        cur: Some(BState { assertions: b.assertions.push(a), ..b }),
                    },
                )
            },
        }
    } else if text::has_prefix(t, "assert_body:"@) {
        match st.cur {
            None => Err(
                outside_err(lineno, line, "Directive must be inside a @test section"@),
            ),
            Some(b) => Ok(
                PState {
                    done: st.done,
                    cur: Some(
                        BState {
                            assertions: b.assertions.push(
                                AsrtV::BodyContains(
                                    text::trim_spec(t.subrange(12, t.len() as int)),
                                ),
                            ),
                            ..b
                        },
                    ),
                },
            ),
        }
    } else if text::has_prefix(t, "assert_regex:"@) {
        match st.cur {
            None => Err(
                outside_err(lineno, line, "Directive must be inside a @test section"@),
            ),
            Some(b) => Ok(
                PState {
                    done: st.done,
                    cur: Some(
                        BState {
                            assertions: b.assertions.push(
                                AsrtV::BodyRegex(
                                    text::trim_spec(t.subrange(13, t.len() as int)),
                                ),
                            ),
                            ..b
                        },
                    ),
                },
            ),
        }
    } else if text::has_prefix(t, "assert_json:"@) {
        match st.cur {
            None => Err(
                outside_err(lineno, line, "Directive must be inside a @test section"@),
            ),
            Some(b) => {
                let s = text::trim_spec(t.subrange(12, t.len() as int));
                let k = text::index_of(s, '=');
                if k >= 0 {
                    let path = text::trim_spec(s.subrange(0, k));
                    let value = json_directive_value(
                        text::trim_spec(s.subrange(k + 1, s.len() as int)),
                    );
                    Ok(
                        PState {
                            done: st.done,
                            cur: Some(
                                BState {
                                    assertions: b.assertions.push(
                                        AsrtV::JsonPath { path, expected: value },
                                    ),
                                    ..b
                                },
                            ),
                        },
                    )
                } else {
                    Ok(st)
                }
            },
        }
    } else if text::has_prefix(t, "assert_time:"@) {
        match st.cur {
            None => Err(
                outside_err(lineno, line, "Directive must be inside a @test section"@),
            ),
            Some(b) => {
                let s = text::trim_spec(t.subrange(12, t.len() as int));
                if s.len() > 0 && text::all_digits(s) && text::dec_val(s) <= u64::MAX {
                    Ok(
                        PState {
                            done: st.done,
                            cur: Some(
                                BState {
                                    assertions: b.assertions.push(
                                        AsrtV::ResponseTime {
                                            max_ms: text::dec_val(s) as u64,
                                        },
                                    ),
                                    ..b
                                },
                            ),
                        },
                    )
                } else {
                    Err(outside_err(lineno, line, "Invalid time value: "@ + s))
                }
            },
        }
    } else if text::has_prefix(t, "@tag:"@) {
        match st.cur {
            None => Err(
                outside_err(lineno, line, "Directive must be inside a @test section"@),
            ),
            Some(b) => Ok(
                PState {
                    done: st.done,
                    cur: Some(
                        BState {
                            tags: b.tags.push(text::trim_spec(t.subrange(5, t.len() as int))),
                            ..b
                        },
                    ),
                },
            ),
        }
    } else {
        Ok(st)
    }
}

/// The state after the first `upto` lines.
pub open spec fn run_lines(lines: Seq<Seq<char>>, upto: int) -> Result<PState, PeV>
    decreases upto,
{
    if upto <= 0 {
        Ok(PState { done: Seq::empty(), cur: None })
    } else {
        match run_lines(lines, upto - 1) {
            Ok(st) => parse_line(st, lines[upto - 1], upto),
            Err(e) => Err(e),
        }
    }
}

/// The whole parse: every line in order, then the open builder, if any,
/// finalized.
pub open spec fn parse_spec(lines: Seq<Seq<char>>) -> Result<Seq<TcV>, PeV> {
    match run_lines(lines, lines.len() as int) {
        Err(e) => Err(e),
        Ok(st) => match st.cur {
            None => Ok(st.done),
            Some(b) => match build_case(b) {
                Ok(c) => Ok(st.done.push(c)),
                Err(e) => Err(e),
            },
        },
    }
}

/// A test case under construction.
struct TestCaseBuilder {
    name: String,
    method: Option<String>,
    url: Option<String>,
    assertions: Vec<Assertion>,
    tags: Vec<String>,
}

impl View for TestCaseBuilder {
    type V = BState;

    closed spec fn view(&self) -> BState {
        BState {
            name: self.name@,
            method: match self.method {
                Some(m) => Some(m@),
                None => None,
            },
            url: match self.url {
                Some(u) => Some(u@),
                None => None,
            },
            assertions: self.assertions@.map_values(|a: Assertion| a@),
            tags: self.tags@.map_values(|t: String| t@),
        }
    }
}

impl TestCaseBuilder {
    fn new(name: String) -> (r: TestCaseBuilder)
        ensures
            r@ == (BState {
                name: name@,
                method: None,
                url: None,
                assertions: Seq::empty(),
                tags: Seq::empty(),
            }),
    {
        let r = TestCaseBuilder {
            name,
            method: None,
            url: None,
            assertions: Vec::new(),
            tags: Vec::new(),
        };
        proof {
            assert(r@ =~= (BState {
                name: r.name@,
                method: None,
                url: None,
                assertions: Seq::empty(),
                tags: Seq::empty(),
            }));
        }
        r
    }

    fn add_assertion(&mut self, a: Assertion)
        ensures
            final(self)@ == (BState { assertions: old(self)@.assertions.push(a@), ..old(self)@ }),
    {
        let ghost before = self@.assertions;
        self.assertions.push(a);
        proof {
            assert(self@.assertions =~= before.push(self.assertions@.last()@));
            assert(self@ =~= (BState { assertions: before.push(self.assertions@.last()@), ..old(
                self,
            )@ }));
        }
    }

    fn add_tag(&mut self, tag: String)
        ensures
            final(self)@ == (BState { tags: old(self)@.tags.push(tag@), ..old(self)@ }),
    {
        let ghost before = self@.tags;
        self.tags.push(tag);
        proof {
            assert(self@.tags =~= before.push(self.tags@.last()@));
            assert(self@ =~= (BState { tags: before.push(self.tags@.last()@), ..old(self)@ }));
        }
    }

    fn build(self) -> (r: Result<TestCase, ParseError>)
        ensures
            match r {
                Ok(c) => build_case(self@) matches Ok(cv) && c@ == cv,
                Err(e) => build_case(self@) matches Err(pe) && e@ == pe,
            },
    {
        let method = match self.method {
            Some(m) => m,
            None => {
                let mut msg = String::from_str("Test '");
                msg.append(self.name.as_str());
                msg.append("': HTTP method not specified");
                return Err(ParseError { line: 0, message: msg, context: String::new() });
            },
        };
        let url = match self.url {
            Some(u) => u,
            None => {
                let mut msg = String::from_str("Test '");
                msg.append(self.name.as_str());
                msg.append("': URL not specified");
                return Err(ParseError { line: 0, message: msg, context: String::new() });
            },
        };
        let c = TestCase {
            name: self.name,
            request: TestRequest { method, url, headers: Vec::new(), body: None },
            assertions: self.assertions,
            tags: self.tags,
            timeout_ms: 30000,
        };
        proof {
            assert(c@.request.headers =~= Seq::<(Seq<char>, Seq<char>)>::empty());
            assert(build_case(self@) matches Ok(cv) && c@ =~= cv);
        }
        Ok(c)
    }
}

/// Interprets the value text of an `assert_json` directive.
fn classify_value(s: &str) -> (v: JsonValue)
    ensures
        v@ == json_directive_value(s@),
{
    if text::str_eq(s, "true") {
        JsonValue::Bool(true)
    } else if text::str_eq(s, "false") {
        JsonValue::Bool(false)
    } else if text::str_eq(s, "null") {
        JsonValue::Null
    } else {
        let n = s.unicode_len();
        if n >= 2 && s.get_char(0) == '"' && s.get_char(n - 1) == '"' {
            JsonValue::Str(String::from_str(s.substring_char(1, n - 1)))
        } else {
            match text::parse_i64(s) {
                Some(v) => JsonValue::Num(v),
                None => JsonValue::Str(String::from_str(s)),
            }
        }
    }
}

/// Parses the test definition language.
pub struct HmlParser {
    lines: Vec<String>,
}

impl View for HmlParser {
    type V = Seq<Seq<char>>;

    closed spec fn view(&self) -> Seq<Seq<char>> {
        self.lines@.map_values(|l: String| l@)
    }
}

impl HmlParser {
    /// A parser over the given text, split into lines at `\n`.
    pub fn new(content: &str) -> (r: HmlParser)
        ensures
            r@ == text::split_spec(content@, '\n'),
    {
        let lines = text::split_char(content, '\n');
        let r = HmlParser { lines };
        proof {
            assert(r@ =~= text::split_spec(content@, '\n'));
        }
        r
    }

    /// Parses the whole input into test cases, as `parse_spec` describes.
    #[verifier::loop_isolation(false)]
    pub fn parse(&self) -> (r: Result<Vec<TestCase>, ParseError>)
        ensures
            match r {
                Ok(cases) => parse_spec(self@) matches Ok(cs) && cases@.map_values(
                    |c: TestCase| c@,
                ) == cs,
                Err(e) => parse_spec(self@) matches Err(pe) && e@ == pe,
            },
    {
        let mut done: Vec<TestCase> = Vec::new();
        let mut cur: Option<TestCaseBuilder> = None;
        let n = self.lines.len();
        let mut i: usize = 0;
        proof {
            assert(run_lines(self@, 0) == Ok::<PState, PeV>(
                PState { done: Seq::empty(), cur: None },
            ));
            assert(done@.map_values(|c: TestCase| c@) =~= Seq::<TcV>::empty());
        }
        while i < n
            invariant
                0 <= i <= n,
                n == self@.len(),
                run_lines(self@, i as int) == Ok::<PState, PeV>(
                    PState {
                        done: done@.map_values(|c: TestCase| c@),
                        cur: match &cur {
                            Some(b) => Some(b@),
                            None => None,
                        },
                    },
                ),
            decreases n - i,
        {
            let ghost st0 = PState {
                done: done@.map_values(|c: TestCase| c@),
                cur: match &cur {
                    Some(b) => Some(b@),
                    None => None,
                },
            };
            let ghost lineno = i + 1;
            let line = &self.lines[i];
            let t = text::trim(line.as_str());
            let ts = t.as_str();
            let tn = ts.unicode_len();
            proof {
                assert(line@ == self@[i as int]);
                reveal_strlit("@test");
                reveal_strlit("GET");
                reveal_strlit("POST");
                reveal_strlit("PUT");
                reveal_strlit("DELETE");
                reveal_strlit("PATCH");
                reveal_strlit("HEAD");
                reveal_strlit("assert_status:");
                reveal_strlit("assert_header:");
                reveal_strlit("assert_body:");
                reveal_strlit("assert_regex:");
                reveal_strlit("assert_json:");
                reveal_strlit("assert_time:");
                reveal_strlit("@tag:");
                reveal_strlit("#");
            }
            if tn == 0 || ts.get_char(0) == '#' {
                i = i + 1;
                continue;
            }
            if text::starts_with(ts, "@test") {
                let taken = cur.take();
                match taken {
                    Some(b) => {
                        match b.build() {
                            Ok(c) => {
                                done.push(c);
                                proof {
                                    assert(done@.map_values(|c: TestCase| c@) =~= st0.done.push(
                                        done@.last()@,
                                    ));
                                }
                            },
                            Err(e) => {
                                proof {
                                    assert(run_lines(self@, lineno as int) matches Err(pe) && e@
                                        == pe);
                                    lemma_error_sticks(self@, lineno as int, n as int);
                                }
                                return Err(e);
                            },
                        }
                    },
                    None => {},
                }
                let name = text::trim(ts.substring_char(5, tn));
                if name.as_str().unicode_len() == 0 {
                    let e = ParseError {
                        line: i + 1,
                        message: String::from_str("Test name required"),
                        context: line.clone(),
                    };
                    proof {
                        assert(run_lines(self@, lineno as int) matches Err(pe) && e@ == pe);
                        lemma_error_sticks(self@, lineno as int, n as int);
                    }
                    return Err(e);
                }
                cur = Some(TestCaseBuilder::new(name));
            } else if text::starts_with(ts, "GET") || text::starts_with(ts, "POST")
                || text::starts_with(ts, "PUT") || text::starts_with(ts, "DELETE")
                || text::starts_with(ts, "PATCH") || text::starts_with(ts, "HEAD") {
                match &mut cur {
                    Some(b) => {
                        match text::find_char(ts, ' ', 0) {
                            Some(k) => {
                                proof {
                                    text::lemma_index_of_found(t@, ' ', k as int);
                                }
                                b.method = Some(String::from_str(ts.substring_char(0, k)));
                                b.url = Some(text::trim(ts.substring_char(k + 1, tn)));
                            },
                            None => {
                                proof {
                                    text::lemma_index_of_absent(t@, ' ');
                                }
                                let e = ParseError {
                                    line: i + 1,
                                    message: String::from_str("URL required for request"),
                                    context: line.clone(),
                                };
                                proof {
                                    assert(run_lines(self@, lineno as int) matches Err(pe) && e@
                                        == pe);
                                    lemma_error_sticks(self@, lineno as int, n as int);
                                }
                                return Err(e);
                            },
                        }
                    },
                    None => {
                        let e = ParseError {
                            line: i + 1,
                            message: String::from_str("Request must be inside a @test section"),
                            context: line.clone(),
                        };
                        proof {
                            assert(run_lines(self@, lineno as int) matches Err(pe) && e@ == pe);
                            lemma_error_sticks(self@, lineno as int, n as int);
                        }
                        return Err(e);
                    },
                }
            } else if text::starts_with(ts, "assert_status:") {
                match &mut cur {
                    Some(b) => {
                        let s = text::trim(ts.substring_char(14, tn));
                        match text::parse_u64(s.as_str()) {
                            Some(v) if v <= u16::MAX as u64 => {
                                b.add_assertion(Assertion::StatusCode(v as u16));
                            },
                            _ => {
                                let mut msg = String::from_str("Invalid status code: ");
                                msg.append(s.as_str());
                                let e = ParseError {
                                    line: i + 1,
                                    message: msg,
                                    context: line.clone(),
                                };
                                proof {
                                    assert(run_lines(self@, lineno as int) matches Err(pe) && e@
                                        == pe);
                                    lemma_error_sticks(self@, lineno as int, n as int);
                                }
                                return Err(e);
                            },
                        }
                    },
                    None => {
                        let e = ParseError {
                            line: i + 1,
                            message: String::from_str(
                                "Directive must be inside a @test section",
                            ),
                            context: line.clone(),
                        };
                        proof {
                            assert(run_lines(self@, lineno as int) matches Err(pe) && e@ == pe);
                            lemma_error_sticks(self@, lineno as int, n as int);
                        }
                        return Err(e);
                    },
                }
            } else if text::starts_with(ts, "assert_header:") {
                match &mut cur {
                    Some(b) => {
                        let s = text::trim(ts.substring_char(14, tn));
                        let sn = s.as_str().unicode_len();
                        match text::find_char(s.as_str(), '=', 0) {
                            Some(k) => {
                                proof {
                                    text::lemma_index_of_found(s@, '=', k as int);
                                }
                                let name = text::trim(s.as_str().substring_char(0, k));
                                let value = text::trim(s.as_str().substring_char(k + 1, sn));
                                b.add_assertion(
                                    Assertion::HeaderValue { name, expected: value },
                                );
                            },
                            None => {
                                proof {
                                    text::lemma_index_of_absent(s@, '=');
                                }
                                b.add_assertion(Assertion::HeaderExists(s));
                            },
                        }
                    },
                    None => {
                        let e = ParseError {
                            line: i + 1,
                            message: String::from_str(
                                "Directive must be inside a @test section",
                            ),
                            context: line.clone(),
                        };
                        proof {
                            assert(run_lines(self@, lineno as int) matches Err(pe) && e@ == pe);
                            lemma_error_sticks(self@, lineno as int, n as int);
                        }
                        return Err(e);
                    },
                }
            } else if text::starts_with(ts, "assert_body:") {
                match &mut cur {
                    Some(b) => {
                        let s = text::trim(ts.substring_char(12, tn));
                        b.add_assertion(Assertion::BodyContains(s));
                    },
                    None => {
                        let e = ParseError {
                            line: i + 1,
                            message: String::from_str(
                                "Directive must be inside a @test section",
                            ),
                            context: line.clone(),
                        };
                        proof {
                            assert(run_lines(self@, lineno as int) matches Err(pe) && e@ == pe);
                            lemma_error_sticks(self@, lineno as int, n as int);
                        }
                        return Err(e);
                    },
                }
            } else if text::starts_with(ts, "assert_regex:") {
                match &mut cur {
                    Some(b) => {
                        let s = text::trim(ts.substring_char(13, tn));
                        b.add_assertion(Assertion::BodyRegex(s));
                    },
                    None => {
                        let e = ParseError {
                            line: i + 1,
                            message: String::from_str(
                                "Directive must be inside a @test section",
                            ),
                            context: line.clone(),
                        };
                        proof {
                            assert(run_lines(self@, lineno as int) matches Err(pe) && e@ == pe);
                            lemma_error_sticks(self@, lineno as int, n as int);
                        }
                        return Err(e);
                    },
                }
            } else if text::starts_with(ts, "assert_json:") {
                match &mut cur {
                    Some(b) => {
                        let s = text::trim(ts.substring_char(12, tn));
                        let sn = s.as_str().unicode_len();
                        match text::find_char(s.as_str(), '=', 0) {
                            Some(k) => {
                                proof {
                                    text::lemma_index_of_found(s@, '=', k as int);
                                }
                                let path = text::trim(s.as_str().substring_char(0, k));
                                let vtext = text::trim(s.as_str().substring_char(k + 1, sn));
                                let value = classify_value(vtext.as_str());
                                b.add_assertion(Assertion::JsonPath { path, expected: value });
                            },
                            None => {
                                proof {
                                    text::lemma_index_of_absent(s@, '=');
                                }
                            },
                        }
                    },
                    None => {
                        let e = ParseError {
                            line: i + 1,
                            message: String::from_str(
                                "Directive must be inside a @test section",
                            ),
                            context: line.clone(),
                        };
                        proof {
                            assert(run_lines(self@, lineno as int) matches Err(pe) && e@ == pe);
                            lemma_error_sticks(self@, lineno as int, n as int);
                        }
                        return Err(e);
                    },
                }
            } else if text::starts_with(ts, "assert_time:") {
                match &mut cur {
                    Some(b) => {
                        let s = text::trim(ts.substring_char(12, tn));
                        match text::parse_u64(s.as_str()) {
                            Some(v) => {
                                b.add_assertion(Assertion::ResponseTime { max_ms: v });
                            },
                            None => {
                                let mut msg = String::from_str("Invalid time value: ");
                                msg.append(s.as_str());
                                let e = ParseError {
                                    line: i + 1,
                                    message: msg,
                                    context: line.clone(),
                                };
                                proof {
                                    assert(run_lines(self@, lineno as int) matches Err(pe) && e@
                                        == pe);
                                    lemma_error_sticks(self@, lineno as int, n as int);
                                }
                                return Err(e);
                            },
                        }
                    },
                    None => {
                        let e = ParseError {
                            line: i + 1,
                            message: String::from_str(
                                "Directive must be inside a @test section",
                            ),
                            context: line.clone(),
                        };
                        proof {
                            assert(run_lines(self@, lineno as int) matches Err(pe) && e@ == pe);
                            lemma_error_sticks(self@, lineno as int, n as int);
                        }
                        return Err(e);
                    },
                }
            } else if text::starts_with(ts, "@tag:") {
                match &mut cur {
                    Some(b) => {
                        let s = text::trim(ts.substring_char(5, tn));
                        b.add_tag(s);
                    },
                    None => {
                        let e = ParseError {
                            line: i + 1,
                            message: String::from_str(
                                "Directive must be inside a @test section",
                            ),
                            context: line.clone(),
                        };
                        proof {
                            assert(run_lines(self@, lineno as int) matches Err(pe) && e@ == pe);
                            lemma_error_sticks(self@, lineno as int, n as int);
                        }
                        return Err(e);
                    },
                }
            }
            proof {
                assert(run_lines(self@, lineno as int) == Ok::<PState, PeV>(
                    PState {
                        done: done@.map_values(|c: TestCase| c@),
                        cur: match &cur {
                            Some(b) => Some(b@),
                            None => None,
                        },
                    },
                ));
            }
            i = i + 1;
        }
        match cur {
            Some(b) => {
                match b.build() {
                    Ok(c) => {
                        let ghost before = done@.map_values(|c: TestCase| c@);
                        done.push(c);
                        proof {
                            assert(done@.map_values(|c: TestCase| c@) =~= before.push(
                                done@.last()@,
                            ));
                        }
                        Ok(done)
                    },
                    Err(e) => Err(e),
                }
            },
            None => Ok(done),
        }
    }
}

/// Once a prefix of the input has failed, the whole input fails the same
/// way.
proof fn lemma_error_sticks(lines: Seq<Seq<char>>, from: int, upto: int)
    requires
        0 <= from <= upto,
        run_lines(lines, from) is Err,
    ensures
        run_lines(lines, upto) == run_lines(lines, from),
    decreases upto - from,
{
    if from < upto {
        lemma_error_sticks(lines, from, upto - 1);
    }
}

} // verus!
