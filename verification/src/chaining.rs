//! Variables, extraction and request chaining.
//!
//! A variable store maps names to JSON-like values; an extractor pulls
//! values out of a response into a store; a chain threads extracted values
//! from each response into the next request's templates.

use vstd::prelude::*;
use crate::error::Error;
use crate::json::{self, JsonValue, Jv};
use crate::response::{header_lookup_exact, HttpResponse, RespV};
use crate::text;

verus! {

/// The entries of a store with every entry named `k` removed.
pub open spec fn drop_key(s: Seq<(Seq<char>, Jv)>, k: Seq<char>) -> Seq<(Seq<char>, Jv)>
    decreases s.len(),
{
    if s.len() == 0 {
        Seq::empty()
    } else {
        let rest = drop_key(s.drop_last(), k);
        if s.last().0 == k {
            rest
        } else {
            rest.push(s.last())
        }
    }
}

/// The mapping that a store's entries denote: the later entry wins.
pub open spec fn vars_map(s: Seq<(Seq<char>, Jv)>) -> Map<Seq<char>, Jv>
    decreases s.len(),
{
    if s.len() == 0 {
        Map::empty()
    } else {
        vars_map(s.drop_last()).insert(s.last().0, s.last().1)
    }
}

/// The value of the last entry named `k`, if any.
pub open spec fn lookup_last(s: Seq<(Seq<char>, Jv)>, k: Seq<char>) -> Option<Jv>
    decreases s.len(),
{
    if s.len() == 0 {
        None
    } else if s.last().0 == k {
        Some(s.last().1)
    } else {
        lookup_last(s.drop_last(), k)
    }
}

/// `a`'s entries overridden by `b`'s, in `b`'s order.
pub open spec fn merge_seq(a: Seq<(Seq<char>, Jv)>, b: Seq<(Seq<char>, Jv)>) -> Seq<
    (Seq<char>, Jv),
>
    decreases b.len(),
{
    if b.len() == 0 {
        a
    } else {
        drop_key(merge_seq(a, b.drop_last()), b.last().0).push(b.last())
    }
}

proof fn lemma_push_unfold(s: Seq<(Seq<char>, Jv)>, e: (Seq<char>, Jv))
    ensures
        vars_map(s.push(e)) == vars_map(s).insert(e.0, e.1),
{
    assert(s.push(e).drop_last() =~= s);
    assert(s.push(e).last() == e);
}

/// Dropping a key removes exactly that key from the denoted mapping.
pub proof fn lemma_drop_key_map(s: Seq<(Seq<char>, Jv)>, k: Seq<char>)
    ensures
        vars_map(drop_key(s, k)) == vars_map(s).remove(k),
    decreases s.len(),
{
    if s.len() == 0 {
        assert(vars_map(drop_key(s, k)) =~= vars_map(s).remove(k));
    } else {
        lemma_drop_key_map(s.drop_last(), k);
        if s.last().0 == k {
            assert(vars_map(drop_key(s, k)) =~= vars_map(s).remove(k));
        } else {
            lemma_push_unfold(drop_key(s.drop_last(), k), s.last());
            assert(vars_map(drop_key(s, k)) =~= vars_map(s).remove(k));
        }
    }
}

/// The last entry for a key is the denoted mapping's value for it.
pub proof fn lemma_lookup_last_map(s: Seq<(Seq<char>, Jv)>, k: Seq<char>)
    ensures
        lookup_last(s, k) == if vars_map(s).contains_key(k) {
            Some(vars_map(s)[k])
        } else {
            None::<Jv>
        },
    decreases s.len(),
{
    if s.len() > 0 {
        lemma_lookup_last_map(s.drop_last(), k);
    }
}

/// Merging denotes the right-preferring union of the two mappings.
pub proof fn lemma_merge_map(a: Seq<(Seq<char>, Jv)>, b: Seq<(Seq<char>, Jv)>)
    ensures
        vars_map(merge_seq(a, b)) == vars_map(a).union_prefer_right(vars_map(b)),
    decreases b.len(),
{
    if b.len() == 0 {
        assert(vars_map(merge_seq(a, b)) =~= vars_map(a).union_prefer_right(vars_map(b)));
    } else {
        lemma_merge_map(a, b.drop_last());
        lemma_drop_key_map(merge_seq(a, b.drop_last()), b.last().0);
        lemma_push_unfold(drop_key(merge_seq(a, b.drop_last()), b.last().0), b.last());
        assert(vars_map(merge_seq(a, b)) =~= vars_map(a).union_prefer_right(vars_map(b)));
    }
}

/// A mutable mapping from name to JSON-like value; the last write wins.
#[derive(Debug)]
pub struct Variables {
    entries: Vec<(String, JsonValue)>,
}

impl View for Variables {
    type V = Seq<(Seq<char>, Jv)>;

    closed spec fn view(&self) -> Seq<(Seq<char>, Jv)> {
        self.entries@.map_values(|p: (String, JsonValue)| (p.0@, p.1@))
    }
}

impl Variables {
    /// An empty store.
    pub fn new() -> (r: Variables)
        ensures
            r@ == Seq::<(Seq<char>, Jv)>::empty(),
            vars_map(r@) == Map::<Seq<char>, Jv>::empty(),
    {
        let r = Variables { entries: Vec::new() };
        proof {
            assert(r@ =~= Seq::<(Seq<char>, Jv)>::empty());
            assert(vars_map(r@) =~= Map::<Seq<char>, Jv>::empty());
        }
        r
    }

    /// Binds `key` to `value`, overwriting any earlier binding.
    #[verifier::loop_isolation(false)]
    pub fn set(&mut self, key: &str, value: JsonValue)
        ensures
            final(self)@ == drop_key(old(self)@, key@).push((key@, value@)),
            vars_map(final(self)@) == vars_map(old(self)@).insert(key@, value@),
    {
        let n = self.entries.len();
        let mut kept: Vec<(String, JsonValue)> = Vec::new();
        let mut i: usize = 0;
        proof {
            assert(old(self)@.subrange(0, 0) =~= Seq::<(Seq<char>, Jv)>::empty());
            assert(drop_key(old(self)@.subrange(0, 0), key@) =~= kept@.map_values(
                |p: (String, JsonValue)| (p.0@, p.1@),
            ));
        }
        while i < n
            invariant
                0 <= i <= n,
                n == self.entries@.len(),
                self == old(self),
                drop_key(old(self)@.subrange(0, i as int), key@) =~= kept@.map_values(
                    |p: (String, JsonValue)| (p.0@, p.1@),
                ),
            decreases n - i,
        {
            let ghost pref = old(self)@.subrange(0, i + 1);
            proof {
                assert(pref.drop_last() =~= old(self)@.subrange(0, i as int));
                assert(pref.last() == (self.entries@[i as int].0@, self.entries@[i as int].1@));
            }
            if !text::str_eq(self.entries[i].0.as_str(), key) {
                kept.push((self.entries[i].0.clone(), self.entries[i].1.duplicate()));
            }
            proof {
                assert(drop_key(old(self)@.subrange(0, i + 1), key@) =~= kept@.map_values(
                    |p: (String, JsonValue)| (p.0@, p.1@),
                ));
            }
            i = i + 1;
        }
        kept.push((String::from_str(key), value));
        self.entries = kept;
        proof {
            assert(old(self)@.subrange(0, n as int) =~= old(self)@);
            assert(final(self)@ =~= drop_key(old(self)@, key@).push((key@, value@)));
            lemma_drop_key_map(old(self)@, key@);
            lemma_push_unfold(drop_key(old(self)@, key@), (key@, value@));
            assert(vars_map(final(self)@) =~= vars_map(old(self)@).insert(key@, value@));
        }
    }

    /// The value bound to `key`, if any.
    #[verifier::loop_isolation(false)]
    pub fn get<'a>(&'a self, key: &str) -> (r: Option<&'a JsonValue>)
        ensures
            match r {
                Some(v) => vars_map(self@).contains_key(key@) && vars_map(self@)[key@] == v@,
                None => !vars_map(self@).contains_key(key@),
            },
    {
        let mut i = self.entries.len();
        proof {
            assert(self@.subrange(0, i as int) =~= self@);
        }
        while i > 0
            invariant
                0 <= i <= self.entries@.len(),
                lookup_last(self@, key@) == lookup_last(self@.subrange(0, i as int), key@),
            decreases i,
        {
            let ghost pref = self@.subrange(0, i as int);
            proof {
                assert(pref.drop_last() =~= self@.subrange(0, i - 1));
                assert(pref.last() == (
                    self.entries@[i - 1].0@,
                    self.entries@[i - 1].1@,
                ));
            }
            if text::str_eq(self.entries[i - 1].0.as_str(), key) {
                proof {
                    lemma_lookup_last_map(self@, key@);
                }
                return Some(&self.entries[i - 1].1);
            }
            i = i - 1;
        }
        proof {
            assert(self@.subrange(0, 0) =~= Seq::<(Seq<char>, Jv)>::empty());
            lemma_lookup_last_map(self@, key@);
        }
        None
    }

    /// The bound value's text, when it has a natural string form: the text
    /// of a string as it stands, a number as its literal text.
    pub fn get_string(&self, key: &str) -> (r: Option<String>)
        ensures
            match r {
                Some(s) => vars_map(self@).contains_key(key@) && match vars_map(self@)[key@] {
                    Jv::Str(t) => s@ == t,
                    Jv::Int(n) => s@ == text::dec_str_signed(n as int),
                    Jv::NumText(t) => s@ == t,
                    _ => false,
                },
                None => !vars_map(self@).contains_key(key@) || (match vars_map(self@)[key@] {
                    Jv::Str(_) => false,
                    Jv::Int(_) => false,
                    Jv::NumText(_) => false,
                    _ => true,
                }),
            },
    {
        match self.get(key) {
            Some(v) => match v {
                JsonValue::Str(s) => Some(s.clone()),
                JsonValue::Num(n) => Some(text::i64_to_string(*n)),
                JsonValue::NumText(s) => Some(s.clone()),
                _ => None,
            },
            None => None,
        }
    }

    /// The bound value, when it is a number that fits an `i64`.
    pub fn get_number(&self, key: &str) -> (r: Option<i64>)
        ensures
            match r {
                Some(n) => vars_map(self@).contains_key(key@) && vars_map(self@)[key@] == Jv::Int(
                    n,
                ),
                None => !vars_map(self@).contains_key(key@) || !(vars_map(self@)[key@] is Int),
            },
    {
        match self.get(key) {
            Some(v) => v.as_i64(),
            None => None,
        }
    }

    /// The bound value, when it is a boolean.
    pub fn get_bool(&self, key: &str) -> (r: Option<bool>)
        ensures
            match r {
                Some(b) => vars_map(self@).contains_key(key@) && vars_map(self@)[key@] == Jv::Bool(
                    b,
                ),
                None => !vars_map(self@).contains_key(key@) || !(vars_map(self@)[key@] is Bool),
            },
    {
        match self.get(key) {
            Some(v) => v.as_bool(),
            None => None,
        }
    }

    /// A snapshot of every binding, in store order.
    #[verifier::loop_isolation(false)]
    pub fn all(&self) -> (r: Vec<(String, JsonValue)>)
        ensures
            r@.map_values(|p: (String, JsonValue)| (p.0@, p.1@)) == self@,
    {
        let n = self.entries.len();
        let mut out: Vec<(String, JsonValue)> = Vec::new();
        let mut i: usize = 0;
        while i < n
            invariant
                0 <= i <= n,
                n == self.entries@.len(),
                out@.len() == i,
                forall|k: int|
                    #![all_triggers]
                    0 <= k < i ==> out@[k].0@ == self.entries@[k].0@ && out@[k].1@
                        == self.entries@[k].1@,
            decreases n - i,
        {
            out.push((self.entries[i].0.clone(), self.entries[i].1.duplicate()));
            i = i + 1;
        }
        proof {
            assert(out@.map_values(|p: (String, JsonValue)| (p.0@, p.1@)) =~= self@);
        }
        out
    }

    /// The number of bindings held.
    pub fn len(&self) -> (r: usize)
        ensures
            r == self@.len(),
    {
        self.entries.len()
    }

    /// Removes every binding.
    pub fn clear(&mut self)
        ensures
            final(self)@ == Seq::<(Seq<char>, Jv)>::empty(),
            vars_map(final(self)@) == Map::<Seq<char>, Jv>::empty(),
    {
        self.entries = Vec::new();
        proof {
            assert(final(self)@ =~= Seq::<(Seq<char>, Jv)>::empty());
            assert(vars_map(final(self)@) =~= Map::<Seq<char>, Jv>::empty());
        }
    }

    /// Folds another store's bindings into this one; on a shared name the
    /// other store's value wins.
    #[verifier::loop_isolation(false)]
    pub fn merge(&mut self, other: &Variables)
        ensures
            final(self)@ == merge_seq(old(self)@, other@),
            vars_map(final(self)@) == vars_map(old(self)@).union_prefer_right(vars_map(other@)),
    {
        let n = other.entries.len();
        let mut i: usize = 0;
        proof {
            assert(other@.subrange(0, 0) =~= Seq::<(Seq<char>, Jv)>::empty());
        }
        while i < n
            invariant
                0 <= i <= n,
                n == other.entries@.len(),
                self@ == merge_seq(old(self)@, other@.subrange(0, i as int)),
            decreases n - i,
        {
            let ghost pref = other@.subrange(0, i + 1);
            proof {
                assert(pref.drop_last() =~= other@.subrange(0, i as int));
                assert(pref.last() == (other.entries@[i as int].0@, other.entries@[i as int].1@));
            }
            self.set(other.entries[i].0.as_str(), other.entries[i].1.duplicate());
            i = i + 1;
        }
        proof {
            assert(other@.subrange(0, n as int) =~= other@);
            lemma_merge_map(old(self)@, other@);
        }
    }
}

impl Default for Variables {
    fn default() -> (r: Variables)
        ensures
            r@ == Seq::<(Seq<char>, Jv)>::empty(),
    {
        Variables::new()
    }
}

/// How one value is pulled out of a response.
#[derive(Debug)]
pub enum ExtractionType {
    /// Navigate the body as JSON along a dotted path.
    JsonPath(String),
    /// Read a header's value.
    Header(String),
    /// The numeric status code.
    Status,
    /// The exchange's duration in milliseconds.
    Duration,
    /// The body's length in bytes.
    Size,
}

/// The mathematical shape of an extraction kind.
pub enum EtV {
    JsonPath(Seq<char>),
    Header(Seq<char>),
    Status,
    Duration,
    Size,
}

impl View for ExtractionType {
    type V = EtV;

    open spec fn view(&self) -> EtV {
        match self {
            ExtractionType::JsonPath(p) => EtV::JsonPath(p@),
            ExtractionType::Header(h) => EtV::Header(h@),
            ExtractionType::Status => EtV::Status,
            ExtractionType::Duration => EtV::Duration,
            ExtractionType::Size => EtV::Size,
        }
    }
}

/// A named instruction for pulling one value out of a response.
#[derive(Debug)]
pub struct ExtractionRule {
    pub name: String,
    pub rule_type: ExtractionType,
}

/// The mathematical shape of an extraction rule.
#[verifier::ext_equal]
pub struct RuleV {
    pub name: Seq<char>,
    pub kind: EtV,
}

impl View for ExtractionRule {
    type V = RuleV;

    open spec fn view(&self) -> RuleV {
        RuleV { name: self.name@, kind: self.rule_type@ }
    }
}

impl ExtractionRule {
    /// A rule that navigates the body as JSON.
    pub fn json_path(name: &str, path: &str) -> (r: ExtractionRule)
        ensures
            r@ == (RuleV { name: name@, kind: EtV::JsonPath(path@) }),
    {
        ExtractionRule {
            name: String::from_str(name),
            rule_type: ExtractionType::JsonPath(String::from_str(path)),
        }
    }

    /// A rule that reads a header.
    pub fn header(name: &str, header_name: &str) -> (r: ExtractionRule)
        ensures
            r@ == (RuleV { name: name@, kind: EtV::Header(header_name@) }),
    {
        ExtractionRule {
            name: String::from_str(name),
            rule_type: ExtractionType::Header(String::from_str(header_name)),
        }
    }

    /// A rule that records the status code.
    pub fn status(name: &str) -> (r: ExtractionRule)
        ensures
            r@ == (RuleV { name: name@, kind: EtV::Status }),
    {
        ExtractionRule { name: String::from_str(name), rule_type: ExtractionType::Status }
    }

    /// A rule that records the exchange's duration.
    pub fn duration(name: &str) -> (r: ExtractionRule)
        ensures
            r@ == (RuleV { name: name@, kind: EtV::Duration }),
    {
        ExtractionRule { name: String::from_str(name), rule_type: ExtractionType::Duration }
    }

    /// A rule that records the body's size.
    pub fn size(name: &str) -> (r: ExtractionRule)
        ensures
            r@ == (RuleV { name: name@, kind: EtV::Size }),
    {
        ExtractionRule { name: String::from_str(name), rule_type: ExtractionType::Size }
    }

    /// A copy of this rule.
    pub fn duplicate(&self) -> (r: ExtractionRule)
        ensures
            r@ == self@,
    {
        let rule_type = match &self.rule_type {
            ExtractionType::JsonPath(p) => ExtractionType::JsonPath(p.clone()),
            ExtractionType::Header(h) => ExtractionType::Header(h.clone()),
            ExtractionType::Status => ExtractionType::Status,
            ExtractionType::Duration => ExtractionType::Duration,
            ExtractionType::Size => ExtractionType::Size,
        };
        ExtractionRule { name: self.name.clone(), rule_type }
    }
}

/// How a single extraction can fail.
pub enum ExtractFailure {
    /// The body is not a JSON document.
    BadDoc,
    /// A `[` in the path has no matching `]`.
    MalformedIndex,
    /// Bracket contents in the path are not a valid index.
    InvalidIndex,
    /// A missing key, an out-of-range index, or a null on the way.
    NotFound,
    /// The named header is absent.
    NoHeader,
}

/// The outcome of navigating `path` through `body` read as JSON.
pub open spec fn json_path_result(body: Seq<char>, path: Seq<char>) -> Result<
    JsonValue,
    ExtractFailure,
> {
    match json::json_doc(body) {
        None => Err(ExtractFailure::BadDoc),
        Some(doc) => match json::nav_path(doc, path) {
            Ok(v) => Ok(v),
            Err(json::PathErrKind::MalformedIndex) => Err(ExtractFailure::MalformedIndex),
            Err(json::PathErrKind::InvalidIndex) => Err(ExtractFailure::InvalidIndex),
            Err(json::PathErrKind::NotFound) => Err(ExtractFailure::NotFound),
        },
    }
}

/// The message that a failed JSON-path extraction carries.
pub open spec fn path_err_msg(f: ExtractFailure, body: Seq<char>, path: Seq<char>) -> Seq<char> {
    match f {
        ExtractFailure::BadDoc => "failed to parse json: "@ + json::json_err(body),
        ExtractFailure::MalformedIndex => "malformed array index"@,
        ExtractFailure::InvalidIndex => "invalid array index"@,
        ExtractFailure::NotFound => "path not found: "@ + path,
        ExtractFailure::NoHeader => Seq::empty(),
    }
}

/// `u` clipped into `i64`.
pub open spec fn clip_i64(u: int) -> i64 {
    if u <= i64::MAX {
        u as i64
    } else {
        i64::MAX
    }
}

/// The value that one rule extracts from a response, or how it fails.
pub open spec fn rule_value(resp: RespV, rule: RuleV) -> Result<Jv, ExtractFailure> {
    match rule.kind {
        EtV::JsonPath(p) => match json_path_result(resp.body, p) {
            Ok(v) => Ok(v@),
            Err(f) => Err(f),
        },
        EtV::Header(h) => match header_lookup_exact(resp.headers, h) {
            Some(v) => Ok(Jv::Str(v)),
            None => Err(ExtractFailure::NoHeader),
        },
        EtV::Status => Ok(Jv::Int(resp.status as i64)),
        EtV::Duration => Ok(Jv::Int(clip_i64(resp.duration_ms as int))),
        EtV::Size => Ok(Jv::Int(clip_i64(vstd::utf8::encode_utf8(resp.body).len() as usize as int))),
    }
}

/// The store that a rule list builds from a response, assuming every rule
/// succeeds: later rules overwrite earlier ones of the same name.
pub open spec fn apply_entries(resp: RespV, rules: Seq<RuleV>) -> Seq<(Seq<char>, Jv)>
    decreases rules.len(),
{
    if rules.len() == 0 {
        Seq::empty()
    } else {
        drop_key(apply_entries(resp, rules.drop_last()), rules.last().name).push(
            (rules.last().name, rule_value(resp, rules.last())->Ok_0),
        )
    }
}

/// The value that the built store holds for a name is the value of the
/// last rule with that name.
pub proof fn lemma_last_rule_wins(resp: RespV, rules: Seq<RuleV>, j: int)
    requires
        0 <= j < rules.len(),
        forall|k: int| j < k < rules.len() ==> (#[trigger] rules[k]).name != rules[j].name,
        forall|k: int| 0 <= k < rules.len() ==> rule_value(resp, #[trigger] rules[k]) is Ok,
    ensures
        vars_map(apply_entries(resp, rules)).contains_key(rules[j].name),
        vars_map(apply_entries(resp, rules))[rules[j].name] == rule_value(resp, rules[j])->Ok_0,
    decreases rules.len(),
{
    let t = rules.drop_last();
    let last = rules.last();
    lemma_drop_key_map(apply_entries(resp, t), last.name);
    lemma_push_unfold(
        drop_key(apply_entries(resp, t), last.name),
        (last.name, rule_value(resp, last)->Ok_0),
    );
    if j == rules.len() - 1 {
    } else {
        assert(last.name != rules[j].name);
        assert(forall|k: int| 0 <= k < t.len() ==> t[k] == rules[k]);
        lemma_last_rule_wins(resp, t, j);
    }
}

/// When a rule list holds two rules of the same name, the later one's
/// value is what the built store returns for that name.
pub proof fn lemma_later_rule_wins(resp: RespV, rules: Seq<RuleV>, i: int, j: int)
    requires
        0 <= i < j < rules.len(),
        rules[i].name == rules[j].name,
        forall|k: int| j < k < rules.len() ==> (#[trigger] rules[k]).name != rules[j].name,
        forall|k: int| 0 <= k < rules.len() ==> rule_value(resp, #[trigger] rules[k]) is Ok,
    ensures
        vars_map(apply_entries(resp, rules))[rules[i].name] == rule_value(resp, rules[j])->Ok_0,
{
    lemma_last_rule_wins(resp, rules, j);
}

/// Whether `e` is exactly the error that extracting `rules` from a
/// response with shape `resp` raises: the first failing rule's, with its
/// own message.
pub open spec fn extraction_error(resp: RespV, rules: Seq<RuleV>, e: Error) -> bool {
    exists|i: int|
        #![all_triggers]
        0 <= i < rules.len() && rule_value(resp, rules[i]) is Err && (forall|j: int|
            0 <= j < i ==> rule_value(resp, #[trigger] rules[j]) is Ok) && {
            let f = rule_value(resp, rules[i])->Err_0;
            match rules[i].kind {
                EtV::JsonPath(p) => e matches Error::Parse(m) && m@ == path_err_msg(
                    f,
                    resp.body,
                    p,
                ),
                EtV::Header(h) => e matches Error::Http(m) && m@ == "header not found: "@ + h,
                _ => false,
            }
        }
}

/// Pulls values out of responses.
#[derive(Debug)]
pub struct Extractor;

impl Extractor {
    /// Parses `json` as a document and navigates `path` through it.
    pub fn extract_json_path(json: &str, path: &str) -> (r: Result<JsonValue, Error>)
        ensures
            match r {
                Ok(v) => json_path_result(json@, path@) matches Ok(x) && v@ == x@,
                Err(e) => json_path_result(json@, path@) matches Err(f) && e matches Error::Parse(
                    m,
                ) && m@ == path_err_msg(f, json@, path@),
            },
    {
        match json::parse_json(json) {
            Err(e) => {
                let mut m = String::from_str("failed to parse json: ");
                m.append(e.as_str());
                Err(Error::Parse(m))
            },
            Ok(doc) => match json::navigate_path(&doc, path) {
                Ok(v) => Ok(v),
                Err(json::PathErrKind::MalformedIndex) => Err(
                    Error::Parse(String::from_str("malformed array index")),
                ),
                Err(json::PathErrKind::InvalidIndex) => Err(
                    Error::Parse(String::from_str("invalid array index")),
                ),
                Err(json::PathErrKind::NotFound) => {
                    let mut m = String::from_str("path not found: ");
                    m.append(path);
                    Err(Error::Parse(m))
                },
            },
        }
    }

    /// Reads the named header out of a response; the name must match
    /// case-sensitively and exactly, unlike the assertion engine's lookup.
    pub fn extract_header(response: &HttpResponse, name: &str) -> (r: Result<String, Error>)
        ensures
            match r {
                Ok(v) => header_lookup_exact(response@.headers, name@) == Some(v@),
                Err(e) => header_lookup_exact(response@.headers, name@) is None && (
                e matches Error::Http(m) && m@ == "header not found: "@ + name@),
            },
    {
        match response.header_exact(name) {
            Some(v) => Ok(String::from_str(v)),
            None => {
                let mut m = String::from_str("header not found: ");
                m.append(name);
                Err(Error::Http(m))
            },
        }
    }

    /// Evaluates every rule in order against one response, writing each
    /// value into a fresh store under the rule's name.
    ///
    /// The first failing rule aborts the whole extraction with its own
    /// error; no partial store is returned.
    #[verifier::loop_isolation(false)]
    pub fn apply_extractions(response: &HttpResponse, rules: &Vec<ExtractionRule>) -> (r: Result<
        Variables,
        Error,
    >)
        ensures
            match r {
                Ok(vars) => (forall|i: int|
                    0 <= i < rules@.len() ==> rule_value(response@, #[trigger] rules@[i]@) is Ok)
                    && vars@ == apply_entries(
                    response@,
                    rules@.map_values(|x: ExtractionRule| x@),
                ),
                Err(e) => extraction_error(
                    response@,
                    rules@.map_values(|x: ExtractionRule| x@),
                    e,
                ),
            },
    {
        let mut vars = Variables::new();
        let n = rules.len();
        let mut i: usize = 0;
        proof {
            assert(apply_entries(
                response@,
                rules@.map_values(|x: ExtractionRule| x@).subrange(0, 0),
            ) =~= Seq::<(Seq<char>, Jv)>::empty());
        }
        while i < n
            invariant
                0 <= i <= n,
                n == rules@.len(),
                forall|j: int|
                    0 <= j < i ==> rule_value(response@, #[trigger] rules@[j]@) is Ok,
                vars@ == apply_entries(
                    response@,
                    rules@.map_values(|x: ExtractionRule| x@).subrange(0, i as int),
                ),
            decreases n - i,
        {
            let ghost pref = rules@.map_values(|x: ExtractionRule| x@).subrange(0, i + 1);
            proof {
                assert(pref.drop_last() =~= rules@.map_values(|x: ExtractionRule| x@).subrange(
                    0,
                    i as int,
                ));
                assert(pref.last() == rules@[i as int]@);
            }
            let value: JsonValue = match &rules[i].rule_type {
                ExtractionType::JsonPath(path) => {
                    match Self::extract_json_path(body_str(response), path.as_str()) {
                        Ok(v) => {
                            proof {
                                assert(rule_value(response@, rules@[i as int]@) matches Ok(jv)
                                    && v@ == jv);
                            }
                            v
                        },
                        Err(e) => {
                            return Err(e);
                        },
                    }
                },
                ExtractionType::Header(name) => {
                    match Self::extract_header(response, name.as_str()) {
                        Ok(v) => {
                            proof {
                                assert(rule_value(response@, rules@[i as int]@) matches Ok(jv)
                                    && JsonValue::Str(v)@ == jv);
                            }
                            JsonValue::Str(v)
                        },
                        Err(e) => {
                            return Err(e);
                        },
                    }
                },
                ExtractionType::Status => {
                    proof {
                        assert(rule_value(response@, rules@[i as int]@) == Ok::<Jv, ExtractFailure>(
                            Jv::Int(response@.status as i64),
                        ));
                    }
                    JsonValue::Num(response.status as i64)
                },
                ExtractionType::Duration => {
                    let v = if response.duration_ms <= i64::MAX as u64 {
                        JsonValue::Num(response.duration_ms as i64)
                    } else {
                        JsonValue::Num(i64::MAX)
                    };
                    proof {
                        assert(rule_value(response@, rules@[i as int]@) matches Ok(jv) && v@
                            == jv);
                    }
                    v
                },
                ExtractionType::Size => {
                    let len = response.body.as_str().len();
                    proof {
                        assert(len == vstd::utf8::encode_utf8(response@.body).len() as usize);
                    }
                    let len64: u64 = len as u64;
                    let v = if len64 <= i64::MAX as u64 {
                        JsonValue::Num(len64 as i64)
                    } else {
                        JsonValue::Num(i64::MAX)
                    };
                    proof {
                        assert(rule_value(response@, rules@[i as int]@) matches Ok(jv) && v@
                            == jv);
                    }
                    v
                },
            };
            proof {
                assert(rule_value(response@, rules@[i as int]@) matches Ok(jv) && value@ == jv);
            }
            vars.set(rules[i].name.as_str(), value);
            proof {
                assert(vars@ =~= apply_entries(response@, pref));
            }
            i = i + 1;
        }
        proof {
            assert(rules@.map_values(|x: ExtractionRule| x@).subrange(0, n as int)
                =~= rules@.map_values(|x: ExtractionRule| x@));
        }
        Ok(vars)
    }
}

/// The body of a response, as a string slice.
fn body_str<'a>(response: &'a HttpResponse) -> (r: &'a str)
    ensures
        r@ == response@.body,
{
    response.body.as_str()
}

/// The text that a value contributes when interpolated: a string as it
/// stands, anything else as its compact JSON rendering.
pub open spec fn value_text(j: Jv) -> Seq<char> {
    match j {
        Jv::Str(s) => s,
        _ => json::jv_text(j),
    }
}

/// The literal placeholder for a variable name.
pub open spec fn placeholder(name: Seq<char>) -> Seq<char> {
    "${"@ + name + "}"@
}

/// `t` with every store entry's placeholder replaced by its value's text,
/// entry by entry in store order.
pub open spec fn interp_spec(t: Seq<char>, entries: Seq<(Seq<char>, Jv)>) -> Seq<char>
    decreases entries.len(),
{
    if entries.len() == 0 {
        t
    } else {
        interp_spec(
            text::replace_spec(t, placeholder(entries[0].0), value_text(entries[0].1)),
            entries.drop_first(),
        )
    }
}

/// Replaces every `${name}` placeholder in `template` whose name is bound
/// in `vars` by the variable's text; unknown placeholders stay verbatim.
#[verifier::loop_isolation(false)]
pub fn interpolate(template: &str, vars: &Variables) -> (r: String)
    ensures
        r@ == interp_spec(template@, vars@),
{
    let entries = vars.all();
    let n = entries.len();
    let mut cur = String::from_str(template);
    let mut i: usize = 0;
    proof {
        assert(vars@.subrange(0, n as int) =~= vars@);
        assert(vars@.subrange(i as int, n as int) == vars@);
    }
    while i < n
        invariant
            0 <= i <= n,
            n == entries@.len(),
            entries@.map_values(|p: (String, JsonValue)| (p.0@, p.1@)) == vars@,
            interp_spec(template@, vars@) == interp_spec(
                cur@,
                vars@.subrange(i as int, n as int),
            ),
        decreases n - i,
    {
        let ghost rest = vars@.subrange(i as int, n as int);
        proof {
            assert(rest.drop_first() =~= vars@.subrange(i + 1, n as int));
            assert(rest[0] == (entries@[i as int].0@, entries@[i as int].1@));
        }
        let mut pat = String::from_str("${");
        pat.append(entries[i].0.as_str());
        pat.append("}");
        let value_str: String = match &entries[i].1 {
            JsonValue::Str(s) => s.clone(),
            other => json::to_json_text(other),
        };
        proof {
            assert(pat@ == placeholder(entries@[i as int].0@));
            assert(value_str@ == value_text(entries@[i as int].1@));
        }
        cur = text::replace_all(cur.as_str(), pat.as_str(), value_str.as_str());
        i = i + 1;
    }
    proof {
        assert(vars@.subrange(n as int, n as int) =~= Seq::<(Seq<char>, Jv)>::empty());
    }
    cur
}

/// If no entry's placeholder occurs in the template, interpolation leaves
/// it unchanged; in particular an empty store never changes a template.
pub proof fn lemma_interpolate_untouched(t: Seq<char>, entries: Seq<(Seq<char>, Jv)>)
    requires
        forall|i: int|
            0 <= i < entries.len() ==> !text::contains_sub(
                t,
                placeholder(#[trigger] entries[i].0),
            ),
    ensures
        interp_spec(t, entries) == t,
    decreases entries.len(),
{
    if entries.len() > 0 {
        text::lemma_replace_absent(t, placeholder(entries[0].0), value_text(entries[0].1));
        assert(forall|i: int|
            0 <= i < entries.drop_first().len() ==> entries.drop_first()[i]
                == entries[i + 1]);
        lemma_interpolate_untouched(t, entries.drop_first());
    }
}

/// Copies a list of rules.
#[verifier::loop_isolation(false)]
pub fn duplicate_rules(rules: &Vec<ExtractionRule>) -> (r: Vec<ExtractionRule>)
    ensures
        r@.map_values(|x: ExtractionRule| x@) == rules@.map_values(|x: ExtractionRule| x@),
{
    let n = rules.len();
    let mut out: Vec<ExtractionRule> = Vec::new();
    let mut i: usize = 0;
    while i < n
        invariant
            0 <= i <= n,
            n == rules@.len(),
            out@.len() == i,
            forall|k: int| #![all_triggers] 0 <= k < i ==> out@[k]@ == rules@[k]@,
        decreases n - i,
    {
        out.push(rules[i].duplicate());
        i = i + 1;
    }
    proof {
        assert(out@.map_values(|x: ExtractionRule| x@) =~= rules@.map_values(
            |x: ExtractionRule| x@,
        ));
    }
    out
}

/// One templated request of a chain.
#[derive(Debug)]
pub struct ChainRequest {
    pub method: String,
    pub url_template: String,
    pub headers: Vec<(String, String)>,
    pub body_template: Option<String>,
    pub extractions: Vec<ExtractionRule>,
    pub name: Option<String>,
}

/// The mathematical shape of a chain request.
#[verifier::ext_equal]
pub struct CrV {
    pub method: Seq<char>,
    pub url: Seq<char>,
    pub headers: Seq<(Seq<char>, Seq<char>)>,
    pub body: Option<Seq<char>>,
    pub extractions: Seq<RuleV>,
    pub name: Option<Seq<char>>,
}

impl View for ChainRequest {
    type V = CrV;

    open spec fn view(&self) -> CrV {
        CrV {
            method: self.method@,
            url: self.url_template@,
            headers: self.headers@.map_values(|p: (String, String)| (p.0@, p.1@)),
            body: match self.body_template {
                Some(b) => Some(b@),
                None => None,
            },
            extractions: self.extractions@.map_values(|x: ExtractionRule| x@),
            name: match self.name {
                Some(n) => Some(n@),
                None => None,
            },
        }
    }
}

impl ChainRequest {
    /// A bare request with a method and a URL template.
    pub fn new(method: &str, url: &str) -> (r: ChainRequest)
        ensures
            r@ == (CrV {
                method: method@,
                url: url@,
                headers: Seq::empty(),
                body: None,
                extractions: Seq::empty(),
                name: None,
            }),
    {
        let r = ChainRequest {
            method: String::from_str(method),
            url_template: String::from_str(url),
            headers: Vec::new(),
            body_template: None,
            extractions: Vec::new(),
            name: None,
        };
        proof {
            assert(r@ =~= (CrV {
                method: method@,
                url: url@,
                headers: Seq::empty(),
                body: None,
                extractions: Seq::empty(),
                name: None,
            }));
        }
        r
    }

    /// This request with one more header template.
    pub fn header(self, name: &str, value: &str) -> (r: ChainRequest)
        ensures
            r@ == (CrV { headers: self@.headers.push((name@, value@)), ..self@ }),
    {
        let mut headers = self.headers;
        let ghost old_headers = headers@;
        headers.push((String::from_str(name), String::from_str(value)));
        let r = ChainRequest { headers, ..self };
        proof {
            assert(r@.headers =~= old_headers.map_values(|p: (String, String)| (p.0@, p.1@)).push(
                (name@, value@),
            ));
            assert(r@ =~= (CrV { headers: self@.headers.push((name@, value@)), ..self@ }));
        }
        r
    }

    /// This request with its body template set.
    pub fn body(self, body: &str) -> (r: ChainRequest)
        ensures
            r@ == (CrV { body: Some(body@), ..self@ }),
    {
        let r = ChainRequest { body_template: Some(String::from_str(body)), ..self };
        proof {
            assert(r@ =~= (CrV { body: Some(body@), ..self@ }));
        }
        r
    }

    /// This request with one more extraction rule.
    pub fn extract(self, rule: ExtractionRule) -> (r: ChainRequest)
        ensures
            r@ == (CrV { extractions: self@.extractions.push(rule@), ..self@ }),
    {
        let mut extractions = self.extractions;
        let ghost old_rules = extractions@;
        extractions.push(rule);
        let r = ChainRequest { extractions, ..self };
        proof {
            assert(r@.extractions =~= old_rules.map_values(|x: ExtractionRule| x@).push(
                r.extractions@.last()@,
            ));
            assert(r@ =~= (CrV { extractions: self@.extractions.push(r.extractions@.last()@), ..self@ }));
        }
        r
    }

    /// This request with a display name.
    pub fn name(self, name: &str) -> (r: ChainRequest)
        ensures
            r@ == (CrV { name: Some(name@), ..self@ }),
    {
        let r = ChainRequest { name: Some(String::from_str(name)), ..self };
        proof {
            assert(r@ =~= (CrV { name: Some(name@), ..self@ }));
        }
        r
    }

    /// This request with the store's variables interpolated into its URL,
    /// header values and body; method, header names, rules and name are
    /// untouched.
    #[verifier::loop_isolation(false)]
    pub fn substitute_variables(&self, vars: &Variables) -> (r: ChainRequest)
        ensures
            r@ == subst_cr(self@, vars@),
    {
        let url = interpolate(self.url_template.as_str(), vars);
        let body = match &self.body_template {
            Some(b) => Some(interpolate(b.as_str(), vars)),
            None => None,
        };
        let n = self.headers.len();
        let mut headers: Vec<(String, String)> = Vec::new();
        let mut i: usize = 0;
        while i < n
            invariant
                0 <= i <= n,
                n == self.headers@.len(),
                headers@.len() == i,
                forall|k: int|
                    #![all_triggers]
                    0 <= k < i ==> headers@[k].0@ == self.headers@[k].0@ && headers@[k].1@
                        == interp_spec(self.headers@[k].1@, vars@),
            decreases n - i,
        {
            let value = interpolate(self.headers[i].1.as_str(), vars);
            headers.push((self.headers[i].0.clone(), value));
            i = i + 1;
        }
        let r = ChainRequest {
            method: self.method.clone(),
            url_template: url,
            headers,
            body_template: body,
            extractions: duplicate_rules(&self.extractions),
            name: match &self.name {
                Some(s) => Some(s.clone()),
                None => None,
            },
        };
        proof {
            assert(r@.headers =~= subst_cr(self@, vars@).headers);
            assert(r@.extractions =~= subst_cr(self@, vars@).extractions);
            assert(r@ =~= subst_cr(self@, vars@));
        }
        r
    }
}

/// A chain request with a store's variables substituted into its URL,
/// header values and body.
pub open spec fn subst_cr(cr: CrV, entries: Seq<(Seq<char>, Jv)>) -> CrV {
    CrV {
        method: cr.method,
        url: interp_spec(cr.url, entries),
        headers: cr.headers.map_values(|p: (Seq<char>, Seq<char>)| (p.0, interp_spec(p.1, entries))),
        body: match cr.body {
            Some(b) => Some(interp_spec(b, entries)),
            None => None,
        },
        extractions: cr.extractions,
        name: cr.name,
    }
}

/// The name a step reports: the declared one, or `req_<index>`.
pub open spec fn step_name(cr: CrV, index: int) -> Seq<char> {
    match cr.name {
        Some(n) => n,
        None => "req_"@ + text::dec_str(index),
    }
}

/// One executed step of a chain: what was sent, what came back, and what
/// was extracted.
#[derive(Debug)]
pub struct ChainStep {
    pub name: String,
    pub request: ChainRequest,
    pub response: HttpResponse,
    pub extracted_vars: Variables,
}

/// The mathematical shape of an executed step.
#[verifier::ext_equal]
pub struct StepV {
    pub name: Seq<char>,
    pub request: CrV,
    pub response: RespV,
    pub extracted: Seq<(Seq<char>, Jv)>,
}

impl View for ChainStep {
    type V = StepV;

    open spec fn view(&self) -> StepV {
        StepV {
            name: self.name@,
            request: self.request@,
            response: self.response@,
            extracted: self.extracted_vars@,
        }
    }
}

/// The store built up by a sequence of executed steps, starting empty.
pub open spec fn chain_vars(steps: Seq<StepV>) -> Seq<(Seq<char>, Jv)>
    decreases steps.len(),
{
    if steps.len() == 0 {
        Seq::empty()
    } else {
        merge_seq(chain_vars(steps.drop_last()), steps.last().extracted)
    }
}

/// Whether an executed step is exactly what running `cr` as step `index`
/// after `earlier` steps produces, whatever response the transport gave.
pub open spec fn step_consistent(cr: CrV, index: int, earlier: Seq<StepV>, step: StepV) -> bool {
    let vars_before = chain_vars(earlier);
    &&& step.request == subst_cr(cr, vars_before)
    &&& step.name == step_name(cr, index)
    &&& (forall|j: int|
        0 <= j < step.request.extractions.len() ==> rule_value(
            step.response,
            #[trigger] step.request.extractions[j],
        ) is Ok)
    &&& step.extracted == apply_entries(step.response, step.request.extractions)
}

/// Whether a chain run over `plans` fails right after the consistent
/// prefix `done`, with `req` the resolved next request and `e` the error:
/// either the transport's own failure for `req`, or the extraction failure
/// that a response the transport can return for `req` produces.
pub open spec fn chain_failure<F: Fn(&ChainRequest) -> Result<HttpResponse, Error>>(
    client_fn: F,
    plans: Seq<CrV>,
    done: Seq<StepV>,
    req: ChainRequest,
    e: Error,
) -> bool {
    &&& done.len() < plans.len()
    &&& (forall|k: int|
        0 <= k < done.len() ==> #[trigger] step_consistent(
            plans[k],
            k,
            done.subrange(0, k),
            done[k],
        ))
    &&& req@ == subst_cr(plans[done.len() as int], chain_vars(done))
    &&& ({
        ||| call_ensures(client_fn, (&req,), Err::<HttpResponse, Error>(e))
        ||| exists|resp: HttpResponse|
            #[trigger] call_ensures(client_fn, (&req,), Ok::<HttpResponse, Error>(resp))
                && extraction_error(resp@, req@.extractions, e)
    })
}

/// The executed steps of one chain run.
#[derive(Debug)]
pub struct ChainContext {
    pub steps: Vec<ChainStep>,
}

impl View for ChainContext {
    type V = Seq<StepV>;

    open spec fn view(&self) -> Seq<StepV> {
        self.steps@.map_values(|s: ChainStep| s@)
    }
}

impl ChainContext {
    /// An empty context.
    pub fn new() -> (r: ChainContext)
        ensures
            r@ == Seq::<StepV>::empty(),
    {
        let r = ChainContext { steps: Vec::new() };
        proof {
            assert(r@ =~= Seq::<StepV>::empty());
        }
        r
    }

    /// The step at `index`, if there is one.
    pub fn get_step<'a>(&'a self, index: usize) -> (r: Option<&'a ChainStep>)
        ensures
            match r {
                Some(s) => index < self@.len() && s@ == self@[index as int],
                None => index >= self@.len(),
            },
    {
        if index < self.steps.len() {
            Some(&self.steps[index])
        } else {
            None
        }
    }

    /// The first step with the given name, if any.
    #[verifier::loop_isolation(false)]
    pub fn get_step_by_name<'a>(&'a self, name: &str) -> (r: Option<&'a ChainStep>)
        ensures
            match r {
                Some(s) => exists|i: int|
                    0 <= i < self@.len() && #[trigger] self@[i].name == name@ && s@ == self@[i]
                        && forall|j: int| 0 <= j < i ==> self@[j].name != name@,
                None => forall|i: int| 0 <= i < self@.len() ==> self@[i].name != name@,
            },
    {
        let n = self.steps.len();
        let mut i: usize = 0;
        while i < n
            invariant
                0 <= i <= n,
                n == self@.len(),
                forall|j: int| 0 <= j < i ==> self@[j].name != name@,
            decreases n - i,
        {
            if text::str_eq(self.steps[i].name.as_str(), name) {
                proof {
                    assert(0 <= i < self@.len() && self@[i as int].name == name@ && forall|j: int|
                        0 <= j < i ==> self@[j].name != name@);
                }
                return Some(&self.steps[i]);
            }
            i = i + 1;
        }
        None
    }
}

impl Default for ChainContext {
    fn default() -> (r: ChainContext)
        ensures
            r@ == Seq::<StepV>::empty(),
    {
        ChainContext::new()
    }
}

/// What a completed chain run returns.
#[derive(Debug)]
pub struct ChainResult {
    pub context: ChainContext,
    pub variables: Variables,
    pub success: bool,
}

impl ChainResult {
    /// The last step's response, if any step ran.
    pub fn get_final_response<'a>(&'a self) -> (r: Option<&'a HttpResponse>)
        ensures
            match r {
                Some(resp) => self.context@.len() > 0 && resp@ == self.context@.last().response,
                None => self.context@.len() == 0,
            },
    {
        let n = self.context.steps.len();
        if n > 0 {
            Some(&self.context.steps[n - 1].response)
        } else {
            None
        }
    }

    /// The final value of a variable, if it was ever set.
    pub fn get_variable<'a>(&'a self, name: &str) -> (r: Option<&'a JsonValue>)
        ensures
            match r {
                Some(v) => vars_map(self.variables@).contains_key(name@) && vars_map(
                    self.variables@,
                )[name@] == v@,
                None => !vars_map(self.variables@).contains_key(name@),
            },
    {
        self.variables.get(name)
    }
}

/// An ordered list of templated requests executed with variable
/// propagation between steps.
#[derive(Debug)]
pub struct RequestChain {
    requests: Vec<ChainRequest>,
}

impl View for RequestChain {
    type V = Seq<CrV>;

    closed spec fn view(&self) -> Seq<CrV> {
        self.requests@.map_values(|r: ChainRequest| r@)
    }
}

impl RequestChain {
    /// An empty chain.
    pub fn new() -> (r: RequestChain)
        ensures
            r@ == Seq::<CrV>::empty(),
    {
        let r = RequestChain { requests: Vec::new() };
        proof {
            assert(r@ =~= Seq::<CrV>::empty());
        }
        r
    }

    /// This chain with one more request at the end.
    pub fn add_request(self, request: ChainRequest) -> (r: RequestChain)
        ensures
            r@ == self@.push(request@),
    {
        let mut requests = self.requests;
        let ghost old_reqs = requests@;
        requests.push(request);
        let r = RequestChain { requests };
        proof {
            assert(r@ =~= old_reqs.map_values(|x: ChainRequest| x@).push(
                r.requests@.last()@,
            ));
        }
        r
    }

    /// Runs the chain: each step's templates are resolved against the
    /// variables extracted so far, the transport is invoked, and the
    /// step's extraction rules feed the store for the next step.
    ///
    /// The first transport failure or extraction failure aborts the run
    /// and is returned as the chain's error.
    #[verifier::loop_isolation(false)]
    pub fn execute_sync<F: Fn(&ChainRequest) -> Result<HttpResponse, Error>>(
        &self,
        client_fn: F,
    ) -> (r: Result<ChainResult, Error>)
        requires
            forall|req: &ChainRequest| #[trigger] call_requires(client_fn, (req,)),
        ensures
            self@.len() == 0 ==> r is Ok,
            match r {
                Ok(cr) => {
                    &&& cr.success
                    &&& cr.context@.len() == self@.len()
                    &&& (forall|i: int|
                        0 <= i < self@.len() ==> #[trigger] step_consistent(
                            self@[i],
                            i,
                            cr.context@.subrange(0, i),
                            cr.context@[i],
                        ))
                    &&& (forall|i: int|
                        0 <= i < cr.context.steps@.len() ==> call_ensures(
                            client_fn,
                            (&(#[trigger] cr.context.steps@[i]).request,),
                            Ok::<HttpResponse, Error>(cr.context.steps@[i].response),
                        ))
                    &&& cr.variables@ == chain_vars(cr.context@)
                },
                Err(e) => exists|done: Seq<StepV>, req: ChainRequest|
                    #[trigger] chain_failure(client_fn, self@, done, req, e),
            },
    {
        let mut vars = Variables::new();
        let mut context = ChainContext::new();
        let n = self.requests.len();
        let mut i: usize = 0;
        proof {
            assert(chain_vars(context@) =~= vars@);
        }
        while i < n
            invariant
                0 <= i <= n,
                n == self@.len(),
                context@.len() == i,
                vars@ == chain_vars(context@),
                forall|k: int|
                    0 <= k < i ==> #[trigger] step_consistent(
                        self@[k],
                        k,
                        context@.subrange(0, k),
                        context@[k],
                    ),
                forall|k: int|
                    0 <= k < i ==> call_ensures(
                        client_fn,
                        (&(#[trigger] context.steps@[k]).request,),
                        Ok::<HttpResponse, Error>(context.steps@[k].response),
                    ),
                forall|req: &ChainRequest| #[trigger] call_requires(client_fn, (req,)),
            decreases n - i,
        {
            let substituted = self.requests[i].substitute_variables(&vars);
            let index = context.steps.len();
            let name: String = match &substituted.name {
                Some(s) => s.clone(),
                None => {
                    let mut nm = String::from_str("req_");
                    text::push_u64(&mut nm, index as u64);
                    nm
                },
            };
            let response = match client_fn(&substituted) {
                Ok(resp) => resp,
                Err(e) => {
                    proof {
                        assert(chain_failure(client_fn, self@, context@, substituted, e));
                    }
                    return Err(e);
                },
            };
            let extracted = match Extractor::apply_extractions(&response, &substituted.extractions)
                {
                Ok(v) => v,
                Err(e) => {
                    proof {
                        assert(call_ensures(
                            client_fn,
                            (&substituted,),
                            Ok::<HttpResponse, Error>(response),
                        ));
                        assert(chain_failure(client_fn, self@, context@, substituted, e));
                    }
                    return Err(e);
                },
            };
            let ghost ctx0 = context@;
            let ghost vars0 = vars@;
            vars.merge(&extracted);
            let step = ChainStep { name, request: substituted, response, extracted_vars: extracted };
            proof {
                assert(step@.name == step_name(self@[i as int], i as int));
                assert(step_consistent(self@[i as int], i as int, ctx0, step@));
            }
            context.steps.push(step);
            proof {
                assert(context@ =~= ctx0.push(step@));
                assert(context@.drop_last() =~= ctx0);
                assert(context@.last() == step@);
                assert(context.steps@.last().request == substituted);
                assert(context.steps@.last().response == response);
                assert(call_ensures(
                    client_fn,
                    (&context.steps@[i as int].request,),
                    Ok::<HttpResponse, Error>(context.steps@[i as int].response),
                ));
                assert(vars@ == merge_seq(chain_vars(ctx0), step@.extracted));
                assert(vars@ == chain_vars(context@));
                assert forall|k: int| 0 <= k < i + 1 implies #[trigger] step_consistent(
                    self@[k],
                    k,
                    context@.subrange(0, k),
                    context@[k],
                ) by {
                    if k < i {
                        assert(context@.subrange(0, k) =~= ctx0.subrange(0, k));
                        assert(context@[k] == ctx0[k]);
                        assert(step_consistent(self@[k], k, ctx0.subrange(0, k), ctx0[k]));
                    } else {
                        assert(context@.subrange(0, k) =~= ctx0);
                        assert(context@[k] == step@);
                    }
                }
            }
            i = i + 1;
        }
        Ok(ChainResult { context, variables: vars, success: true })
    }
}

impl Default for RequestChain {
    fn default() -> (r: RequestChain)
        ensures
            r@ == Seq::<CrV>::empty(),
    {
        RequestChain::new()
    }
}

} // verus!
