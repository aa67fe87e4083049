//! A JSON-like dynamic value and verified navigation over it.
//!
//! Documents are parsed by `serde_json` behind a trusted wrapper; everything
//! that reads, compares, navigates or renders a value is verified here.

use vstd::prelude::*;
use crate::text;

verus! {

/// A JSON value as a closed tagged union.
///
/// A number that fits an `i64` is held as `Num`; any other JSON number is
/// kept as its literal text in `NumText`.  Object members keep the order in
/// which the parser produced them; key lookup takes the first match.
#[verifier::ext_equal]
#[derive(Debug, PartialEq, Eq)]
pub enum JsonValue {
    Null,
    Bool(bool),
    Num(i64),
    NumText(String),
    Str(String),
    Arr(Vec<JsonValue>),
    Obj(Vec<(String, JsonValue)>),
}

/// The six JSON type tags.
#[derive(Debug, Clone, Copy, PartialEq, Eq, Structural)]
pub enum JsonType {
    Object,
    Array,
    Text,
    Number,
    Boolean,
    Null,
}

impl JsonType {
    /// The tag's conventional lower-case name.
    pub open spec fn spec_name(self) -> Seq<char> {
        match self {
            JsonType::Object => "object"@,
            JsonType::Array => "array"@,
            JsonType::Text => "string"@,
            JsonType::Number => "number"@,
            JsonType::Boolean => "boolean"@,
            JsonType::Null => "null"@,
        }
    }

    /// Renders the tag's conventional lower-case name.
    pub fn name_text(&self) -> (r: String)
        ensures
            r@ == self.spec_name(),
    {
        match self {
            JsonType::Object => String::from_str("object"),
            JsonType::Array => String::from_str("array"),
            JsonType::Text => String::from_str("string"),
            JsonType::Number => String::from_str("number"),
            JsonType::Boolean => String::from_str("boolean"),
            JsonType::Null => String::from_str("null"),
        }
    }
}

/// The type tag of a value.
pub open spec fn spec_type_of(v: JsonValue) -> JsonType {
    match v {
        JsonValue::Obj(_) => JsonType::Object,
        JsonValue::Arr(_) => JsonType::Array,
        JsonValue::Str(_) => JsonType::Text,
        JsonValue::Num(_) => JsonType::Number,
        JsonValue::NumText(_) => JsonType::Number,
        JsonValue::Bool(_) => JsonType::Boolean,
        JsonValue::Null => JsonType::Null,
    }
}

/// Classifies a value into its JSON type tag.
pub fn determine_json_type(v: &JsonValue) -> (t: JsonType)
    ensures
        t == spec_type_of(*v),
{
    match v {
        JsonValue::Obj(_) => JsonType::Object,
        JsonValue::Arr(_) => JsonType::Array,
        JsonValue::Str(_) => JsonType::Text,
        JsonValue::Num(_) => JsonType::Number,
        JsonValue::NumText(_) => JsonType::Number,
        JsonValue::Bool(_) => JsonType::Boolean,
        JsonValue::Null => JsonType::Null,
    }
}

/// The type tag of a denotation.
pub open spec fn jv_type_of(j: Jv) -> JsonType {
    match j {
        Jv::Obj(_) => JsonType::Object,
        Jv::Arr(_) => JsonType::Array,
        Jv::Str(_) => JsonType::Text,
        Jv::Int(_) => JsonType::Number,
        Jv::NumText(_) => JsonType::Number,
        Jv::Bool(_) => JsonType::Boolean,
        Jv::Null => JsonType::Null,
    }
}

/// A value's type tag is determined by its denotation.
pub proof fn lemma_type_of_view(v: JsonValue)
    ensures
        spec_type_of(v) == jv_type_of(jv_of(v)),
{
}

/// The mathematical shape of a JSON value: what a `JsonValue` denotes,
/// with every string read as its character sequence.
#[verifier::ext_equal]
pub enum Jv {
    Null,
    Bool(bool),
    Int(i64),
    NumText(Seq<char>),
    Str(Seq<char>),
    Arr(Seq<Jv>),
    Obj(Seq<(Seq<char>, Jv)>),
}

/// The denotation of a value.
pub open spec fn jv_of(v: JsonValue) -> Jv
    decreases v,
{
    match v {
        JsonValue::Null => Jv::Null,
        JsonValue::Bool(b) => Jv::Bool(b),
        JsonValue::Num(n) => Jv::Int(n),
        JsonValue::NumText(s) => Jv::NumText(s@),
        JsonValue::Str(s) => Jv::Str(s@),
        JsonValue::Arr(a) => Jv::Arr(jv_of_seq(a@)),
        JsonValue::Obj(o) => Jv::Obj(jv_of_members(o@)),
    }
}

/// The denotations of a sequence of values.
pub open spec fn jv_of_seq(items: Seq<JsonValue>) -> Seq<Jv>
    decreases items,
{
    if items.len() == 0 {
        Seq::empty()
    } else {
        seq![jv_of(items[0])] + jv_of_seq(items.drop_first())
    }
}

/// The denotations of an object's members.
pub open spec fn jv_of_members(members: Seq<(String, JsonValue)>) -> Seq<(Seq<char>, Jv)>
    decreases members,
{
    if members.len() == 0 {
        Seq::empty()
    } else {
        seq![(members[0].0@, jv_of(members[0].1))] + jv_of_members(members.drop_first())
    }
}

impl View for JsonValue {
    type V = Jv;

    open spec fn view(&self) -> Jv {
        jv_of(*self)
    }
}

pub proof fn lemma_jv_of_seq_index(items: Seq<JsonValue>)
    ensures
        jv_of_seq(items).len() == items.len(),
        forall|i: int| 0 <= i < items.len() ==> #[trigger] jv_of_seq(items)[i] == jv_of(items[i]),
    decreases items.len(),
{
    if items.len() > 0 {
        lemma_jv_of_seq_index(items.drop_first());
    }
}

pub proof fn lemma_jv_of_members_index(members: Seq<(String, JsonValue)>)
    ensures
        jv_of_members(members).len() == members.len(),
        forall|i: int|
            0 <= i < members.len() ==> #[trigger] jv_of_members(members)[i] == (
                members[i].0@,
                jv_of(members[i].1),
            ),
    decreases members.len(),
{
    if members.len() > 0 {
        lemma_jv_of_members_index(members.drop_first());
    }
}

/// Structural equality and equality of denotations coincide.
pub proof fn lemma_json_equal_view(a: JsonValue, b: JsonValue)
    ensures
        json_equal(a, b) == (jv_of(a) == jv_of(b)),
    decreases a,
{
    match (a, b) {
        (JsonValue::Arr(x), JsonValue::Arr(y)) => {
            lemma_jv_of_seq_index(x@);
            lemma_jv_of_seq_index(y@);
            if x@.len() == y@.len() {
                assert forall|i: int| 0 <= i < x@.len() implies (#[trigger] json_equal(
                    x@[i],
                    y@[i],
                )) == (jv_of(x@[i]) == jv_of(y@[i])) by {
                    assert(decreases_to!(a => a->Arr_0));
                    assert(decreases_to!(a->Arr_0 => a->Arr_0[i]));
                    lemma_json_equal_view(x@[i], y@[i]);
                }
                if json_equal(a, b) {
                    assert forall|i: int| 0 <= i < x@.len() implies #[trigger] jv_of_seq(x@)[i]
                        == jv_of_seq(y@)[i] by {
                        assert(json_equal(x@[i], y@[i]));
                    }
                    assert(jv_of_seq(x@) =~~= jv_of_seq(y@));
                    assert(jv_of(a) == jv_of(b));
                } else if jv_of(a) == jv_of(b) {
                    assert forall|i: int| #![all_triggers] 0 <= i < x@.len() implies json_equal(
                        x@[i],
                        y@[i],
                    ) by {
                        assert(jv_of_seq(x@)[i] == jv_of_seq(y@)[i]);
                    }
                    assert(json_equal(a, b));
                }
            } else {
                assert(jv_of_seq(x@).len() != jv_of_seq(y@).len());
                assert(jv_of(a) != jv_of(b));
            }
        },
        (JsonValue::Obj(x), JsonValue::Obj(y)) => {
            lemma_jv_of_members_index(x@);
            lemma_jv_of_members_index(y@);
            if x@.len() == y@.len() {
                assert forall|i: int| 0 <= i < x@.len() implies (#[trigger] json_equal(
                    x@[i].1,
                    y@[i].1,
                )) == (jv_of(x@[i].1) == jv_of(y@[i].1)) by {
                    assert(decreases_to!(a => a->Obj_0));
                    assert(decreases_to!(a->Obj_0 => a->Obj_0[i]));
                    assert(decreases_to!(a->Obj_0[i] => a->Obj_0[i].1));
                    lemma_json_equal_view(x@[i].1, y@[i].1);
                }
                if json_equal(a, b) {
                    assert forall|i: int| 0 <= i < x@.len() implies #[trigger] jv_of_members(
                        x@,
                    )[i] == jv_of_members(y@)[i] by {
                        assert(x@[i].0@ == y@[i].0@ && json_equal(x@[i].1, y@[i].1));
                    }
                    assert(jv_of_members(x@) =~~= jv_of_members(y@));
                    assert(jv_of(a) == jv_of(b));
                } else if jv_of(a) == jv_of(b) {
                    assert forall|i: int|
                        #![all_triggers]
                        0 <= i < x@.len() implies x@[i].0@ == y@[i].0@ && json_equal(
                        x@[i].1,
                        y@[i].1,
                    ) by {
                        assert(jv_of_members(x@)[i] == jv_of_members(y@)[i]);
                    }
                    assert(json_equal(a, b));
                }
            } else {
                assert(jv_of_members(x@).len() != jv_of_members(y@).len());
                assert(jv_of(a) != jv_of(b));
            }
        },
        _ => {},
    }
}

/// Structural equality of two JSON values.
pub open spec fn json_equal(a: JsonValue, b: JsonValue) -> bool
    decreases a,
{
    match (a, b) {
        (JsonValue::Null, JsonValue::Null) => true,
        (JsonValue::Bool(x), JsonValue::Bool(y)) => x == y,
        (JsonValue::Num(x), JsonValue::Num(y)) => x == y,
        (JsonValue::NumText(x), JsonValue::NumText(y)) => x@ == y@,
        (JsonValue::Str(x), JsonValue::Str(y)) => x@ == y@,
        (JsonValue::Arr(x), JsonValue::Arr(y)) => x@.len() == y@.len() && forall|i: int|
            #![all_triggers]
            0 <= i < x@.len() ==> json_equal(x@[i], y@[i]),
        (JsonValue::Obj(x), JsonValue::Obj(y)) => x@.len() == y@.len() && forall|i: int|
            #![all_triggers]
            0 <= i < x@.len() ==> x@[i].0@ == y@[i].0@ && json_equal(x@[i].1, y@[i].1),
        _ => false,
    }
}

impl JsonValue {
    /// Compares two values structurally.
    pub fn deep_eq(&self, other: &JsonValue) -> (r: bool)
        ensures
            r == json_equal(*self, *other),
            r == (self@ == other@),
    {
        let r = self.eq_rec(other);
        proof {
            lemma_json_equal_view(*self, *other);
        }
        r
    }

    #[verifier::loop_isolation(false)]
    fn eq_rec(&self, other: &JsonValue) -> (r: bool)
        ensures
            r == json_equal(*self, *other),
        decreases *self,
    {
        match (self, other) {
            (JsonValue::Null, JsonValue::Null) => true,
            (JsonValue::Bool(x), JsonValue::Bool(y)) => x == y,
            (JsonValue::Num(x), JsonValue::Num(y)) => x == y,
            (JsonValue::NumText(x), JsonValue::NumText(y)) => text::str_eq(x.as_str(), y.as_str()),
            (JsonValue::Str(x), JsonValue::Str(y)) => text::str_eq(x.as_str(), y.as_str()),
            (JsonValue::Arr(x), JsonValue::Arr(y)) => {
                if x.len() != y.len() {
                    return false;
                }
                let n = x.len();
                let mut i: usize = 0;
                while i < n
                    invariant
                        0 <= i <= n,
                        n == x@.len(),
                        n == y@.len(),
                        forall|k: int| #![all_triggers] 0 <= k < i ==> json_equal(x@[k], y@[k]),
                    decreases n - i,
                {
                    proof {
                        assert(decreases_to!(*self => self->Arr_0));
                        assert(decreases_to!(self->Arr_0 => self->Arr_0[i as int]));
                    }
                    if !x[i].eq_rec(&y[i]) {
                        proof {
                            assert(!json_equal(x@[i as int], y@[i as int]));
                        }
                        return false;
                    }
                    i = i + 1;
                }
                true
            },
            (JsonValue::Obj(x), JsonValue::Obj(y)) => {
                if x.len() != y.len() {
                    return false;
                }
                let n = x.len();
                let mut i: usize = 0;
                while i < n
                    invariant
                        0 <= i <= n,
                        n == x@.len(),
                        n == y@.len(),
                        forall|k: int|
                            #![all_triggers]
                            0 <= k < i ==> x@[k].0@ == y@[k].0@ && json_equal(x@[k].1, y@[k].1),
                    decreases n - i,
                {
                    if !text::str_eq(x[i].0.as_str(), y[i].0.as_str()) {
                        proof {
                            assert(!(x@[i as int].0@ == y@[i as int].0@ && json_equal(
                                x@[i as int].1,
                                y@[i as int].1,
                            )));
                        }
                        return false;
                    }
                    proof {
                        assert(decreases_to!(*self => self->Obj_0));
                        assert(decreases_to!(self->Obj_0 => self->Obj_0[i as int]));
                        assert(decreases_to!(self->Obj_0[i as int] => self->Obj_0[i as int].1));
                    }
                    if !x[i].1.eq_rec(&y[i].1) {
                        proof {
                            assert(!json_equal(x@[i as int].1, y@[i as int].1));
                        }
                        return false;
                    }
                    proof {
                        assert(x@[i as int].0@ == y@[i as int].0@ && json_equal(
                            x@[i as int].1,
                            y@[i as int].1,
                        ));
                    }
                    i = i + 1;
                }
                true
            },
            _ => false,
        }
    }

    /// Produces a structurally equal copy of this value.
    pub fn duplicate(&self) -> (r: JsonValue)
        ensures
            r@ == self@,
            json_equal(r, *self),
    {
        let r = self.copy_rec();
        proof {
            lemma_json_equal_view(r, *self);
        }
        r
    }

    #[verifier::loop_isolation(false)]
    fn copy_rec(&self) -> (r: JsonValue)
        ensures
            json_equal(r, *self),
        decreases *self,
    {
        match self {
            JsonValue::Null => JsonValue::Null,
            JsonValue::Bool(b) => JsonValue::Bool(*b),
            JsonValue::Num(n) => JsonValue::Num(*n),
            JsonValue::NumText(s) => JsonValue::NumText(s.clone()),
            JsonValue::Str(s) => JsonValue::Str(s.clone()),
            JsonValue::Arr(items) => {
                let n = items.len();
                let mut out: Vec<JsonValue> = Vec::new();
                let mut i: usize = 0;
                while i < n
                    invariant
                        0 <= i <= n,
                        n == items@.len(),
                        out@.len() == i,
                        forall|k: int| #![all_triggers] 0 <= k < i ==> json_equal(out@[k], items@[k]),
                    decreases n - i,
                {
                    proof {
                        assert(decreases_to!(*self => self->Arr_0));
                        assert(decreases_to!(self->Arr_0 => self->Arr_0[i as int]));
                    }
                    out.push(items[i].copy_rec());
                    i = i + 1;
                }
                JsonValue::Arr(out)
            },
            JsonValue::Obj(members) => {
                let n = members.len();
                let mut out: Vec<(String, JsonValue)> = Vec::new();
                let mut i: usize = 0;
                while i < n
                    invariant
                        0 <= i <= n,
                        n == members@.len(),
                        out@.len() == i,
                        forall|k: int|
                            #![all_triggers]
                            0 <= k < i ==> out@[k].0@ == members@[k].0@ && json_equal(
                                out@[k].1,
                                members@[k].1,
                            ),
                    decreases n - i,
                {
                    proof {
                        assert(decreases_to!(*self => self->Obj_0));
                        assert(decreases_to!(self->Obj_0 => self->Obj_0[i as int]));
                        assert(decreases_to!(self->Obj_0[i as int] => self->Obj_0[i as int].1));
                    }
                    out.push((members[i].0.clone(), members[i].1.copy_rec()));
                    i = i + 1;
                }
                JsonValue::Obj(out)
            },
        }
    }

    /// The held text, when this value is a string.
    pub fn as_str(&self) -> (r: Option<&str>)
        ensures
            match r {
                Some(s) => self is Str && s@ == self->Str_0@,
                None => !(self is Str),
            },
    {
        match self {
            JsonValue::Str(s) => Some(s.as_str()),
            _ => None,
        }
    }

    /// The held integer, when this value is a number that fits an `i64`.
    pub fn as_i64(&self) -> (r: Option<i64>)
        ensures
            match r {
                Some(n) => self is Num && n == self->Num_0,
                None => !(self is Num),
            },
    {
        match self {
            JsonValue::Num(n) => Some(*n),
            _ => None,
        }
    }

    /// The held boolean, when this value is a boolean.
    pub fn as_bool(&self) -> (r: Option<bool>)
        ensures
            match r {
                Some(b) => self is Bool && b == self->Bool_0,
                None => !(self is Bool),
            },
    {
        match self {
            JsonValue::Bool(b) => Some(*b),
            _ => None,
        }
    }

    /// Whether this value is JSON null.
    pub fn is_null(&self) -> (r: bool)
        ensures
            r == (self is Null),
    {
        match self {
            JsonValue::Null => true,
            _ => false,
        }
    }
}

/// The value under `key` in an object's member list: first match wins.
pub open spec fn obj_lookup(members: Seq<(String, JsonValue)>, key: Seq<char>) -> Option<
    JsonValue,
>
    decreases members.len(),
{
    if members.len() == 0 {
        None
    } else if members[0].0@ == key {
        Some(members[0].1)
    } else {
        obj_lookup(members.drop_first(), key)
    }
}

/// Looks a key up in an object's member list.
#[verifier::loop_isolation(false)]
pub fn lookup_member<'a>(members: &'a Vec<(String, JsonValue)>, key: &str) -> (r: Option<
    &'a JsonValue,
>)
    ensures
        match r {
            Some(v) => obj_lookup(members@, key@) == Some(*v),
            None => obj_lookup(members@, key@) is None,
        },
{
    let n = members.len();
    let mut i: usize = 0;
    proof {
        assert(members@.subrange(0, n as int) =~= members@);
    }
    while i < n
        invariant
            0 <= i <= n,
            n == members@.len(),
            obj_lookup(members@, key@) == obj_lookup(
                members@.subrange(i as int, n as int),
                key@,
            ),
            forall|k: int| 0 <= k < i ==> members@[k].0@ != key@,
        decreases n - i,
    {
        let ghost rest = members@.subrange(i as int, n as int);
        if text::str_eq(members[i].0.as_str(), key) {
            return Some(&members[i].1);
        }
        proof {
            assert(rest.drop_first() =~= members@.subrange(i + 1, n as int));
        }
        i = i + 1;
    }
    None
}

/// How navigating a JSON path can fail.
#[derive(Debug, Clone, Copy, PartialEq, Eq, Structural)]
pub enum PathErrKind {
    /// A `[` with no matching `]`.
    MalformedIndex,
    /// Bracket contents that are not a valid index.
    InvalidIndex,
    /// A missing key, an out-of-range index, or a null value on the way.
    NotFound,
}

/// The child of `v` under `key`: a missing key or a non-object yields null.
pub open spec fn index_by_key(v: JsonValue, key: Seq<char>) -> JsonValue {
    match v {
        JsonValue::Obj(m) => match obj_lookup(m@, key) {
            Some(x) => x,
            None => JsonValue::Null,
        },
        _ => JsonValue::Null,
    }
}

/// The element of `v` at `i`: a bad index or a non-array yields null.
pub open spec fn index_by_pos(v: JsonValue, i: int) -> JsonValue {
    match v {
        JsonValue::Arr(a) => if 0 <= i < a@.len() {
            a@[i]
        } else {
            JsonValue::Null
        },
        _ => JsonValue::Null,
    }
}

/// One path segment applied to `v`.
///
/// A segment is a key, optionally followed by a bracketed decimal index;
/// a segment such as `[2]` with no key indexes `v` itself.  The key part,
/// when present, is looked up first; the index is then applied to what the
/// lookup produced.
pub open spec fn nav_step(v: JsonValue, part: Seq<char>) -> Result<JsonValue, PathErrKind> {
    let k = text::index_of(part, '[');
    if k < 0 {
        Ok(index_by_key(v, part))
    } else {
        let key = part.subrange(0, k);
        let v1 = if key.len() > 0 {
            index_by_key(v, key)
        } else {
            v
        };
        let e = text::index_of(part, ']');
        if e < 0 {
            Err(PathErrKind::MalformedIndex)
        } else if e < k + 1 {
            Err(PathErrKind::InvalidIndex)
        } else {
            let digits = part.subrange(k + 1, e);
            if digits.len() > 0 && text::all_digits(digits) && text::dec_val(digits)
                <= usize::MAX {
                Ok(index_by_pos(v1, text::dec_val(digits)))
            } else {
                Err(PathErrKind::InvalidIndex)
            }
        }
    }
}

/// A whole path applied to `v`, segment by segment.
///
/// Empty segments are skipped; reaching null at the end of any segment is a
/// `NotFound` failure.
pub open spec fn nav_parts(v: JsonValue, parts: Seq<Seq<char>>) -> Result<JsonValue, PathErrKind>
    decreases parts.len(),
{
    if parts.len() == 0 {
        Ok(v)
    } else if parts[0].len() == 0 {
        nav_parts(v, parts.drop_first())
    } else {
        match nav_step(v, parts[0]) {
            Ok(next) => if next is Null {
                Err(PathErrKind::NotFound)
            } else {
                nav_parts(next, parts.drop_first())
            },
            Err(e) => Err(e),
        }
    }
}

/// The result of navigating the dotted `path` through `v`.
pub open spec fn nav_path(v: JsonValue, path: Seq<char>) -> Result<JsonValue, PathErrKind> {
    nav_parts(v, text::split_spec(path, '.'))
}

/// Looks `key` up in `v`; `None` stands for the null that a missing key or
/// a non-object produces.
fn key_child<'a>(v: &'a JsonValue, key: &str) -> (r: Option<&'a JsonValue>)
    ensures
        match r {
            Some(c) => index_by_key(*v, key@) == *c,
            None => index_by_key(*v, key@) is Null,
        },
{
    match v {
        JsonValue::Obj(members) => lookup_member(members, key),
        _ => None,
    }
}

/// Indexes `v` at `i`; `None` stands for the null that a bad index or a
/// non-array produces.
fn pos_child<'a>(v: &'a JsonValue, i: usize) -> (r: Option<&'a JsonValue>)
    ensures
        match r {
            Some(c) => index_by_pos(*v, i as int) == *c,
            None => index_by_pos(*v, i as int) is Null,
        },
{
    match v {
        JsonValue::Arr(items) => {
            if i < items.len() {
                Some(&items[i])
            } else {
                None
            }
        },
        _ => None,
    }
}

/// Applies one non-empty path segment to `v`.
///
/// `Ok(None)` stands for a null that arose from a missing key, a bad index,
/// or indexing a non-container.
#[verifier::loop_isolation(false)]
fn step_child<'a>(v: &'a JsonValue, part: &str) -> (r: Result<
    Option<&'a JsonValue>,
    PathErrKind,
>)
    ensures
        match r {
            Ok(Some(c)) => nav_step(*v, part@) == Ok::<JsonValue, PathErrKind>(*c),
            Ok(None) => nav_step(*v, part@) matches Ok(x) && x is Null,
            Err(e) => nav_step(*v, part@) == Err::<JsonValue, PathErrKind>(e),
        },
{
    let n = part.unicode_len();
    match text::find_char(part, '[', 0) {
        None => {
            proof {
                text::lemma_index_of_absent(part@, '[');
            }
            Ok(key_child(v, part))
        },
        Some(k) => {
            proof {
                text::lemma_index_of_found(part@, '[', k as int);
            }
            let cur: Option<&JsonValue> = if k > 0 {
                let key = part.substring_char(0, k);
                key_child(v, key)
            } else {
                Some(v)
            };
            match text::find_char(part, ']', 0) {
                None => {
                    proof {
                        text::lemma_index_of_absent(part@, ']');
                    }
                    Err(PathErrKind::MalformedIndex)
                },
                Some(e) => {
                    proof {
                        text::lemma_index_of_found(part@, ']', e as int);
                    }
                    if e < k + 1 {
                        return Err(PathErrKind::InvalidIndex);
                    }
                    let digits = part.substring_char(k + 1, e);
                    match text::parse_u64(digits) {
                        Some(idx) => {
                            if idx <= usize::MAX as u64 {
                                match cur {
                                    Some(inner) => Ok(pos_child(inner, idx as usize)),
                                    None => {
                                        proof {
                                            assert(index_by_pos(
                                                index_by_key(*v, part@.subrange(0, k as int)),
                                                idx as int,
                                            ) is Null);
                                        }
                                        Ok(None)
                                    },
                                }
                            } else {
                                Err(PathErrKind::InvalidIndex)
                            }
                        },
                        None => Err(PathErrKind::InvalidIndex),
                    }
                },
            }
        },
    }
}

/// Navigates the dotted `path` through `v`, as `nav_path` describes.
#[verifier::loop_isolation(false)]
pub fn navigate_path(v: &JsonValue, path: &str) -> (r: Result<JsonValue, PathErrKind>)
    ensures
        match r {
            Ok(found) => nav_path(*v, path@) matches Ok(x) && found@ == x@,
            Err(e) => nav_path(*v, path@) == Err::<JsonValue, PathErrKind>(e),
        },
{
    let parts = text::split_char(path, '.');
    let n = parts.len();
    let mut cur: &JsonValue = v;
    let mut i: usize = 0;
    proof {
        assert(parts@.map_values(|x: String| x@).subrange(i as int, n as int) =~= text::split_spec(
            path@,
            '.',
        ));
    }
    while i < n
        invariant
            0 <= i <= n,
            nav_parts(*v, text::split_spec(path@, '.')) == nav_parts(
                *cur,
                parts@.map_values(|x: String| x@).subrange(i as int, n as int),
            ),
        decreases n - i,
    {
        let ghost rest = parts@.map_values(|x: String| x@).subrange(i as int, n as int);
        proof {
            assert(rest.drop_first() =~= parts@.map_values(|x: String| x@).subrange(
                i + 1,
                n as int,
            ));
        }
        if parts[i].as_str().unicode_len() == 0 {
            i = i + 1;
            continue;
        }
        match step_child(cur, parts[i].as_str()) {
            Ok(Some(c)) => {
                if c.is_null() {
                    return Err(PathErrKind::NotFound);
                }
                cur = c;
            },
            Ok(None) => {
                return Err(PathErrKind::NotFound);
            },
            Err(e) => {
                return Err(e);
            },
        }
        i = i + 1;
    }
    proof {
        assert(parts@.map_values(|x: String| x@).subrange(n as int, n as int)
            =~= Seq::<Seq<char>>::empty());
    }
    Ok(cur.duplicate())
}

/// Plain dotted-key navigation: no brackets, no empty-segment skipping.
///
/// This is the narrower dialect that assertions use; a missing key or a
/// non-object on the way yields `None`.
pub open spec fn get_path_spec(v: JsonValue, parts: Seq<Seq<char>>) -> Option<JsonValue>
    decreases parts.len(),
{
    if parts.len() == 0 {
        Some(v)
    } else {
        match v {
            JsonValue::Obj(m) => match obj_lookup(m@, parts[0]) {
                Some(next) => get_path_spec(next, parts.drop_first()),
                None => None,
            },
            _ => None,
        }
    }
}

/// Navigates `path` by plain key access, segment by segment.
#[verifier::loop_isolation(false)]
pub fn get_json_value(v: &JsonValue, path: &str) -> (r: Option<JsonValue>)
    ensures
        match r {
            Some(found) => get_path_spec(*v, text::split_spec(path@, '.')) matches Some(x)
                && found@ == x@,
            None => get_path_spec(*v, text::split_spec(path@, '.')) is None,
        },
{
    let parts = text::split_char(path, '.');
    let n = parts.len();
    let mut cur: &JsonValue = v;
    let mut i: usize = 0;
    proof {
        assert(parts@.map_values(|x: String| x@).subrange(i as int, n as int) =~= text::split_spec(
            path@,
            '.',
        ));
    }
    while i < n
        invariant
            0 <= i <= n,
            get_path_spec(*v, text::split_spec(path@, '.')) == get_path_spec(
                *cur,
                parts@.map_values(|x: String| x@).subrange(i as int, n as int),
            ),
        decreases n - i,
    {
        let ghost rest = parts@.map_values(|x: String| x@).subrange(i as int, n as int);
        proof {
            assert(rest.drop_first() =~= parts@.map_values(|x: String| x@).subrange(
                i + 1,
                n as int,
            ));
        }
        match cur {
            JsonValue::Obj(members) => {
                match lookup_member(members, parts[i].as_str()) {
                    Some(c) => {
                        cur = c;
                    },
                    None => {
                        return None;
                    },
                }
            },
            _ => {
                return None;
            },
        }
        i = i + 1;
    }
    proof {
        assert(parts@.map_values(|x: String| x@).subrange(n as int, n as int)
            =~= Seq::<Seq<char>>::empty());
    }
    Some(cur.duplicate())
}

/// The character for one hexadecimal digit, lower case.
pub open spec fn hex_char(d: int) -> char {
    if d == 0 { '0' }
    else if d == 1 { '1' }
    else if d == 2 { '2' }
    else if d == 3 { '3' }
    else if d == 4 { '4' }
    else if d == 5 { '5' }
    else if d == 6 { '6' }
    else if d == 7 { '7' }
    else if d == 8 { '8' }
    else if d == 9 { '9' }
    else if d == 10 { 'a' }
    else if d == 11 { 'b' }
    else if d == 12 { 'c' }
    else if d == 13 { 'd' }
    else if d == 14 { 'e' }
    else { 'f' }
}

/// Executable hexadecimal digit.
pub fn hex_char_exec(d: u32) -> (c: char)
    requires
        d <= 15,
    ensures
        c == hex_char(d as int),
{
    if d == 0 { '0' }
    else if d == 1 { '1' }
    else if d == 2 { '2' }
    else if d == 3 { '3' }
    else if d == 4 { '4' }
    else if d == 5 { '5' }
    else if d == 6 { '6' }
    else if d == 7 { '7' }
    else if d == 8 { '8' }
    else if d == 9 { '9' }
    else if d == 10 { 'a' }
    else if d == 11 { 'b' }
    else if d == 12 { 'c' }
    else if d == 13 { 'd' }
    else if d == 14 { 'e' }
    else { 'f' }
}

/// How one character appears inside a JSON string literal.
pub open spec fn esc_char(c: char) -> Seq<char> {
    if c == '"' {
        seq!['\\', '"']
    } else if c == '\\' {
        seq!['\\', '\\']
    } else if c == '\n' {
        seq!['\\', 'n']
    } else if c == '\r' {
        seq!['\\', 'r']
    } else if c == '\t' {
        seq!['\\', 't']
    } else if c == '\u{8}' {
        seq!['\\', 'b']
    } else if c == '\u{c}' {
        seq!['\\', 'f']
    } else if (c as u32) < 32 {
        seq!['\\', 'u', '0', '0', hex_char(c as u32 as int / 16), hex_char(c as u32 as int % 16)]
    } else {
        seq![c]
    }
}

/// The body of a JSON string literal for `s`.
pub open spec fn escape_spec(s: Seq<char>) -> Seq<char>
    decreases s.len(),
{
    if s.len() == 0 {
        Seq::empty()
    } else {
        esc_char(s[0]) + escape_spec(s.drop_first())
    }
}

/// Appends the escaped form of `s@[from..]` to `out`.
fn write_escaped(s: &str, from: usize, out: &mut String)
    requires
        from <= s@.len(),
    ensures
        final(out)@ == old(out)@ + escape_spec(s@.subrange(from as int, s@.len() as int)),
    decreases s@.len() - from,
{
    let n = s.unicode_len();
    let ghost rest = s@.subrange(from as int, n as int);
    if from == n {
        proof {
            assert(old(out)@ + escape_spec(rest) =~= old(out)@);
        }
        return;
    }
    let c = s.get_char(from);
    let u = c as u32;
    if c == '"' {
        out.append("\\\"");
        proof {
            reveal_strlit("\\\"");
            assert("\\\""@ =~= esc_char(c));
        }
    } else if c == '\\' {
        out.append("\\\\");
        proof {
            reveal_strlit("\\\\");
            assert("\\\\"@ =~= esc_char(c));
        }
    } else if c == '\n' {
        out.append("\\n");
        proof {
            reveal_strlit("\\n");
            assert("\\n"@ =~= esc_char(c));
        }
    } else if c == '\r' {
        out.append("\\r");
        proof {
            reveal_strlit("\\r");
            assert("\\r"@ =~= esc_char(c));
        }
    } else if c == '\t' {
        out.append("\\t");
        proof {
            reveal_strlit("\\t");
            assert("\\t"@ =~= esc_char(c));
        }
    } else if u == 8 {
        out.append("\\b");
        proof {
            reveal_strlit("\\b");
            assert("\\b"@ =~= esc_char(c));
        }
    } else if u == 12 {
        out.append("\\f");
        proof {
            reveal_strlit("\\f");
            assert("\\f"@ =~= esc_char(c));
        }
    } else if u < 32 {
        text::push_char(out, '\\');
        text::push_char(out, 'u');
        text::push_char(out, '0');
        text::push_char(out, '0');
        text::push_char(out, hex_char_exec(u / 16));
        text::push_char(out, hex_char_exec(u % 16));
        proof {
            assert(out@ =~= old(out)@ + esc_char(c));
        }
    } else {
        text::push_char(out, c);
        proof {
            assert(out@ =~= old(out)@ + esc_char(c));
        }
    }
    write_escaped(s, from + 1, out);
    proof {
        assert(rest[0] == c);
        assert(rest.drop_first() =~= s@.subrange(from + 1, n as int));
        assert(old(out)@ + escape_spec(rest) =~= old(out)@ + esc_char(c) + escape_spec(
            rest.drop_first(),
        ));
    }
}

/// The compact JSON rendering of a value.
pub open spec fn json_text(v: JsonValue) -> Seq<char>
    decreases v,
{
    match v {
        JsonValue::Null => "null"@,
        JsonValue::Bool(b) => if b {
            "true"@
        } else {
            "false"@
        },
        JsonValue::Num(n) => text::dec_str_signed(n as int),
        JsonValue::NumText(s) => s@,
        JsonValue::Str(s) => seq!['"'] + escape_spec(s@) + seq!['"'],
        JsonValue::Arr(a) => seq!['['] + items_text(a@) + seq![']'],
        JsonValue::Obj(o) => seq!['{'] + members_text(o@) + seq!['}'],
    }
}

/// The comma-separated renderings of array items.
pub open spec fn items_text(items: Seq<JsonValue>) -> Seq<char>
    decreases items,
{
    if items.len() == 0 {
        Seq::empty()
    } else if items.len() == 1 {
        json_text(items[0])
    } else {
        json_text(items[0]) + seq![','] + items_text(items.drop_first())
    }
}

/// The comma-separated renderings of object members.
pub open spec fn members_text(members: Seq<(String, JsonValue)>) -> Seq<char>
    decreases members,
{
    if members.len() == 0 {
        Seq::empty()
    } else {
        let head = seq!['"'] + escape_spec(members[0].0@) + seq!['"', ':'] + json_text(
            members[0].1,
        );
        if members.len() == 1 {
            head
        } else {
            head + seq![','] + members_text(members.drop_first())
        }
    }
}

/// Appends the rendering of `v` to `out`.
pub fn write_json(v: &JsonValue, out: &mut String)
    ensures
        final(out)@ == old(out)@ + json_text(*v),
    decreases *v,
{
    match v {
        JsonValue::Null => {
            out.append("null");
        },
        JsonValue::Bool(b) => {
            if *b {
                out.append("true");
            } else {
                out.append("false");
            }
        },
        JsonValue::Num(n) => {
            let t = text::i64_to_string(*n);
            out.append(t.as_str());
        },
        JsonValue::NumText(s) => {
            out.append(s.as_str());
        },
        JsonValue::Str(s) => {
            text::push_char(out, '"');
            write_escaped(s.as_str(), 0, out);
            text::push_char(out, '"');
            proof {
                assert(s@.subrange(0, s@.len() as int) =~= s@);
                assert(out@ =~= old(out)@ + json_text(*v));
            }
        },
        JsonValue::Arr(items) => {
            text::push_char(out, '[');
            proof {
                assert(decreases_to!(*v => v->Arr_0));
            }
            write_items(items, 0, out);
            text::push_char(out, ']');
            proof {
                assert(items@.subrange(0, items@.len() as int) =~= items@);
                assert(out@ =~= old(out)@ + json_text(*v));
            }
        },
        JsonValue::Obj(members) => {
            text::push_char(out, '{');
            proof {
                assert(decreases_to!(*v => v->Obj_0));
            }
            write_members(members, 0, out);
            text::push_char(out, '}');
            proof {
                assert(members@.subrange(0, members@.len() as int) =~= members@);
                assert(out@ =~= old(out)@ + json_text(*v));
            }
        },
    }
}

/// Appends the renderings of `items[from..]`, comma-separated, to `out`.
fn write_items(items: &Vec<JsonValue>, from: usize, out: &mut String)
    requires
        from <= items@.len(),
    ensures
        final(out)@ == old(out)@ + items_text(items@.subrange(from as int, items@.len() as int)),
    decreases items@, items@.len() - from,
{
    let n = items.len();
    let ghost rest = items@.subrange(from as int, n as int);
    if from == n {
        proof {
            assert(old(out)@ + items_text(rest) =~= old(out)@);
        }
        return;
    }
    proof {
        assert(decreases_to!(items@ => items@[from as int]));
    }
    write_json(&items[from], out);
    if from + 1 < n {
        text::push_char(out, ',');
        write_items(items, from + 1, out);
        proof {
            assert(rest.drop_first() =~= items@.subrange(from + 1, n as int));
            assert(old(out)@ + items_text(rest) =~= old(out)@ + json_text(items@[from as int])
                + seq![','] + items_text(rest.drop_first()));
        }
    } else {
        proof {
            assert(rest.len() == 1);
            assert(old(out)@ + items_text(rest) =~= old(out)@ + json_text(items@[from as int]));
        }
    }
}

/// Appends the renderings of `members[from..]`, comma-separated, to `out`.
fn write_members(members: &Vec<(String, JsonValue)>, from: usize, out: &mut String)
    requires
        from <= members@.len(),
    ensures
        final(out)@ == old(out)@ + members_text(
            members@.subrange(from as int, members@.len() as int),
        ),
    decreases members@, members@.len() - from,
{
    let n = members.len();
    let ghost rest = members@.subrange(from as int, n as int);
    if from == n {
        proof {
            assert(old(out)@ + members_text(rest) =~= old(out)@);
        }
        return;
    }
    text::push_char(out, '"');
    write_escaped(members[from].0.as_str(), 0, out);
    text::push_char(out, '"');
    text::push_char(out, ':');
    proof {
        assert(members@[from as int].0@.subrange(0, members@[from as int].0@.len() as int)
            =~= members@[from as int].0@);
        assert(decreases_to!(members@ => members@[from as int]));
        assert(decreases_to!(members@[from as int] => members@[from as int].1));
    }
    write_json(&members[from].1, out);
    let ghost head = seq!['"'] + escape_spec(members@[from as int].0@) + seq!['"', ':']
        + json_text(members@[from as int].1);
    if from + 1 < n {
        text::push_char(out, ',');
        write_members(members, from + 1, out);
        proof {
            assert(rest.drop_first() =~= members@.subrange(from + 1, n as int));
            assert(old(out)@ + members_text(rest) =~= old(out)@ + head + seq![','] + members_text(
                rest.drop_first(),
            ));
        }
    } else {
        proof {
            assert(rest.len() == 1);
            assert(old(out)@ + members_text(rest) =~= old(out)@ + head);
        }
    }
}

/// The compact JSON rendering of `v` as a string.
pub fn to_json_text(v: &JsonValue) -> (r: String)
    ensures
        r@ == json_text(*v),
        r@ == jv_text(v@),
{
    let mut out = String::new();
    write_json(v, &mut out);
    proof {
        assert(Seq::<char>::empty() + json_text(*v) =~= json_text(*v));
        lemma_json_text_view(*v);
    }
    out
}

/// The compact JSON rendering of a denotation.
pub open spec fn jv_text(j: Jv) -> Seq<char>
    decreases j,
{
    match j {
        Jv::Null => "null"@,
        Jv::Bool(b) => if b {
            "true"@
        } else {
            "false"@
        },
        Jv::Int(n) => text::dec_str_signed(n as int),
        Jv::NumText(s) => s,
        Jv::Str(s) => seq!['"'] + escape_spec(s) + seq!['"'],
        Jv::Arr(a) => seq!['['] + jv_items_text(a) + seq![']'],
        Jv::Obj(o) => seq!['{'] + jv_members_text(o) + seq!['}'],
    }
}

/// The comma-separated renderings of denoted array items.
pub open spec fn jv_items_text(items: Seq<Jv>) -> Seq<char>
    decreases items,
{
    if items.len() == 0 {
        Seq::empty()
    } else if items.len() == 1 {
        jv_text(items[0])
    } else {
        jv_text(items[0]) + seq![','] + jv_items_text(items.drop_first())
    }
}

/// The comma-separated renderings of denoted object members.
pub open spec fn jv_members_text(members: Seq<(Seq<char>, Jv)>) -> Seq<char>
    decreases members,
{
    if members.len() == 0 {
        Seq::empty()
    } else {
        let head = seq!['"'] + escape_spec(members[0].0) + seq!['"', ':'] + jv_text(members[0].1);
        if members.len() == 1 {
            head
        } else {
            head + seq![','] + jv_members_text(members.drop_first())
        }
    }
}

/// A value and its denotation render to the same text.
pub proof fn lemma_json_text_view(v: JsonValue)
    ensures
        json_text(v) == jv_text(jv_of(v)),
    decreases v,
{
    match v {
        JsonValue::Arr(a) => {
            lemma_items_text_view(a@);
        },
        JsonValue::Obj(o) => {
            lemma_members_text_view(o@);
        },
        _ => {},
    }
}

proof fn lemma_items_text_view(items: Seq<JsonValue>)
    ensures
        items_text(items) == jv_items_text(jv_of_seq(items)),
    decreases items,
{
    lemma_jv_of_seq_index(items);
    if items.len() > 0 {
        lemma_json_equal_view(items[0], items[0]);
        lemma_json_text_view(items[0]);
        lemma_items_text_view(items.drop_first());
        assert(jv_of_seq(items)[0] == jv_of(items[0]));
        assert(jv_of_seq(items).drop_first() =~= jv_of_seq(items.drop_first())) by {
            lemma_jv_of_seq_index(items.drop_first());
        }
    }
}

proof fn lemma_members_text_view(members: Seq<(String, JsonValue)>)
    ensures
        members_text(members) == jv_members_text(jv_of_members(members)),
    decreases members,
{
    lemma_jv_of_members_index(members);
    if members.len() > 0 {
        lemma_json_text_view(members[0].1);
        lemma_members_text_view(members.drop_first());
        assert(jv_of_members(members)[0] == (members[0].0@, jv_of(members[0].1)));
        assert(jv_of_members(members).drop_first() =~= jv_of_members(members.drop_first())) by {
            lemma_jv_of_members_index(members.drop_first());
        }
    }
}

#[verifier::external_type_specification]
#[verifier::external_body]
pub struct ExValue(serde_json::Value);

/// The value that `s` holds as a JSON document, or `None` when it is not
/// one; a pure function of the text.
pub uninterp spec fn json_doc(s: Seq<char>) -> Option<JsonValue>;

/// The parser's diagnostic for a text that is not a JSON document; a pure
/// function of the text.
pub uninterp spec fn json_err(s: Seq<char>) -> Seq<char>;

/// Converts `serde_json`'s tree into the crate's value type: one arm per
/// variant, moving the fields; a number outside `i64` keeps its text.
#[verifier::external_body]
fn from_serde(v: serde_json::Value) -> JsonValue {
    match v {
        serde_json::Value::Null => JsonValue::Null,
        serde_json::Value::Bool(b) => JsonValue::Bool(b),
        serde_json::Value::Number(n) => match n.as_i64() {
            Some(i) => JsonValue::Num(i),
            None => JsonValue::NumText(n.to_string()),
        },
        serde_json::Value::String(s) => JsonValue::Str(s),
        serde_json::Value::Array(a) => JsonValue::Arr(a.into_iter().map(from_serde).collect()),
        serde_json::Value::Object(m) => JsonValue::Obj(
            m.into_iter().map(|(k, x)| (k, from_serde(x))).collect(),
        ),
    }
}

/// Parses `s` as a JSON document.
///
/// Relies on `serde_json::from_str::<serde_json::Value>`: whether the text
/// parses, the tree it yields, and the diagnostic on failure all depend on
/// the text alone.
#[verifier::external_body]
pub fn parse_json(s: &str) -> (r: Result<JsonValue, String>)
    ensures
        r is Ok == json_doc(s@) is Some,
        r matches Ok(v) ==> json_doc(s@) == Some(v),
        r matches Err(e) ==> e@ == json_err(s@),
{
    match serde_json::from_str::<serde_json::Value>(s) {
        Ok(v) => Ok(from_serde(v)),
        Err(e) => Err(e.to_string()),
    }
}

} // verus!
