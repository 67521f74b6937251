use vstd::prelude::*;

verus! {

/// A JSON value, modelled with plain library types. Numbers are kept as the
/// integer the text denotes where it fits a machine integer; a number that is
/// not an integer carries no payload because no reader of this library ever
/// consumes one.
pub enum Json {
    Null,
    Bool(bool),
    Int(i64),
    UInt(u64),
    FracNum,
    Text(String),
    Arr(Vec<Json>),
    Obj(Vec<(String, Json)>),
}

/// The mathematical shape of a JSON value: sequences of characters for text,
/// unbounded integers for numbers.
pub enum Jv {
    Null,
    Bool(bool),
    Int(int),
    FracNum,
    Text(Seq<char>),
    Arr(Seq<Jv>),
    Obj(Seq<(Seq<char>, Jv)>),
}

/// The mathematical value of a JSON tree.
pub open spec fn jv_of(j: Json) -> Jv
    decreases j,
{
    match j {
        Json::Null => Jv::Null,
        Json::Bool(b) => Jv::Bool(b),
        Json::Int(i) => Jv::Int(i as int),
        Json::UInt(u) => Jv::Int(u as int),
        Json::FracNum => Jv::FracNum,
        Json::Text(s) => Jv::Text(s@),
        Json::Arr(a) => Jv::Arr(jv_of_seq(a@)),
        Json::Obj(entries) => Jv::Obj(jv_of_entries(entries@)),
    }
}

pub open spec fn jv_of_seq(s: Seq<Json>) -> Seq<Jv>
    decreases s,
{
    if s.len() == 0 {
        Seq::empty()
    } else {
        seq![jv_of(s[0])] + jv_of_seq(s.drop_first())
    }
}

pub open spec fn jv_of_entries(s: Seq<(String, Json)>) -> Seq<(Seq<char>, Jv)>
    decreases s,
{
    if s.len() == 0 {
        Seq::empty()
    } else {
        seq![(s[0].0@, jv_of(s[0].1))] + jv_of_entries(s.drop_first())
    }
}

impl View for Json {
    type V = Jv;

    open spec fn view(&self) -> Jv {
        jv_of(*self)
    }
}

/// The element views line up with the elements.
pub proof fn lemma_jv_of_seq(s: Seq<Json>)
    ensures
        jv_of_seq(s).len() == s.len(),
        forall|i: int| 0 <= i < s.len() ==> jv_of_seq(s)[i] == jv_of(s[i]),
    decreases s.len(),
{
    if s.len() > 0 {
        lemma_jv_of_seq(s.drop_first());
        assert forall|i: int| 0 <= i < s.len() implies jv_of_seq(s)[i] == jv_of(s[i]) by {
            if i > 0 {
                assert(s.drop_first()[i - 1] == s[i]);
            }
        }
    }
}

/// The entry views line up with the entries.
pub proof fn lemma_jv_of_entries(s: Seq<(String, Json)>)
    ensures
        jv_of_entries(s).len() == s.len(),
        forall|i: int| 0 <= i < s.len() ==> jv_of_entries(s)[i] == (s[i].0@, jv_of(s[i].1)),
    decreases s.len(),
{
    if s.len() > 0 {
        lemma_jv_of_entries(s.drop_first());
        assert forall|i: int| 0 <= i < s.len() implies jv_of_entries(s)[i] == (
            s[i].0@,
            jv_of(s[i].1),
        ) by {
            if i > 0 {
                assert(s.drop_first()[i - 1] == s[i]);
            }
        }
    }
}

/// The first value bound to `key`, scanning the object's entries in order.
pub open spec fn jv_get(v: Jv, key: Seq<char>) -> Option<Jv>
    decreases v,
{
    match v {
        Jv::Obj(entries) => jv_entries_get(entries, key),
        _ => None,
    }
}

pub open spec fn jv_entries_get(entries: Seq<(Seq<char>, Jv)>, key: Seq<char>) -> Option<Jv>
    decreases entries.len(),
{
    if entries.len() == 0 {
        None
    } else if entries[0].0 == key {
        Some(entries[0].1)
    } else {
        jv_entries_get(entries.drop_first(), key)
    }
}

impl Json {
    /// Looks `key` up in an object value; any other shape yields nothing.
    pub fn get<'a>(&'a self, key: &str) -> (r: Option<&'a Json>)
        ensures
            match r {
                Some(j) => jv_get(self@, key@) == Some(j@),
                None => jv_get(self@, key@) is None,
            },
    {
        match self {
            Json::Obj(entries) => {
                let ghost full = jv_of_entries(entries@);
                proof {
                    lemma_jv_of_entries(entries@);
                    assert(self@ == Jv::Obj(full));
                    assert(full.skip(0) =~= full);
                }
                let n = entries.len();
                for i in 0..n
                    invariant
                        n == entries@.len(),
                        full == jv_of_entries(entries@),
                        full.len() == n,
                        forall|t: int| 0 <= t < n ==> full[t] == (
                            entries@[t].0@,
                            jv_of(entries@[t].1),
                        ),
                        self@ == Jv::Obj(full),
                        jv_get(self@, key@) == jv_entries_get(full.skip(i as int), key@),
                {
                    proof {
                        assert(full.skip(i as int)[0] == full[i as int]);
                        assert(full.skip(i as int).drop_first() =~= full.skip(i as int + 1));
                    }
                    if crate::text::str_eq(entries[i].0.as_str(), key) {
                        return Some(&entries[i].1);
                    }
                }
                proof {
                    assert(full.skip(n as int) =~= Seq::<(Seq<char>, Jv)>::empty());
                }
                None
            },
            _ => None,
        }
    }
}

/// The nesting depth of a JSON value: what a bounded search through its
/// containers may recurse on.
pub open spec fn jv_height(v: Jv) -> nat
    decreases v,
{
    match v {
        Jv::Arr(a) => 1 + jv_seq_height(a),
        Jv::Obj(es) => 1 + jv_entries_height(es),
        _ => 0,
    }
}

pub open spec fn jv_seq_height(s: Seq<Jv>) -> nat
    decreases s,
{
    if s.len() == 0 {
        0
    } else if jv_height(s[0]) >= jv_seq_height(s.drop_first()) {
        jv_height(s[0])
    } else {
        jv_seq_height(s.drop_first())
    }
}

pub open spec fn jv_entries_height(s: Seq<(Seq<char>, Jv)>) -> nat
    decreases s,
{
    if s.len() == 0 {
        0
    } else if jv_height(s[0].1) >= jv_entries_height(s.drop_first()) {
        jv_height(s[0].1)
    } else {
        jv_entries_height(s.drop_first())
    }
}

/// An array element sits no deeper than the array's contents.
pub proof fn lemma_jv_seq_height(s: Seq<Jv>, i: int)
    requires
        0 <= i < s.len(),
    ensures
        jv_height(s[i]) <= jv_seq_height(s),
    decreases i,
{
    if i > 0 {
        lemma_jv_seq_height(s.drop_first(), i - 1);
        assert(s.drop_first()[i - 1] == s[i]);
    }
}

/// An entry's value sits no deeper than the object's contents.
pub proof fn lemma_jv_entries_height(s: Seq<(Seq<char>, Jv)>, i: int)
    requires
        0 <= i < s.len(),
    ensures
        jv_height(s[i].1) <= jv_entries_height(s),
    decreases i,
{
    if i > 0 {
        lemma_jv_entries_height(s.drop_first(), i - 1);
        assert(s.drop_first()[i - 1] == s[i]);
    }
}

proof fn lemma_jv_entries_get_height(s: Seq<(Seq<char>, Jv)>, key: Seq<char>)
    requires
        jv_entries_get(s, key) is Some,
    ensures
        jv_height(jv_entries_get(s, key)->Some_0) <= jv_entries_height(s),
    decreases s.len(),
{
    if s.len() > 0 && s[0].0 != key {
        lemma_jv_entries_get_height(s.drop_first(), key);
    }
}

/// A value looked up under a key is strictly shallower than the object it
/// came from.
pub proof fn lemma_jv_get_height(v: Jv, key: Seq<char>)
    requires
        jv_get(v, key) is Some,
    ensures
        jv_height(jv_get(v, key)->Some_0) < jv_height(v),
{
    match v {
        Jv::Obj(es) => {
            lemma_jv_entries_get_height(es, key);
        },
        _ => {},
    }
}

/// An array's element is strictly shallower than the array.
pub proof fn lemma_jv_arr_elem_height(v: Jv, i: int)
    requires
        v is Arr,
        0 <= i < v->Arr_0.len(),
    ensures
        jv_height(v->Arr_0[i]) < jv_height(v),
{
    lemma_jv_seq_height(v->Arr_0, i);
}

/// The text a value holds, when it is a text value.
pub open spec fn jv_as_str(v: Jv) -> Option<Seq<char>> {
    match v {
        Jv::Text(s) => Some(s),
        _ => None,
    }
}

/// The integer a value holds, when it is an integer that fits a `u64`.
pub open spec fn jv_as_u64(v: Jv) -> Option<u64> {
    match v {
        Jv::Int(i) => if 0 <= i <= u64::MAX {
            Some(i as u64)
        } else {
            None
        },
        _ => None,
    }
}

/// The integer a value holds, when it is an integer that fits an `i64`.
pub open spec fn jv_as_i64(v: Jv) -> Option<i64> {
    match v {
        Jv::Int(i) => if i64::MIN <= i <= i64::MAX {
            Some(i as i64)
        } else {
            None
        },
        _ => None,
    }
}

/// The truth value a boolean value holds.
pub open spec fn jv_as_bool(v: Jv) -> Option<bool> {
    match v {
        Jv::Bool(b) => Some(b),
        _ => None,
    }
}

/// The elements of an array value.
pub open spec fn jv_as_arr(v: Jv) -> Option<Seq<Jv>> {
    match v {
        Jv::Arr(a) => Some(a),
        _ => None,
    }
}

impl Json {
    pub fn as_str(&self) -> (r: Option<&String>)
        ensures
            match r {
                Some(s) => jv_as_str(self@) == Some(s@),
                None => jv_as_str(self@) is None,
            },
    {
        match self {
            Json::Text(s) => Some(s),
            _ => None,
        }
    }

    pub fn as_u64(&self) -> (r: Option<u64>)
        ensures
            r == jv_as_u64(self@),
    {
        match self {
            Json::Int(i) => if *i >= 0 {
                Some(*i as u64)
            } else {
                None
            },
            Json::UInt(u) => Some(*u),
            _ => None,
        }
    }

    pub fn as_i64(&self) -> (r: Option<i64>)
        ensures
            r == jv_as_i64(self@),
    {
        match self {
            Json::Int(i) => Some(*i),
            Json::UInt(u) => if *u <= i64::MAX as u64 {
                Some(*u as i64)
            } else {
                None
            },
            _ => None,
        }
    }

    pub fn as_bool(&self) -> (r: Option<bool>)
        ensures
            r == jv_as_bool(self@),
    {
        match self {
            Json::Bool(b) => Some(*b),
            _ => None,
        }
    }

    pub fn as_arr(&self) -> (r: Option<&Vec<Json>>)
        ensures
            match r {
                Some(a) => {
                    &&& jv_as_arr(self@) == Some(jv_of_seq(a@))
                    &&& jv_of_seq(a@).len() == a@.len()
                    &&& forall|i: int| 0 <= i < a@.len() ==> jv_of_seq(a@)[i] == jv_of(a@[i])
                },
                None => jv_as_arr(self@) is None,
            },
    {
        match self {
            Json::Arr(a) => {
                proof {
                    lemma_jv_of_seq(a@);
                }
                Some(a)
            },
            _ => None,
        }
    }

    /// An owned copy of the string under `key`.
    pub fn get_string(&self, key: &str) -> (r: Option<String>)
        ensures
            r.deep_view() == jv_get_str(self@, key@),
    {
        match self.get_str(key) {
            Some(s) => Some(s.clone()),
            None => None,
        }
    }

    /// The string under `key`, when the value is an object and that entry is
    /// a text value.
    pub fn get_str(&self, key: &str) -> (r: Option<&String>)
        ensures
            match r {
                Some(s) => jv_get_str(self@, key@) == Some(s@),
                None => jv_get_str(self@, key@) is None,
            },
    {
        match self.get(key) {
            Some(j) => j.as_str(),
            None => None,
        }
    }
}

/// The text under `key` of an object value, when present.
pub open spec fn jv_get_str(v: Jv, key: Seq<char>) -> Option<Seq<char>> {
    match jv_get(v, key) {
        Some(j) => jv_as_str(j),
        None => None,
    }
}

/// What `serde_json` parses a given text into, rendered in this library's
/// model: a function of the characters alone.
pub uninterp spec fn parse_json_spec(s: Seq<char>) -> Option<Jv>;

/// Relies on serde_json::from_str: whether text parses as JSON, and the value
/// it denotes, depend on the characters alone.
#[verifier::external_body]
pub(crate) fn parse_json(s: &str) -> (r: Option<Json>)
    ensures
        match r {
            Some(j) => parse_json_spec(s@) == Some(j@),
            None => parse_json_spec(s@) is None,
        },
{
    serde_json::from_str::<serde_json::Value>(s).ok().map(|v| json_of_value(&v))
}

#[verifier::external_type_specification]
#[verifier::external_body]
pub struct ExValue(serde_json::Value);

/// Relies on serde_json::Value: each variant of the parsed tree is carried
/// over one-for-one; an integer in machine range keeps its value, any other
/// number is marked fractional.
#[verifier::external_body]
fn json_of_value(v: &serde_json::Value) -> Json {
    match v {
        serde_json::Value::Null => Json::Null,
        serde_json::Value::Bool(b) => Json::Bool(*b),
        serde_json::Value::Number(n) => match (n.as_i64(), n.as_u64()) {
            (Some(i), _) => Json::Int(i),
            (None, Some(u)) => Json::UInt(u),
            _ => Json::FracNum,
        },
        serde_json::Value::String(s) => Json::Text(s.clone()),
        serde_json::Value::Array(a) => Json::Arr(a.iter().map(json_of_value).collect()),
        serde_json::Value::Object(m) => Json::Obj(
            m.iter().map(|(k, v)| (k.clone(), json_of_value(v))).collect(),
        ),
    }
}

} // verus!
