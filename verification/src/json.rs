use vstd::prelude::*;
use vstd::string::StrSliceExecFns;

verus! {

/// A JSON document as this library models it. Numbers are kept only when
/// they read as unsigned integers (`UInt`); any other number (negative,
/// fractional, too large) becomes `Other`, since no rule of this library
/// reads one. Object entries keep the order the decoder handed them in.
pub enum JsonValue {
    Null,
    Bool(bool),
    UInt(u64),
    Other,
    Str(String),
    Array(Vec<JsonValue>),
    Object(Vec<(String, JsonValue)>),
}

/// First-match lookup of a key among object entries.
pub open spec fn spec_lookup(entries: Seq<(String, JsonValue)>, key: Seq<char>) -> Option<
    JsonValue,
>
    decreases entries.len(),
{
    if entries.len() == 0 {
        None
    } else if entries.first().0@ == key {
        Some(entries.first().1)
    } else {
        spec_lookup(entries.drop_first(), key)
    }
}

impl JsonValue {
    /// The value under `key` when this is an object; `None` on any other shape.
    pub open spec fn spec_get(self, key: Seq<char>) -> Option<JsonValue> {
        match self {
            JsonValue::Object(entries) => spec_lookup(entries@, key),
            _ => None,
        }
    }

    /// The element at index `i` when this is an array; `None` otherwise.
    pub open spec fn spec_at(self, i: int) -> Option<JsonValue> {
        match self {
            JsonValue::Array(elems) => if 0 <= i < elems@.len() {
                Some(elems@[i])
            } else {
                None
            },
            _ => None,
        }
    }

    pub open spec fn spec_str(self) -> Option<String> {
        match self {
            JsonValue::Str(s) => Some(s),
            _ => None,
        }
    }

    pub open spec fn spec_u64(self) -> Option<u64> {
        match self {
            JsonValue::UInt(n) => Some(n),
            _ => None,
        }
    }

    pub open spec fn spec_bool(self) -> Option<bool> {
        match self {
            JsonValue::Bool(b) => Some(b),
            _ => None,
        }
    }
}

/// Character-for-character string comparison.
pub fn str_eq(a: &str, b: &str) -> (r: bool)
    ensures
        r == (a@ == b@),
{
    let alen = a.unicode_len();
    let blen = b.unicode_len();
    if alen != blen {
        return false;
    }
    let mut i: usize = 0;
    while i < alen
        invariant
            alen == a@.len(),
            alen == b@.len(),
            i <= alen,
            forall|j: int| 0 <= j < i ==> a@[j] == b@[j],
        decreases alen - i,
    {
        if a.get_char(i) != b.get_char(i) {
            return false;
        }
        i += 1;
    }
    proof {
        assert(a@ =~= b@);
    }
    true
}

proof fn lemma_lookup_found(entries: Seq<(String, JsonValue)>, key: Seq<char>, i: int)
    requires
        0 <= i < entries.len(),
        entries[i].0@ == key,
        forall|j: int| 0 <= j < i ==> entries[j].0@ != key,
    ensures
        spec_lookup(entries, key) == Some(entries[i].1),
    decreases i,
{
    if i > 0 {
        lemma_lookup_found(entries.drop_first(), key, i - 1);
    }
}

proof fn lemma_lookup_missing(entries: Seq<(String, JsonValue)>, key: Seq<char>)
    requires
        forall|j: int| 0 <= j < entries.len() ==> entries[j].0@ != key,
    ensures
        spec_lookup(entries, key) is None,
    decreases entries.len(),
{
    if entries.len() > 0 {
        lemma_lookup_missing(entries.drop_first(), key);
    }
}

impl JsonValue {
    /// Looks `key` up when this value is an object.
    pub fn get_field<'a>(&'a self, key: &str) -> (r: Option<&'a JsonValue>)
        ensures
            match r {
                Some(v) => self.spec_get(key@) == Some(*v),
                None => self.spec_get(key@) is None,
            },
    {
        match self {
            JsonValue::Object(entries) => {
                proof {
                    assert(self.spec_get(key@) == spec_lookup(entries@, key@));
                }
                let n = entries.len();
                let mut i: usize = 0;
                while i < n
                    invariant
                        n == entries@.len(),
                        i <= n,
                        self.spec_get(key@) == spec_lookup(entries@, key@),
                        forall|j: int| 0 <= j < i ==> entries@[j].0@ != key@,
                    decreases n - i,
                {
                    if str_eq(entries[i].0.as_str(), key) {
                        proof {
                            lemma_lookup_found(entries@, key@, i as int);
                        }
                        return Some(&entries[i].1);
                    }
                    i += 1;
                }
                proof {
                    lemma_lookup_missing(entries@, key@);
                }
                None
            },
            _ => None,
        }
    }

    /// The element at `i` when this value is an array.
    pub fn elem<'a>(&'a self, i: usize) -> (r: Option<&'a JsonValue>)
        ensures
            match r {
                Some(v) => self.spec_at(i as int) == Some(*v),
                None => self.spec_at(i as int) is None,
            },
    {
        match self {
            JsonValue::Array(elems) => if i < elems.len() {
                Some(&elems[i])
            } else {
                None
            },
            _ => None,
        }
    }

    pub fn str_value<'a>(&'a self) -> (r: Option<&'a String>)
        ensures
            match r {
                Some(s) => self.spec_str() == Some(*s),
                None => self.spec_str() is None,
            },
    {
        match self {
            JsonValue::Str(s) => Some(s),
            _ => None,
        }
    }

    pub fn u64_value(&self) -> (r: Option<u64>)
        ensures
            r == self.spec_u64(),
    {
        match self {
            JsonValue::UInt(n) => Some(*n),
            _ => None,
        }
    }

    pub fn bool_value(&self) -> (r: Option<bool>)
        ensures
            r == self.spec_bool(),
    {
        match self {
            JsonValue::Bool(b) => Some(*b),
            _ => None,
        }
    }
}

#[verifier::external_type_specification]
#[verifier::external_body]
pub struct ExJsonValue(serde_json::Value);

/// The document `serde_json::from_str` parses a text to, under this
/// library's model: named, since spelling the JSON grammar out here
/// would restate the parser.
pub uninterp spec fn json_doc(s: Seq<char>) -> Option<JsonValue>;

/// Relies on serde_json::Value: its six variants are told apart, one arm
/// each, their fields moved into this library's model; a number keeps
/// only its u64 reading (serde_json::Number::as_u64).
#[verifier::external_body]
fn decode_json(v: &serde_json::Value) -> JsonValue {
    match v {
        serde_json::Value::Null => JsonValue::Null,
        serde_json::Value::Bool(b) => JsonValue::Bool(*b),
        serde_json::Value::Number(n) => n.as_u64().map_or(JsonValue::Other, JsonValue::UInt),
        serde_json::Value::String(s) => JsonValue::Str(s.clone()),
        serde_json::Value::Array(a) => JsonValue::Array(a.iter().map(decode_json).collect()),
        serde_json::Value::Object(o) => JsonValue::Object(
            o.iter().map(|(k, w)| (k.clone(), decode_json(w))).collect(),
        ),
    }
}

/// Relies on serde_json::from_str: whether a text parses, and to what
/// document, depends on the text alone.
#[verifier::external_body]
pub(crate) fn parse_json(s: &str) -> (r: Option<JsonValue>)
    ensures
        r == json_doc(s@),
{
    match serde_json::from_str::<serde_json::Value>(s) {
        Ok(v) => Some(decode_json(&v)),
        Err(_) => None,
    }
}

/// Keeps `f(x)` for each element `x` of `s` where `f` returns a value,
/// in order.
pub open spec fn filter_map<A, B>(s: Seq<A>, f: spec_fn(A) -> Option<B>) -> Seq<B>
    decreases s.len(),
{
    if s.len() == 0 {
        Seq::empty()
    } else {
        match f(s.first()) {
            Some(b) => seq![b] + filter_map(s.drop_first(), f),
            None => filter_map(s.drop_first(), f),
        }
    }
}

pub proof fn lemma_filter_map_push<A, B>(s: Seq<A>, f: spec_fn(A) -> Option<B>, x: A)
    ensures
        filter_map(s.push(x), f) == match f(x) {
            Some(b) => filter_map(s, f).push(b),
            None => filter_map(s, f),
        },
    decreases s.len(),
{
    if s.len() == 0 {
        assert(s.push(x).drop_first() =~= s);
        assert(s.push(x).first() == x);
        assert(filter_map(s, f) =~= Seq::<B>::empty());
        match f(x) {
            Some(b) => {
                assert(seq![b] + filter_map(s, f) =~= filter_map(s, f).push(b));
            },
            None => {},
        }
    } else {
        assert(s.push(x).first() == s.first());
        assert(s.push(x).drop_first() =~= s.drop_first().push(x));
        lemma_filter_map_push(s.drop_first(), f, x);
        match f(s.first()) {
            Some(b0) => {
                match f(x) {
                    Some(b) => {
                        assert(seq![b0] + filter_map(s.drop_first(), f).push(b) =~= (seq![b0]
                            + filter_map(s.drop_first(), f)).push(b));
                    },
                    None => {},
                }
            },
            None => {},
        }
    }
}

/// How many elements of `s` the function keeps.
pub open spec fn count_kept<A, B>(s: Seq<A>, f: spec_fn(A) -> Option<B>) -> int
    decreases s.len(),
{
    if s.len() == 0 {
        0
    } else {
        (if f(s.first()) is Some {
            1int
        } else {
            0int
        }) + count_kept(s.drop_first(), f)
    }
}

pub proof fn lemma_filter_map_len<A, B>(s: Seq<A>, f: spec_fn(A) -> Option<B>)
    ensures
        filter_map(s, f).len() == count_kept(s, f),
    decreases s.len(),
{
    if s.len() > 0 {
        lemma_filter_map_len(s.drop_first(), f);
    }
}

/// Everything the filter keeps comes from some element of the input:
/// hands back the index it came from.
pub proof fn lemma_filter_map_source<A, B>(s: Seq<A>, f: spec_fn(A) -> Option<B>, i: int) -> (j:
    int)
    requires
        0 <= i < filter_map(s, f).len(),
    ensures
        0 <= j < s.len(),
        f(s[j]) == Some(filter_map(s, f)[i]),
    decreases s.len(),
{
    let rest = filter_map(s.drop_first(), f);
    match f(s.first()) {
        Some(b) => {
            assert(filter_map(s, f) == seq![b] + rest);
            if i == 0 {
                assert(s[0] == s.first());
                0
            } else {
                let j = lemma_filter_map_source(s.drop_first(), f, i - 1);
                assert(s.drop_first()[j] == s[j + 1]);
                j + 1
            }
        },
        None => {
            let j = lemma_filter_map_source(s.drop_first(), f, i);
            assert(s.drop_first()[j] == s[j + 1]);
            j + 1
        },
    }
}

} // verus!
