use vstd::prelude::*;
use vstd::string::StrSliceExecFns;

use crate::json::JsonValue;
use crate::json::filter_map;
use crate::json::json_doc;
use crate::json::lemma_filter_map_push;
use crate::json::lemma_filter_map_source;
use crate::json::parse_json;

verus! {

/// A directory entry is kept only when its 30-day ratio exceeds this
/// many percent.
pub const HEALTH_THRESHOLD: u64 = 95;

pub open spec fn is_ascii_digit(c: char) -> bool {
    '0' <= c && c <= '9'
}

pub open spec fn digit_val(c: char) -> int {
    c as int - '0' as int
}

pub open spec fn all_digits(s: Seq<char>) -> bool {
    forall|i: int| 0 <= i < s.len() ==> is_ascii_digit(#[trigger] s[i])
}

/// The number a digit string denotes, most significant digit first.
pub open spec fn digits_val(s: Seq<char>) -> int
    decreases s.len(),
{
    if s.len() == 0 {
        0
    } else {
        10 * digits_val(s.drop_last()) + digit_val(s.last())
    }
}

/// The position of the first `.` in `s`, if any.
pub open spec fn first_dot(s: Seq<char>) -> Option<int>
    decreases s.len(),
{
    if s.len() == 0 {
        None
    } else if s.first() == '.' {
        Some(0)
    } else {
        match first_dot(s.drop_first()) {
            Some(i) => Some(i + 1),
            None => None,
        }
    }
}

pub open spec fn int_digits(s: Seq<char>) -> Seq<char> {
    match first_dot(s) {
        Some(i) => s.take(i),
        None => s,
    }
}

pub open spec fn frac_digits(s: Seq<char>) -> Seq<char> {
    match first_dot(s) {
        Some(i) => s.skip(i + 1),
        None => Seq::empty(),
    }
}

/// A plain decimal numeral: digits with at most one point and at least
/// one digit. This is the only number shape a ratio string may take;
/// anything else makes its entry drop out.
pub open spec fn is_plain_decimal(s: Seq<char>) -> bool {
    &&& all_digits(int_digits(s))
    &&& all_digits(frac_digits(s))
    &&& int_digits(s).len() + frac_digits(s).len() > 0
}

/// The denoted value exceeds the health threshold: the whole part is
/// larger, or equal with a nonzero digit after the point.
pub open spec fn spec_ratio_exceeds(s: Seq<char>) -> bool {
    ||| digits_val(int_digits(s)) > HEALTH_THRESHOLD as int
    ||| (digits_val(int_digits(s)) == HEALTH_THRESHOLD as int && exists|i: int|
        0 <= i < frac_digits(s).len() && frac_digits(s)[i] != '0')
}

proof fn lemma_first_dot_at(s: Seq<char>, i: int)
    requires
        0 <= i < s.len(),
        s[i] == '.',
        forall|j: int| 0 <= j < i ==> s[j] != '.',
    ensures
        first_dot(s) == Some(i),
    decreases i,
{
    if i > 0 {
        lemma_first_dot_at(s.drop_first(), i - 1);
    }
}

proof fn lemma_first_dot_none(s: Seq<char>)
    requires
        forall|j: int| 0 <= j < s.len() ==> s[j] != '.',
    ensures
        first_dot(s) is None,
    decreases s.len(),
{
    if s.len() > 0 {
        lemma_first_dot_none(s.drop_first());
    }
}

/// The first `.` of the string, if any.
fn find_dot(s: &str) -> (r: Option<usize>)
    ensures
        match r {
            Some(i) => i < s@.len() && first_dot(s@) == Some(i as int),
            None => first_dot(s@) is None,
        },
{
    let n = s.unicode_len();
    let mut i: usize = 0;
    while i < n
        invariant
            n == s@.len(),
            i <= n,
            forall|j: int| 0 <= j < i ==> s@[j] != '.',
        decreases n - i,
    {
        if s.get_char(i) == '.' {
            proof {
                lemma_first_dot_at(s@, i as int);
            }
            return Some(i);
        }
        i += 1;
    }
    proof {
        lemma_first_dot_none(s@);
    }
    None
}

/// Decides whether a ratio string is a plain decimal whose value
/// exceeds the health threshold, with no floating point involved.
pub fn ratio_exceeds_threshold(s: &str) -> (r: bool)
    ensures
        r == (is_plain_decimal(s@) && spec_ratio_exceeds(s@)),
{
    let n = s.unicode_len();
    let dot = find_dot(s);
    let int_end: usize = match dot {
        Some(d) => d,
        None => n,
    };
    proof {
        assert(int_digits(s@) =~= s@.take(int_end as int));
    }
    // Scan the whole part: check digits, fold the value, saturating
    // well above the threshold.
    let mut val: u32 = 0;
    let mut i: usize = 0;
    while i < int_end
        invariant
            n == s@.len(),
            int_end <= n,
            i <= int_end,
            int_digits(s@) =~= s@.take(int_end as int),
            forall|j: int| 0 <= j < i ==> is_ascii_digit(#[trigger] s@[j]),
            (digits_val(s@.take(i as int)) < 1000 && val == digits_val(s@.take(i as int)))
                || (digits_val(s@.take(i as int)) >= 1000 && val == 1000),
        decreases int_end - i,
    {
        let c = s.get_char(i);
        if !(c >= '0' && c <= '9') {
            proof {
                assert(int_digits(s@)[i as int] == s@[i as int]);
            }
            return false;
        }
        let d: u32 = (c as u32) - ('0' as u32);
        let grown: u32 = 10 * val + d;
        proof {
            assert(s@.take(i + 1 as int).drop_last() =~= s@.take(i as int));
            assert(s@.take(i + 1 as int).last() == s@[i as int]);
        }
        if grown > 1000 {
            val = 1000;
        } else {
            val = grown;
        }
        i += 1;
    }
    proof {
        assert(s@.take(int_end as int) =~= int_digits(s@));
    }
    // Scan the fractional part: check digits, remember a nonzero one.
    let frac_start: usize = match dot {
        Some(d) => d + 1,
        None => n,
    };
    proof {
        if dot is Some {
            assert(frac_digits(s@) =~= s@.skip(frac_start as int));
        } else {
            assert(frac_digits(s@) =~= Seq::<char>::empty());
        }
    }
    let mut any_nonzero: bool = false;
    let mut k: usize = frac_start;
    while k < n
        invariant
            n == s@.len(),
            frac_start <= k <= n,
            frac_digits(s@) =~= s@.skip(frac_start as int),
            forall|j: int| 0 <= j < k - frac_start ==> is_ascii_digit(#[trigger] frac_digits(s@)[j]),
            any_nonzero == exists|j: int|
                0 <= j < k - frac_start && frac_digits(s@)[j] != '0',
        decreases n - k,
    {
        let c = s.get_char(k);
        proof {
            assert(frac_digits(s@)[k - frac_start] == s@[k as int]);
        }
        if !(c >= '0' && c <= '9') {
            return false;
        }
        if c != '0' {
            proof {
                assert(frac_digits(s@)[k - frac_start] != '0');
            }
            any_nonzero = true;
        }
        k += 1;
    }
    // Every character is checked; now the shape and value questions.
    let int_len = int_end;
    let frac_len = n - frac_start;
    if int_len == 0 && frac_len == 0 {
        return false;
    }
    proof {
        assert(is_plain_decimal(s@));
        lemma_digits_val_nonneg(int_digits(s@));
    }
    if val > HEALTH_THRESHOLD as u32 {
        true
    } else if val == HEALTH_THRESHOLD as u32 {
        any_nonzero
    } else {
        false
    }
}

proof fn lemma_digits_val_nonneg(s: Seq<char>)
    requires
        all_digits(s),
    ensures
        digits_val(s) >= 0,
    decreases s.len(),
{
    if s.len() > 0 {
        assert(forall|i: int| 0 <= i < s.drop_last().len() ==> s.drop_last()[i] == s[i]);
        lemma_digits_val_nonneg(s.drop_last());
    }
}

/// A mirror instance as the directory advertises it: its address and
/// its 30-day uptime ratio, kept as the decimal numeral the directory
/// sent.
pub struct MirrorInstance {
    pub uri: String,
    pub ratio: String,
}

impl MirrorInstance {
    /// The ratio string is a plain decimal numeral.
    pub open spec fn wf(self) -> bool {
        is_plain_decimal(self.ratio@)
    }
}

/// The instance a directory entry `[name, details]` describes: kept
/// only when `details.api` is true, `details.uri` is a string, and
/// `details.monitor["30dRatio"].ratio` is a numeric string.
pub open spec fn spec_parse_instance(v: JsonValue) -> Option<MirrorInstance> {
    match v.spec_at(1) {
        Some(details) => match details.spec_get("api"@) {
            Some(JsonValue::Bool(true)) => match details.spec_get("uri"@) {
                Some(JsonValue::Str(uri)) => match details.spec_get("monitor"@) {
                    Some(monitor) => match monitor.spec_get("30dRatio"@) {
                        Some(r30) => match r30.spec_get("ratio"@) {
                            Some(JsonValue::Str(ratio)) => if is_plain_decimal(ratio@) {
                                Some(MirrorInstance { uri, ratio })
                            } else {
                                None
                            },
                            _ => None,
                        },
                        _ => None,
                    },
                    _ => None,
                },
                _ => None,
            },
            _ => None,
        },
        _ => None,
    }
}

/// Parses one directory entry.
pub fn parse_instance(v: &JsonValue) -> (r: Option<MirrorInstance>)
    ensures
        r == spec_parse_instance(*v),
        r matches Some(m) ==> m.wf(),
{
    let details = match v.elem(1) {
        Some(d) => d,
        None => {
            return None;
        },
    };
    match details.get_field("api") {
        Some(a) => match a.bool_value() {
            Some(true) => {},
            _ => {
                return None;
            },
        },
        None => {
            return None;
        },
    }
    let uri = match details.get_field("uri") {
        Some(u) => match u.str_value() {
            Some(s) => s.clone(),
            None => {
                return None;
            },
        },
        None => {
            return None;
        },
    };
    let monitor = match details.get_field("monitor") {
        Some(m) => m,
        None => {
            return None;
        },
    };
    let r30 = match monitor.get_field("30dRatio") {
        Some(r) => r,
        None => {
            return None;
        },
    };
    let ratio = match r30.get_field("ratio") {
        Some(t) => match t.str_value() {
            Some(s) => s.clone(),
            None => {
                return None;
            },
        },
        None => {
            return None;
        },
    };
    if is_decimal_str(ratio.as_str()) {
        Some(MirrorInstance { uri, ratio })
    } else {
        None
    }
}

/// Decides whether a string is a plain decimal numeral.
pub fn is_decimal_str(s: &str) -> (r: bool)
    ensures
        r == is_plain_decimal(s@),
{
    let n = s.unicode_len();
    let dot = find_dot(s);
    let int_end: usize = match dot {
        Some(d) => d,
        None => n,
    };
    let frac_start: usize = match dot {
        Some(d) => d + 1,
        None => n,
    };
    proof {
        assert(int_digits(s@) =~= s@.take(int_end as int));
        if dot is Some {
            assert(frac_digits(s@) =~= s@.skip(frac_start as int));
        } else {
            assert(frac_digits(s@) =~= Seq::<char>::empty());
        }
    }
    if int_end == 0 && n == frac_start {
        return false;
    }
    let mut i: usize = 0;
    while i < int_end
        invariant
            n == s@.len(),
            int_end <= n,
            i <= int_end,
            int_digits(s@) =~= s@.take(int_end as int),
            forall|j: int| 0 <= j < i ==> is_ascii_digit(#[trigger] s@[j]),
        decreases int_end - i,
    {
        let c = s.get_char(i);
        if !(c >= '0' && c <= '9') {
            proof {
                assert(int_digits(s@)[i as int] == s@[i as int]);
            }
            return false;
        }
        i += 1;
    }
    let mut k: usize = frac_start;
    while k < n
        invariant
            n == s@.len(),
            frac_start <= k <= n,
            frac_digits(s@) =~= s@.skip(frac_start as int),
            forall|j: int| 0 <= j < k - frac_start ==> is_ascii_digit(#[trigger] frac_digits(s@)[j]),
        decreases n - k,
    {
        let c = s.get_char(k);
        proof {
            assert(frac_digits(s@)[k - frac_start] == s@[k as int]);
        }
        if !(c >= '0' && c <= '9') {
            return false;
        }
        k += 1;
    }
    proof {
        assert(s@.take(int_end as int) =~= int_digits(s@));
    }
    true
}

/// What the healthy-mirror filter keeps of one entry: its address,
/// when the entry parses and its ratio exceeds the threshold.
pub open spec fn healthy_uri_fn() -> spec_fn(JsonValue) -> Option<String> {
    |v: JsonValue|
        match spec_parse_instance(v) {
            Some(m) => if spec_ratio_exceeds(m.ratio@) {
                Some(m.uri)
            } else {
                None
            },
            None => None,
        }
}

/// The addresses a directory document yields, in order.
pub open spec fn spec_healthy_uris(elems: Seq<JsonValue>) -> Seq<String> {
    filter_map(elems, healthy_uri_fn())
}

/// What `parse_invidious_instance_list` returns for a text: the
/// filtered addresses of a top-level array when there is at least one;
/// nothing on a malformed document, a non-array, or an empty result.
pub open spec fn spec_instance_list(doc: Option<JsonValue>) -> Option<Seq<String>> {
    match doc {
        Some(JsonValue::Array(elems)) => if spec_healthy_uris(elems@).len() > 0 {
            Some(spec_healthy_uris(elems@))
        } else {
            None
        },
        _ => None,
    }
}

/// Filters the dynamic mirror directory down to the healthy,
/// API-capable instances' addresses.
pub fn parse_invidious_instance_list(data: &str) -> (r: Option<Vec<String>>)
    ensures
        match r {
            Some(v) => spec_instance_list(json_doc(data@)) == Some(v@) && v@.len() > 0,
            None => spec_instance_list(json_doc(data@)) is None,
        },
{
    match parse_json(data) {
        Some(JsonValue::Array(elems)) => {
            let n = elems.len();
            let mut out: Vec<String> = Vec::new();
            let mut i: usize = 0;
            while i < n
                invariant
                    n == elems@.len(),
                    i <= n,
                    out@ == spec_healthy_uris(elems@.take(i as int)),
                decreases n - i,
            {
                match parse_instance(&elems[i]) {
                    Some(m) => {
                        if ratio_exceeds_threshold(m.ratio.as_str()) {
                            out.push(m.uri);
                        }
                    },
                    None => {},
                }
                proof {
                    lemma_filter_map_push(elems@.take(i as int), healthy_uri_fn(), elems@[i as int]);
                    assert(elems@.take(i + 1 as int) =~= elems@.take(i as int).push(
                        elems@[i as int],
                    ));
                }
                i += 1;
            }
            proof {
                assert(elems@.take(n as int) =~= elems@);
            }
            if out.len() > 0 {
                Some(out)
            } else {
                None
            }
        },
        _ => None,
    }
}

/// Every address the directory yields comes from an entry whose
/// advertised 30-day ratio exceeds the health threshold: the lemma
/// hands back that entry's index.
pub proof fn lemma_directory_only_healthy(elems: Seq<JsonValue>, i: int) -> (j: int)
    requires
        0 <= i < spec_healthy_uris(elems).len(),
    ensures
        0 <= j < elems.len(),
        spec_parse_instance(elems[j]) matches Some(m) && m.uri == spec_healthy_uris(elems)[i]
            && spec_ratio_exceeds(m.ratio@),
{
    let j = lemma_filter_map_source(elems, healthy_uri_fn(), i);
    j
}

} // verus!
