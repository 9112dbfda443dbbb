use vstd::prelude::*;

use crate::json::JsonValue;
use crate::json::count_kept;
use crate::json::filter_map;
use crate::json::json_doc;
use crate::json::lemma_filter_map_len;
use crate::json::lemma_filter_map_push;
use crate::json::parse_json;

verus! {

/// A canonical video record: the title, the duration in seconds
/// (0 when the source did not report one), and the platform's
/// opaque video identifier.
#[derive(PartialEq, Eq, Debug)]
pub struct YoutubeVideo {
    pub title: String,
    pub length_seconds: u64,
    pub video_id: String,
}

impl Clone for YoutubeVideo {
    fn clone(&self) -> (r: Self)
        ensures
            r == *self,
    {
        YoutubeVideo {
            title: self.title.clone(),
            length_seconds: self.length_seconds,
            video_id: self.video_id.clone(),
        }
    }
}

/// A record in the mirror API's shape: `title`, `videoId` and
/// `lengthSeconds` are all required; an element missing any of them, or
/// giving it another type, is dropped.
pub open spec fn spec_mirror_item(v: JsonValue) -> Option<YoutubeVideo> {
    match v.spec_get("title"@) {
        Some(JsonValue::Str(title)) => match v.spec_get("videoId"@) {
            Some(JsonValue::Str(id)) => match v.spec_get("lengthSeconds"@) {
                Some(JsonValue::UInt(n)) => Some(
                    YoutubeVideo { title, length_seconds: n, video_id: id },
                ),
                _ => None,
            },
            _ => None,
        },
        _ => None,
    }
}

/// A record in the subprocess tool's shape: `title` and `id` are
/// required; a missing or non-integer `duration` defaults to 0.
pub open spec fn spec_subprocess_item(v: JsonValue) -> Option<YoutubeVideo> {
    match v.spec_get("title"@) {
        Some(JsonValue::Str(title)) => match v.spec_get("id"@) {
            Some(JsonValue::Str(id)) => Some(
                YoutubeVideo {
                    title,
                    length_seconds: match v.spec_get("duration"@) {
                        Some(JsonValue::UInt(n)) => n,
                        _ => 0,
                    },
                    video_id: id,
                },
            ),
            _ => None,
        },
        _ => None,
    }
}

pub open spec fn mirror_item_fn() -> spec_fn(JsonValue) -> Option<YoutubeVideo> {
    |v: JsonValue| spec_mirror_item(v)
}

/// The records a mirror-shaped JSON array yields, in order.
pub open spec fn spec_mirror_records(elems: Seq<JsonValue>) -> Seq<YoutubeVideo> {
    filter_map(elems, mirror_item_fn())
}

/// What `parse_records` returns for a text: the element-wise parse of a
/// top-level array, or nothing when the text is not valid JSON or not
/// an array.
pub open spec fn spec_parse_records(doc: Option<JsonValue>) -> Option<Seq<YoutubeVideo>> {
    match doc {
        Some(JsonValue::Array(elems)) => Some(spec_mirror_records(elems@)),
        _ => None,
    }
}

/// Parses one mirror-shaped element.
pub fn parse_youtube_item(v: &JsonValue) -> (r: Option<YoutubeVideo>)
    ensures
        r == spec_mirror_item(*v),
{
    let title = match v.get_field("title") {
        Some(t) => match t.str_value() {
            Some(s) => s.clone(),
            None => {
                return None;
            },
        },
        None => {
            return None;
        },
    };
    let video_id = match v.get_field("videoId") {
        Some(t) => match t.str_value() {
            Some(s) => s.clone(),
            None => {
                return None;
            },
        },
        None => {
            return None;
        },
    };
    let length_seconds = match v.get_field("lengthSeconds") {
        Some(t) => match t.u64_value() {
            Some(n) => n,
            None => {
                return None;
            },
        },
        None => {
            return None;
        },
    };
    Some(YoutubeVideo { title, length_seconds, video_id })
}

/// Parses one subprocess-shaped element.
pub fn parse_ytdlp_item(v: &JsonValue) -> (r: Option<YoutubeVideo>)
    ensures
        r == spec_subprocess_item(*v),
{
    let title = match v.get_field("title") {
        Some(t) => match t.str_value() {
            Some(s) => s.clone(),
            None => {
                return None;
            },
        },
        None => {
            return None;
        },
    };
    let video_id = match v.get_field("id") {
        Some(t) => match t.str_value() {
            Some(s) => s.clone(),
            None => {
                return None;
            },
        },
        None => {
            return None;
        },
    };
    let length_seconds = match v.get_field("duration") {
        Some(t) => match t.u64_value() {
            Some(n) => n,
            None => 0,
        },
        None => 0,
    };
    Some(YoutubeVideo { title, length_seconds, video_id })
}

/// Parses one line of subprocess output: a record when the line is
/// valid JSON in the subprocess shape, nothing when it is malformed or
/// incomplete.
pub fn parse_subprocess_line(line: &str) -> (r: Option<YoutubeVideo>)
    ensures
        r == (match json_doc(line@) {
            Some(v) => spec_subprocess_item(v),
            None => None::<YoutubeVideo>,
        }),
{
    match parse_json(line) {
        Some(v) => parse_ytdlp_item(&v),
        None => None,
    }
}

/// Normalizes a mirror API response: the records of a top-level JSON
/// array, or nothing when the text is not an array at all. A dropped
/// element is not an error; a malformed document is.
pub fn parse_records(data: &str) -> (r: Option<Vec<YoutubeVideo>>)
    ensures
        match r {
            Some(v) => spec_parse_records(json_doc(data@)) == Some(v@),
            None => spec_parse_records(json_doc(data@)) is None,
        },
{
    match parse_json(data) {
        Some(JsonValue::Array(elems)) => {
            let n = elems.len();
            let mut out: Vec<YoutubeVideo> = Vec::new();
            let mut i: usize = 0;
            while i < n
                invariant
                    n == elems@.len(),
                    i <= n,
                    out@ == spec_mirror_records(elems@.take(i as int)),
                decreases n - i,
            {
                match parse_youtube_item(&elems[i]) {
                    Some(video) => out.push(video),
                    None => {},
                }
                proof {
                    lemma_filter_map_push(elems@.take(i as int), mirror_item_fn(), elems@[i as int]);
                    assert(elems@.take(i + 1 as int) =~= elems@.take(i as int).push(
                        elems@[i as int],
                    ));
                }
                i += 1;
            }
            proof {
                assert(elems@.take(n as int) =~= elems@);
            }
            Some(out)
        },
        _ => None,
    }
}

/// How many elements of `elems` carry all three fields the mirror shape
/// requires, each with its required type.
pub open spec fn count_mirror_shaped(elems: Seq<JsonValue>) -> int {
    count_kept(elems, mirror_item_fn())
}

/// The mirror-shape parse keeps exactly the elements that carry all
/// three required fields: its length is their count.
pub proof fn lemma_mirror_records_len(elems: Seq<JsonValue>)
    ensures
        spec_mirror_records(elems).len() == count_mirror_shaped(elems),
{
    lemma_filter_map_len(elems, mirror_item_fn());
}

/// A subprocess-shaped object that carries `title` and `id` but no
/// `duration` field parses to a record whose duration is exactly 0.
pub proof fn lemma_missing_duration_is_zero(v: JsonValue)
    requires
        v.spec_get("title"@) matches Some(t) && t is Str,
        v.spec_get("id"@) matches Some(t) && t is Str,
        v.spec_get("duration"@) is None,
    ensures
        spec_subprocess_item(v) matches Some(r) && r.length_seconds == 0,
{
}

} // verus!
