use vstd::prelude::*;
use vstd::string::StrSliceExecFns;

use crate::json::filter_map;
use crate::json::json_doc;
use crate::json::lemma_filter_map_push;
use crate::json::parse_json;
use crate::instance::FetchError;
use crate::records::YoutubeVideo;
use crate::records::parse_ytdlp_item;
use crate::records::spec_subprocess_item;

verus! {

/// How many records one page of search results holds.
pub const RESULTS_PER_PAGE: u32 = 20;

/// How many results to request from the subprocess tool so that the
/// given page is covered: the tool has no native pagination, so the
/// request asks for everything up to and including that page.
pub fn requested_results(page: u32) -> (r: u32)
    requires
        1 <= page,
        page <= u32::MAX / RESULTS_PER_PAGE,
    ensures
        r == page * RESULTS_PER_PAGE,
{
    page * RESULTS_PER_PAGE
}

/// Classifies the subprocess collaborator's outcome: its whole output
/// on success, `ExternalToolFailure` when it could not run or exited
/// abnormally. Running out of results is not a failure; only the tool
/// itself failing is.
pub fn subprocess_outcome(output: Option<String>) -> (r: Result<String, FetchError>)
    ensures
        match output {
            Some(o) => r == Ok::<String, FetchError>(o),
            None => r == Err::<String, FetchError>(FetchError::ExternalToolFailure),
        },
{
    match output {
        Some(o) => Ok(o),
        None => Err(FetchError::ExternalToolFailure),
    }
}

/// The text split at every newline: n separators give n + 1 pieces.
pub open spec fn spec_split_lines(s: Seq<char>) -> Seq<Seq<char>>
    decreases s.len(),
{
    if s.len() == 0 {
        seq![Seq::<char>::empty()]
    } else if s.last() == '\n' {
        spec_split_lines(s.drop_last()).push(Seq::<char>::empty())
    } else {
        let r = spec_split_lines(s.drop_last());
        r.update(r.len() - 1, r.last().push(s.last()))
    }
}

/// Splits a text at every newline.
pub fn split_lines<'a>(s: &'a str) -> (v: Vec<&'a str>)
    ensures
        v.deep_view() == spec_split_lines(s@),
{
    let n = s.unicode_len();
    let mut v: Vec<&'a str> = Vec::new();
    let mut start: usize = 0;
    let mut i: usize = 0;
    proof {
        assert(spec_split_lines(s@.take(0)) =~~= v.deep_view().push(s@.subrange(0, 0)));
    }
    while i < n
        invariant
            n == s@.len(),
            start <= i <= n,
            spec_split_lines(s@.take(i as int)) == v.deep_view().push(
                s@.subrange(start as int, i as int),
            ),
        decreases n - i,
    {
        let ghost old_dv = v.deep_view();
        let c = s.get_char(i);
        proof {
            assert(s@.take(i + 1 as int).drop_last() =~= s@.take(i as int));
            assert(s@.take(i + 1 as int).last() == s@[i as int]);
        }
        if c == '\n' {
            let piece = s.substring_char(start, i);
            v.push(piece);
            proof {
                assert(v.deep_view() =~~= old_dv.push(piece@));
                assert(spec_split_lines(s@.take(i + 1 as int)) =~~= v.deep_view().push(
                    s@.subrange(i + 1 as int, i + 1 as int),
                ));
            }
            start = i + 1;
        } else {
            proof {
                let r = spec_split_lines(s@.take(i as int));
                assert(r == old_dv.push(s@.subrange(start as int, i as int)));
                assert(r.last() == s@.subrange(start as int, i as int));
                assert(r.last().push(s@[i as int]) =~= s@.subrange(start as int, i + 1 as int));
                assert(r.update(r.len() - 1, s@.subrange(start as int, i + 1 as int))
                    =~~= old_dv.push(s@.subrange(start as int, i + 1 as int)));
            }
        }
        i += 1;
    }
    let ghost old_dv = v.deep_view();
    let piece = s.substring_char(start, n);
    v.push(piece);
    proof {
        assert(s@.take(n as int) =~= s@);
        assert(v.deep_view() =~~= old_dv.push(piece@));
    }
    v
}

/// What one line of subprocess output contributes: a record when the
/// line is valid JSON in the subprocess shape, nothing otherwise.
pub open spec fn line_record_fn() -> spec_fn(Seq<char>) -> Option<YoutubeVideo> {
    |line: Seq<char>|
        match json_doc(line) {
            Some(v) => spec_subprocess_item(v),
            None => None,
        }
}

/// The records a whole subprocess output yields: each line parsed
/// independently, malformed lines skipped, order kept.
pub open spec fn spec_output_records(out: Seq<char>) -> Seq<YoutubeVideo> {
    filter_map(spec_split_lines(out), line_record_fn())
}

/// The lower bound of page `page` in a result set of length `len`.
pub open spec fn page_lo(len: int, page: int) -> int {
    if (page - 1) * RESULTS_PER_PAGE < len {
        (page - 1) * RESULTS_PER_PAGE
    } else {
        len
    }
}

/// One past the upper bound of page `page`.
pub open spec fn page_hi(len: int, page: int) -> int {
    if page * RESULTS_PER_PAGE < len {
        page * RESULTS_PER_PAGE
    } else {
        len
    }
}

/// The slice of a result set that page `page` shows.
pub open spec fn page_slice(s: Seq<YoutubeVideo>, page: int) -> Seq<YoutubeVideo>
    recommends
        page >= 1,
{
    s.subrange(page_lo(s.len() as int, page), page_hi(s.len() as int, page))
}

/// Parses a subprocess output and keeps only the requested page:
/// line-delimited JSON, each line parsed independently, then the slice
/// starting at `(page - 1) * RESULTS_PER_PAGE`, at most
/// `RESULTS_PER_PAGE` long.
pub fn search_page_from_output(output: &str, page: u32) -> (r: Vec<YoutubeVideo>)
    requires
        1 <= page,
        page <= u32::MAX / RESULTS_PER_PAGE,
    ensures
        r@ == page_slice(spec_output_records(output@), page as int),
{
    let lines = split_lines(output);
    let m = lines.len();
    let mut videos: Vec<YoutubeVideo> = Vec::new();
    let mut i: usize = 0;
    proof {
        assert(lines.deep_view().take(0) =~= Seq::<Seq<char>>::empty());
        assert(videos@ =~= filter_map(lines.deep_view().take(0), line_record_fn()));
    }
    while i < m
        invariant
            m == lines@.len(),
            i <= m,
            lines.deep_view() == spec_split_lines(output@),
            videos@ == filter_map(lines.deep_view().take(i as int), line_record_fn()),
        decreases m - i,
    {
        proof {
            assert(lines.deep_view()[i as int] == lines@[i as int]@);
        }
        match parse_json(lines[i]) {
            Some(v) => {
                match parse_ytdlp_item(&v) {
                    Some(rec) => videos.push(rec),
                    None => {},
                }
            },
            None => {},
        }
        proof {
            lemma_filter_map_push(
                lines.deep_view().take(i as int),
                line_record_fn(),
                lines.deep_view()[i as int],
            );
            assert(lines.deep_view().take(i + 1 as int) =~= lines.deep_view().take(i as int).push(
                lines.deep_view()[i as int],
            ));
        }
        i += 1;
    }
    proof {
        assert(lines.deep_view().take(m as int) =~~= lines.deep_view());
    }
    let total = videos.len();
    let start_count = (page - 1) * RESULTS_PER_PAGE;
    let end_count = page * RESULTS_PER_PAGE;
    let start: usize = if (start_count as usize) < total {
        start_count as usize
    } else {
        total
    };
    let end: usize = if (end_count as usize) < total {
        end_count as usize
    } else {
        total
    };
    let mut out: Vec<YoutubeVideo> = Vec::new();
    let mut j: usize = start;
    proof {
        assert(out@ =~= videos@.subrange(start as int, start as int));
    }
    while j < end
        invariant
            start <= j <= end,
            end <= videos@.len(),
            out@ == videos@.subrange(start as int, j as int),
        decreases end - j,
    {
        out.push(videos[j].clone());
        proof {
            assert(videos@.subrange(start as int, j + 1 as int) =~= videos@.subrange(
                start as int,
                j as int,
            ).push(videos@[j as int]));
        }
        j += 1;
    }
    proof {
        assert(out@ =~= page_slice(spec_output_records(output@), page as int));
    }
    out
}

/// Adjacent pages of one stable result set are disjoint and
/// contiguous: laid end to end they are exactly the stretch of the
/// results from where page `p` begins to where page `p + 1` ends, and
/// a page is `RESULTS_PER_PAGE` long whenever enough results remain.
pub proof fn lemma_pages_disjoint_contiguous(s: Seq<YoutubeVideo>, p: int)
    requires
        p >= 1,
    ensures
        page_slice(s, p) + page_slice(s, p + 1) == s.subrange(
            page_lo(s.len() as int, p),
            page_hi(s.len() as int, p + 1),
        ),
        page_hi(s.len() as int, p) == page_lo(s.len() as int, p + 1),
        p * RESULTS_PER_PAGE <= s.len() ==> page_slice(s, p).len() == RESULTS_PER_PAGE,
{
    assert(page_slice(s, p) + page_slice(s, p + 1) =~= s.subrange(
        page_lo(s.len() as int, p),
        page_hi(s.len() as int, p + 1),
    ));
}

} // verus!
