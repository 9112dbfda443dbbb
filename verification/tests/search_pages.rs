use invidious_search::FetchError;
use invidious_search::Instance;
use invidious_search::search::requested_results;
use invidious_search::search::subprocess_outcome;
use invidious_search::search::search_page_from_output;
use invidious_search::urls::suggestion_url;

fn output_with_lines(n: usize) -> String {
    let mut out = String::new();
    for i in 0..n {
        out.push_str(&format!(
            "{{\"id\":\"id{i}\",\"title\":\"video {i}\",\"duration\":{}}}\n",
            i * 10
        ));
    }
    out
}

#[test]
fn twenty_five_lines_page_one_returns_first_twenty() {
    let out = output_with_lines(25);
    let page = search_page_from_output(&out, 1);
    assert_eq!(page.len(), 20);
    assert_eq!(page[0].video_id, "id0");
    assert_eq!(page[0].title, "video 0");
    assert_eq!(page[19].video_id, "id19");
}

#[test]
fn adjacent_pages_are_disjoint_and_contiguous() {
    let out = output_with_lines(25);
    let first = search_page_from_output(&out, 1);
    let second = search_page_from_output(&out, 2);
    assert_eq!(first.len(), 20);
    assert_eq!(second.len(), 5);
    assert_eq!(second[0].video_id, "id20");
    assert_eq!(second[4].video_id, "id24");
    for a in &first {
        assert!(second.iter().all(|b| b.video_id != a.video_id));
    }
}

#[test]
fn running_out_of_results_is_not_an_error() {
    let out = output_with_lines(5);
    let page = search_page_from_output(&out, 2);
    assert!(page.is_empty());
}

#[test]
fn malformed_lines_are_skipped_silently() {
    let out = "{\"id\":\"a\",\"title\":\"A\"}\nnot json\n\n{\"title\":\"no id\"}\n{\"id\":\"b\",\"title\":\"B\",\"duration\":7}\n";
    let page = search_page_from_output(out, 1);
    assert_eq!(page.len(), 2);
    assert_eq!(page[0].video_id, "a");
    assert_eq!(page[0].length_seconds, 0);
    assert_eq!(page[1].video_id, "b");
    assert_eq!(page[1].length_seconds, 7);
}

#[test]
fn requested_results_scale_with_the_page() {
    assert_eq!(requested_results(1), 20);
    assert_eq!(requested_results(3), 60);
}

#[test]
fn failed_subprocess_is_an_external_tool_failure() {
    assert_eq!(
        subprocess_outcome(None).unwrap_err(),
        FetchError::ExternalToolFailure
    );
    assert_eq!(
        subprocess_outcome(Some("out".to_string())).unwrap(),
        "out"
    );
}

#[test]
fn suggestion_url_percent_encodes_the_prefix() {
    assert_eq!(
        suggestion_url("lofi"),
        "http://suggestqueries.google.com/complete/search?client=firefox&ds=yt&q=%6C%6F%66%69"
    );
}

#[test]
fn suggestion_url_for_empty_prefix_is_the_bare_endpoint() {
    assert_eq!(
        suggestion_url(""),
        "http://suggestqueries.google.com/complete/search?client=firefox&ds=yt&q="
    );
}

#[test]
fn suggestion_url_encodes_url_hostile_text() {
    assert_eq!(
        suggestion_url("a&b"),
        "http://suggestqueries.google.com/complete/search?client=firefox&ds=yt&q=%61%26%62"
    );
}

#[test]
fn session_without_query_reports_missing_query() {
    let session = Instance { domain: Some("yt-dlp".to_string()), query: None };
    assert_eq!(session.bound_query().unwrap_err(), FetchError::MissingQuery);
}

#[test]
fn bound_session_hands_its_query_back() {
    let session = Instance::bind("yt-dlp", "lofi");
    assert_eq!(session.domain.as_deref(), Some("yt-dlp"));
    assert_eq!(session.bound_query().unwrap(), "lofi");
}

#[test]
fn sessions_compare_by_backend_label_alone() {
    let a = Instance::bind("yt-dlp", "one");
    let b = Instance::bind("yt-dlp", "two");
    let c = Instance::bind("mirror", "one");
    assert_eq!(a, b);
    assert!(a != c);
    let d = a.clone();
    assert_eq!(a, d);
}

#[test]
fn default_session_is_blank() {
    let session = Instance::default();
    assert_eq!(session.domain.as_deref(), Some(""));
    assert_eq!(session.bound_query().unwrap(), "");
}
