use invidious_search::FetchError;
use invidious_search::instance::parse_suggestions;
use invidious_search::records::parse_records;
use invidious_search::records::parse_subprocess_line;

#[test]
fn mirror_records_keep_only_complete_elements() {
    let data = r#"[
        {"title":"a","videoId":"v1","lengthSeconds":10},
        {"title":"b"},
        {"title":"c","videoId":"v3","lengthSeconds":5,"extra":1},
        {"videoId":"x","lengthSeconds":2}
    ]"#;
    let records = parse_records(data).expect("an array must parse");
    assert_eq!(records.len(), 2);
    assert_eq!(records[0].title, "a");
    assert_eq!(records[0].video_id, "v1");
    assert_eq!(records[0].length_seconds, 10);
    assert_eq!(records[1].title, "c");
    assert_eq!(records[1].video_id, "v3");
    assert_eq!(records[1].length_seconds, 5);
}

#[test]
fn mirror_record_with_wrong_typed_length_is_dropped() {
    let data = r#"[{"title":"a","videoId":"v1","lengthSeconds":"10"}]"#;
    let records = parse_records(data).expect("an array must parse");
    assert_eq!(records.len(), 0);
}

#[test]
fn non_array_top_level_is_total_failure() {
    assert!(parse_records(r#"{"title":"a"}"#).is_none());
    assert!(parse_records("not json at all").is_none());
    assert!(parse_records("42").is_none());
}

#[test]
fn empty_array_is_success_with_no_records() {
    let records = parse_records("[]").expect("an empty array is not a failure");
    assert!(records.is_empty());
}

#[test]
fn subprocess_line_without_duration_has_zero_duration() {
    let rec = parse_subprocess_line(r#"{"id":"x1","title":"t1"}"#)
        .expect("title and id are present");
    assert_eq!(rec.title, "t1");
    assert_eq!(rec.video_id, "x1");
    assert_eq!(rec.length_seconds, 0);
}

#[test]
fn subprocess_line_with_fractional_duration_reads_zero() {
    let rec = parse_subprocess_line(r#"{"id":"x1","title":"t1","duration":12.5}"#)
        .expect("title and id are present");
    assert_eq!(rec.length_seconds, 0);
}

#[test]
fn subprocess_line_with_duration_keeps_it() {
    let rec = parse_subprocess_line(r#"{"id":"x1","title":"t1","duration":321}"#)
        .expect("title and id are present");
    assert_eq!(rec.length_seconds, 321);
}

#[test]
fn subprocess_line_without_id_is_dropped() {
    assert!(parse_subprocess_line(r#"{"title":"t1","duration":3}"#).is_none());
}

#[test]
fn malformed_subprocess_line_is_dropped() {
    assert!(parse_subprocess_line("{{{").is_none());
    assert!(parse_subprocess_line("").is_none());
}

#[test]
fn mirror_item_parses_one_object() {
    let data = r#"[{"title":"a","videoId":"v1","lengthSeconds":10}]"#;
    let records = parse_records(data).expect("valid array");
    assert_eq!(records.len(), 1);
    assert_eq!(records[0].title, "a");
    assert_eq!(records[0].video_id, "v1");
    assert_eq!(records[0].length_seconds, 10);
}

#[test]
fn suggestions_with_unusable_body_fail_as_remote_query() {
    assert_eq!(
        parse_suggestions("### not json").unwrap_err(),
        FetchError::RemoteQueryFailure
    );
    assert_eq!(
        parse_suggestions(r#"{"not":"an array"}"#).unwrap_err(),
        FetchError::RemoteQueryFailure
    );
}

#[test]
fn suggestions_with_array_body_succeed() {
    let body = r#"[{"title":"a","videoId":"v1","lengthSeconds":1}]"#;
    let records = parse_suggestions(body).expect("an array body succeeds");
    assert_eq!(records.len(), 1);
    assert_eq!(records[0].video_id, "v1");
}
