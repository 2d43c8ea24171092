use job_scraper::db::{bearer, insert_outcome, is_success_status, ping_outcome};
use job_scraper::files::{is_links_file_name, latest_by_key, links_file_stamp_at, latest_links_file, links_file_path, links_file_stamp};
use job_scraper::links::{link_line, link_of_line, link_to_fetch, processed_record, upsert_body};
use job_scraper::error::ScrapeError;

#[test]
fn link_line_is_one_json_object() {
    assert_eq!(link_line("https://x/jobs/1"), "{\"link\":\"https://x/jobs/1\"}");
}

#[test]
fn link_line_reads_back() {
    for href in ["https://x/jobs/1", "a\"quote\\slash", "line\nbreak", "ünïcode"] {
        let line = link_line(href);
        assert!(!line.contains('\n'));
        assert_eq!(link_of_line(&line), Ok(Some(href.to_string())));
    }
}

#[test]
fn link_of_line_reports_bad_lines() {
    assert_eq!(link_of_line("not json"), Err(ScrapeError::InvalidJson));
    assert_eq!(link_of_line("{\"link\": 5}"), Ok(None));
    assert_eq!(link_of_line("[1, 2]"), Ok(None));
    assert_eq!(link_of_line("{\"other\": \"x\"}"), Ok(None));
}

#[test]
fn link_to_fetch_drops_apply() {
    assert_eq!(link_to_fetch("{\"link\":\"https://x/1/apply\"}"), Ok(Some("https://x/1".to_string())));
    assert_eq!(link_to_fetch("{}"), Ok(None));
    assert_eq!(link_to_fetch("{"), Err(ScrapeError::InvalidJson));
}

#[test]
fn links_file_names() {
    assert_eq!(links_file_path("20240101_120000"), "output/links_20240101_120000.json");
    assert!(is_links_file_name("links_20240101_120000.json"));
    assert!(is_links_file_name("links_.json"));
    assert!(!is_links_file_name("links.json"));
    assert!(!is_links_file_name("other.json"));
    assert!(!is_links_file_name("links_20240101_120000.txt"));
}

#[test]
fn links_file_stamps_order_chronologically() {
    let a = links_file_stamp("links_20240101_120000.json").unwrap();
    let b = links_file_stamp("links_20240102_000000.json").unwrap();
    assert!(a < b);
    assert!(links_file_stamp("links_bad.json").is_none());
    assert!(links_file_stamp("links_20241301_000000.json").is_none());
}

fn names(v: &[&str]) -> Vec<String> {
    v.iter().map(|s| s.to_string()).collect()
}

#[test]
fn latest_links_file_takes_the_newest() {
    let files = names(&[
        "links_20240101_120000.json",
        "notes.txt",
        "links_20240102_000000.json",
        "links_20231231_235959.json",
    ]);
    assert_eq!(latest_links_file(&files), Ok(Some(2)));
}

#[test]
fn latest_links_file_takes_the_last_of_equals() {
    let files = names(&["links_20240101_120000.json", "links_20240101_120000.json"]);
    assert_eq!(latest_links_file(&files), Ok(Some(1)));
}

#[test]
fn latest_links_file_without_candidates() {
    assert_eq!(latest_links_file(&names(&["a.txt", "links.json"])), Ok(None));
    assert_eq!(latest_links_file(&Vec::new()), Ok(None));
}

#[test]
fn latest_links_file_reports_unreadable_stamps() {
    let files = names(&["links_20240101_120000.json", "links_bad.json"]);
    assert_eq!(latest_links_file(&files), Err(ScrapeError::InvalidTimestamp));
}

#[test]
fn status_decisions() {
    assert!(is_success_status(200));
    assert!(is_success_status(299));
    assert!(!is_success_status(199));
    assert!(!is_success_status(300));
    assert_eq!(ping_outcome(204), Ok(()));
    assert_eq!(ping_outcome(500), Err(ScrapeError::PingFailed(500)));
    assert_eq!(insert_outcome(409), Err(ScrapeError::InsertFailed(409)));
    assert_eq!(insert_outcome(201), Ok(()));
}

#[test]
fn bearer_header() {
    assert_eq!(bearer("secret"), "Bearer secret");
}

#[test]
fn latest_by_key_takes_the_last_maximum() {
    assert_eq!(latest_by_key(&vec![None, Some((1, 0, 0)), Some((1, 5, 0)), Some((0, 9, 9))]), Some(2));
    assert_eq!(latest_by_key(&vec![Some((3, 1, 1)), None, Some((3, 1, 1))]), Some(2));
    assert_eq!(latest_by_key(&vec![Some((3, 1, 2)), Some((3, 1, 1))]), Some(0));
    assert_eq!(latest_by_key(&vec![None, None]), None);
}

fn object_text(fields: &[(&str, &str)]) -> String {
    let mut map = serde_json::Map::new();
    for (k, v) in fields {
        map.insert(k.to_string(), serde_json::Value::String(v.to_string()));
    }
    serde_json::Value::Object(map).to_string()
}

#[test]
fn processed_record_matches_serde_json_object() {
    let r = processed_record("https://x/1", "Role \"quoted\"\nline");
    assert_eq!(r, object_text(&[("link", "https://x/1"), ("content", "Role \"quoted\"\nline")]));
    assert!(!r.contains('\n'));
}

#[test]
fn upsert_body_is_an_array_of_one_record() {
    let body = upsert_body("https://x/1", "text", "2024-01-01T00:00:00+00:00");
    let value: serde_json::Value = serde_json::from_str(&body).unwrap();
    let items = value.as_array().unwrap();
    assert_eq!(items.len(), 1);
    assert_eq!(items[0]["id"].as_str(), Some("https://x/1"));
    assert_eq!(items[0]["data"].as_str(), Some("text"));
    assert_eq!(items[0]["updated"].as_str(), Some("2024-01-01T00:00:00+00:00"));
    assert_eq!(
        body,
        serde_json::Value::Array(vec![serde_json::from_str(&object_text(&[
            ("id", "https://x/1"),
            ("data", "text"),
            ("updated", "2024-01-01T00:00:00+00:00")
        ]))
        .unwrap()])
        .to_string()
    );
}

#[test]
fn links_file_stamp_reads_back() {
    // 2024-01-02 03:04:05: day 738887 from the common era, second 11045.
    let stamp = links_file_stamp_at(738887, 11045, 123).unwrap();
    assert_eq!(stamp, "20240102_030405");
    let name = format!("links_{}.json", stamp);
    assert!(is_links_file_name(&name));
    assert_eq!(links_file_stamp(&name), Some((738887, 11045, 0)));
    assert_eq!(links_file_stamp_at(738887, 90000, 0), None);
    assert_eq!(links_file_stamp_at(-365, 0, 0).unwrap(), "00000101_000000");
    assert_eq!(links_file_stamp_at(3652059, 86399, 0).unwrap(), "99991231_235959");
}
