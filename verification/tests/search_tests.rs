use job_scraper::error::ScrapeError;
use job_scraper::search::{
    decimal_string, site_query_string, LinkBatch, SearchConfig, SiteScan, PAGE_SIZE,
};

#[test]
fn decimal_matches_to_string() {
    for n in [0, 7, 10, 130, 99999, i32::MAX, -5, i32::MIN] {
        assert_eq!(decimal_string(n), n.to_string());
    }
}

#[test]
fn site_query_restricts_to_site() {
    assert_eq!(site_query_string("allintitle: Intern", "greenhouse.io"), "allintitle: Intern site:greenhouse.io");
}

#[test]
fn search_url_encodes_the_parameters() {
    let config = SearchConfig::new("https://www.google.com/search", "allintitle: Intern", "qdr:d", vec!["greenhouse.io"]);
    assert_eq!(
        config.search_url("greenhouse.io", 20),
        Ok("https://www.google.com/search?q=allintitle%3A+Intern+site%3Agreenhouse.io&tbs=qdr%3Ad&start=20".to_string())
    );
}

#[test]
fn search_url_rejects_a_bad_base() {
    let config = SearchConfig::new("not a url", "q", "qdr:d", vec![]);
    assert_eq!(config.search_url("greenhouse.io", 0), Err(ScrapeError::InvalidUrl));
}

#[test]
fn scan_moves_by_a_page_while_there_is_a_next_page() {
    let mut scan = SiteScan::new();
    assert_eq!((scan.start, scan.has_next_page), (0, true));
    scan.advance(true);
    scan.advance(true);
    assert_eq!((scan.start, scan.has_next_page), (2 * PAGE_SIZE, true));
    scan.advance(false);
    assert_eq!((scan.start, scan.has_next_page), (20, false));
}

#[test]
fn scan_page_reads_links_and_next_page() {
    let page = "<html><body><a href=\"https://boards.greenhouse.io/a/jobs/1\">x</a>\
<a href=\"https://maps.google.com\">y</a><a id=\"pnnext\" href=\"/search?start=10\">Next</a></body></html>";
    let mut scan = SiteScan::new();
    let result = scan.scan_page(page, "greenhouse.io").unwrap();
    assert_eq!(result.links, vec!["https://boards.greenhouse.io/a/jobs/1".to_string()]);
    assert!(result.has_next);
    assert_eq!(scan.start, 10);
    let last = scan.scan_page("<html><body></body></html>", "greenhouse.io").unwrap();
    assert!(last.links.is_empty());
    assert!(!last.has_next);
    assert!(!scan.has_next_page);
    assert_eq!(scan.start, 10);
}

fn links(prefix: &str, n: usize) -> Vec<String> {
    (0..n).map(|i| format!("{}{}", prefix, i)).collect()
}

#[test]
fn batch_hands_out_links_at_ten_or_at_the_last_page() {
    let mut batch = LinkBatch::new();
    assert_eq!(batch.take_page(links("a", 3), true), None);
    assert_eq!(batch.links.len(), 3);
    let out = batch.take_page(links("b", 8), true).unwrap();
    assert_eq!(out.len(), 11);
    assert_eq!(out[0], "a0");
    assert_eq!(out[10], "b7");
    assert!(batch.links.is_empty());
    assert_eq!(batch.take_page(links("c", 2), true), None);
    assert_eq!(batch.take_page(Vec::new(), false), Some(links("c", 2)));
    assert!(batch.links.is_empty());
}

#[test]
fn batches_keep_every_link_in_order() {
    let pages = vec![(links("p", 4), true), (links("q", 7), true), (links("r", 1), true), (links("s", 2), false)];
    let mut batch = LinkBatch::new();
    let mut written = Vec::new();
    let mut found = Vec::new();
    for (page, next) in pages {
        found.extend(page.clone());
        if let Some(out) = batch.take_page(page, next) {
            written.extend(out);
        }
    }
    assert_eq!(written, found);
    assert!(batch.links.is_empty());
}

#[test]
fn scan_page_refuses_an_offset_beyond_i32() {
    let next = "<html><body><a id=\"pnnext\" href=\"/n\">Next</a></body></html>";
    let mut scan = SiteScan { start: i32::MAX - 5, has_next_page: true };
    assert!(scan.scan_page(next, "greenhouse.io").is_none());
    assert_eq!(scan.start, i32::MAX - 5);
    let last = scan.scan_page("<html><body></body></html>", "greenhouse.io").unwrap();
    assert!(!last.has_next);
    assert_eq!(scan.start, i32::MAX - 5);
}

#[test]
fn scan_page_anchor_without_href_is_skipped() {
    let page = "<html><body><a>none</a><a href=\"https://jobs.lever.co/a/0f8fad5b-d9cb-469f-a165-70867728950e\">x</a></body></html>";
    let mut scan = SiteScan::new();
    let result = scan.scan_page(page, "lever.co").unwrap();
    assert_eq!(result.links, vec!["https://jobs.lever.co/a/0f8fad5b-d9cb-469f-a165-70867728950e".to_string()]);
    assert!(!result.has_next);
}
