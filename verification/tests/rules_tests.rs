use job_scraper::rules::{
    is_job_link_for_site, job_links, job_rules, matches_rule, JobRule, GREENHOUSE_PATTERNS,
    SMARTRECRUITERS_PATTERNS, UUID_PATTERN,
};

#[test]
fn greenhouse_rule_needs_site_and_pattern() {
    let rule = JobRule { site: "greenhouse.io", patterns: &GREENHOUSE_PATTERNS };
    assert!(matches_rule("https://boards.greenhouse.io/acme/jobs/123", &rule));
    assert!(matches_rule("https://boards.greenhouse.io/embed/job_app?token=1", &rule));
    assert!(!matches_rule("https://greenhouse.io/about", &rule));
    assert!(!matches_rule("https://example.com/jobs/123", &rule));
}

#[test]
fn uuid_pattern_is_a_regular_expression() {
    let rules = job_rules();
    let lever = &rules[1];
    assert_eq!(lever.site, "lever.co");
    assert!(matches_rule("https://jobs.lever.co/acme/0f8fad5b-d9cb-469f-a165-70867728950e", lever));
    assert!(matches_rule("https://jobs.lever.co/acme/0F8FAD5B-D9CB-469F-A165-70867728950E/apply", lever));
    assert!(!matches_rule("https://jobs.lever.co/acme", lever));
    assert!(!matches_rule("https://jobs.lever.co/acme/0f8fad5b-d9cb-469f-a165-70867728950", lever));
    assert!(!matches_rule("https://jobs.lever.co/acme/x0f8fad5b-d9cb-469f-a165-70867728950e", lever));
    assert_eq!(lever.patterns, &[UUID_PATTERN]);
}

#[test]
fn rule_without_patterns_matches_any_link_of_its_site() {
    let rule = JobRule { site: "jobs.smartrecruiters.com", patterns: &SMARTRECRUITERS_PATTERNS };
    assert!(matches_rule("https://jobs.smartrecruiters.com/Acme/123", &rule));
    assert!(!matches_rule("https://smartrecruiters.com/Acme/123", &rule));
}

#[test]
fn job_rules_cover_the_ten_sites_in_order() {
    let sites: Vec<&str> = job_rules().iter().map(|r| r.site).collect();
    assert_eq!(
        sites,
        vec![
            "greenhouse.io",
            "lever.co",
            "ashbyhq.com",
            "paylocity.com",
            "workable.com",
            "icims.com",
            "myworkdayjobs.com",
            "jobvite.com",
            "breezy.hr",
            "jobs.smartrecruiters.com"
        ]
    );
}

#[test]
fn job_link_must_match_the_searched_site_rule() {
    assert!(is_job_link_for_site("https://apply.workable.com/acme/j/ABC123/", "workable.com"));
    assert!(!is_job_link_for_site("https://apply.workable.com/acme/j/ABC123/", "greenhouse.io"));
    assert!(!is_job_link_for_site("https://jobs.smartrecruiters.com/Acme/123", "jobs.smartrecruiters.com/"));
    assert!(is_job_link_for_site("https://acme.icims.com/jobs/1/job", "icims.com"));
}

#[test]
fn job_links_keeps_matching_hrefs_in_order() {
    let hrefs = vec![
        Some("https://boards.greenhouse.io/a/jobs/1".to_string()),
        None,
        Some("https://www.google.com/search?q=x".to_string()),
        Some("https://boards.greenhouse.io/b/jobs/2".to_string()),
    ];
    assert_eq!(
        job_links(&hrefs, "greenhouse.io"),
        vec!["https://boards.greenhouse.io/a/jobs/1".to_string(), "https://boards.greenhouse.io/b/jobs/2".to_string()]
    );
    assert!(job_links(&hrefs, "lever.co").is_empty());
}
