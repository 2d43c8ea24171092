use job_scraper::content::{finish_text, join_texts, page_content, processed_link};

#[test]
fn processed_link_drops_trailing_apply() {
    assert_eq!(processed_link("https://boards.greenhouse.io/a/jobs/1/apply"), "https://boards.greenhouse.io/a/jobs/1");
    assert_eq!(processed_link("https://boards.greenhouse.io/a/jobs/1"), "https://boards.greenhouse.io/a/jobs/1");
}

#[test]
fn entities_are_removed_left_to_right() {
    assert_eq!(finish_text("x &amp; y &bad; &; &a1;", false), "x  y  &; &a1;");
    assert_eq!(finish_text("&&amp;;", false), "&;");
    assert_eq!(finish_text("  a &nbsp; ", true), "a");
    assert_eq!(finish_text("no entities", false), "no entities");
}

#[test]
fn join_texts_collapses_whitespace() {
    let texts = vec!["Senior  ".to_string(), "\n Engineer".to_string(), "".to_string()];
    assert_eq!(join_texts(&texts), "Senior Engineer");
}

const PAGE: &str = "<html><head><title>T</title></head><body><div>Senior   Engineer &amp; Lead</div>\
<script>var x = 1;</script><form>Name</form><p>Apply for this job now</p><p>tail</p></body></html>";

#[test]
fn page_content_cuts_the_application_section() {
    assert_eq!(page_content(PAGE, true), "Senior Engineer & Lead");
    assert_eq!(page_content(PAGE, false), "Senior Engineer & Lead ");
}

#[test]
fn page_content_cut_is_case_insensitive() {
    let page = "<html><body><p>Role text APPLY FOR THIS JOB below</p></body></html>";
    assert_eq!(page_content(page, true), "Role text");
}

#[test]
fn page_content_removes_entities_left_in_the_text() {
    let page = "<html><body><p>A&amp;nbsp;B</p></body></html>";
    assert_eq!(page_content(page, true), "AB");
}

#[test]
fn page_content_skips_scripts_styles_and_forms() {
    let page = "<html><head><style>h{}</style></head><body><style>p{}</style><p>keep</p><form>drop</form>\
<script>drop()</script><div>also <b>kept</b></div></body></html>";
    assert_eq!(page_content(page, true), "keep also kept");
}

#[test]
fn entities_law_text_without_ampersand_is_kept() {
    assert_eq!(finish_text("plain text; no entity", false), "plain text; no entity");
}

#[test]
fn trimmed_content_is_untrimmed_content_trimmed() {
    let page = "<html><body><p>Role</p><p>apply for this job</p></body></html>";
    let untrimmed = page_content(page, false);
    assert_eq!(untrimmed, "Role ");
    assert_eq!(page_content(page, true), untrimmed.trim());
}

#[test]
fn apply_cut_folds_long_s_and_stops_at_line_feeds() {
    // `ſ` (U+017F) folds to `s` under the regex crate's case folding.
    assert_eq!(finish_text("x", false), "x");
    let page = "<html><body><p>Role APPLY FOR THIſ JOB now</p></body></html>";
    assert_eq!(page_content(page, true), "Role");
    let other = "<html><body><p>Role Apply for this jobs</p></body></html>";
    assert_eq!(page_content(other, true), "Role");
    let none = "<html><body><p>Role Apply for that job</p></body></html>";
    assert_eq!(page_content(none, true), "Role Apply for that job");
}
