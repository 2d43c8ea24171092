//! The job-site rules: for each site, the link patterns that mark a job
//! posting, and the test of a link against a rule.
use vstd::prelude::*;
use crate::text::{chars_of, contains_seq, str_contains};

verus! {

/// A site and the patterns that mark a link on it as a job posting.
pub struct JobRule {
    pub site: &'static str,
    pub patterns: &'static [&'static str],
}

/// A rule as plain text: the site and its patterns.
pub struct RuleView {
    pub site: Seq<char>,
    pub patterns: Seq<Seq<char>>,
}

impl View for JobRule {
    type V = RuleView;

    open spec fn view(&self) -> RuleView {
        RuleView { site: self.site@, patterns: self.patterns@.map_values(|p: &str| p@) }
    }
}

/// The pattern that stands for "the link holds a UUID"; it is matched as a
/// regular expression, every other pattern as a plain substring.
pub const UUID_PATTERN: &'static str =
    r"\b[0-9a-fA-F]{8}-[0-9a-fA-F]{4}-[0-9a-fA-F]{4}-[0-9a-fA-F]{4}-[0-9a-fA-F]{12}\b";

pub const GREENHOUSE_PATTERNS: [&'static str; 2] = ["/jobs/", "/job_app"];

pub const LEVER_PATTERNS: [&'static str; 1] = [UUID_PATTERN];

pub const ASHBY_PATTERNS: [&'static str; 1] = [UUID_PATTERN];

pub const PAYLOCITY_PATTERNS: [&'static str; 2] = ["/jobs/", "/Details/"];

pub const WORKABLE_PATTERNS: [&'static str; 2] = ["/view/", "/j/"];

pub const ICIMS_PATTERNS: [&'static str; 2] = ["/jobs/", "/job"];

pub const MYWORKDAYJOBS_PATTERNS: [&'static str; 1] = ["/job/"];

pub const JOBVITE_PATTERNS: [&'static str; 1] = ["/job/"];

pub const BREEZY_PATTERNS: [&'static str; 1] = ["/p/"];

pub const SMARTRECRUITERS_PATTERNS: [&'static str; 0] = [];

/// Name for whether the regular expression `pattern`, as compiled by the
/// `regex` crate, finds a match in `text`.
pub uninterp spec fn regex_matches(pattern: Seq<char>, text: Seq<char>) -> bool;

/// Calls `regex::Regex::new(pattern)` and `Regex::is_match(text)`. The
/// contract claims only that the answer is the named result for the pattern
/// and the text; what the expression accepts is left unstated. The one
/// pattern admitted is valid, so `unwrap` does not panic.
#[verifier::external_body]
fn regex_is_match(pattern: &str, text: &str) -> (b: bool)
    requires
        pattern@ == UUID_PATTERN@,
    ensures
        b == regex_matches(pattern@, text@),
{
    regex::Regex::new(pattern).unwrap().is_match(text)
}

/// Whether two strings hold the same characters.
pub fn str_eq(a: &str, b: &str) -> (r: bool)
    ensures
        r == (a@ == b@),
{
    let x = chars_of(a);
    let y = chars_of(b);
    if x.len() != y.len() {
        assert(x@.len() != y@.len());
        return false;
    }
    let mut i: usize = 0;
    while i < x.len()
        invariant
            x.len() == y.len(),
            x@ == a@,
            y@ == b@,
            i <= x.len(),
            forall|j: int| 0 <= j < i ==> x@[j] == y@[j],
        decreases x.len() - i,
    {
        if x[i] != y[i] {
            assert(x@[i as int] != y@[i as int]);
            return false;
        }
        i = i + 1;
    }
    assert(x@ =~= y@);
    true
}

/// Whether a link satisfies one pattern: the UUID pattern as a regular
/// expression, any other pattern as a substring.
pub open spec fn pattern_matches(href: Seq<char>, pattern: Seq<char>) -> bool {
    if pattern == UUID_PATTERN@ {
        regex_matches(UUID_PATTERN@, href)
    } else {
        contains_seq(href, pattern)
    }
}

/// Whether a link matches a rule: it names the rule's site, and it satisfies
/// one of the rule's patterns or the rule has none.
pub open spec fn rule_matches(href: Seq<char>, rule: RuleView) -> bool {
    &&& contains_seq(href, rule.site)
    &&& (rule.patterns.len() == 0 || exists|k: int|
        0 <= k < rule.patterns.len() && pattern_matches(href, #[trigger] rule.patterns[k]))
}

/// Whether `href` is a job link under `rule`.
pub fn matches_rule(href: &str, rule: &JobRule) -> (b: bool)
    ensures
        b == rule_matches(href@, rule@),
{
    if !str_contains(href, rule.site) {
        return false;
    }
    let ghost pats = rule@.patterns;
    let mut i: usize = 0;
    while i < rule.patterns.len()
        invariant
            i <= rule.patterns@.len(),
            pats == rule@.patterns,
            pats.len() == rule.patterns@.len(),
            contains_seq(href@, rule@.site),
            forall|j: int| 0 <= j < i ==> !pattern_matches(href@, #[trigger] pats[j]),
        decreases rule.patterns@.len() - i,
    {
        let pattern: &str = rule.patterns[i];
        assert(pats[i as int] == pattern@);
        if str_eq(pattern, UUID_PATTERN) {
            if regex_is_match(UUID_PATTERN, href) {
                return true;
            }
        } else if str_contains(href, pattern) {
            return true;
        }
        i = i + 1;
    }
    rule.patterns.len() == 0
}

/// Builds a rule.
fn rule(site: &'static str, patterns: &'static [&'static str]) -> (r: JobRule)
    ensures
        r.site == site,
        r.patterns == patterns,
{
    JobRule { site, patterns }
}

/// The rules of every supported site, as plain text.
pub open spec fn job_rules_spec() -> Seq<RuleView> {
    seq![
        RuleView { site: "greenhouse.io"@, patterns: seq!["/jobs/"@, "/job_app"@] },
        RuleView { site: "lever.co"@, patterns: seq![UUID_PATTERN@] },
        RuleView { site: "ashbyhq.com"@, patterns: seq![UUID_PATTERN@] },
        RuleView { site: "paylocity.com"@, patterns: seq!["/jobs/"@, "/Details/"@] },
        RuleView { site: "workable.com"@, patterns: seq!["/view/"@, "/j/"@] },
        RuleView { site: "icims.com"@, patterns: seq!["/jobs/"@, "/job"@] },
        RuleView { site: "myworkdayjobs.com"@, patterns: seq!["/job/"@] },
        RuleView { site: "jobvite.com"@, patterns: seq!["/job/"@] },
        RuleView { site: "breezy.hr"@, patterns: seq!["/p/"@] },
        RuleView { site: "jobs.smartrecruiters.com"@, patterns: seq![] },
    ]
}

/// The rules of every supported site, in order.
pub fn job_rules() -> (r: Vec<JobRule>)
    ensures
        r@.map_values(|x: JobRule| x@) == job_rules_spec(),
{
    let r = vec![
        rule("greenhouse.io", &GREENHOUSE_PATTERNS),
        rule("lever.co", &LEVER_PATTERNS),
        rule("ashbyhq.com", &ASHBY_PATTERNS),
        rule("paylocity.com", &PAYLOCITY_PATTERNS),
        rule("workable.com", &WORKABLE_PATTERNS),
        rule("icims.com", &ICIMS_PATTERNS),
        rule("myworkdayjobs.com", &MYWORKDAYJOBS_PATTERNS),
        rule("jobvite.com", &JOBVITE_PATTERNS),
        rule("breezy.hr", &BREEZY_PATTERNS),
        rule("jobs.smartrecruiters.com", &SMARTRECRUITERS_PATTERNS),
    ];
    assert(r@.map_values(|x: JobRule| x@) =~= job_rules_spec()) by {
        assert(r@[0]@.patterns =~= job_rules_spec()[0].patterns);
        assert(r@[1]@.patterns =~= job_rules_spec()[1].patterns);
        assert(r@[2]@.patterns =~= job_rules_spec()[2].patterns);
        assert(r@[3]@.patterns =~= job_rules_spec()[3].patterns);
        assert(r@[4]@.patterns =~= job_rules_spec()[4].patterns);
        assert(r@[5]@.patterns =~= job_rules_spec()[5].patterns);
        assert(r@[6]@.patterns =~= job_rules_spec()[6].patterns);
        assert(r@[7]@.patterns =~= job_rules_spec()[7].patterns);
        assert(r@[8]@.patterns =~= job_rules_spec()[8].patterns);
        assert(r@[9]@.patterns =~= job_rules_spec()[9].patterns);
    }
    r
}

/// Whether `href`, found while searching `site`, is a job link: some rule of
/// that very site matches it.
pub open spec fn is_job_link(href: Seq<char>, site: Seq<char>) -> bool {
    exists|k: int|
        0 <= k < job_rules_spec().len() && (#[trigger] job_rules_spec()[k]).site == site
            && rule_matches(href, job_rules_spec()[k])
}

/// Whether `href`, found while searching `site`, is a job link.
pub fn is_job_link_for_site(href: &str, site: &str) -> (b: bool)
    ensures
        b == is_job_link(href@, site@),
{
    let rules = job_rules();
    let ghost spec_rules = job_rules_spec();
    let mut i: usize = 0;
    while i < rules.len()
        invariant
            i <= rules.len(),
            rules@.map_values(|x: JobRule| x@) == spec_rules,
            spec_rules == job_rules_spec(),
            forall|j: int|
                0 <= j < i ==> !((#[trigger] spec_rules[j]).site == site@ && rule_matches(
                    href@,
                    spec_rules[j],
                )),
        decreases rules.len() - i,
    {
        assert(spec_rules[i as int] == rules@[i as int]@);
        if str_eq(rules[i].site, site) && matches_rule(href, &rules[i]) {
            return true;
        }
        i = i + 1;
    }
    false
}

/// The job links among the `href` attributes of a page's anchors (`None` for
/// an anchor without one), in page order.
pub open spec fn job_links_spec(hrefs: Seq<Option<Seq<char>>>, site: Seq<char>) -> Seq<Seq<char>>
    decreases hrefs.len(),
{
    if hrefs.len() == 0 {
        seq![]
    } else {
        let rest = job_links_spec(hrefs.drop_last(), site);
        match hrefs.last() {
            Some(h) => if is_job_link(h, site) {
                rest.push(h)
            } else {
                rest
            },
            None => rest,
        }
    }
}

/// The job links among the anchors' `href` attributes of a page found while
/// searching `site`, in page order.
pub fn job_links(hrefs: &Vec<Option<String>>, site: &str) -> (r: Vec<String>)
    ensures
        r.deep_view() == job_links_spec(hrefs.deep_view(), site@),
{
    let ghost hv = hrefs.deep_view();
    let mut r: Vec<String> = Vec::new();
    let mut i: usize = 0;
    while i < hrefs.len()
        invariant
            i <= hrefs.len(),
            hv == hrefs.deep_view(),
            r.deep_view() == job_links_spec(hv.take(i as int), site@),
        decreases hrefs.len() - i,
    {
        assert(hv.take(i + 1).drop_last() =~= hv.take(i as int));
        assert(hv.take(i + 1).last() == hv[i as int]);
        match &hrefs[i] {
            Some(h) => {
                if is_job_link_for_site(h.as_str(), site) {
                    let ghost before = r.deep_view();
                    r.push(h.clone());
                    assert(r.deep_view() =~= before.push(h@));
                }
            },
            None => {},
        }
        i = i + 1;
    }
    assert(hv.take(hrefs.len() as int) =~= hv);
    r
}

/// Law: every job link found while searching a site names that site, and is
/// the `href` of one of the page's anchors.
pub proof fn law_job_links_from_site(hrefs: Seq<Option<Seq<char>>>, site: Seq<char>)
    ensures
        forall|k: int|
            0 <= k < job_links_spec(hrefs, site).len() ==> {
                &&& contains_seq(#[trigger] job_links_spec(hrefs, site)[k], site)
                &&& hrefs.contains(Some(job_links_spec(hrefs, site)[k]))
            },
    decreases hrefs.len(),
{
    if hrefs.len() > 0 {
        let init = hrefs.drop_last();
        law_job_links_from_site(init, site);
        let links = job_links_spec(hrefs, site);
        let rest = job_links_spec(init, site);
        assert forall|k: int| 0 <= k < links.len() implies {
            &&& contains_seq(#[trigger] links[k], site)
            &&& hrefs.contains(Some(links[k]))
        } by {
            if k < rest.len() {
                assert(links[k] == rest[k]);
                let j = choose|j: int| 0 <= j < init.len() && init[j] == Some(rest[k]);
                assert(hrefs[j] == init[j]);
            } else {
                let h = hrefs.last()->0;
                assert(links[k] == h);
                let r = choose|r: int|
                    0 <= r < job_rules_spec().len() && (#[trigger] job_rules_spec()[r]).site
                        == site && rule_matches(h, job_rules_spec()[r]);
                assert(hrefs[hrefs.len() - 1] == Some(h));
            }
        }
    }
}

/// Law: the rule table is the table of the site constants: each site, in
/// order, with exactly the patterns of its `*_PATTERNS` constant.
pub proof fn law_rule_table_is_the_site_constants()
    ensures
        job_rules_spec().len() == 10,
        job_rules_spec()[0] == (RuleView { site: "greenhouse.io"@, patterns: GREENHOUSE_PATTERNS@.map_values(|p: &str| p@) }),
        job_rules_spec()[1] == (RuleView { site: "lever.co"@, patterns: LEVER_PATTERNS@.map_values(|p: &str| p@) }),
        job_rules_spec()[2] == (RuleView { site: "ashbyhq.com"@, patterns: ASHBY_PATTERNS@.map_values(|p: &str| p@) }),
        job_rules_spec()[3] == (RuleView { site: "paylocity.com"@, patterns: PAYLOCITY_PATTERNS@.map_values(|p: &str| p@) }),
        job_rules_spec()[4] == (RuleView { site: "workable.com"@, patterns: WORKABLE_PATTERNS@.map_values(|p: &str| p@) }),
        job_rules_spec()[5] == (RuleView { site: "icims.com"@, patterns: ICIMS_PATTERNS@.map_values(|p: &str| p@) }),
        job_rules_spec()[6] == (RuleView { site: "myworkdayjobs.com"@, patterns: MYWORKDAYJOBS_PATTERNS@.map_values(|p: &str| p@) }),
        job_rules_spec()[7] == (RuleView { site: "jobvite.com"@, patterns: JOBVITE_PATTERNS@.map_values(|p: &str| p@) }),
        job_rules_spec()[8] == (RuleView { site: "breezy.hr"@, patterns: BREEZY_PATTERNS@.map_values(|p: &str| p@) }),
        job_rules_spec()[9] == (RuleView { site: "jobs.smartrecruiters.com"@, patterns: SMARTRECRUITERS_PATTERNS@.map_values(|p: &str| p@) }),
{
    assert(GREENHOUSE_PATTERNS@.map_values(|p: &str| p@) =~= job_rules_spec()[0].patterns);
    assert(LEVER_PATTERNS@.map_values(|p: &str| p@) =~= job_rules_spec()[1].patterns);
    assert(ASHBY_PATTERNS@.map_values(|p: &str| p@) =~= job_rules_spec()[2].patterns);
    assert(PAYLOCITY_PATTERNS@.map_values(|p: &str| p@) =~= job_rules_spec()[3].patterns);
    assert(WORKABLE_PATTERNS@.map_values(|p: &str| p@) =~= job_rules_spec()[4].patterns);
    assert(ICIMS_PATTERNS@.map_values(|p: &str| p@) =~= job_rules_spec()[5].patterns);
    assert(MYWORKDAYJOBS_PATTERNS@.map_values(|p: &str| p@) =~= job_rules_spec()[6].patterns);
    assert(JOBVITE_PATTERNS@.map_values(|p: &str| p@) =~= job_rules_spec()[7].patterns);
    assert(BREEZY_PATTERNS@.map_values(|p: &str| p@) =~= job_rules_spec()[8].patterns);
    assert(SMARTRECRUITERS_PATTERNS@.map_values(|p: &str| p@) =~= job_rules_spec()[9].patterns);
}

/// Law: a link that names a rule's site and holds one of that rule's plain
/// (non-UUID) patterns is a job link when searching that site; and a link
/// that names the site of a rule without patterns always is.
pub proof fn law_site_pattern_marks_job_link(href: Seq<char>, k: int, j: int)
    requires
        0 <= k < job_rules_spec().len(),
        contains_seq(href, job_rules_spec()[k].site),
        job_rules_spec()[k].patterns.len() == 0 || (0 <= j < job_rules_spec()[k].patterns.len()
            && job_rules_spec()[k].patterns[j] != UUID_PATTERN@ && contains_seq(
            href,
            job_rules_spec()[k].patterns[j],
        )),
    ensures
        is_job_link(href, job_rules_spec()[k].site),
{
    let r = job_rules_spec()[k];
    if r.patterns.len() > 0 {
        assert(pattern_matches(href, r.patterns[j]));
    }
    assert(rule_matches(href, r));
}

/// Whether the `k`-th anchor of a page has an `href` that is a job link for
/// `site`.
pub open spec fn is_job_href(hrefs: Seq<Option<Seq<char>>>, site: Seq<char>, k: int) -> bool {
    hrefs[k] is Some && is_job_link(hrefs[k]->0, site)
}

/// Law: the job links of a page are exactly its anchors' `href`s that are job
/// links for the site, each once, in page order, however many anchors the
/// page has: the returned indices pick them out, increasing, and every
/// anchor whose `href` is a job link is among them.
pub proof fn law_job_links_are_the_matching_hrefs(hrefs: Seq<Option<Seq<char>>>, site: Seq<char>) -> (idx: Seq<int>)
    ensures
        idx.len() == job_links_spec(hrefs, site).len(),
        forall|m: int|
            0 <= m < idx.len() ==> {
                &&& 0 <= #[trigger] idx[m] < hrefs.len()
                &&& is_job_href(hrefs, site, idx[m])
                &&& hrefs[idx[m]] == Some(job_links_spec(hrefs, site)[m])
            },
        forall|m: int, n: int| 0 <= m < n < idx.len() ==> #[trigger] idx[m] < #[trigger] idx[n],
        forall|k: int| 0 <= k < hrefs.len() && is_job_href(hrefs, site, k) ==> idx.contains(k),
    decreases hrefs.len(),
{
    if hrefs.len() == 0 {
        Seq::empty()
    } else {
        let init = hrefs.drop_last();
        let prev = law_job_links_are_the_matching_hrefs(init, site);
        let last = hrefs.len() - 1;
        let links = job_links_spec(hrefs, site);
        let rest = job_links_spec(init, site);
        assert forall|k: int| 0 <= k < init.len() implies (is_job_href(hrefs, site, k)
            == is_job_href(init, site, k) && hrefs[k] == init[k]) by {}
        if is_job_href(hrefs, site, last) {
            let idx = prev.push(last);
            assert(links == rest.push(hrefs[last]->0));
            assert forall|m: int| 0 <= m < idx.len() implies {
                &&& 0 <= #[trigger] idx[m] < hrefs.len()
                &&& is_job_href(hrefs, site, idx[m])
                &&& hrefs[idx[m]] == Some(links[m])
            } by {
                if m < prev.len() {
                    assert(idx[m] == prev[m]);
                    assert(links[m] == rest[m]);
                }
            }
            assert forall|m: int, n: int| 0 <= m < n < idx.len() implies #[trigger] idx[m]
                < #[trigger] idx[n] by {
                if n < prev.len() {
                    assert(idx[m] == prev[m] && idx[n] == prev[n]);
                } else {
                    assert(idx[m] == prev[m]);
                }
            }
            assert forall|k: int| 0 <= k < hrefs.len() && is_job_href(hrefs, site, k) implies idx.contains(k) by {
                if k < last {
                    assert(hrefs[k] == init[k]);
                    assert(is_job_href(init, site, k));
                    assert(prev.contains(k));
                    let m = choose|m: int| 0 <= m < prev.len() && prev[m] == k;
                    assert(idx[m] == k);
                } else {
                    assert(idx[prev.len() as int] == k);
                }
            }
            idx
        } else {
            assert(links == rest);
            assert forall|k: int| 0 <= k < hrefs.len() && is_job_href(hrefs, site, k) implies prev.contains(k) by {
                if k == last {
                    assert(false);
                } else {
                    assert(hrefs[k] == init[k]);
                    assert(is_job_href(init, site, k));
                }
            }
            prev
        }
    }
}

} // verus!
