//! Searching a site through the search engine: the query, the request URL of
//! each result page, and the scan from page to page.
use vstd::prelude::*;
use crate::html::{anchor_hrefs, has_next_link, page_anchor_hrefs, page_has_next_link};
use crate::rules::{job_links, job_links_spec};
use crate::error::ScrapeError;
use crate::text::{chars_of, string_of};

verus! {

/// What a search is made of: the search engine's address, the query, the
/// time filter (`tbs`), and the sites to search.
pub struct SearchConfig {
    pub base_url: String,
    pub query: String,
    pub tbs: String,
    pub sites: Vec<&'static str>,
}

/// The query sent for one site: the query restricted to the site.
pub open spec fn site_query(query: Seq<char>, site: Seq<char>) -> Seq<char> {
    query + " site:"@ + site
}

/// The decimal digit for `d` (below 10).
pub open spec fn digit_char(d: nat) -> char {
    if d == 0 {
        '0'
    } else if d == 1 {
        '1'
    } else if d == 2 {
        '2'
    } else if d == 3 {
        '3'
    } else if d == 4 {
        '4'
    } else if d == 5 {
        '5'
    } else if d == 6 {
        '6'
    } else if d == 7 {
        '7'
    } else if d == 8 {
        '8'
    } else {
        '9'
    }
}

/// The decimal notation of `n`, without leading zeros.
pub open spec fn decimal(n: nat) -> Seq<char>
    decreases n,
{
    if n < 10 {
        seq![digit_char(n)]
    } else {
        decimal(n / 10).push(digit_char(n % 10))
    }
}

/// The decimal notation of an integer, with `-` before a negative one (what
/// `to_string` gives for an `i32`).
pub open spec fn decimal_int(n: int) -> Seq<char> {
    if n < 0 {
        seq!['-'] + decimal((-n) as nat)
    } else {
        decimal(n as nat)
    }
}

fn digit(d: u64) -> (c: char)
    requires
        d < 10,
    ensures
        c == digit_char(d as nat),
{
    if d == 0 {
        '0'
    } else if d == 1 {
        '1'
    } else if d == 2 {
        '2'
    } else if d == 3 {
        '3'
    } else if d == 4 {
        '4'
    } else if d == 5 {
        '5'
    } else if d == 6 {
        '6'
    } else if d == 7 {
        '7'
    } else if d == 8 {
        '8'
    } else {
        '9'
    }
}

fn push_decimal(out: &mut Vec<char>, n: u64)
    ensures
        final(out)@ == old(out)@ + decimal(n as nat),
    decreases n,
{
    if n >= 10 {
        push_decimal(out, n / 10);
    }
    out.push(digit(n % 10));
    assert(out@ =~= old(out)@ + decimal(n as nat));
}

/// The decimal notation of `n`.
pub fn decimal_string(n: i32) -> (r: String)
    ensures
        r@ == decimal_int(n as int),
{
    let mut out: Vec<char> = Vec::new();
    if n < 0 {
        out.push('-');
        let m: i64 = -(n as i64);
        push_decimal(&mut out, m as u64);
        assert(out@ =~= seq!['-'] + decimal((-n) as nat));
    } else {
        push_decimal(&mut out, n as u64);
        assert(out@ =~= decimal(n as nat));
    }
    string_of(&out)
}

/// The query sent for one site.
pub fn site_query_string(query: &str, site: &str) -> (r: String)
    ensures
        r@ == site_query(query@, site@),
{
    let mut out = chars_of(query);
    out.append(&mut chars_of(" site:"));
    out.append(&mut chars_of(site));
    string_of(&out)
}

#[verifier::external_type_specification]
#[verifier::external_body]
pub struct ExUrlParseError(url::ParseError);

/// Name for the text of the URL that `url::Url::parse_with_params` makes of
/// `base` with the query pairs `params` (name and value, in order), or `None`
/// where `base` is not a URL.
pub uninterp spec fn url_with_params(
    base: Seq<char>,
    params: Seq<(Seq<char>, Seq<char>)>,
) -> Option<Seq<char>>;

/// Calls `url::Url::parse_with_params(base, params)` and turns the URL into
/// its text. The contract claims that the outcome is the named result for
/// the arguments; URL parsing and query encoding are left unstated.
#[verifier::external_body]
fn parse_with_params(base: &str, params: &Vec<(String, String)>) -> (r: Result<
    String,
    url::ParseError,
>)
    ensures
        r matches Ok(u) ==> url_with_params(base@, params.deep_view()) == Some(u@),
        r is Err ==> url_with_params(base@, params.deep_view()) is None,
{
    url::Url::parse_with_params(base, params.iter()).map(|u| u.to_string())
}

/// The query pairs of the result page that starts at result `start` for
/// `site`: the query restricted to the site, the time filter and the offset.
pub open spec fn search_params(
    query: Seq<char>,
    tbs: Seq<char>,
    site: Seq<char>,
    start: int,
) -> Seq<(Seq<char>, Seq<char>)> {
    seq![("q"@, site_query(query, site)), ("tbs"@, tbs), ("start"@, decimal_int(start))]
}

/// The URL of the search result page that starts at result `start` for
/// `site`, or `None` where the base URL is not a URL.
pub open spec fn search_url_spec(
    base: Seq<char>,
    query: Seq<char>,
    tbs: Seq<char>,
    site: Seq<char>,
    start: int,
) -> Option<Seq<char>> {
    url_with_params(base, search_params(query, tbs, site, start))
}

impl SearchConfig {
    /// A search of `sites` with `query` and time filter `tbs` on the search
    /// engine at `base_url`.
    pub fn new(base_url: &str, query: &str, tbs: &str, sites: Vec<&'static str>) -> (r: Self)
        ensures
            r.base_url@ == base_url@,
            r.query@ == query@,
            r.tbs@ == tbs@,
            r.sites == sites,
    {
        SearchConfig {
            base_url: base_url.to_owned(),
            query: query.to_owned(),
            tbs: tbs.to_owned(),
            sites,
        }
    }

    /// The URL of the result page for `site` that starts at result `start`.
    pub fn search_url(&self, site: &str, start: i32) -> (r: Result<String, ScrapeError>)
        ensures
            r matches Ok(u) ==> search_url_spec(
                self.base_url@,
                self.query@,
                self.tbs@,
                site@,
                start as int,
            ) == Some(u@),
            r matches Err(e) ==> e == ScrapeError::InvalidUrl && search_url_spec(
                self.base_url@,
                self.query@,
                self.tbs@,
                site@,
                start as int,
            ) is None,
    {
        let q = site_query_string(self.query.as_str(), site);
        let s = decimal_string(start);
        let params: Vec<(String, String)> = vec![
            ("q".to_owned(), q),
            ("tbs".to_owned(), self.tbs.as_str().to_owned()),
            ("start".to_owned(), s),
        ];
        assert(params.deep_view() =~= search_params(self.query@, self.tbs@, site@, start as int));
        match parse_with_params(self.base_url.as_str(), &params) {
            Ok(u) => Ok(u),
            Err(_) => Err(ScrapeError::InvalidUrl),
        }
    }
}

/// Where the scan of one site stands: the offset of the next result page and
/// whether there is one.
pub struct SiteScan {
    pub start: i32,
    pub has_next_page: bool,
}

/// What one result page gave: its job links, in page order, and whether it
/// links to a next page.
pub struct PageResult {
    pub links: Vec<String>,
    pub has_next: bool,
}

/// The number of results a page holds, by which the offset moves.
pub const PAGE_SIZE: i32 = 10;

impl SiteScan {
    /// The scan before the first page: offset 0, a page to fetch.
    pub fn new() -> (r: Self)
        ensures
            r.start == 0,
            r.has_next_page,
    {
        SiteScan { start: 0, has_next_page: true }
    }

    /// Records a page's outcome: whether there is a next page, and if so
    /// moves the offset to it.
    pub fn advance(&mut self, has_next: bool)
        requires
            has_next ==> old(self).start <= i32::MAX - PAGE_SIZE,
        ensures
            final(self).has_next_page == has_next,
            final(self).start == (if has_next {
                old(self).start + PAGE_SIZE
            } else {
                old(self).start as int
            }),
    {
        self.has_next_page = has_next;
        if has_next {
            self.start = self.start + PAGE_SIZE;
        }
    }

    /// Takes in a page's anchors and next-page test, found while searching
    /// `site`: returns the page's job links and moves the scan on.
    pub fn scan_links(&mut self, hrefs: &Vec<Option<String>>, has_next: bool, site: &str) -> (r:
        PageResult)
        requires
            has_next ==> old(self).start <= i32::MAX - PAGE_SIZE,
        ensures
            r.links.deep_view() == job_links_spec(hrefs.deep_view(), site@),
            r.has_next == has_next,
            final(self).has_next_page == has_next,
            final(self).start == (if has_next {
                old(self).start + PAGE_SIZE
            } else {
                old(self).start as int
            }),
    {
        let links = job_links(hrefs, site);
        self.advance(has_next);
        PageResult { links, has_next }
    }

    /// Takes in a fetched result page, found while searching `site`: returns
    /// its job links and whether it has a next page, and moves the scan on.
    /// Returns `None`, leaving the scan as it was, where the page has a next
    /// page but the offset of that page is beyond `i32`.
    pub fn scan_page(&mut self, html: &str, site: &str) -> (r: Option<PageResult>)
        ensures
            match r {
                Some(page) => {
                    &&& page.links.deep_view() == job_links_spec(page_anchor_hrefs(html@), site@)
                    &&& page.has_next == page_has_next_link(html@)
                    &&& final(self).has_next_page == page.has_next
                    &&& final(self).start == (if page.has_next {
                        old(self).start + PAGE_SIZE
                    } else {
                        old(self).start as int
                    })
                },
                None => {
                    &&& page_has_next_link(html@)
                    &&& old(self).start > i32::MAX - PAGE_SIZE
                    &&& final(self).start == old(self).start
                    &&& final(self).has_next_page == old(self).has_next_page
                },
            },
    {
        let hrefs = anchor_hrefs(html);
        let has_next = has_next_link(html);
        if has_next && self.start > i32::MAX - PAGE_SIZE {
            return None;
        }
        Some(self.scan_links(&hrefs, has_next, site))
    }
}

/// The number of buffered links at which they are written out.
pub const BATCH_SIZE: usize = 10;

/// The job links found on a site and not written out yet.
pub struct LinkBatch {
    pub links: Vec<String>,
}

/// One page's effect on the buffer: the page's links are added; they are all
/// handed out (and the buffer emptied) once there are at least `BATCH_SIZE`
/// of them or the page is the last one.
pub open spec fn batch_step(buffer: Seq<Seq<char>>, found: Seq<Seq<char>>, has_next: bool) -> (
    Option<Seq<Seq<char>>>,
    Seq<Seq<char>>,
) {
    let all = buffer + found;
    if all.len() >= BATCH_SIZE || !has_next {
        (Some(all), seq![])
    } else {
        (None, all)
    }
}

/// The batches handed out and the buffer left after a run of pages, each a
/// page's job links and whether it has a next page.
pub open spec fn run_batches(buffer: Seq<Seq<char>>, pages: Seq<(Seq<Seq<char>>, bool)>) -> (
    Seq<Seq<Seq<char>>>,
    Seq<Seq<char>>,
)
    decreases pages.len(),
{
    if pages.len() == 0 {
        (seq![], buffer)
    } else {
        let (out, buf) = run_batches(buffer, pages.drop_last());
        let (batch, rest) = batch_step(buf, pages.last().0, pages.last().1);
        match batch {
            Some(b) => (out.push(b), rest),
            None => (out, rest),
        }
    }
}

/// The sequences of `parts`, one after another.
pub open spec fn flatten(parts: Seq<Seq<Seq<char>>>) -> Seq<Seq<char>>
    decreases parts.len(),
{
    if parts.len() == 0 {
        seq![]
    } else {
        flatten(parts.drop_last()) + parts.last()
    }
}

/// The job links of each page of a run.
pub open spec fn page_links(pages: Seq<(Seq<Seq<char>>, bool)>) -> Seq<Seq<Seq<char>>> {
    pages.map_values(|p: (Seq<Seq<char>>, bool)| p.0)
}

impl LinkBatch {
    /// An empty buffer.
    pub fn new() -> (r: Self)
        ensures
            r.links@.len() == 0,
    {
        LinkBatch { links: Vec::new() }
    }

    /// Adds a page's job links; hands all buffered links out, emptying the
    /// buffer, where there are at least `BATCH_SIZE` of them or the page has
    /// no next page.
    pub fn take_page(&mut self, found: Vec<String>, has_next: bool) -> (r: Option<Vec<String>>)
        ensures
            (r.deep_view(), final(self).links.deep_view()) == batch_step(
                old(self).links.deep_view(),
                found.deep_view(),
                has_next,
            ),
    {
        let mut found = found;
        let ghost before = self.links.deep_view();
        let ghost added = found.deep_view();
        let mut i: usize = 0;
        while i < found.len()
            invariant
                i <= found.len(),
                added == found.deep_view(),
                self.links.deep_view() == before + added.take(i as int),
            decreases found.len() - i,
        {
            let ghost prev = self.links.deep_view();
            let item = found[i].clone();
            self.links.push(item);
            assert(self.links.deep_view() =~= prev.push(added[i as int]));
            assert(added.take(i + 1) =~= added.take(i as int).push(added[i as int]));
            i = i + 1;
        }
        assert(added.take(found.len() as int) =~= added);
        if self.links.len() >= BATCH_SIZE || !has_next {
            let mut out: Vec<String> = Vec::new();
            std::mem::swap(&mut out, &mut self.links);
            assert(self.links.deep_view() =~= Seq::<Seq<char>>::empty());
            Some(out)
        } else {
            None
        }
    }
}

/// Law: over any run of pages no job link is lost, added or reordered: the
/// batches handed out, one after another, followed by what is still
/// buffered, are the buffer at the start followed by every page's links; and
/// after a last page (one without a next page) nothing is left buffered.
pub proof fn law_batches_keep_links(buffer: Seq<Seq<char>>, pages: Seq<(Seq<Seq<char>>, bool)>)
    ensures
        flatten(run_batches(buffer, pages).0) + run_batches(buffer, pages).1 == buffer + flatten(
            page_links(pages),
        ),
        pages.len() > 0 && !pages.last().1 ==> run_batches(buffer, pages).1.len() == 0,
        run_batches(buffer, pages).1.len() < BATCH_SIZE || (pages.len() == 0 && buffer.len()
            >= BATCH_SIZE),
    decreases pages.len(),
{
    if pages.len() > 0 {
        let init = pages.drop_last();
        law_batches_keep_links(buffer, init);
        let (out, buf) = run_batches(buffer, init);
        let p = pages.last();
        assert(page_links(init) =~= page_links(pages).drop_last());
        assert(page_links(pages).last() == p.0);
        let (batch, rest) = batch_step(buf, p.0, p.1);
        match batch {
            Some(b) => {
                assert(out.push(b).drop_last() =~= out);
                assert(flatten(out.push(b)) + rest =~= flatten(out) + buf + p.0);
            },
            None => {
                assert(flatten(out) + rest =~= flatten(out) + buf + p.0);
            },
        }
        assert(buffer + flatten(page_links(pages)) =~= buffer + flatten(page_links(init)) + p.0);
    } else {
        assert(flatten(seq![]) + buffer =~= buffer + flatten(page_links(pages)));
    }
}

/// Where the scan stands after pages with the given next-page answers.
pub open spec fn scan_after(has_nexts: Seq<bool>) -> (int, bool)
    decreases has_nexts.len(),
{
    if has_nexts.len() == 0 {
        (0, true)
    } else {
        let (start, _) = scan_after(has_nexts.drop_last());
        if has_nexts.last() {
            (start + PAGE_SIZE, true)
        } else {
            (start, false)
        }
    }
}

/// Law: while every page so far has had a next page, the scan asks for the
/// page at offset `PAGE_SIZE` times the number of pages seen; the first page
/// without a next page ends the scan, at the offset of that page.
pub proof fn law_scan_offsets(has_nexts: Seq<bool>)
    requires
        forall|k: int| 0 <= k < has_nexts.len() - 1 ==> #[trigger] has_nexts[k],
    ensures
        scan_after(has_nexts).1 == (has_nexts.len() == 0 || has_nexts.last()),
        scan_after(has_nexts).0 == PAGE_SIZE * (if has_nexts.len() > 0 && !has_nexts.last() {
            has_nexts.len() - 1
        } else {
            has_nexts.len() as int
        }),
    decreases has_nexts.len(),
{
    if has_nexts.len() > 0 {
        let init = has_nexts.drop_last();
        assert forall|k: int| 0 <= k < init.len() - 1 implies #[trigger] init[k] by {
            assert(init[k] == has_nexts[k]);
        }
        law_scan_offsets(init);
        if init.len() > 0 {
            assert(init.last() == has_nexts[init.len() - 1]);
        }
    }
}

/// The number a text of decimal digits stands for.
pub open spec fn digits_value(s: Seq<char>) -> int
    decreases s.len(),
{
    if s.len() == 0 {
        0
    } else {
        digits_value(s.drop_last()) * 10 + ((s.last() as u32) - ('0' as u32))
    }
}

/// Whether `c` is an ASCII decimal digit.
pub open spec fn is_digit(c: char) -> bool {
    '0' <= c && c <= '9'
}

/// Law: the decimal notation of `n` is made of digits, has no leading zero
/// (but for 0 itself), and stands for `n`.
pub proof fn law_decimal_stands_for(n: nat)
    ensures
        decimal(n).len() >= 1,
        decimal(n).len() == 1 <==> n < 10,
        forall|i: int| 0 <= i < decimal(n).len() ==> is_digit(#[trigger] decimal(n)[i]),
        decimal(n).len() > 1 ==> decimal(n)[0] != '0',
        digits_value(decimal(n)) == n,
    decreases n,
{
    if n < 10 {
        lemma_digit_char(n);
        let s = decimal(n);
        assert(s.drop_last() =~= Seq::<char>::empty());
        assert(digits_value(s.drop_last()) == 0);
        assert(s.last() == digit_char(n));
        assert(digits_value(s) == digits_value(s.drop_last()) * 10 + ((s.last() as u32) - ('0' as u32)));
    } else {
        lemma_digit_char(n % 10);
        law_decimal_stands_for(n / 10);
        let d = decimal(n / 10);
        let s = decimal(n);
        assert(s == d.push(digit_char(n % 10)));
        assert(s.drop_last() =~= d);
        assert forall|i: int| 0 <= i < s.len() implies is_digit(#[trigger] s[i]) by {
            if i < d.len() {
                assert(s[i] == d[i]);
            }
        }
        assert(s[0] == d[0]);
        if d.len() == 1 {
            lemma_digit_char(n / 10);
        }
        assert(s.last() == digit_char(n % 10));
        assert(digits_value(s) == digits_value(s.drop_last()) * 10 + ((s.last() as u32) - ('0' as u32)));
        assert(digits_value(s) == digits_value(d) * 10 + (n % 10));
        assert(n == (n / 10) * 10 + n % 10);
    }
}

proof fn lemma_digit_char(d: nat)
    requires
        d < 10,
    ensures
        (digit_char(d) as u32) == ('0' as u32) + d,
        is_digit(digit_char(d)),
        d >= 1 ==> digit_char(d) != '0',
{
}

/// Law: the request for a result page sends exactly three query pairs, in
/// this order, whatever the offset: `q`, the query followed by ` site:` and
/// the site; `tbs`, the time filter; and `start`, the offset in decimal
/// (with `-` before a negative one). Requests for two offsets differ only in
/// the `start` value.
pub proof fn law_search_params(query: Seq<char>, tbs: Seq<char>, site: Seq<char>, start: int, other: int)
    ensures
        search_params(query, tbs, site, start).len() == 3,
        search_params(query, tbs, site, start)[0] == ("q"@, query + " site:"@ + site),
        search_params(query, tbs, site, start)[1] == ("tbs"@, tbs),
        search_params(query, tbs, site, start)[2].0 == "start"@,
        start >= 0 ==> search_params(query, tbs, site, start)[2].1 == decimal(start as nat),
        start < 0 ==> search_params(query, tbs, site, start)[2].1 == seq!['-'] + decimal(
            (-start) as nat,
        ),
        search_params(query, tbs, site, start).take(2) == search_params(query, tbs, site, other).take(2),
{
    assert(search_params(query, tbs, site, start).take(2) =~= search_params(query, tbs, site, other).take(2));
}

} // verus!
