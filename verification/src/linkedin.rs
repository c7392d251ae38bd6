//! The job board command: job cards scraped from the public LinkedIn
//! search, page by page, one line per job.
use vstd::prelude::*;
use vstd::string::*;
use crate::text::{decimal, push_decimal, trim, trimmed};

verus! {

/// The job search endpoint.
pub const JOB_SEARCH_URL: &'static str = "https://www.linkedin.com/jobs-guest/jobs/api/seeMoreJobPostings/search";

/// The location searched, URL-encoded.
pub const JOB_LOCATION: &'static str = "San%20Francisco,%20California,%20United%20States";

/// CSS selector of a job card.
pub const CARD_SELECTOR: &'static str = ".base-search-card__info";

/// CSS selector of a card's job title.
pub const TITLE_SELECTOR: &'static str = ".base-search-card__title";

/// CSS selector of a card's company.
pub const COMPANY_SELECTOR: &'static str = ".base-search-card__subtitle > a";

/// The answer when no job was found.
pub const NO_JOBS: &'static str = "No jobs found.";

/// Job results per page of the search.
pub const JOBS_PER_PAGE: usize = 10;

/// For a page and three CSS selectors: none where a selector does not
/// parse; else, for each element of the page (parsed as a fragment) that the
/// first selector matches, in the order the scraper's `select` yields them, the inner HTML of the first
/// element below it that the second selector matches and that of the first
/// that the third matches (none where there is no such element).
pub uninterp spec fn job_cards(html: Seq<char>, card: Seq<char>, title: Seq<char>, company: Seq<char>) -> Option<
    Seq<(Option<Seq<char>>, Option<Seq<char>>)>,
>;

/// Calls `scraper::Selector::parse` on the three selectors,
/// `scraper::Html::parse_fragment` on `html`, and for each element that
/// `Html::select` yields for the card selector, `ElementRef::select` with the
/// title and company selectors, keeping `inner_html` of the first match of each.
/// Claimed: the result is `job_cards` of the four texts (none where a
/// selector fails to parse).
#[verifier::external_body]
fn scrape_job_cards(html: &str, card: &str, title: &str, company: &str) -> (r: Option<
    Vec<(Option<String>, Option<String>)>,
>)
    ensures
        r.deep_view() == job_cards(html@, card@, title@, company@),
{
    let card = scraper::Selector::parse(card).ok()?;
    let title = scraper::Selector::parse(title).ok()?;
    let company = scraper::Selector::parse(company).ok()?;
    let fragment = scraper::Html::parse_fragment(html);
    Some(fragment.select(&card).map(|e| (
        e.select(&title).next().map(|t| t.inner_html()),
        e.select(&company).next().map(|c| c.inner_html()),
    )).collect())
}

/// The address of result page `page` of the search for `keywords`.
pub open spec fn query_url(keywords: Seq<char>, page: nat) -> Seq<char> {
    JOB_SEARCH_URL@ + "?keywords="@ + keywords + "&location="@ + JOB_LOCATION@ + "&start="@
        + decimal(page * (JOBS_PER_PAGE as nat))
}

/// The line of one job: its title and company, trimmed.
pub open spec fn job_line(title: Seq<char>, company: Seq<char>) -> Seq<char> {
    trim(title) + " @ "@ + trim(company) + "\n"@
}

/// Every card has both a title and a company.
pub open spec fn cards_complete(cards: Seq<(Option<Seq<char>>, Option<Seq<char>>)>) -> bool {
    forall|i: int| 0 <= i < cards.len() ==> (#[trigger] cards[i]).0 is Some && cards[i].1 is Some
}

/// The lines of all cards, in order.
pub open spec fn job_lines_text(cards: Seq<(Option<Seq<char>>, Option<Seq<char>>)>) -> Seq<char>
    decreases cards.len(),
{
    if cards.len() == 0 {
        Seq::empty()
    } else {
        job_lines_text(cards.drop_last()) + job_line(cards.last().0.unwrap(), cards.last().1.unwrap())
    }
}

/// Why a page of the search cannot be read.
#[derive(Clone, Copy, Debug, PartialEq, Eq)]
pub enum JobError {
    /// A selector was refused by the HTML scraper.
    BadSelector,
    /// A job card lacks its title or its company.
    IncompleteCard,
}

/// The lines of the job cards; none where a card lacks its title or company.
pub fn job_lines(cards: &Vec<(Option<String>, Option<String>)>) -> (r: Option<String>)
    ensures
        cards_complete(cards.deep_view()) ==> (r matches Some(t) && t@ == job_lines_text(cards.deep_view())),
        !cards_complete(cards.deep_view()) ==> r is None,
{
    let ghost all = cards.deep_view();
    let mut out = String::new();
    let mut i: usize = 0;
    assert(all.take(0) =~= Seq::<(Option<Seq<char>>, Option<Seq<char>>)>::empty());
    while i < cards.len()
        invariant
            all == cards.deep_view(),
            i <= cards.len(),
            cards_complete(all.take(i as int)),
            out@ == job_lines_text(all.take(i as int)),
        decreases cards.len() - i,
    {
        assert(all.take(i + 1).drop_last() =~= all.take(i as int));
        assert(all[i as int] == cards[i as int].deep_view());
        match (&cards[i].0, &cards[i].1) {
            (Some(title), Some(company)) => {
                let t = trimmed(title.as_str());
                let c = trimmed(company.as_str());
                out.append(t.as_str());
                out.append(" @ ");
                out.append(c.as_str());
                out.append("\n");
                assert(cards_complete(all.take(i + 1))) by {
                    assert forall|k: int| 0 <= k < i + 1 implies (#[trigger] all.take(i + 1)[k]).0 is Some
                        && all.take(i + 1)[k].1 is Some by {
                        if k < i {
                            assert(all.take(i + 1)[k] == all.take(i as int)[k]);
                        }
                    }
                }
            },
            _ => {
                assert(!cards_complete(all)) by {
                    assert(!(all[i as int].0 is Some && all[i as int].1 is Some));
                }
                return None;
            },
        }
        i = i + 1;
    }
    assert(all.take(cards.len() as int) =~= all);
    Some(out)
}

/// The job lines of one result page; the error where a selector is refused
/// or a card lacks its title or company.
pub fn page_jobs(html: &str) -> (r: Result<String, JobError>)
    ensures
        match job_cards(html@, CARD_SELECTOR@, TITLE_SELECTOR@, COMPANY_SELECTOR@) {
            None => r == Err::<String, JobError>(JobError::BadSelector),
            Some(cards) => if cards_complete(cards) {
                r matches Ok(t) && t@ == job_lines_text(cards)
            } else {
                r == Err::<String, JobError>(JobError::IncompleteCard)
            },
        },
{
    match scrape_job_cards(html, CARD_SELECTOR, TITLE_SELECTOR, COMPANY_SELECTOR) {
        None => Err(JobError::BadSelector),
        Some(cards) => match job_lines(&cards) {
            Some(t) => Ok(t),
            None => Err(JobError::IncompleteCard),
        },
    }
}

/// The answer once the listing is collected: the listing, or `NO_JOBS`
/// where it is empty.
pub fn linkedin(listing: &str) -> (r: String)
    ensures
        listing@.len() == 0 ==> r@ == NO_JOBS@,
        listing@.len() > 0 ==> r@ == listing@,
{
    if listing.unicode_len() == 0 {
        String::from_str(NO_JOBS)
    } else {
        String::from_str(listing)
    }
}

/// A search in progress over result pages `next..end` for `keywords`, with
/// the job lines of the pages read so far.
pub struct JobSearch {
    keywords: String,
    next: usize,
    end: usize,
    listing: String,
}

impl View for JobSearch {
    type V = (Seq<char>, nat, nat, Seq<char>);

    closed spec fn view(&self) -> (Seq<char>, nat, nat, Seq<char>) {
        (self.keywords@, self.next as nat, self.end as nat, self.listing@)
    }
}

impl JobSearch {
    #[verifier::type_invariant]
    spec fn pages_in_range(&self) -> bool {
        &&& self.next <= self.end
        &&& self.next < self.end ==> (self.end - 1) * JOBS_PER_PAGE <= usize::MAX
    }

    /// Whether pages `offset..offset + pages` can be numbered and addressed
    /// without overflow.
    pub open spec fn pages_fit(pages: usize, offset: usize) -> bool {
        &&& offset + pages <= usize::MAX
        &&& pages > 0 ==> (offset + pages - 1) * JOBS_PER_PAGE <= usize::MAX
    }

    /// Starts a search of `pages` result pages from page `offset`; none where
    /// the page numbers or their result offsets overflow.
    pub fn new(keywords: &str, pages: usize, offset: usize) -> (r: Option<JobSearch>)
        ensures
            r is Some <==> Self::pages_fit(pages, offset),
            r matches Some(s) ==> s@ == (keywords@, offset as nat, (offset + pages) as nat, Seq::<
                char,
            >::empty()),
    {
        if pages > usize::MAX - offset {
            return None;
        }
        let end = offset + pages;
        if pages > 0 && end - 1 > usize::MAX / JOBS_PER_PAGE {
            return None;
        }
        Some(JobSearch { keywords: String::from_str(keywords), next: offset, end, listing: String::new() })
    }

    /// The address of the next result page to read; none when all are read.
    pub fn next_query(&self) -> (r: Option<String>)
        ensures
            self@.1 < self@.2 ==> (r matches Some(u) && u@ == query_url(self@.0, self@.1)),
            self@.1 >= self@.2 ==> r is None,
    {
        proof {
            use_type_invariant(self);
        }
        if self.next >= self.end {
            return None;
        }
        let mut url = String::from_str(JOB_SEARCH_URL);
        url.append("?keywords=");
        url.append(self.keywords.as_str());
        url.append("&location=");
        url.append(JOB_LOCATION);
        url.append("&start=");
        push_decimal(&mut url, (self.next * JOBS_PER_PAGE) as u64);
        Some(url)
    }

    /// Adds the job lines of the page at `next_query`, and moves to the next
    /// page; where the page cannot be read, the error and no change.
    pub fn add_page(&mut self, html: &str) -> (r: Result<(), JobError>)
        requires
            old(self)@.1 < old(self)@.2,
        ensures
            match job_cards(html@, CARD_SELECTOR@, TITLE_SELECTOR@, COMPANY_SELECTOR@) {
                None => r == Err::<(), JobError>(JobError::BadSelector) && final(self)@ == old(self)@,
                Some(cards) => if cards_complete(cards) {
                    &&& r == Ok::<(), JobError>(())
                    &&& final(self)@ == (old(self)@.0, old(self)@.1 + 1, old(self)@.2, old(self)@.3
                        + job_lines_text(cards))
                } else {
                    r == Err::<(), JobError>(JobError::IncompleteCard) && final(self)@ == old(self)@
                },
            },
    {
        proof {
            use_type_invariant(&*self);
        }
        match page_jobs(html) {
            Ok(lines) => {
                let listing = self.listing.clone().concat(lines.as_str());
                self.listing = listing;
                self.next = self.next + 1;
                Ok(())
            },
            Err(e) => Err(e),
        }
    }

    /// The answer for the pages read: their job lines, or `NO_JOBS`.
    pub fn reply(&self) -> (r: String)
        ensures
            self@.3.len() == 0 ==> r@ == NO_JOBS@,
            self@.3.len() > 0 ==> r@ == self@.3,
    {
        linkedin(self.listing.as_str())
    }
}

} // verus!
