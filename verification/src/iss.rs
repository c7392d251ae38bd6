//! The news command: the latest report of the spaceflight news feed.
use vstd::prelude::*;
use vstd::string::*;

verus! {

/// A report of the news feed.
pub struct Report {
    pub title: String,
    pub summary: String,
    pub news_site: String,
    pub url: String,
}

/// A page of reports, newest first.
pub struct Reports {
    pub results: Vec<Report>,
}

/// How a report is posted: its site and title, its summary, then a link.
pub open spec fn report_text(r: Report) -> Seq<char> {
    r.news_site@ + ": "@ + r.title@ + "\n"@ + r.summary@ + "\n\n[Read More]("@ + r.url@ + ")"@
}

/// Reports on the ISS' latest shenanigans: the first report of the page.
pub fn iss(reports: &Reports) -> (r: String)
    requires
        reports.results.len() > 0,
    ensures
        r@ == report_text(reports.results[0]),
{
    let first = &reports.results[0];
    let mut r = String::from_str(first.news_site.as_str());
    r.append(": ");
    r.append(first.title.as_str());
    r.append("\n");
    r.append(first.summary.as_str());
    r.append("\n\n[Read More](");
    r.append(first.url.as_str());
    r.append(")");
    r
}

} // verus!
