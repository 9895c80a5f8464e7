//! Extraction of structured records from the platform's HTML pages: the
//! flight rows of one daily results page, and the daily-task links of a
//! competition results-index page.
//!
//! The HTML parsing itself is done by outside crates behind the trusted
//! wrappers below; everything downstream of their named results is verified.

use vstd::prelude::*;
use vstd::string::*;

use crate::date::date_wf;
use crate::text::{trim_str, trimmed};
use crate::url_utils::{
    classify_spec, extract_url_info, DailyUrlInfo, DailyV, UrlInfo, UrlInfoV, UrlParts, UrlV,
};

verus! {

/// One table cell that advertises a flight download: its `data-content`
/// attribute value and its visible text.
#[derive(Debug, Clone, PartialEq)]
pub struct DownloadCell {
    pub content: String,
    pub text: String,
}

/// The mathematical value of [`DownloadCell`].
pub struct CellV {
    pub content: Seq<char>,
    pub text: Seq<char>,
}

impl View for DownloadCell {
    type V = CellV;

    open spec fn view(&self) -> CellV {
        CellV { content: self.content@, text: self.text@ }
    }
}

impl DeepView for DownloadCell {
    type V = CellV;

    open spec fn deep_view(&self) -> CellV {
        self.view()
    }
}

/// One downloadable flight: the row's callsign and the absolute download
/// URL.
#[derive(Debug, PartialEq)]
pub struct IgcFile {
    pub callsign: String,
    pub download_url: String,
}

/// The mathematical value of [`IgcFile`].
pub struct FlightV {
    pub callsign: Seq<char>,
    pub download_url: Seq<char>,
}

impl View for IgcFile {
    type V = FlightV;

    open spec fn view(&self) -> FlightV {
        FlightV { callsign: self.callsign@, download_url: self.download_url@ }
    }
}

impl DeepView for IgcFile {
    type V = FlightV;

    open spec fn deep_view(&self) -> FlightV {
        self.view()
    }
}

impl Clone for IgcFile {
    fn clone(&self) -> (r: Self)
        ensures
            r@ == self@,
    {
        IgcFile { callsign: self.callsign.clone(), download_url: self.download_url.clone() }
    }
}

/// The download cells of a parsed document: for every element matching the
/// fixed `[data-content*="download-contest-flight"]` selector, in document
/// order, its `data-content` value and its collected visible text.
pub uninterp spec fn download_cells_of(html: Seq<char>) -> Seq<CellV>;

/// The daily links of a parsed document: the `href` of every anchor
/// matching the fixed `a[href*="/results/"][href*="/daily"]` selector, in
/// document order.
pub uninterp spec fn daily_hrefs_of(html: Seq<char>) -> Seq<Seq<char>>;

/// The `href` of the first anchor of a parsed fragment that matches the
/// fixed `a[href*="download-contest-flight"][href*="dl=1"]` selector.
pub uninterp spec fn first_download_href_of(fragment: Seq<char>) -> Option<Seq<char>>;

/// The text with its HTML character references decoded.
pub uninterp spec fn decoded_entities_of(text: Seq<char>) -> Seq<char>;

/// The scheme, host and path segments of an absolute URL, if it parses.
pub uninterp spec fn url_parts_of(s: Seq<char>) -> Option<UrlV>;

/// Relies on scraper's `Selector::parse`, `Html::parse_document`,
/// `Html::select`, `ElementRef::attr` and `ElementRef::text`: parsing is
/// deterministic and `select` walks the node tree in document order, so the
/// matched cells are a function of the HTML text alone.
#[verifier::external_body]
fn select_download_cells(html: &str) -> (r: Vec<DownloadCell>)
    ensures
        r.deep_view() == download_cells_of(html@),
{
    let sel = scraper::Selector::parse("[data-content*=\"download-contest-flight\"]").unwrap();
    let doc = scraper::Html::parse_document(html);
    let mut out = Vec::new();
    for el in doc.select(&sel) {
        if let Some(content) = el.value().attr("data-content") {
            let text = el.text().collect::<String>();
            out.push(DownloadCell { content: content.to_string(), text });
        }
    }
    out
}

/// Relies on scraper's `Selector::parse`, `Html::parse_document`,
/// `Html::select` and `ElementRef::attr`: the matched anchors' targets are a
/// function of the HTML text alone, in document order.
#[verifier::external_body]
fn select_daily_hrefs(html: &str) -> (r: Vec<String>)
    ensures
        r.deep_view() == daily_hrefs_of(html@),
{
    let sel = scraper::Selector::parse("a[href*=\"/results/\"][href*=\"/daily\"]").unwrap();
    let doc = scraper::Html::parse_document(html);
    let mut out = Vec::new();
    for el in doc.select(&sel) {
        if let Some(href) = el.value().attr("href") {
            out.push(href.to_string());
        }
    }
    out
}

/// Relies on scraper's `Selector::parse`, `Html::parse_fragment`,
/// `Html::select` and `ElementRef::attr`: the first matched anchor of the
/// re-parsed fragment is a function of the fragment text alone.
#[verifier::external_body]
fn first_download_anchor(fragment: &str) -> (r: Option<String>)
    ensures
        match r {
            Some(h) => first_download_href_of(fragment@) == Some(h@),
            None => first_download_href_of(fragment@) == None::<Seq<char>>,
        },
{
    let sel = scraper::Selector::parse(
        "a[href*=\"download-contest-flight\"][href*=\"dl=1\"]",
    ).unwrap();
    let frag = scraper::Html::parse_fragment(fragment);
    let href = frag.select(&sel).next().and_then(|el| el.value().attr("href"));
    href.map(|h| h.to_string())
}

/// Relies on html-escape's `decode_html_entities`: it decodes exact named
/// and numeric character references, a function of the text alone.
#[verifier::external_body]
fn decode_entities(s: &str) -> (r: String)
    ensures
        r@ == decoded_entities_of(s@),
{
    html_escape::decode_html_entities(s).into_owned()
}

/// Relies on url's `Url::parse`, `Url::scheme`, `Url::host_str` and
/// `Url::path_segments`: parsing an absolute URL into its parts is a
/// function of the URL text alone.  A URL without a host or path segments
/// is modelled with an empty host or no segments.
#[verifier::external_body]
fn parse_url_parts(s: &str) -> (r: Option<UrlParts>)
    ensures
        match r {
            Some(p) => url_parts_of(s@) == Some(p@),
            None => url_parts_of(s@) == None::<UrlV>,
        },
{
    let u = url::Url::parse(s).ok()?;
    let segments = match u.path_segments() {
        Some(it) => it.map(|seg| seg.to_string()).collect(),
        None => Vec::new(),
    };
    let scheme = u.scheme().to_string();
    let host = u.host_str().unwrap_or("").to_string();
    Some(UrlParts { scheme, host, segments })
}

/// What decoding and re-parsing one `data-content` attribute yields: the
/// first direct-download link of the decoded fragment, made absolute.
pub open spec fn extract_download_url_spec(data_content: Seq<char>) -> Option<Seq<char>> {
    match first_download_href_of(decoded_entities_of(data_content)) {
        None => None,
        Some(href) => Some("https://www.soaringspot.com"@ + href),
    }
}

/// Decodes the HTML-encoded fragment held in a `data-content` attribute,
/// re-parses it as markup, and extracts the first direct-download link,
/// prefixed with the platform origin.
pub fn extract_download_url(data_content: &str) -> (r: Option<String>)
    ensures
        match r {
            Some(u) => extract_download_url_spec(data_content@) == Some(u@),
            None => extract_download_url_spec(data_content@) == None::<Seq<char>>,
        },
{
    let decoded = decode_entities(data_content);
    match first_download_anchor(decoded.as_str()) {
        None => None,
        Some(href) => {
            let mut u = "https://www.soaringspot.com".to_owned();
            u.append(href.as_str());
            Some(u)
        },
    }
}

/// The record one download cell yields: its trimmed visible text as the
/// callsign and its decoded link, or nothing when the text is blank or no
/// qualifying link is found.
pub open spec fn flight_record_of(cell: CellV) -> Option<FlightV> {
    match extract_download_url_spec(cell.content) {
        None => None,
        Some(u) => if trimmed(cell.text).len() == 0 {
            None
        } else {
            Some(FlightV { callsign: trimmed(cell.text), download_url: u })
        },
    }
}

/// The records of a sequence of download cells, in document order.
pub open spec fn flight_records_spec(cells: Seq<CellV>) -> Seq<FlightV>
    decreases cells.len(),
{
    if cells.len() == 0 {
        Seq::empty()
    } else {
        let rest = flight_records_spec(cells.drop_last());
        match flight_record_of(cells.last()) {
            None => rest,
            Some(f) => rest.push(f),
        }
    }
}

/// A row whose visible text is blank or whitespace-only yields no record,
/// even when its encoded attribute holds a well-formed download link.
pub proof fn lemma_blank_row_excluded(cell: CellV)
    requires
        trimmed(cell.text).len() == 0,
    ensures
        flight_record_of(cell) == None::<FlightV>,
{
}

proof fn lemma_flight_records_nonblank(cells: Seq<CellV>)
    ensures
        forall|i: int|
            0 <= i < flight_records_spec(cells).len() ==> #[trigger] flight_records_spec(
                cells,
            )[i].callsign.len() > 0,
    decreases cells.len(),
{
    if cells.len() > 0 {
        lemma_flight_records_nonblank(cells.drop_last());
        let rest = flight_records_spec(cells.drop_last());
        if let Some(f) = flight_record_of(cells.last()) {
            assert forall|i: int| 0 <= i < rest.push(f).len() implies #[trigger] rest.push(
                f,
            )[i].callsign.len() > 0 by {
                if i < rest.len() {
                    assert(rest.push(f)[i] == rest[i]);
                } else {
                    assert(rest.push(f)[i] == f);
                }
            }
        }
    }
}

/// Extracts the flight rows of one daily results page: each qualifying
/// row's trimmed visible text as callsign, and its decoded absolute
/// download link.  Rows with blank text or without a qualifying link are
/// skipped; every returned callsign is non-empty.
pub fn parse_igc_files(html: &str) -> (r: Vec<IgcFile>)
    ensures
        r.deep_view() == flight_records_spec(download_cells_of(html@)),
        forall|i: int|
            0 <= i < r.deep_view().len() ==> #[trigger] r.deep_view()[i].callsign.len() > 0,
{
    let cells = select_download_cells(html);
    let ghost cv = cells.deep_view();
    let mut out: Vec<IgcFile> = Vec::new();
    let n = cells.len();
    let mut i: usize = 0;
    proof {
        assert(cv.take(0) =~= Seq::<CellV>::empty());
    }
    while i < n
        invariant
            n == cells.len(),
            cv == cells.deep_view(),
            cv == download_cells_of(html@),
            i <= n,
            out.deep_view() == flight_records_spec(cv.take(i as int)),
        decreases n - i,
    {
        proof {
            assert(cv.take(i as int + 1).drop_last() =~= cv.take(i as int));
            assert(cv.take(i as int + 1).last() == cv[i as int]);
        }
        let cell = &cells[i];
        match extract_download_url(cell.content.as_str()) {
            None => {},
            Some(durl) => {
                let callsign = trim_str(cell.text.as_str());
                if !callsign.as_str().is_empty() {
                    let ghost pre = out.deep_view();
                    let ghost f = FlightV { callsign: callsign@, download_url: durl@ };
                    out.push(IgcFile { callsign, download_url: durl });
                    proof {
                        assert(out.deep_view() =~= pre.push(f));
                    }
                }
            },
        }
        i += 1;
    }
    proof {
        assert(cv.take(n as int) =~= cv);
        lemma_flight_records_nonblank(cv);
    }
    out
}

/// The daily record one index-page link yields: the href made absolute,
/// parsed and classified; links that do not classify as a daily result
/// yield nothing.
pub open spec fn classified_daily_of(href: Seq<char>) -> Option<DailyV> {
    match url_parts_of("https://www.soaringspot.com"@ + href) {
        None => None,
        Some(u) => match classify_spec(u, false) {
            Ok(UrlInfoV::Daily(d)) => Some(d),
            _ => None,
        },
    }
}

/// The daily records of a sequence of index-page links, in document order;
/// without `include_practice`, practice records (task number zero) are
/// dropped.
pub open spec fn daily_results_spec(hrefs: Seq<Seq<char>>, include_practice: bool) -> Seq<DailyV>
    decreases hrefs.len(),
{
    if hrefs.len() == 0 {
        Seq::empty()
    } else {
        let rest = daily_results_spec(hrefs.drop_last(), include_practice);
        match classified_daily_of(hrefs.last()) {
            None => rest,
            Some(d) => if include_practice || d.task_number != 0 {
                rest.push(d)
            } else {
                rest
            },
        }
    }
}

/// A link that fails classification contributes nothing: a page with one
/// malformed daily link and one valid, non-practice link yields exactly the
/// record of the valid link.
pub proof fn lemma_malformed_link_dropped(h1: Seq<char>, h2: Seq<char>, d: DailyV, inc: bool)
    requires
        classified_daily_of(h1) == None::<DailyV>,
        classified_daily_of(h2) == Some(d),
        d.task_number != 0,
    ensures
        daily_results_spec(seq![h1, h2], inc) == seq![d],
{
    let hs = seq![h1, h2];
    let e: Seq<Seq<char>> = Seq::empty();
    assert(daily_results_spec(e, inc) =~= Seq::<DailyV>::empty());
    assert(seq![h1].drop_last() =~= e);
    assert(seq![h1].last() == h1);
    assert(daily_results_spec(seq![h1], inc) =~= Seq::<DailyV>::empty());
    assert(hs.drop_last() =~= seq![h1]);
    assert(hs.last() == h2);
    assert(daily_results_spec(hs, inc) =~= Seq::<DailyV>::empty().push(d));
    assert(Seq::<DailyV>::empty().push(d) =~= seq![d]);
}

proof fn lemma_daily_results_wf(hrefs: Seq<Seq<char>>, include_practice: bool)
    ensures
        forall|i: int|
            0 <= i < daily_results_spec(hrefs, include_practice).len() ==> {
                let d = #[trigger] daily_results_spec(hrefs, include_practice)[i];
                &&& d.competition.len() > 0
                &&& d.class.len() > 0
                &&& date_wf(d.date)
                &&& !include_practice ==> d.task_number >= 1
            },
    decreases hrefs.len(),
{
    if hrefs.len() > 0 {
        lemma_daily_results_wf(hrefs.drop_last(), include_practice);
        let rest = daily_results_spec(hrefs.drop_last(), include_practice);
        match url_parts_of("https://www.soaringspot.com"@ + hrefs.last()) {
            None => {},
            Some(u) => {
                crate::url_utils::lemma_classified_daily_wf(u, false);
            },
        }
        if let Some(d) = classified_daily_of(hrefs.last()) {
            if include_practice || d.task_number != 0 {
                assert forall|i: int| 0 <= i < rest.push(d).len() implies {
                    let x = #[trigger] rest.push(d)[i];
                    &&& x.competition.len() > 0
                    &&& x.class.len() > 0
                    &&& date_wf(x.date)
                    &&& !include_practice ==> x.task_number >= 1
                } by {
                    if i < rest.len() {
                        assert(rest.push(d)[i] == rest[i]);
                    } else {
                        assert(rest.push(d)[i] == d);
                    }
                }
            }
        }
    }
}

/// Extracts every daily-result link of a competition results-index page,
/// classifies each, and returns the successful daily records in document
/// order.  Malformed links are skipped without failing the scan.  Without
/// `include_practice`, practice-day records are dropped, so every returned
/// record is a scored task (task number at least one); every returned
/// record has non-empty slugs and a valid date.
pub fn parse_daily_results(html: &str, include_practice: bool) -> (r: Vec<DailyUrlInfo>)
    ensures
        r.deep_view() == daily_results_spec(daily_hrefs_of(html@), include_practice),
        forall|i: int|
            0 <= i < r.deep_view().len() ==> {
                let d = #[trigger] r.deep_view()[i];
                &&& d.competition.len() > 0
                &&& d.class.len() > 0
                &&& date_wf(d.date)
                &&& !include_practice ==> d.task_number >= 1
            },
{
    let hrefs = select_daily_hrefs(html);
    let ghost hv = hrefs.deep_view();
    let mut out: Vec<DailyUrlInfo> = Vec::new();
    let n = hrefs.len();
    let mut i: usize = 0;
    proof {
        assert(hv.take(0) =~= Seq::<Seq<char>>::empty());
    }
    while i < n
        invariant
            n == hrefs.len(),
            hv == hrefs.deep_view(),
            hv == daily_hrefs_of(html@),
            i <= n,
            out.deep_view() == daily_results_spec(hv.take(i as int), include_practice),
        decreases n - i,
    {
        proof {
            assert(hv.take(i as int + 1).drop_last() =~= hv.take(i as int));
            assert(hv.take(i as int + 1).last() == hv[i as int]);
        }
        let mut full = "https://www.soaringspot.com".to_owned();
        full.append(hrefs[i].as_str());
        proof {
            assert(full@ == "https://www.soaringspot.com"@ + hv[i as int]);
        }
        match parse_url_parts(full.as_str()) {
            None => {},
            Some(parts) => {
                match extract_url_info(&parts, false) {
                    Ok(info) => {
                        match info {
                            UrlInfo::Daily(d) => {
                                if include_practice || !d.is_practice_day() {
                                    let ghost pre = out.deep_view();
                                    let ghost dv = d@;
                                    out.push(d);
                                    proof {
                                        assert(out.deep_view() =~= pre.push(dv));
                                    }
                                }
                            },
                            _ => {},
                        }
                    },
                    Err(_) => {},
                }
            },
        }
        i += 1;
    }
    proof {
        assert(hv.take(n as int) =~= hv);
        lemma_daily_results_wf(hv, include_practice);
    }
    out
}

} // verus!
