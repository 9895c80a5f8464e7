//! Classification, normalization and generation of result URLs.
//!
//! A result URL encodes a three-level hierarchy below a locale segment:
//! `/{locale}/{competition}`, `/{locale}/{competition}/results[/{class}]`,
//! or `/{locale}/{competition}/results/{class}/task-{n}-on-{date}[/daily]`.

use vstd::prelude::*;
use vstd::string::*;

use crate::date::{date_chars, date_wf, parse_date, parse_date_spec, CalendarDate, DateError};
use crate::date::render_date;
use crate::text::{
    all_digits, check_all_digits, dec_chars_of, find_first, find_sub, has_prefix,
    lemma_find_first_is_match, parse_dec_spec, parse_u32, starts_with_str, str_eq,
};

verus! {

/// The parts of an absolute URL that the classifier reads: scheme, host and
/// path segments, each held as plain text.
#[derive(Debug, Clone, PartialEq)]
pub struct UrlParts {
    pub scheme: String,
    pub host: String,
    pub segments: Vec<String>,
}

/// The mathematical value of [`UrlParts`].
pub struct UrlV {
    pub scheme: Seq<char>,
    pub host: Seq<char>,
    pub segments: Seq<Seq<char>>,
}

impl View for UrlParts {
    type V = UrlV;

    open spec fn view(&self) -> UrlV {
        UrlV { scheme: self.scheme@, host: self.host@, segments: self.segments.deep_view() }
    }
}

/// One daily task: a competition, a class, a date and a task number.
#[derive(Debug, PartialEq)]
pub struct DailyUrlInfo {
    pub competition: String,
    pub class: String,
    pub date: CalendarDate,
    pub task_number: u32,
}

/// The mathematical value of [`DailyUrlInfo`].
pub struct DailyV {
    pub competition: Seq<char>,
    pub class: Seq<char>,
    pub date: CalendarDate,
    pub task_number: u32,
}

impl View for DailyUrlInfo {
    type V = DailyV;

    open spec fn view(&self) -> DailyV {
        DailyV {
            competition: self.competition@,
            class: self.class@,
            date: self.date,
            task_number: self.task_number,
        }
    }
}

impl DeepView for DailyUrlInfo {
    type V = DailyV;

    open spec fn deep_view(&self) -> DailyV {
        self.view()
    }
}

impl Clone for DailyUrlInfo {
    fn clone(&self) -> (r: Self)
        ensures
            r@ == self@,
    {
        DailyUrlInfo {
            competition: self.competition.clone(),
            class: self.class.clone(),
            date: self.date,
            task_number: self.task_number,
        }
    }
}

/// What a result URL names.
#[derive(Debug, Clone, PartialEq)]
pub enum UrlInfo {
    /// Daily results: competition, class, date and task number are all known.
    Daily(DailyUrlInfo),
    /// Class results: all dates of one class remain to be discovered.
    Class { competition: String, class: String },
    /// All competition results: classes and dates remain to be discovered.
    Competition { competition: String },
}

/// The mathematical value of [`UrlInfo`].
pub enum UrlInfoV {
    Daily(DailyV),
    Class { competition: Seq<char>, class: Seq<char> },
    Competition { competition: Seq<char> },
}

impl View for UrlInfo {
    type V = UrlInfoV;

    open spec fn view(&self) -> UrlInfoV {
        match self {
            UrlInfo::Daily(d) => UrlInfoV::Daily(d@),
            UrlInfo::Class { competition, class } => UrlInfoV::Class {
                competition: competition@,
                class: class@,
            },
            UrlInfo::Competition { competition } => UrlInfoV::Competition {
                competition: competition@,
            },
        }
    }
}

/// Why a task number was rejected.
#[derive(Clone, Copy, Debug, PartialEq, Eq, Structural)]
pub enum NumError {
    /// The digit part is empty.
    Empty,
    /// A character is not a decimal digit.
    NotANumber,
    /// The value does not fit the task-number type.
    TooLarge,
}

impl NumError {
    /// A short human-readable reason.
    pub fn message(&self) -> (r: &'static str)
        ensures
            r@ == self.message_spec(),
    {
        match self {
            NumError::Empty => "cannot parse integer from empty string",
            NumError::NotANumber => "invalid digit found in string",
            NumError::TooLarge => "number too large to fit in target type",
        }
    }

    pub open spec fn message_spec(&self) -> Seq<char> {
        match self {
            NumError::Empty => "cannot parse integer from empty string"@,
            NumError::NotANumber => "invalid digit found in string"@,
            NumError::TooLarge => "number too large to fit in target type"@,
        }
    }
}

/// The reason a digit string failed to parse as a task number.
pub open spec fn num_error_of(s: Seq<char>) -> NumError {
    if s.len() == 0 {
        NumError::Empty
    } else if !all_digits(s) {
        NumError::NotANumber
    } else {
        NumError::TooLarge
    }
}

/// The first violated rule of a result URL.
#[derive(Debug, Clone, PartialEq)]
pub enum UrlError {
    /// The scheme is neither `http` nor `https`.
    InvalidScheme,
    /// The host is not the platform's bare or `www` domain.
    InvalidHost,
    /// The path has no segments at all.
    MissingPathSegments,
    /// The path holds only the locale segment, or an empty competition slug.
    MissingCompetitionSegment,
    /// A fixed segment is wrong: the third segment is not `results`, or a
    /// trailing segment is not `daily`, or there are segments left over.
    UnsupportedUrlShape,
    /// The task segment lacks the `task-` prefix or the `-on-` separator.
    MalformedTaskSegment,
    /// The task-number part is not a number in range.
    InvalidTaskNumber { text: String, reason: NumError },
    /// The date part is not a valid `YYYY-MM-DD` date.
    InvalidDate { text: String, reason: DateError },
}

/// The mathematical value of [`UrlError`].
pub enum UrlErrorV {
    InvalidScheme,
    InvalidHost,
    MissingPathSegments,
    MissingCompetitionSegment,
    UnsupportedUrlShape,
    MalformedTaskSegment,
    InvalidTaskNumber { text: Seq<char>, reason: NumError },
    InvalidDate { text: Seq<char>, reason: DateError },
}

impl View for UrlError {
    type V = UrlErrorV;

    open spec fn view(&self) -> UrlErrorV {
        match self {
            UrlError::InvalidScheme => UrlErrorV::InvalidScheme,
            UrlError::InvalidHost => UrlErrorV::InvalidHost,
            UrlError::MissingPathSegments => UrlErrorV::MissingPathSegments,
            UrlError::MissingCompetitionSegment => UrlErrorV::MissingCompetitionSegment,
            UrlError::UnsupportedUrlShape => UrlErrorV::UnsupportedUrlShape,
            UrlError::MalformedTaskSegment => UrlErrorV::MalformedTaskSegment,
            UrlError::InvalidTaskNumber { text, reason } => UrlErrorV::InvalidTaskNumber {
                text: text@,
                reason: *reason,
            },
            UrlError::InvalidDate { text, reason } => UrlErrorV::InvalidDate {
                text: text@,
                reason: *reason,
            },
        }
    }
}

/// The human-readable message of each error.
pub open spec fn message_spec(e: UrlErrorV) -> Seq<char> {
    match e {
        UrlErrorV::InvalidScheme => "URL must use HTTP or HTTPS scheme"@,
        UrlErrorV::InvalidHost => "URL must be from soaringspot.com or www.soaringspot.com"@,
        UrlErrorV::MissingPathSegments => "Invalid URL format - missing path segments"@,
        UrlErrorV::MissingCompetitionSegment => "URL must contain competition name"@,
        UrlErrorV::UnsupportedUrlShape => "Unsupported URL format"@,
        UrlErrorV::MalformedTaskSegment => "Unsupported URL format"@,
        UrlErrorV::InvalidTaskNumber { text, reason } => "Failed to parse task number '"@ + text
            + "': "@ + reason.message_spec(),
        UrlErrorV::InvalidDate { text, reason } => "Failed to parse date '"@ + text + "': "@
            + reason.message_spec(),
    }
}

impl UrlError {
    /// The human-readable message, as the platform's callers print it.
    pub fn message(&self) -> (r: String)
        ensures
            r@ == message_spec(self@),
    {
        match self {
            UrlError::InvalidScheme => "URL must use HTTP or HTTPS scheme".to_owned(),
            UrlError::InvalidHost => "URL must be from soaringspot.com or www.soaringspot.com"
                .to_owned(),
            UrlError::MissingPathSegments => "Invalid URL format - missing path segments"
                .to_owned(),
            UrlError::MissingCompetitionSegment => "URL must contain competition name".to_owned(),
            UrlError::UnsupportedUrlShape => "Unsupported URL format".to_owned(),
            UrlError::MalformedTaskSegment => "Unsupported URL format".to_owned(),
            UrlError::InvalidTaskNumber { text, reason } => {
                let mut s = "Failed to parse task number '".to_owned();
                s.append(text.as_str());
                s.append("': ");
                s.append(reason.message());
                s
            },
            UrlError::InvalidDate { text, reason } => {
                let mut s = "Failed to parse date '".to_owned();
                s.append(text.as_str());
                s.append("': ");
                s.append(reason.message());
                s
            },
        }
    }
}

/// What parsing a `task-{n}-on-{date}` segment yields.
pub open spec fn parse_task_segment_spec(s: Seq<char>) -> Result<(u32, CalendarDate), UrlErrorV> {
    if !has_prefix(s, "task-"@) {
        Err(UrlErrorV::MalformedTaskSegment)
    } else {
        let rest = s.skip("task-"@.len() as int);
        match find_first(rest, "-on-"@) {
            None => Err(UrlErrorV::MalformedTaskSegment),
            Some(i) => {
                let numpart = rest.take(i);
                let datepart = rest.skip(i + "-on-"@.len());
                match parse_dec_spec(numpart) {
                    None => Err(
                        UrlErrorV::InvalidTaskNumber {
                            text: numpart,
                            reason: num_error_of(numpart),
                        },
                    ),
                    Some(n) => match parse_date_spec(datepart) {
                        Err(e) => Err(UrlErrorV::InvalidDate { text: datepart, reason: e }),
                        Ok(d) => Ok((n, d)),
                    },
                }
            },
        }
    }
}

/// Parses a `task-{n}-on-{date}` path segment.
pub fn parse_task_segment(s: &str) -> (r: Result<(u32, CalendarDate), UrlError>)
    ensures
        match r {
            Ok(v) => parse_task_segment_spec(s@) == Ok::<(u32, CalendarDate), UrlErrorV>(v),
            Err(e) => parse_task_segment_spec(s@) == Err::<(u32, CalendarDate), UrlErrorV>(e@),
        },
{
    if !starts_with_str(s, "task-") {
        return Err(UrlError::MalformedTaskSegment);
    }
    let plen = "task-".unicode_len();
    let slen = s.unicode_len();
    let rest = s.substring_char(plen, slen);
    proof {
        assert(rest@ =~= s@.skip("task-"@.len() as int));
    }
    let sep = find_sub(rest, "-on-");
    match sep {
        None => Err(UrlError::MalformedTaskSegment),
        Some(i) => {
            proof {
                lemma_find_first_is_match(rest@, "-on-"@);
            }
            let olen = "-on-".unicode_len();
            let rlen = rest.unicode_len();
            let numpart = rest.substring_char(0, i);
            let datepart = rest.substring_char(i + olen, rlen);
            proof {
                assert(numpart@ =~= rest@.take(i as int));
                assert(datepart@ =~= rest@.skip(i + "-on-"@.len()));
            }
            match parse_u32(numpart) {
                None => {
                    let reason = if numpart.unicode_len() == 0 {
                        NumError::Empty
                    } else if !check_all_digits(numpart) {
                        NumError::NotANumber
                    } else {
                        NumError::TooLarge
                    };
                    Err(UrlError::InvalidTaskNumber { text: numpart.to_owned(), reason })
                },
                Some(n) => match parse_date(datepart) {
                    Err(e) => Err(UrlError::InvalidDate { text: datepart.to_owned(), reason: e }),
                    Ok(d) => Ok((n, d)),
                },
            }
        },
    }
}

/// What classifying a URL yields: one of the three forms, or the first
/// violated rule.  With `require_daily_suffix` the long form must end in the
/// literal `daily` segment; without it that segment may be absent.
pub open spec fn classify_spec(u: UrlV, require_daily_suffix: bool) -> Result<
    UrlInfoV,
    UrlErrorV,
> {
    if u.scheme != "https"@ && u.scheme != "http"@ {
        Err(UrlErrorV::InvalidScheme)
    } else if u.host != "www.soaringspot.com"@ && u.host != "soaringspot.com"@ {
        Err(UrlErrorV::InvalidHost)
    } else if u.segments.len() == 0 {
        Err(UrlErrorV::MissingPathSegments)
    } else if u.segments.len() == 1 || u.segments[1].len() == 0 {
        Err(UrlErrorV::MissingCompetitionSegment)
    } else if u.segments.len() == 2 {
        Ok(UrlInfoV::Competition { competition: u.segments[1] })
    } else if u.segments[2] != "results"@ {
        Err(UrlErrorV::UnsupportedUrlShape)
    } else if u.segments.len() == 3 {
        Ok(UrlInfoV::Competition { competition: u.segments[1] })
    } else if u.segments[3].len() == 0 {
        if u.segments.len() == 4 {
            Ok(UrlInfoV::Competition { competition: u.segments[1] })
        } else {
            Err(UrlErrorV::UnsupportedUrlShape)
        }
    } else if u.segments.len() == 4 {
        Ok(UrlInfoV::Class { competition: u.segments[1], class: u.segments[3] })
    } else if u.segments.len() > 6 {
        Err(UrlErrorV::UnsupportedUrlShape)
    } else if u.segments.len() == 6 && u.segments[5] != "daily"@ {
        Err(UrlErrorV::UnsupportedUrlShape)
    } else if u.segments.len() == 5 && require_daily_suffix {
        Err(UrlErrorV::UnsupportedUrlShape)
    } else {
        match parse_task_segment_spec(u.segments[4]) {
            Err(e) => Err(e),
            Ok((n, d)) => Ok(
                UrlInfoV::Daily(
                    DailyV {
                        competition: u.segments[1],
                        class: u.segments[3],
                        date: d,
                        task_number: n,
                    },
                ),
            ),
        }
    }
}

/// Classifies a URL as one of the three result forms.
///
/// The scheme and host are validated leniently (both `http`/`https` and the
/// bare/`www` hosts are accepted); the locale segment is read and discarded.
/// A bare `/results` with no class collapses to the competition form, as
/// does an empty trailing class segment left by a trailing slash.
pub fn extract_url_info(u: &UrlParts, require_daily_suffix: bool) -> (r: Result<UrlInfo, UrlError>)
    ensures
        match r {
            Ok(info) => classify_spec(u@, require_daily_suffix) == Ok::<UrlInfoV, UrlErrorV>(
                info@,
            ),
            Err(e) => classify_spec(u@, require_daily_suffix) == Err::<UrlInfoV, UrlErrorV>(e@),
        },
{
    if !(str_eq(u.scheme.as_str(), "https") || str_eq(u.scheme.as_str(), "http")) {
        return Err(UrlError::InvalidScheme);
    }
    if !(str_eq(u.host.as_str(), "www.soaringspot.com") || str_eq(
        u.host.as_str(),
        "soaringspot.com",
    )) {
        return Err(UrlError::InvalidHost);
    }
    let n = u.segments.len();
    if n == 0 {
        return Err(UrlError::MissingPathSegments);
    }
    if n == 1 || u.segments[1].as_str().is_empty() {
        return Err(UrlError::MissingCompetitionSegment);
    }
    if n == 2 {
        return Ok(UrlInfo::Competition { competition: u.segments[1].clone() });
    }
    if !str_eq(u.segments[2].as_str(), "results") {
        return Err(UrlError::UnsupportedUrlShape);
    }
    if n == 3 {
        return Ok(UrlInfo::Competition { competition: u.segments[1].clone() });
    }
    if u.segments[3].as_str().is_empty() {
        if n == 4 {
            return Ok(UrlInfo::Competition { competition: u.segments[1].clone() });
        }
        return Err(UrlError::UnsupportedUrlShape);
    }
    if n == 4 {
        return Ok(
            UrlInfo::Class {
                competition: u.segments[1].clone(),
                class: u.segments[3].clone(),
            },
        );
    }
    if n > 6 {
        return Err(UrlError::UnsupportedUrlShape);
    }
    if n == 6 && !str_eq(u.segments[5].as_str(), "daily") {
        return Err(UrlError::UnsupportedUrlShape);
    }
    if n == 5 && require_daily_suffix {
        return Err(UrlError::UnsupportedUrlShape);
    }
    match parse_task_segment(u.segments[4].as_str()) {
        Err(e) => Err(e),
        Ok((task_number, date)) => Ok(
            UrlInfo::Daily(
                DailyUrlInfo {
                    competition: u.segments[1].clone(),
                    class: u.segments[3].clone(),
                    date,
                    task_number,
                },
            ),
        ),
    }
}

/// What normalization yields: the canonical scheme, host and locale written
/// into the URL, or the first violated rule.
pub open spec fn normalize_spec(u: UrlV) -> Result<UrlV, UrlErrorV> {
    if u.scheme != "http"@ && u.scheme != "https"@ {
        Err(UrlErrorV::InvalidScheme)
    } else if u.host != "soaringspot.com"@ && u.host != "www.soaringspot.com"@ {
        Err(UrlErrorV::InvalidHost)
    } else if u.segments.len() == 0 {
        Err(UrlErrorV::MissingPathSegments)
    } else {
        Ok(
            UrlV {
                scheme: "https"@,
                host: "www.soaringspot.com"@,
                segments: u.segments.update(0, "en_gb"@),
            },
        )
    }
}

/// Rewrites a URL to canonical form in place: `http` becomes `https`, the
/// bare host gains its `www` prefix, and the locale segment is overwritten
/// with the canonical locale code.  On failure the URL is left unchanged.
pub fn normalize(u: &mut UrlParts) -> (r: Result<(), UrlError>)
    ensures
        match normalize_spec(old(u)@) {
            Ok(v) => r is Ok && final(u)@ == v,
            Err(e) => (r matches Err(e2) && e2@ == e) && final(u)@ == old(u)@,
        },
{
    if !(str_eq(u.scheme.as_str(), "http") || str_eq(u.scheme.as_str(), "https")) {
        return Err(UrlError::InvalidScheme);
    }
    if !(str_eq(u.host.as_str(), "soaringspot.com") || str_eq(
        u.host.as_str(),
        "www.soaringspot.com",
    )) {
        return Err(UrlError::InvalidHost);
    }
    if u.segments.len() == 0 {
        return Err(UrlError::MissingPathSegments);
    }
    u.scheme = "https".to_owned();
    u.host = "www.soaringspot.com".to_owned();
    let _locale = u.segments.remove(0);
    u.segments.insert(0, "en_gb".to_owned());
    proof {
        assert(u.segments@ =~= old(u).segments@.remove(0).insert(0, u.segments@[0]));
        assert(u.segments.deep_view() =~= old(u).segments.deep_view().update(0, "en_gb"@));
    }
    Ok(())
}

/// The canonical `task-{n}-on-{date}` segment of a daily record.
pub open spec fn task_seg_chars(n: u32, d: CalendarDate) -> Seq<char> {
    "task-"@ + dec_chars_of(n as nat) + "-on-"@ + date_chars(d)
}

/// The canonical path segments of a daily record's URL.
pub open spec fn daily_segments(d: DailyV) -> Seq<Seq<char>> {
    seq![
        "en_gb"@,
        d.competition,
        "results"@,
        d.class,
        task_seg_chars(d.task_number, d.date),
        "daily"@,
    ]
}

/// The canonical URL string of a daily record.
pub open spec fn daily_url_chars(d: DailyV) -> Seq<char> {
    "https://www.soaringspot.com/en_gb/"@ + d.competition + "/results/"@ + d.class + "/"@
        + task_seg_chars(d.task_number, d.date) + "/daily"@
}

impl DailyUrlInfo {
    /// A task number of zero marks a practice (non-scoring) session.
    pub open spec fn is_practice_day_spec(&self) -> bool {
        self.task_number == 0
    }

    /// Whether this record names a practice session rather than a scored
    /// task.  The platform numbers scored tasks from one; a task number of
    /// zero is the practice marker.
    pub fn is_practice_day(&self) -> (r: bool)
        ensures
            r == self.is_practice_day_spec(),
    {
        self.task_number == 0
    }

    /// Renders the canonical daily result URL for this record.
    pub fn to_daily_url(&self) -> (r: String)
        requires
            date_wf(self.date),
        ensures
            r@ == daily_url_chars(self@),
    {
        let mut s = "https://www.soaringspot.com/en_gb/".to_owned();
        s.append(self.competition.as_str());
        s.append("/results/");
        s.append(self.class.as_str());
        s.append("/");
        s.append("task-");
        let num = crate::text::render_u32(self.task_number);
        s.append(num.as_str());
        s.append("-on-");
        let ds = render_date(self.date);
        s.append(ds.as_str());
        s.append("/daily");
        proof {
            assert(s@ =~= daily_url_chars(self@));
        }
        s
    }
}

/// The results-index URL of a competition.
pub open spec fn competition_results_chars(competition: Seq<char>) -> Seq<char> {
    "https://www.soaringspot.com/en_gb/"@ + competition + "/results"@
}

/// Renders the results-index URL of a competition.
pub fn competition_results_url(competition: &str) -> (r: String)
    ensures
        r@ == competition_results_chars(competition@),
{
    let mut s = "https://www.soaringspot.com/en_gb/".to_owned();
    s.append(competition);
    s.append("/results");
    proof {
        assert(s@ =~= competition_results_chars(competition@));
    }
    s
}

/// The records of `discovered` whose class matches, in order.
pub open spec fn matching_class(ds: Seq<DailyV>, class: Seq<char>) -> Seq<DailyV>
    decreases ds.len(),
{
    if ds.len() == 0 {
        Seq::empty()
    } else if ds.last().class == class {
        matching_class(ds.drop_last(), class).push(ds.last())
    } else {
        matching_class(ds.drop_last(), class)
    }
}

/// Chooses the daily records to act on: a daily URL names itself; a class
/// URL keeps the discovered records of that class; a competition URL keeps
/// them all.
pub fn select_daily_urls(info: &UrlInfo, discovered: Vec<DailyUrlInfo>) -> (r: Vec<DailyUrlInfo>)
    ensures
        r.deep_view() == match info@ {
            UrlInfoV::Daily(d) => seq![d],
            UrlInfoV::Class { competition: _, class } => matching_class(
                discovered.deep_view(),
                class,
            ),
            UrlInfoV::Competition { .. } => discovered.deep_view(),
        },
{
    match info {
        UrlInfo::Daily(d) => {
            let out = vec![d.clone()];
            proof {
                assert(out.deep_view() =~= seq![d@]);
            }
            out
        },
        UrlInfo::Class { competition: _, class } => {
            let mut out: Vec<DailyUrlInfo> = Vec::new();
            let n = discovered.len();
            let mut i: usize = 0;
            proof {
                assert(out.deep_view() =~= matching_class(
                    discovered.deep_view().take(0),
                    class@,
                ));
            }
            while i < n
                invariant
                    n == discovered.len(),
                    i <= n,
                    out.deep_view() == matching_class(discovered.deep_view().take(i as int), class@),
                decreases n - i,
            {
                proof {
                    assert(discovered.deep_view().take(i as int + 1).drop_last()
                        =~= discovered.deep_view().take(i as int));
                    assert(discovered.deep_view().take(i as int + 1).last() == discovered.deep_view()[
                        i as int
                    ]);
                }
                let d = &discovered[i];
                if str_eq(d.class.as_str(), class.as_str()) {
                    let ghost pre = out.deep_view();
                    out.push(d.clone());
                    proof {
                        assert(out.deep_view() =~= pre.push(d@));
                    }
                }
                i += 1;
            }
            proof {
                assert(discovered.deep_view().take(n as int) =~= discovered.deep_view());
            }
            out
        },
        UrlInfo::Competition { .. } => discovered,
    }
}

/// Round trip: the canonical task segment of a task number and date parses
/// back to exactly that pair.
pub proof fn lemma_task_seg_round_trip(n: u32, d: CalendarDate)
    requires
        date_wf(d),
    ensures
        parse_task_segment_spec(task_seg_chars(n, d)) == Ok::<(u32, CalendarDate), UrlErrorV>(
            (n, d),
        ),
{
    reveal_strlit("task-");
    reveal_strlit("-on-");
    let s = task_seg_chars(n, d);
    let nc = dec_chars_of(n as nat);
    let dc = date_chars(d);
    crate::text::lemma_dec_chars_of_digits(n as nat);
    crate::text::lemma_dec_chars_of_val(n as nat);
    assert(s.subrange(0, 5) =~= "task-"@);
    assert(has_prefix(s, "task-"@));
    let rest = s.skip(5);
    assert(rest =~= nc + "-on-"@ + dc);
    let k = nc.len() as int;
    assert(rest.subrange(k, k + 4) =~= "-on-"@);
    assert(crate::text::matches_at(rest, "-on-"@, k));
    assert forall|j: int| 0 <= j < k implies !crate::text::matches_at(rest, "-on-"@, j) by {
        if crate::text::matches_at(rest, "-on-"@, j) {
            assert(rest.subrange(j, j + 4)[0] == rest[j]);
            assert(rest[j] == '-');
            assert(rest[j] == nc[j]);
            assert(crate::text::is_dec_digit(nc[j]));
        }
    }
    crate::text::lemma_find_first_some(rest, "-on-"@, k);
    assert(rest.take(k) =~= nc);
    assert(rest.skip(k + 4) =~= dc);
    assert(parse_dec_spec(nc) == Some(n));
    crate::date::lemma_date_round_trip(d);
}

/// Round trip: classifying the canonical URL segments of a valid daily
/// record yields that record, with or without the strict trailing-`daily`
/// requirement.
pub proof fn lemma_daily_round_trip(d: DailyV, require_daily_suffix: bool)
    requires
        d.competition.len() > 0,
        d.class.len() > 0,
        date_wf(d.date),
    ensures
        classify_spec(
            UrlV { scheme: "https"@, host: "www.soaringspot.com"@, segments: daily_segments(d) },
            require_daily_suffix,
        ) == Ok::<UrlInfoV, UrlErrorV>(UrlInfoV::Daily(d)),
{
    lemma_task_seg_round_trip(d.task_number, d.date);
    let segs = daily_segments(d);
    assert(segs.len() == 6);
    assert(segs[1] == d.competition);
    assert(segs[2] == "results"@);
    assert(segs[3] == d.class);
    assert(segs[4] == task_seg_chars(d.task_number, d.date));
    assert(segs[5] == "daily"@);
}

/// A URL path as text: each segment behind one `/`.
pub open spec fn joined_path(segments: Seq<Seq<char>>) -> Seq<char>
    decreases segments.len(),
{
    if segments.len() == 0 {
        Seq::empty()
    } else {
        joined_path(segments.drop_last()) + seq!['/'] + segments.last()
    }
}

/// The generated URL string is exactly the canonical scheme and host
/// followed by the canonical segments, the very segments the round-trip
/// law classifies.
pub proof fn lemma_daily_url_joins_segments(d: DailyV)
    ensures
        daily_url_chars(d) == "https://www.soaringspot.com"@ + joined_path(daily_segments(d)),
{
    reveal_strlit("https://www.soaringspot.com");
    reveal_strlit("https://www.soaringspot.com/en_gb/");
    reveal_strlit("/results/");
    reveal_strlit("/");
    reveal_strlit("/daily");
    reveal_strlit("en_gb");
    reveal_strlit("results");
    reveal_strlit("daily");
    let task = task_seg_chars(d.task_number, d.date);
    let s0 = seq!["en_gb"@];
    let s1 = seq!["en_gb"@, d.competition];
    let s2 = seq!["en_gb"@, d.competition, "results"@];
    let s3 = seq!["en_gb"@, d.competition, "results"@, d.class];
    let s4 = seq!["en_gb"@, d.competition, "results"@, d.class, task];
    let s5 = daily_segments(d);
    assert(s0.drop_last() =~= Seq::<Seq<char>>::empty());
    assert(joined_path(s0) == joined_path(Seq::<Seq<char>>::empty()) + seq!['/'] + "en_gb"@);
    assert(s1.drop_last() =~= s0);
    assert(joined_path(s1) == joined_path(s0) + seq!['/'] + d.competition);
    assert(s2.drop_last() =~= s1);
    assert(joined_path(s2) == joined_path(s1) + seq!['/'] + "results"@);
    assert(s3.drop_last() =~= s2);
    assert(joined_path(s3) == joined_path(s2) + seq!['/'] + d.class);
    assert(s4.drop_last() =~= s3);
    assert(joined_path(s4) == joined_path(s3) + seq!['/'] + task);
    assert(s5.drop_last() =~= s4);
    assert(joined_path(s5) == joined_path(s4) + seq!['/'] + "daily"@);
    assert(daily_url_chars(d) =~= "https://www.soaringspot.com"@ + joined_path(s5));
}

/// Normalization is idempotent: what normalization yields is its own normal
/// form.
pub proof fn lemma_normalize_idempotent(u: UrlV)
    ensures
        normalize_spec(u) matches Ok(v) ==> normalize_spec(v) == Ok::<UrlV, UrlErrorV>(v),
{
    if let Ok(v) = normalize_spec(u) {
        assert(v.segments.update(0, "en_gb"@) =~= v.segments);
        assert(normalize_spec(v) matches Ok(v2) && v2.segments == v.segments);
    }
}

/// The locale segment never matters: two URLs that differ only there
/// normalize to the same result.
pub proof fn lemma_normalize_overwrites_locale(u1: UrlV, u2: UrlV)
    requires
        u1.scheme == u2.scheme,
        u1.host == u2.host,
        u1.segments.len() == u2.segments.len(),
        forall|i: int| 1 <= i < u1.segments.len() ==> u1.segments[i] == u2.segments[i],
    ensures
        normalize_spec(u1) == normalize_spec(u2),
{
    if u1.segments.len() > 0 {
        assert(u1.segments.update(0, "en_gb"@) =~= u2.segments.update(0, "en_gb"@));
    }
}

/// Classification commutes with normalization: a URL that normalization
/// accepts classifies exactly as its canonical form does.
pub proof fn lemma_classify_after_normalize(u: UrlV, require_daily_suffix: bool)
    ensures
        normalize_spec(u) matches Ok(v) ==> classify_spec(v, require_daily_suffix)
            == classify_spec(u, require_daily_suffix),
{
    if let Ok(v) = normalize_spec(u) {
        assert forall|i: int| 1 <= i < u.segments.len() implies v.segments[i] == u.segments[i] by {}
    }
}

/// Every record the classifier yields is well formed: non-empty slugs and a
/// valid calendar date.
pub proof fn lemma_classified_daily_wf(u: UrlV, require_daily_suffix: bool)
    ensures
        classify_spec(u, require_daily_suffix) matches Ok(UrlInfoV::Daily(d)) ==> d.competition.len()
            > 0 && d.class.len() > 0 && date_wf(d.date),
{
    if let Ok(UrlInfoV::Daily(d)) = classify_spec(u, require_daily_suffix) {
        reveal_strlit("task-");
        let seg = u.segments[4];
        let rest = seg.skip("task-"@.len() as int);
        if let Some(i) = find_first(rest, "-on-"@) {
            crate::date::lemma_parse_date_spec_wf(rest.skip(i + "-on-"@.len()));
        }
    }
}

} // verus!
