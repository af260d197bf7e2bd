//! Reading feed records out of the two kinds of listing page.
use vstd::prelude::*;
use vstd::string::*;

use crate::feed::{feed_views, Feed, FeedView, State};
use crate::html::{below, first_found, found, Document, Pred};
use crate::number::{read_u32, u32_fault, u32_text, IntErrorKind};

verus! {

/// The part of a page that scraping looked for.
#[derive(Debug, Clone, Copy, PartialEq, Eq, Structural)]
pub enum Landmark {
    IdAndName,
    FeedId,
    Location,
    StateData,
    StateId,
    FeedListeners,
    FeedData,
}

/// Why a page could not be read.
#[derive(Debug, Clone, Copy, PartialEq, Eq, Structural)]
pub enum ScrapeError {
    /// An element that the page must have is missing.
    NoElement(Landmark),
    /// A number on the page could not be read, for the given reason.
    FailedIntParse(IntErrorKind, Landmark),
    /// The page lists no feeds.
    NoneFound,
}

/// Whether `c` has the Unicode White_Space property.
pub open spec fn is_white_space(c: char) -> bool {
    let u = c as u32;
    (0x09 <= u <= 0x0D) || u == 0x20 || u == 0x85 || u == 0xA0 || u == 0x1680 || (0x2000 <= u
        <= 0x200A) || u == 0x2028 || u == 0x2029 || u == 0x202F || u == 0x205F || u == 0x3000
}

/// `s` without its trailing white space.
pub open spec fn trimmed_end(s: Seq<char>) -> Seq<char>
    decreases s.len(),
{
    if s.len() > 0 && is_white_space(s.last()) {
        trimmed_end(s.drop_last())
    } else {
        s
    }
}

/// Relies on `str::trim_end`: the string without its trailing characters
/// that have the White_Space property (`char::is_whitespace`).
#[verifier::external_body]
fn trim_end(s: &str) -> (r: &str)
    ensures
        r@ == trimmed_end(s@),
{
    s.trim_end()
}

/// The position of the last `/` before position `k`.
pub open spec fn last_slash(s: Seq<char>, k: int) -> Option<int>
    decreases k,
{
    if k <= 0 {
        None
    } else if s[k - 1] == '/' {
        Some(k - 1)
    } else {
        last_slash(s, k - 1)
    }
}

/// What follows the last `/` of a link; none where it has no `/` or ends in one.
pub open spec fn link_id(s: Seq<char>) -> Option<Seq<char>> {
    match last_slash(s, s.len() as int) {
        Some(p) => if p + 1 >= s.len() {
            None
        } else {
            Some(s.subrange(p + 1, s.len() as int))
        },
        None => None,
    }
}

pub open spec fn starts_with(s: Seq<char>, p: Seq<char>) -> bool {
    p.len() <= s.len() && s.subrange(0, p.len() as int) == p
}

/// Returns the last path segment of a link.
pub fn parse_link_id(url: &str) -> (r: Option<String>)
    ensures
        r.is_some() == link_id(url@).is_some(),
        r.is_some() ==> link_id(url@) == Some(r.unwrap()@),
{
    let n = url.unicode_len();
    let mut k: usize = n;
    while k > 0
        invariant
            k <= n == url@.len(),
            last_slash(url@, n as int) == last_slash(url@, k as int),
        decreases k,
    {
        if url.get_char(k - 1) == '/' {
            if k >= n {
                return None;
            }
            return Some(String::from_str(url.substring_char(k, n)));
        }
        k = k - 1;
    }
    None
}

fn has_prefix(s: &str, p: &str) -> (r: bool)
    ensures
        r == starts_with(s@, p@),
{
    let n = p.unicode_len();
    if n > s.unicode_len() {
        return false;
    }
    let mut i: usize = 0;
    while i < n
        invariant
            n == p@.len() <= s@.len(),
            i <= n,
            forall|j: int| 0 <= j < i ==> s@[j] == p@[j],
        decreases n - i,
    {
        if s.get_char(i) != p.get_char(i) {
            assert(s@.subrange(0, n as int)[i as int] != p@[i as int]);
            return false;
        }
        i = i + 1;
    }
    assert(s@.subrange(0, n as int) =~= p@);
    true
}

/// The id and name of the feed in row `r`: from the first link below it that
/// sits under an element of class `class`.
pub open spec fn id_and_name(
    els: Seq<crate::html::Element>,
    r: int,
    class: &'static str,
) -> Result<(u32, Seq<char>), ScrapeError> {
    let (f, t) = below(els, r);
    match first_found(els, f, t, Pred::NameUnderClass("a", class)) {
        None => Err(ScrapeError::NoElement(Landmark::IdAndName)),
        Some(b) => match els[b].href {
            None => Err(ScrapeError::NoElement(Landmark::FeedId)),
            Some(h) => match link_id(h@) {
                None => Err(ScrapeError::NoElement(Landmark::FeedId)),
                Some(t) => match u32_text(t) {
                    None => Err(ScrapeError::FailedIntParse(u32_fault(t), Landmark::FeedId)),
                    Some(id) => Ok((id, els[b].text@)),
                },
            },
        },
    }
}

/// The listener count of row `r`: the text of the first element below it
/// with classes `c` and `m`, without trailing whitespace.
pub open spec fn listeners_of(els: Seq<crate::html::Element>, r: int) -> Result<u32, ScrapeError> {
    let (f, t) = below(els, r);
    match first_found(els, f, t, Pred::Classes("c", "m")) {
        None => Err(ScrapeError::NoElement(Landmark::FeedListeners)),
        Some(k) => match u32_text(trimmed_end(els[k].text@)) {
            None => Err(ScrapeError::FailedIntParse(u32_fault(trimmed_end(els[k].text@)), Landmark::FeedListeners)),
            Some(n) => Ok(n),
        },
    }
}

/// The text of the first element in `f..t` that answers `p`.
pub open spec fn first_text(els: Seq<crate::html::Element>, f: int, t: int, p: Pred) -> Option<Seq<char>> {
    match first_found(els, f, t, p) {
        Some(k) => Some(els[k].text@),
        None => None,
    }
}

/// The feed in row `r` of the top listing.
pub open spec fn top_row(els: Seq<crate::html::Element>, r: int) -> Result<FeedView, ScrapeError> {
    let (f, t) = below(els, r);
    match id_and_name(els, r, "w100") {
        Err(e) => Err(e),
        Ok((id, name)) => {
            let tds = found(els, f, t, Pred::Name("td"));
            if tds.len() < 2 {
                Err(ScrapeError::NoElement(Landmark::Location))
            } else {
                let (lf, lt) = below(els, tds[1]);
                let links = found(els, lf, lt, Pred::Link);
                if links.len() == 0 {
                    Err(ScrapeError::NoElement(Landmark::StateData))
                } else {
                    match link_id(els[links[0]].href.unwrap()@) {
                        None => Err(ScrapeError::NoElement(Landmark::StateId)),
                        Some(st) => match u32_text(st) {
                            None => Err(ScrapeError::FailedIntParse(u32_fault(st), Landmark::StateId)),
                            Some(state_id) => match listeners_of(els, r) {
                                Err(e) => Err(e),
                                Ok(listeners) => Ok(
                                    FeedView {
                                        id,
                                        name,
                                        listeners,
                                        state_id,
                                        state_abbrev: els[links[0]].text@,
                                        county: if links.len() > 1 && starts_with(
                                            els[links[1]].href.unwrap()@,
                                            "/listen/ctid"@,
                                        ) {
                                            els[links[1]].text@
                                        } else {
                                            "Numerous"@
                                        },
                                        alert: first_text(els, f, t, Pred::Class("messageBox")),
                                    },
                                ),
                            },
                        },
                    }
                }
            }
        },
    }
}

/// The feed in row `r` of the listing of `state`.
pub open spec fn state_row(els: Seq<crate::html::Element>, state: (u32, Seq<char>), r: int) -> Result<FeedView, ScrapeError> {
    let (f, t) = below(els, r);
    match id_and_name(els, r, "w1p") {
        Err(e) => Err(e),
        Ok((id, name)) => match listeners_of(els, r) {
            Err(e) => Err(e),
            Ok(listeners) => Ok(
                FeedView {
                    id,
                    name,
                    listeners,
                    state_id: state.0,
                    state_abbrev: state.1,
                    county: match first_text(els, f, t, Pred::Name("a")) {
                        Some(c) => c,
                        None => "Numerous"@,
                    },
                    alert: first_text(els, f, t, Pred::NameAndClass("font", "fontRed")),
                },
            ),
        },
    }
}

/// The feeds of `rows`, read in order; the first row that fails decides the
/// error. Rows are read as on the top listing, or as on the listing of `state`.
pub open spec fn rows_result(els: Seq<crate::html::Element>, state: Option<(u32, Seq<char>)>, rows: Seq<int>) -> Result<
    Seq<FeedView>,
    ScrapeError,
>
    decreases rows.len(),
{
    if rows.len() == 0 {
        Ok(Seq::empty())
    } else {
        match rows_result(els, state, rows.drop_last()) {
            Err(e) => Err(e),
            Ok(fs) => match (match state {
                Some(s) => state_row(els, s, rows.last()),
                None => top_row(els, rows.last()),
            }) {
                Err(e) => Err(e),
                Ok(f) => Ok(fs.push(f)),
            },
        }
    }
}

/// Table rows that sit under an element of class `btable`, after the first
/// (the header).
pub open spec fn data_rows(els: Seq<crate::html::Element>, f: int, t: int) -> Seq<int> {
    let rows = found(els, f, t, Pred::NameUnderClass("tr", "btable"));
    if rows.len() == 0 {
        rows
    } else {
        rows.drop_first()
    }
}

/// An empty list of feeds is an error.
pub open spec fn nonempty(r: Result<Seq<FeedView>, ScrapeError>) -> Result<Seq<FeedView>, ScrapeError> {
    match r {
        Ok(fs) => if fs.len() == 0 {
            Err(ScrapeError::NoneFound)
        } else {
            Ok(fs)
        },
        Err(e) => Err(e),
    }
}

/// The feeds of the top listing.
pub open spec fn top_feeds(els: Seq<crate::html::Element>) -> Result<Seq<FeedView>, ScrapeError> {
    nonempty(rows_result(els, None, data_rows(els, 0, els.len() as int)))
}

/// The feed table of a state listing: the second element of class `btable`
/// where there are two (the first holds area-wide feeds), else the first.
pub open spec fn state_table(els: Seq<crate::html::Element>) -> Option<int> {
    let tables = found(els, 0, els.len() as int, Pred::Class("btable"));
    if tables.len() == 0 {
        None
    } else if tables.len() >= 2 {
        Some(tables[1])
    } else {
        Some(tables[0])
    }
}

/// The feeds of the listing of `state`.
pub open spec fn state_feeds(els: Seq<crate::html::Element>, state: (u32, Seq<char>)) -> Result<Seq<FeedView>, ScrapeError> {
    match state_table(els) {
        None => Err(ScrapeError::NoElement(Landmark::FeedData)),
        Some(table) => {
            let (f, t) = below(els, table);
            nonempty(rows_result(els, Some(state), data_rows(els, f, t)))
        },
    }
}

fn parse_id_and_name(doc: &Document, r: usize, class: &'static str) -> (res: Result<(u32, String), ScrapeError>)
    requires
        r < doc.els().len(),
    ensures
        match (res, id_and_name(doc.els(), r as int, class)) {
            (Ok((id, name)), Ok((sid, sname))) => id == sid && name@ == sname,
            (Err(e), Err(se)) => e == se,
            _ => false,
        },
{
    let (f, t) = doc.below(r);
    let b = match doc.find_first(f, t, Pred::NameUnderClass("a", class)) {
        Some(b) => b,
        None => return Err(ScrapeError::NoElement(Landmark::IdAndName)),
    };
    let e = &doc.elements[b];
    let href = match &e.href {
        Some(h) => h,
        None => return Err(ScrapeError::NoElement(Landmark::FeedId)),
    };
    let text = match parse_link_id(href.as_str()) {
        Some(t) => t,
        None => return Err(ScrapeError::NoElement(Landmark::FeedId)),
    };
    match read_u32(text.as_str()) {
        Ok(id) => Ok((id, e.text.clone())),
        Err(k) => Err(ScrapeError::FailedIntParse(k, Landmark::FeedId)),
    }
}

fn parse_listeners(doc: &Document, r: usize) -> (res: Result<u32, ScrapeError>)
    requires
        r < doc.els().len(),
    ensures
        res == listeners_of(doc.els(), r as int),
{
    let (f, t) = doc.below(r);
    let k = match doc.find_first(f, t, Pred::Classes("c", "m")) {
        Some(k) => k,
        None => return Err(ScrapeError::NoElement(Landmark::FeedListeners)),
    };
    match read_u32(trim_end(doc.elements[k].text.as_str())) {
        Ok(n) => Ok(n),
        Err(e) => Err(ScrapeError::FailedIntParse(e, Landmark::FeedListeners)),
    }
}

fn first_text_in(doc: &Document, f: usize, t: usize, p: Pred) -> (res: Option<String>)
    requires
        f <= t <= doc.els().len(),
    ensures
        crate::feed::opt_chars(res) == first_text(doc.els(), f as int, t as int, p),
{
    match doc.find_first(f, t, p) {
        Some(k) => Some(doc.elements[k].text.clone()),
        None => None,
    }
}

/// Whether a scraping result agrees with what the specification gives.
pub open spec fn agrees(r: Result<Vec<Feed>, ScrapeError>, s: Result<Seq<FeedView>, ScrapeError>) -> bool {
    match (r, s) {
        (Ok(v), Ok(fs)) => feed_views(v@) == fs,
        (Err(e), Err(se)) => e == se,
        _ => false,
    }
}

pub open spec fn row_agrees(r: Result<Feed, ScrapeError>, s: Result<FeedView, ScrapeError>) -> bool {
    match (r, s) {
        (Ok(f), Ok(v)) => f@ == v,
        (Err(e), Err(se)) => e == se,
        _ => false,
    }
}

pub open spec fn state_val(state: Option<&State>) -> Option<(u32, Seq<char>)> {
    match state {
        Some(s) => Some((s.id, s.abbrev@)),
        None => None,
    }
}

fn scrape_top_row(doc: &Document, r: usize) -> (res: Result<Feed, ScrapeError>)
    requires
        r < doc.els().len(),
    ensures
        row_agrees(res, top_row(doc.els(), r as int)),
{
    let (id, name) = match parse_id_and_name(doc, r, "w100") {
        Ok(v) => v,
        Err(e) => return Err(e),
    };
    let (f, t) = doc.below(r);
    let tds = doc.find_all(f, t, Pred::Name("td"));
    if tds.len() < 2 {
        return Err(ScrapeError::NoElement(Landmark::Location));
    }
    let (lf, lt) = doc.below(tds[1]);
    let links = doc.find_all(lf, lt, Pred::Link);
    if links.len() == 0 {
        return Err(ScrapeError::NoElement(Landmark::StateData));
    }
    let state_link = &doc.elements[links[0]];
    let state_href = match &state_link.href {
        Some(h) => h,
        None => return Err(ScrapeError::NoElement(Landmark::StateData)),
    };
    let state_text = match parse_link_id(state_href.as_str()) {
        Some(t) => t,
        None => return Err(ScrapeError::NoElement(Landmark::StateId)),
    };
    let state_id = match read_u32(state_text.as_str()) {
        Ok(n) => n,
        Err(e) => return Err(ScrapeError::FailedIntParse(e, Landmark::StateId)),
    };
    let mut county = String::from_str("Numerous");
    if links.len() > 1 {
        let county_link = &doc.elements[links[1]];
        if let Some(h) = &county_link.href {
            if has_prefix(h.as_str(), "/listen/ctid") {
                county = county_link.text.clone();
            }
        }
    }
    let listeners = match parse_listeners(doc, r) {
        Ok(n) => n,
        Err(e) => return Err(e),
    };
    let alert = first_text_in(doc, f, t, Pred::Class("messageBox"));
    Ok(
        Feed {
            id,
            name,
            listeners,
            state: State::new(state_id, state_link.text.clone()),
            county,
            alert,
        },
    )
}

fn scrape_state_row(doc: &Document, state: &State, r: usize) -> (res: Result<Feed, ScrapeError>)
    requires
        r < doc.els().len(),
    ensures
        row_agrees(res, state_row(doc.els(), (state.id, state.abbrev@), r as int)),
{
    let (id, name) = match parse_id_and_name(doc, r, "w1p") {
        Ok(v) => v,
        Err(e) => return Err(e),
    };
    let (f, t) = doc.below(r);
    let county = match first_text_in(doc, f, t, Pred::Name("a")) {
        Some(c) => c,
        None => String::from_str("Numerous"),
    };
    let alert = first_text_in(doc, f, t, Pred::NameAndClass("font", "fontRed"));
    let listeners = match parse_listeners(doc, r) {
        Ok(n) => n,
        Err(e) => return Err(e),
    };
    Ok(Feed { id, name, listeners, state: state.duplicate(), county, alert })
}

/// Once the rows up to some point fail, all of them fail with that error.
proof fn lemma_rows_prefix(els: Seq<crate::html::Element>, state: Option<(u32, Seq<char>)>, rows: Seq<int>, k: int)
    requires
        0 <= k <= rows.len(),
        rows_result(els, state, rows.subrange(0, k)) is Err,
    ensures
        rows_result(els, state, rows) == rows_result(els, state, rows.subrange(0, k)),
    decreases rows.len(),
{
    if k < rows.len() {
        let t = rows.drop_last();
        assert(t.subrange(0, k) =~= rows.subrange(0, k));
        lemma_rows_prefix(els, state, t, k);
    } else {
        assert(rows.subrange(0, k) =~= rows);
    }
}

/// The feeds of the data rows of the table in `f..t`.
fn scrape_table(doc: &Document, f: usize, t: usize, state: Option<&State>) -> (res: Result<Vec<Feed>, ScrapeError>)
    requires
        f <= t <= doc.els().len(),
    ensures
        agrees(res, nonempty(rows_result(doc.els(), state_val(state), data_rows(doc.els(), f as int, t as int)))),
{
    let ghost els = doc.els();
    let rows = doc.find_all(f, t, Pred::NameUnderClass("tr", "btable"));
    let ghost all = found(els, f as int, t as int, Pred::NameUnderClass("tr", "btable"));
    let ghost data = data_rows(els, f as int, t as int);
    let mut out: Vec<Feed> = Vec::new();
    let mut k: usize = 1;
    assert(feed_views(out@) =~= Seq::<FeedView>::empty());
    assert(data.subrange(0, 0) =~= Seq::<int>::empty());
    while k < rows.len()
        invariant
            els == doc.els(),
            data == data_rows(els, f as int, t as int),
            all == found(els, f as int, t as int, Pred::NameUnderClass("tr", "btable")),
            1 <= k,
            rows@.len() == all.len(),
            forall|j: int| 0 <= j < rows@.len() ==> rows@[j] as int == #[trigger] all[j],
            forall|j: int| 0 <= j < rows@.len() ==> #[trigger] rows@[j] < els.len(),
            all.len() > 0 ==> data == all.drop_first(),
            k <= rows@.len() ==> rows_result(els, state_val(state), data.subrange(0, k - 1)) == Ok::<Seq<FeedView>, ScrapeError>(feed_views(out@)),
            rows@.len() > 0 ==> k <= rows@.len(),
            out@.len() == k - 1,
            rows@.len() == 0 ==> k == 1,
        decreases rows.len() - k,
    {
        let ghost pre = data.subrange(0, k as int);
        assert(pre.drop_last() =~= data.subrange(0, k - 1));
        assert(pre.last() == rows@[k as int] as int);
        let row = match state {
            Some(s) => scrape_state_row(doc, s, rows[k]),
            None => scrape_top_row(doc, rows[k]),
        };
        match row {
            Ok(feed) => {
                let ghost before = out@;
                out.push(feed);
                assert(feed_views(out@) =~= feed_views(before).push(out@.last()@));
            },
            Err(e) => {
                proof {
                    assert(rows_result(els, state_val(state), pre) == Err::<Seq<FeedView>, ScrapeError>(e));
                    lemma_rows_prefix(els, state_val(state), data, k as int);
                    assert(rows_result(els, state_val(state), data) == Err::<Seq<FeedView>, ScrapeError>(e));
                    assert(data == data_rows(doc.els(), f as int, t as int));
                }
                return Err(e);
            },
        }
        k = k + 1;
    }
    proof {
        if rows@.len() > 0 {
            assert(data.subrange(0, k - 1) =~= data);
        } else {
            assert(data =~= Seq::<int>::empty());
            assert(feed_views(out@) =~= Seq::<FeedView>::empty());
        }
    }
    if out.len() == 0 {
        return Err(ScrapeError::NoneFound);
    }
    Ok(out)
}

/// Reads the feeds of the top listing.
pub fn scrape_top(doc: &Document) -> (res: Result<Vec<Feed>, ScrapeError>)
    ensures
        agrees(res, top_feeds(doc.els())),
{
    scrape_table(doc, 0, doc.elements.len(), None)
}

/// Reads the feeds of the listing of `state`; each carries that state.
pub fn scrape_state(state: &State, doc: &Document) -> (res: Result<Vec<Feed>, ScrapeError>)
    ensures
        agrees(res, state_feeds(doc.els(), (state.id, state.abbrev@))),
{
    let tables = doc.find_all(0, doc.elements.len(), Pred::Class("btable"));
    if tables.len() == 0 {
        return Err(ScrapeError::NoElement(Landmark::FeedData));
    }
    let table = if tables.len() >= 2 { tables[1] } else { tables[0] };
    let (f, t) = doc.below(table);
    scrape_table(doc, f, t, Some(state))
}

} // verus!
