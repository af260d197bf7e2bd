//! Feed records and the acquisition pipeline that turns scraped pages into
//! a filtered, sorted list with one record per feed id.
use vstd::prelude::*;
use vstd::string::*;

use crate::config::{ident_matches, ident_views, Config, FeedIdent, FeedIdentView};
use crate::html::Document;
use crate::text::{decimal, push_decimal};
use crate::scrape::{scrape_state, scrape_top, state_feeds, top_feeds, ScrapeError};

verus! {

/// A state (region) as listed by the feed service.
#[derive(Debug)]
pub struct State {
    pub id: u32,
    pub abbrev: String,
}

impl State {
    pub fn new(id: u32, abbrev: String) -> (r: State)
        ensures
            r.id == id,
            r.abbrev@ == abbrev@,
    {
        State { id, abbrev }
    }

    /// A field-by-field copy of this state.
    pub fn duplicate(&self) -> (r: State)
        ensures
            r.id == self.id,
            r.abbrev@ == self.abbrev@,
    {
        State { id: self.id, abbrev: self.abbrev.clone() }
    }
}

/// One listed audio feed.
#[derive(Debug)]
pub struct Feed {
    pub id: u32,
    pub name: String,
    pub listeners: u32,
    pub state: State,
    pub county: String,
    pub alert: Option<String>,
}

/// Two feed records denote the same feed exactly when their ids agree.
impl PartialEq for Feed {
    fn eq(&self, other: &Feed) -> (r: bool)
        ensures
            r == (self.id == other.id),
    {
        self.id == other.id
    }
}

impl vstd::std_specs::cmp::PartialEqSpecImpl for Feed {
    open spec fn obeys_eq_spec() -> bool {
        true
    }

    open spec fn eq_spec(&self, other: &Feed) -> bool {
        self.id == other.id
    }
}

/// The value of a [`Feed`], with its strings as character sequences.
pub struct FeedView {
    pub id: u32,
    pub name: Seq<char>,
    pub listeners: u32,
    pub state_id: u32,
    pub state_abbrev: Seq<char>,
    pub county: Seq<char>,
    pub alert: Option<Seq<char>>,
}

pub open spec fn opt_chars(s: Option<String>) -> Option<Seq<char>> {
    match s {
        Some(t) => Some(t@),
        None => None,
    }
}

impl View for Feed {
    type V = FeedView;

    open spec fn view(&self) -> FeedView {
        FeedView {
            id: self.id,
            name: self.name@,
            listeners: self.listeners,
            state_id: self.state.id,
            state_abbrev: self.state.abbrev@,
            county: self.county@,
            alert: opt_chars(self.alert),
        }
    }
}

pub open spec fn feed_views(s: Seq<Feed>) -> Seq<FeedView> {
    s.map_values(|f: Feed| f@)
}

// ---- filtering ----

/// Whether the allow list `wl` (where it is not empty) and the deny list `bl`
/// let `f` through.
pub open spec fn admitted(wl: Seq<FeedIdentView>, bl: Seq<FeedIdentView>, f: FeedView) -> bool {
    (wl.len() == 0 || exists|i: int| 0 <= i < wl.len() && ident_matches(wl[i], f))
        && !exists|i: int| 0 <= i < bl.len() && ident_matches(bl[i], f)
}

/// The feeds of `s` that the lists let through, in order.
pub open spec fn kept(wl: Seq<FeedIdentView>, bl: Seq<FeedIdentView>, s: Seq<FeedView>) -> Seq<FeedView>
    decreases s.len(),
{
    if s.len() == 0 {
        Seq::empty()
    } else {
        let rest = kept(wl, bl, s.drop_last());
        if admitted(wl, bl, s.last()) {
            rest.push(s.last())
        } else {
            rest
        }
    }
}

fn any_matches(list: &Vec<FeedIdent>, feed: &Feed) -> (r: bool)
    ensures
        r == exists|i: int| 0 <= i < ident_views(list@).len() && ident_matches(ident_views(list@)[i], feed@),
{
    let mut i: usize = 0;
    while i < list.len()
        invariant
            i <= list@.len(),
            forall|j: int| 0 <= j < i ==> !ident_matches(ident_views(list@)[j], feed@),
        decreases list.len() - i,
    {
        assert(ident_views(list@)[i as int] == list@[i as int]@);
        if list[i].matches_feed(feed) {
            return true;
        }
        i = i + 1;
    }
    false
}

/// Keeps the feeds that some entry of the whitelist selects (where it is
/// not empty) and that no entry of the blacklist selects, in their order.
pub fn filter_whitelist_blacklist(config: &Config, feeds: &mut Vec<Feed>)
    ensures
        feed_views(final(feeds)@) == kept(
            ident_views(config.whitelist@),
            ident_views(config.blacklist@),
            feed_views(old(feeds)@),
        ),
{
    let ghost wl = ident_views(config.whitelist@);
    let ghost bl = ident_views(config.blacklist@);
    let ghost orig = old(feeds)@;
    let mut rest: Vec<Feed> = Vec::new();
    std::mem::swap(feeds, &mut rest);
    let n: usize = rest.len();
    let mut i: usize = 0;
    assert(feed_views(feeds@) =~= kept(wl, bl, feed_views(orig.subrange(0, 0))));
    while rest.len() > 0
        invariant
            wl == ident_views(config.whitelist@),
            bl == ident_views(config.blacklist@),
            n == orig.len(),
            i <= n,
            rest@ == orig.subrange(i as int, n as int),
            feed_views(feeds@) == kept(wl, bl, feed_views(orig.subrange(0, i as int))),
        decreases rest.len(),
    {
        let f = rest.remove(0);
        let ghost pre = feed_views(orig.subrange(0, i + 1));
        assert(pre.drop_last() =~= feed_views(orig.subrange(0, i as int)));
        assert(f == orig[i as int]);
        let allowed = (config.whitelist.len() == 0 || any_matches(&config.whitelist, &f))
            && !any_matches(&config.blacklist, &f);
        assert(allowed == admitted(wl, bl, f@));
        if allowed {
            let ghost before = feeds@;
            feeds.push(f);
            assert(feed_views(feeds@) =~= feed_views(before).push(f@));
        }
        i = i + 1;
        assert(rest@ =~= orig.subrange(i as int, n as int));
    }
    assert(orig.subrange(0, i as int) =~= orig);
}

// ---- one record per id ----

pub open spec fn sorted_by_id(s: Seq<Feed>) -> bool {
    forall|i: int, j: int| 0 <= i <= j < s.len() ==> s[i].id <= s[j].id
}

pub open spec fn strictly_by_id(s: Seq<Feed>) -> bool {
    forall|i: int, j: int| 0 <= i < j < s.len() ==> s[i].id < s[j].id
}

/// `after` holds one record for each id of `before`, taken from `before`,
/// in ascending order of id.
pub open spec fn deduplicated(before: Seq<Feed>, after: Seq<Feed>) -> bool {
    &&& strictly_by_id(after)
    &&& forall|k: int| 0 <= k < after.len() ==> before.contains(#[trigger] after[k])
    &&& forall|i: int| 0 <= i < before.len() ==> has_id(after, #[trigger] before[i].id)
}

/// Whether some record of `s` has id `id`.
pub open spec fn has_id(s: Seq<Feed>, id: u32) -> bool {
    exists|k: int| 0 <= k < s.len() && s[k].id == id
}

/// Relies on `slice::sort_by_key`: the same records, ordered by id.
#[verifier::external_body]
fn sort_by_id(feeds: &mut Vec<Feed>)
    ensures
        final(feeds)@.to_multiset() == old(feeds)@.to_multiset(),
        sorted_by_id(final(feeds)@),
{
    feeds.sort_by_key(|f| f.id)
}

/// Keeps the first record of each run of records with the same id.
#[verifier::rlimit(50)]
fn dedup_sorted(feeds: &mut Vec<Feed>)
    requires
        sorted_by_id(old(feeds)@),
    ensures
        deduplicated(old(feeds)@, final(feeds)@),
{
    let ghost orig = old(feeds)@;
    let mut rest: Vec<Feed> = Vec::new();
    std::mem::swap(feeds, &mut rest);
    let n: usize = rest.len();
    let mut i: usize = 0;
    while rest.len() > 0
        invariant
            sorted_by_id(orig),
            n == orig.len(),
            i <= n,
            rest@ == orig.subrange(i as int, n as int),
            strictly_by_id(feeds@),
            forall|k: int| 0 <= k < feeds@.len() ==> orig.contains(#[trigger] feeds@[k]),
            forall|j: int| 0 <= j < i ==> has_id(feeds@, #[trigger] orig[j].id),
            i > 0 ==> feeds@.len() > 0 && feeds@.last().id == orig[i - 1].id,
            i == 0 ==> feeds@.len() == 0,
        decreases rest.len(),
    {
        let f = rest.remove(0);
        assert(f == orig[i as int]);
        let n_out = feeds.len();
        if n_out == 0 || feeds[n_out - 1].id != f.id {
            let ghost before = feeds@;
            feeds.push(f);
            assert(orig.contains(orig[i as int]));
            assert forall|j: int| 0 <= j < i + 1 implies has_id(feeds@, #[trigger] orig[j].id) by {
                if j == i {
                    assert(feeds@[feeds@.len() - 1].id == orig[j].id);
                } else {
                    let k = choose|k: int| 0 <= k < before.len() && before[k].id == orig[j].id;
                    assert(feeds@[k] == before[k]);
                }
            }
        } else {
            assert(feeds@[n_out - 1].id == orig[i as int].id);
        }
        i = i + 1;
        assert(rest@ =~= orig.subrange(i as int, n as int));
    }
}

/// Where the records come out deduplicated, each id of the input stands in
/// exactly one record of the output.
pub proof fn lemma_one_record_per_id(before: Seq<Feed>, after: Seq<Feed>, i: int)
    requires
        deduplicated(before, after),
        0 <= i < before.len(),
    ensures
        exists|k: int| 0 <= k < after.len() && after[k].id == before[i].id,
        forall|k1: int, k2: int|
            0 <= k1 < after.len() && 0 <= k2 < after.len() && after[k1].id == before[i].id
                && after[k2].id == before[i].id ==> k1 == k2,
{
    assert(has_id(after, before[i].id));
}

/// Orders the records by id and keeps one record for each id.
pub fn sort_and_dedup(feeds: &mut Vec<Feed>)
    ensures
        deduplicated(old(feeds)@, final(feeds)@),
{
    broadcast use vstd::seq_lib::group_to_multiset_ensures;

    let ghost orig = old(feeds)@;
    sort_by_id(feeds);
    let ghost sorted = feeds@;
    dedup_sorted(feeds);
    assert forall|k: int| 0 <= k < feeds@.len() implies orig.contains(#[trigger] feeds@[k]) by {
        let x = feeds@[k];
        assert(sorted.contains(x));
        assert(sorted.to_multiset().count(x) > 0);
        assert(orig.to_multiset().count(x) > 0);
        assert(orig.contains(x));
    }
    assert forall|i: int| 0 <= i < orig.len() implies has_id(feeds@, #[trigger] orig[i].id) by {
        let x = orig[i];
        assert(orig.contains(x));
        assert(orig.to_multiset().count(x) > 0);
        assert(sorted.to_multiset().count(x) > 0);
        assert(sorted.contains(x));
        let j = choose|j: int| 0 <= j < sorted.len() && sorted[j] == x;
        assert(has_id(feeds@, sorted[j].id));
    }
}

// ---- sources ----

/// Why the feed list could not be acquired: which page failed, and how.
#[derive(Debug, Clone, Copy, PartialEq, Eq, Structural)]
pub enum FeedSourceError {
    FailedToParseTopFeeds(ScrapeError),
    FailedToParseStateFeeds(ScrapeError),
}

/// A page of the listing service.
#[derive(Debug)]
pub enum FeedSource {
    /// The most listened feeds of the whole service.
    Top,
    /// The feeds of one state.
    State(State),
}

/// The address of the top listing.
pub open spec fn top_url() -> Seq<char> {
    "http://www.broadcastify.com/listen/top"@
}

/// The address of the listing of the state with id `id`.
pub open spec fn state_url(id: u32) -> Seq<char> {
    "http://www.broadcastify.com/listen/stid/"@ + decimal(id as nat)
}

impl FeedSource {
    /// The address of this page.
    pub fn get_url(&self) -> (r: String)
        ensures
            r@ == match self {
                FeedSource::Top => top_url(),
                FeedSource::State(s) => state_url(s.id),
            },
    {
        match self {
            FeedSource::Top => String::from_str("http://www.broadcastify.com/listen/top"),
            FeedSource::State(state) => {
                let mut url = String::from_str("http://www.broadcastify.com/listen/stid/");
                push_decimal(&mut url, state.id);
                url
            },
        }
    }

    /// Reads the feeds of this page out of its document.
    pub fn scrape(&self, doc: &Document) -> (r: Result<Vec<Feed>, FeedSourceError>)
        ensures
            match self {
                FeedSource::Top => tagged(r, top_feeds(doc.els()), false),
                FeedSource::State(s) => tagged(r, state_feeds(doc.els(), (s.id, s.abbrev@)), true),
            },
    {
        match self {
            FeedSource::Top => match scrape_top(doc) {
                Ok(v) => Ok(v),
                Err(e) => Err(FeedSourceError::FailedToParseTopFeeds(e)),
            },
            FeedSource::State(state) => match scrape_state(state, doc) {
                Ok(v) => Ok(v),
                Err(e) => Err(FeedSourceError::FailedToParseStateFeeds(e)),
            },
        }
    }
}

/// The error of a page, tagged with the page it came from.
pub open spec fn tag(e: ScrapeError, is_state: bool) -> FeedSourceError {
    if is_state {
        FeedSourceError::FailedToParseStateFeeds(e)
    } else {
        FeedSourceError::FailedToParseTopFeeds(e)
    }
}

/// Whether `r` is what scraping gives, with its error tagged.
pub open spec fn tagged(r: Result<Vec<Feed>, FeedSourceError>, s: Result<Seq<FeedView>, ScrapeError>, is_state: bool) -> bool {
    match (r, s) {
        (Ok(v), Ok(fs)) => feed_views(v@) == fs,
        (Err(e), Err(se)) => e == tag(se, is_state),
        _ => false,
    }
}

// ---- the whole acquisition ----

/// The feeds of both pages before filtering, or the first error: that of the
/// top page, else that of the state page where one is configured.
pub open spec fn gathered(
    state_id: Option<u32>,
    top: Seq<crate::html::Element>,
    state: Seq<crate::html::Element>,
) -> Result<Seq<FeedView>, FeedSourceError> {
    match top_feeds(top) {
        Err(e) => Err(tag(e, false)),
        Ok(t) => match state_id {
            None => Ok(t),
            Some(id) => match state_feeds(state, (id, "CS"@)) {
                Err(e) => Err(tag(e, true)),
                Ok(s) => Ok(t + s),
            },
        },
    }
}

pub open spec fn state_els(state_page: Option<&Document>) -> Seq<crate::html::Element> {
    match state_page {
        Some(d) => d.els(),
        None => Seq::empty(),
    }
}

impl Feed {
    /// The feed list of one acquisition, from the top page and, where the
    /// configuration names a state, that state's page: the feeds that the
    /// white- and blacklist let through, one per id, in ascending order of id.
    pub fn from_pages(config: &Config, top: &Document, state_page: Option<&Document>) -> (r: Result<Vec<Feed>, FeedSourceError>)
        requires
            config.misc.state_feeds_id is Some ==> state_page is Some,
        ensures
            ({
                let g = gathered(config.misc.state_feeds_id, top.els(), state_els(state_page));
                match (r, g) {
                    (Ok(v), Ok(fs)) => {
                        let k = kept(ident_views(config.whitelist@), ident_views(config.blacklist@), fs);
                        &&& strictly_by_id(v@)
                        &&& forall|i: int| 0 <= i < v@.len() ==> k.contains(#[trigger] v@[i]@)
                        &&& forall|j: int| 0 <= j < k.len() ==> has_id(v@, #[trigger] k[j].id)
                    },
                    (Err(e), Err(ge)) => e == ge,
                    _ => false,
                }
            }),
    {
        let mut feeds = match FeedSource::Top.scrape(top) {
            Ok(v) => v,
            Err(e) => return Err(e),
        };
        if let Some(state_id) = config.misc.state_feeds_id {
            let page = state_page.unwrap();
            let source = FeedSource::State(State::new(state_id, String::from_str("CS")));
            let mut more = match source.scrape(page) {
                Ok(v) => v,
                Err(e) => return Err(e),
            };
            let ghost before = feeds@;
            let ghost added = more@;
            feeds.append(&mut more);
            assert(feed_views(feeds@) =~= feed_views(before) + feed_views(added));
        }
        let ghost joined = feeds@;
        assert(gathered(config.misc.state_feeds_id, top.els(), state_els(state_page)) == Ok::<Seq<FeedView>, FeedSourceError>(feed_views(joined)));
        filter_whitelist_blacklist(config, &mut feeds);
        let ghost filtered = feeds@;
        sort_and_dedup(&mut feeds);
        proof {
            let k = feed_views(filtered);
            assert forall|i: int| 0 <= i < feeds@.len() implies k.contains(#[trigger] feeds@[i]@) by {
                let x = feeds@[i];
                let j = choose|j: int| 0 <= j < filtered.len() && filtered[j] == x;
                assert(k[j] == x@);
            }
            assert forall|j: int| 0 <= j < k.len() implies has_id(feeds@, #[trigger] k[j].id) by {
                assert(k[j] == filtered[j]@);
                assert(has_id(feeds@, filtered[j].id));
            }
        }
        Ok(feeds)
    }
}

} // verus!
