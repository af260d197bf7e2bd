use feedwatch::config::{Config, FeedIdent};
use feedwatch::feed::{filter_whitelist_blacklist, sort_and_dedup, Feed, FeedSource, FeedSourceError, State};
use feedwatch::html::{Document, Element};
use feedwatch::number::IntErrorKind;
use feedwatch::scrape::{parse_link_id, scrape_state, scrape_top, Landmark, ScrapeError};

fn el(depth: usize, name: &str, classes: &[&str], href: Option<&str>, text: &str) -> Element {
    Element {
        name: name.to_string(),
        classes: classes.iter().map(|c| c.to_string()).collect(),
        href: href.map(|h| h.to_string()),
        text: text.to_string(),
        depth,
    }
}

/// A top listing: a header row, then one row per `(id, name, state link,
/// state text, county link, listeners, alert)`.
fn top_page(rows: &[(&str, &str, &str, &str, Option<(&str, &str)>, &str, Option<&str>)]) -> Document {
    let mut els = vec![
        el(0, "table", &["btable"], None, ""),
        el(1, "tr", &[], None, "Feed"),
        el(2, "th", &[], None, "Feed"),
    ];
    for (href, name, state_href, state, county, listeners, alert) in rows {
        els.push(el(1, "tr", &[], None, ""));
        els.push(el(2, "td", &["w100"], None, name));
        els.push(el(3, "a", &[], Some(href), name));
        if let Some(a) = alert {
            els.push(el(3, "div", &["messageBox"], None, a));
        }
        els.push(el(2, "td", &[], None, ""));
        els.push(el(3, "a", &[], Some(state_href), state));
        if let Some((ch, ct)) = county {
            els.push(el(3, "a", &[], Some(ch), ct));
        }
        els.push(el(2, "td", &["c", "m"], None, listeners));
    }
    Document { elements: els }
}

#[test]
fn top_fixture_gives_one_feed() {
    let doc = top_page(&[("/listen/feed/42", "Test Feed", "/listen/stid/7", "XX", None, "123", None)]);
    let feeds = scrape_top(&doc).unwrap();
    assert_eq!(feeds.len(), 1);
    let f = &feeds[0];
    assert_eq!(f.id, 42);
    assert_eq!(f.name, "Test Feed");
    assert_eq!(f.state.id, 7);
    assert_eq!(f.state.abbrev, "XX");
    assert_eq!(f.county, "Numerous");
    assert_eq!(f.listeners, 123);
    assert_eq!(f.alert, None);
}

#[test]
fn top_county_and_alert_are_read() {
    let doc = top_page(&[
        ("/listen/feed/1", "One", "/listen/stid/2", "AA", Some(("/listen/ctid/9", "Kent")), "5 \n", Some("Down")),
        ("/listen/feed/3", "Three", "/listen/stid/4", "BB", Some(("/elsewhere/9", "Far")), "6", None),
    ]);
    let feeds = scrape_top(&doc).unwrap();
    assert_eq!(feeds.len(), 2);
    assert_eq!(feeds[0].county, "Kent");
    assert_eq!(feeds[0].listeners, 5);
    assert_eq!(feeds[0].alert.as_deref(), Some("Down"));
    assert_eq!(feeds[1].county, "Numerous");
}

#[test]
fn top_without_rows_is_none_found() {
    let doc = top_page(&[]);
    assert_eq!(scrape_top(&doc).unwrap_err(), ScrapeError::NoneFound);
    let empty = Document { elements: vec![] };
    assert_eq!(scrape_top(&empty).unwrap_err(), ScrapeError::NoneFound);
}

#[test]
fn top_errors_name_the_landmark() {
    let doc = top_page(&[("/listen/feed/x1", "Bad", "/listen/stid/7", "XX", None, "1", None)]);
    assert_eq!(scrape_top(&doc).unwrap_err(), ScrapeError::FailedIntParse(IntErrorKind::InvalidDigit, Landmark::FeedId));
    let doc = top_page(&[("/listen/feed/", "Bad", "/listen/stid/7", "XX", None, "1", None)]);
    assert_eq!(scrape_top(&doc).unwrap_err(), ScrapeError::NoElement(Landmark::FeedId));
    let doc = top_page(&[("/listen/feed/2", "Ok", "/listen/stid/q", "XX", None, "1", None)]);
    assert_eq!(scrape_top(&doc).unwrap_err(), ScrapeError::FailedIntParse(IntErrorKind::InvalidDigit, Landmark::StateId));
    let doc = top_page(&[("/listen/feed/2", "Ok", "/listen/stid/7", "XX", None, "many", None)]);
    assert_eq!(
        scrape_top(&doc).unwrap_err(),
        ScrapeError::FailedIntParse(IntErrorKind::InvalidDigit, Landmark::FeedListeners)
    );
    let doc = top_page(&[("/listen/feed/2", "Ok", "/listen/stid/7", "XX", None, "99999999999", None)]);
    assert_eq!(
        scrape_top(&doc).unwrap_err(),
        ScrapeError::FailedIntParse(IntErrorKind::PosOverflow, Landmark::FeedListeners)
    );
    let doc = top_page(&[("/listen/feed/2", "Ok", "/listen/stid/7", "XX", None, "  ", None)]);
    assert_eq!(
        scrape_top(&doc).unwrap_err(),
        ScrapeError::FailedIntParse(IntErrorKind::Empty, Landmark::FeedListeners)
    );
    let mut doc = top_page(&[("/listen/feed/2", "Ok", "/listen/stid/7", "XX", None, "3", None)]);
    doc.elements.pop();
    assert_eq!(scrape_top(&doc).unwrap_err(), ScrapeError::NoElement(Landmark::FeedListeners));
    let doc = Document {
        elements: vec![
            el(0, "table", &["btable"], None, ""),
            el(1, "tr", &[], None, ""),
            el(1, "tr", &[], None, ""),
            el(2, "td", &[], None, ""),
        ],
    };
    assert_eq!(scrape_top(&doc).unwrap_err(), ScrapeError::NoElement(Landmark::IdAndName));
}

fn state_rows(els: &mut Vec<Element>, depth: usize, rows: &[(&str, &str, Option<&str>, &str, Option<&str>)]) {
    els.push(el(depth + 1, "tr", &[], None, "header"));
    for (href, name, county, listeners, alert) in rows {
        els.push(el(depth + 1, "tr", &[], None, ""));
        if let Some(c) = county {
            els.push(el(depth + 2, "td", &[], None, c));
            els.push(el(depth + 3, "a", &[], Some("/listen/ctid/1"), c));
        }
        els.push(el(depth + 2, "td", &["w1p"], None, name));
        els.push(el(depth + 3, "a", &[], Some(href), name));
        if let Some(a) = alert {
            els.push(el(depth + 3, "font", &["fontRed"], None, a));
        }
        els.push(el(depth + 2, "td", &["c", "m"], None, listeners));
    }
}

#[test]
fn state_page_with_two_tables_reads_the_second() {
    let mut els = vec![el(0, "div", &[], None, "")];
    els.push(el(1, "table", &["btable"], None, ""));
    els.push(el(2, "tr", &[], None, "areawide"));
    els.push(el(2, "tr", &[], None, ""));
    els.push(el(3, "td", &[], None, "no feed here"));
    els.push(el(1, "table", &["btable"], None, ""));
    state_rows(&mut els, 1, &[
        ("/listen/feed/10", "Ten", Some("Lake"), "40", Some("Storm")),
        ("/listen/feed/11", "Eleven", None, "41", None),
    ]);
    let doc = Document { elements: els };
    let state = State::new(17, "IL".to_string());
    let feeds = scrape_state(&state, &doc).unwrap();
    assert_eq!(feeds.len(), 2);
    assert_eq!(feeds[0].id, 10);
    assert_eq!(feeds[0].name, "Ten");
    assert_eq!(feeds[0].county, "Lake");
    assert_eq!(feeds[0].alert.as_deref(), Some("Storm"));
    assert_eq!(feeds[0].listeners, 40);
    assert_eq!(feeds[0].state.id, 17);
    assert_eq!(feeds[0].state.abbrev, "IL");
    assert_eq!(feeds[1].id, 11);
    assert_eq!(feeds[1].county, "Eleven");
    assert_eq!(feeds[1].alert, None);
}

#[test]
fn state_page_with_one_table() {
    let mut els = vec![el(0, "table", &["btable"], None, "")];
    state_rows(&mut els, 0, &[("/listen/feed/3", "Three", None, "7", None)]);
    let doc = Document { elements: els };
    let feeds = scrape_state(&State::new(1, "AL".to_string()), &doc).unwrap();
    assert_eq!(feeds.len(), 1);
    assert_eq!(feeds[0].id, 3);
}

#[test]
fn state_page_without_table_fails() {
    let doc = Document { elements: vec![el(0, "div", &[], None, "")] };
    let r = scrape_state(&State::new(1, "AL".to_string()), &doc);
    assert_eq!(r.unwrap_err(), ScrapeError::NoElement(Landmark::FeedData));
}

#[test]
fn link_ids() {
    assert_eq!(parse_link_id("/listen/feed/42").as_deref(), Some("42"));
    assert_eq!(parse_link_id("/listen/feed/"), None);
    assert_eq!(parse_link_id("nolink"), None);
    assert_eq!(parse_link_id("a/b/c").as_deref(), Some("c"));
}

fn feed(id: u32, name: &str) -> Feed {
    Feed {
        id,
        name: name.to_string(),
        listeners: 1,
        state: State::new(1, "AA".to_string()),
        county: "C".to_string(),
        alert: None,
    }
}

#[test]
fn whitelist_and_blacklist_on_same_id_leave_nothing() {
    let mut config = Config::default();
    config.whitelist = vec![FeedIdent::ID(1)];
    config.blacklist = vec![FeedIdent::ID(1)];
    let mut feeds = vec![feed(1, "a"), feed(2, "b")];
    filter_whitelist_blacklist(&config, &mut feeds);
    assert!(feeds.is_empty());
}

#[test]
fn blacklist_removes_every_match() {
    let mut config = Config::default();
    config.blacklist = vec![FeedIdent::ID(1), FeedIdent::ID(3)];
    let mut feeds = vec![feed(1, "a"), feed(2, "b"), feed(3, "c"), feed(4, "d")];
    filter_whitelist_blacklist(&config, &mut feeds);
    let ids: Vec<u32> = feeds.iter().map(|f| f.id).collect();
    assert_eq!(ids, vec![2, 4]);
}

#[test]
fn whitelist_keeps_order_of_survivors() {
    let mut config = Config::default();
    config.whitelist = vec![FeedIdent::Name("c".to_string()), FeedIdent::ID(1)];
    let mut feeds = vec![feed(3, "c"), feed(2, "b"), feed(1, "a")];
    filter_whitelist_blacklist(&config, &mut feeds);
    let ids: Vec<u32> = feeds.iter().map(|f| f.id).collect();
    assert_eq!(ids, vec![3, 1]);
}

#[test]
fn dedup_leaves_one_record_per_id() {
    let mut feeds = vec![feed(5, "x"), feed(2, "b"), feed(5, "y"), feed(1, "a"), feed(2, "c")];
    sort_and_dedup(&mut feeds);
    let ids: Vec<u32> = feeds.iter().map(|f| f.id).collect();
    assert_eq!(ids, vec![1, 2, 5]);
}

#[test]
fn urls_of_sources() {
    assert_eq!(FeedSource::Top.get_url(), "http://www.broadcastify.com/listen/top");
    assert_eq!(
        FeedSource::State(State::new(7, "XX".to_string())).get_url(),
        "http://www.broadcastify.com/listen/stid/7"
    );
    assert_eq!(
        FeedSource::State(State::new(1230, "XX".to_string())).get_url(),
        "http://www.broadcastify.com/listen/stid/1230"
    );
}

#[test]
fn source_errors_are_tagged() {
    let empty = Document { elements: vec![] };
    assert_eq!(
        FeedSource::Top.scrape(&empty).unwrap_err(),
        FeedSourceError::FailedToParseTopFeeds(ScrapeError::NoneFound)
    );
    assert_eq!(
        FeedSource::State(State::new(2, "BB".to_string())).scrape(&empty).unwrap_err(),
        FeedSourceError::FailedToParseStateFeeds(ScrapeError::NoElement(Landmark::FeedData))
    );
}

#[test]
fn pages_are_merged_filtered_and_deduplicated() {
    let top = top_page(&[
        ("/listen/feed/9", "Nine", "/listen/stid/7", "XX", None, "1", None),
        ("/listen/feed/4", "Four", "/listen/stid/7", "XX", None, "2", None),
    ]);
    let mut els = vec![el(0, "table", &["btable"], None, "")];
    state_rows(&mut els, 0, &[
        ("/listen/feed/4", "Four again", None, "3", None),
        ("/listen/feed/6", "Six", None, "3", None),
    ]);
    let state_page = Document { elements: els };
    let mut config = Config::default();
    config.misc.state_feeds_id = Some(12);
    config.blacklist = vec![FeedIdent::Name("Six".to_string())];
    let feeds = Feed::from_pages(&config, &top, Some(&state_page)).unwrap();
    let ids: Vec<u32> = feeds.iter().map(|f| f.id).collect();
    assert_eq!(ids, vec![4, 9]);

    let bad = Document { elements: vec![] };
    assert_eq!(
        Feed::from_pages(&config, &top, Some(&bad)).unwrap_err(),
        FeedSourceError::FailedToParseStateFeeds(ScrapeError::NoElement(Landmark::FeedData))
    );
    config.misc.state_feeds_id = None;
    let feeds = Feed::from_pages(&config, &top, None).unwrap();
    assert_eq!(feeds.len(), 2);
    assert_eq!(feeds[0].state.abbrev, "XX");
}

#[test]
fn feeds_are_equal_by_id() {
    assert!(feed(3, "a") == feed(3, "b"));
    assert!(feed(3, "a") != feed(4, "a"));
}
