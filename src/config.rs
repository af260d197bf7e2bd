//! The configuration model and the alert-threshold resolver.
use vstd::prelude::*;

use crate::feed::{Feed, FeedView};
use crate::number::{clamp_up, fixed_text, parse_fixed, parse_u32, u32_text, Fixed, MAX_WHOLE};
use crate::yaml::{get_in, lookup, lookup_in, opt_val, Yaml};

verus! {

/// Thresholds that decide when a change in listeners is worth an alert.
#[derive(Debug, Clone, Copy, PartialEq, Eq, Structural)]
pub struct Spike {
    pub jump: Fixed,
    pub low_listener_increase: Fixed,
    pub high_listener_dec: Fixed,
    pub high_listener_dec_every: Fixed,
}

/// Smoothing parameters of the baseline listener count.
#[derive(Debug, Clone, Copy, PartialEq, Eq, Structural)]
pub struct UnskewedAverage {
    pub reset_pcnt: Fixed,
    pub adjust_pcnt: Fixed,
    pub spikes_required: u32,
    pub jump_required: Fixed,
}

/// An operator-written predicate that selects feeds.
#[derive(Debug)]
pub enum FeedIdent {
    Name(String),
    ID(u32),
    County(String),
    State(u32),
}

/// The value of a [`FeedIdent`] with its strings as character sequences.
pub enum FeedIdentView {
    Name(Seq<char>),
    ID(u32),
    County(Seq<char>),
    State(u32),
}

impl View for FeedIdent {
    type V = FeedIdentView;

    open spec fn view(&self) -> FeedIdentView {
        match self {
            FeedIdent::Name(s) => FeedIdentView::Name(s@),
            FeedIdent::ID(n) => FeedIdentView::ID(*n),
            FeedIdent::County(s) => FeedIdentView::County(s@),
            FeedIdent::State(n) => FeedIdentView::State(*n),
        }
    }
}

/// Whether `ident` selects `feed`.
pub open spec fn ident_matches(ident: FeedIdentView, feed: FeedView) -> bool {
    match ident {
        FeedIdentView::Name(s) => s == feed.name,
        FeedIdentView::ID(n) => n == feed.id,
        FeedIdentView::County(s) => s == feed.county,
        FeedIdentView::State(n) => n == feed.state_id,
    }
}

impl FeedIdent {
    /// Returns true if the ident matches the corresponding field of the feed.
    pub fn matches_feed(&self, feed: &Feed) -> (r: bool)
        ensures
            r == ident_matches(self@, feed@),
    {
        match self {
            FeedIdent::Name(name) => *name == feed.name,
            FeedIdent::ID(id) => *id == feed.id,
            FeedIdent::County(c) => *c == feed.county,
            FeedIdent::State(id) => *id == feed.state.id,
        }
    }
}

/// A day of the week.
#[derive(Debug, Clone, Copy, PartialEq, Eq, Structural)]
pub enum Weekday {
    Monday,
    Tuesday,
    Wednesday,
    Thursday,
    Friday,
    Saturday,
    Sunday,
}

/// Thresholds that apply on one day of the week.
#[derive(Debug, Clone, Copy, PartialEq, Eq, Structural)]
pub enum WeekdaySpike {
    Sunday(Spike),
    Monday(Spike),
    Tuesday(Spike),
    Wednesday(Spike),
    Thursday(Spike),
    Friday(Spike),
    Saturday(Spike),
}

impl WeekdaySpike {
    pub open spec fn spec_day(self) -> Weekday {
        match self {
            WeekdaySpike::Sunday(_) => Weekday::Sunday,
            WeekdaySpike::Monday(_) => Weekday::Monday,
            WeekdaySpike::Tuesday(_) => Weekday::Tuesday,
            WeekdaySpike::Wednesday(_) => Weekday::Wednesday,
            WeekdaySpike::Thursday(_) => Weekday::Thursday,
            WeekdaySpike::Friday(_) => Weekday::Friday,
            WeekdaySpike::Saturday(_) => Weekday::Saturday,
        }
    }

    pub open spec fn spec_spike(self) -> Spike {
        match self {
            WeekdaySpike::Sunday(s) => s,
            WeekdaySpike::Monday(s) => s,
            WeekdaySpike::Tuesday(s) => s,
            WeekdaySpike::Wednesday(s) => s,
            WeekdaySpike::Thursday(s) => s,
            WeekdaySpike::Friday(s) => s,
            WeekdaySpike::Saturday(s) => s,
        }
    }

    /// The day this entry applies on.
    pub fn day(&self) -> (r: Weekday)
        ensures
            r == self.spec_day(),
    {
        match self {
            WeekdaySpike::Sunday(_) => Weekday::Sunday,
            WeekdaySpike::Monday(_) => Weekday::Monday,
            WeekdaySpike::Tuesday(_) => Weekday::Tuesday,
            WeekdaySpike::Wednesday(_) => Weekday::Wednesday,
            WeekdaySpike::Thursday(_) => Weekday::Thursday,
            WeekdaySpike::Friday(_) => Weekday::Friday,
            WeekdaySpike::Saturday(_) => Weekday::Saturday,
        }
    }

    /// The thresholds of this entry.
    pub fn spike(&self) -> (r: &Spike)
        ensures
            *r == self.spec_spike(),
    {
        match self {
            WeekdaySpike::Sunday(s) => s,
            WeekdaySpike::Monday(s) => s,
            WeekdaySpike::Tuesday(s) => s,
            WeekdaySpike::Wednesday(s) => s,
            WeekdaySpike::Thursday(s) => s,
            WeekdaySpike::Friday(s) => s,
            WeekdaySpike::Saturday(s) => s,
        }
    }

    /// Returns the thresholds for `today`: those of the first entry of
    /// `weekday_spikes` for that day, if there is one.
    pub fn get_for_today(weekday_spikes: &[WeekdaySpike], today: Weekday) -> (r: Option<&Spike>)
        ensures
            r.is_some() == spike_for_day(weekday_spikes@, today, 0).is_some(),
            r.is_some() ==> spike_for_day(weekday_spikes@, today, 0) == Some(*r.unwrap()),
    {
        let mut i: usize = 0;
        while i < weekday_spikes.len()
            invariant
                i <= weekday_spikes@.len(),
                spike_for_day(weekday_spikes@, today, 0) == spike_for_day(weekday_spikes@, today, i as int),
            decreases weekday_spikes.len() - i,
        {
            if weekday_spikes[i].day() == today {
                return Some(weekday_spikes[i].spike());
            }
            i = i + 1;
        }
        None
    }
}

/// The thresholds of the first entry of `s` at or after `i` that is for `day`.
pub open spec fn spike_for_day(s: Seq<WeekdaySpike>, day: Weekday, i: int) -> Option<Spike>
    decreases s.len() - i,
{
    if i < 0 || i >= s.len() {
        None
    } else if s[i].spec_day() == day {
        Some(s[i].spec_spike())
    } else {
        spike_for_day(s, day, i + 1)
    }
}

/// Settings that apply to the feeds one ident selects.
#[derive(Debug)]
pub struct FeedSetting {
    pub ident: FeedIdent,
    pub spike: Spike,
    pub weekday_spikes: Vec<WeekdaySpike>,
}

/// The value of a [`FeedSetting`].
pub struct FeedSettingView {
    pub ident: FeedIdentView,
    pub spike: Spike,
    pub weekday_spikes: Seq<WeekdaySpike>,
}

impl View for FeedSetting {
    type V = FeedSettingView;

    open spec fn view(&self) -> FeedSettingView {
        FeedSettingView { ident: self.ident@, spike: self.spike, weekday_spikes: self.weekday_spikes@ }
    }
}

/// Settings that fit no other group.
#[derive(Debug, Clone, Copy, PartialEq, Eq, Structural)]
pub struct Misc {
    pub update_time: Fixed,
    pub minimum_listeners: u32,
    pub state_feeds_id: Option<u32>,
    pub max_feeds: u32,
}

/// What the displayed feeds are ordered by.
#[derive(Debug, Clone, Copy, PartialEq, Eq, Structural)]
pub enum SortType {
    Listeners,
    Jump,
}

/// The direction of the display order.
#[derive(Debug, Clone, Copy, PartialEq, Eq, Structural)]
pub enum SortOrder {
    Ascending,
    Descending,
}

/// How the displayed feeds are ordered.
#[derive(Debug, Clone, Copy, PartialEq, Eq, Structural)]
pub struct Sorting {
    pub sort_type: SortType,
    pub sort_order: SortOrder,
}

/// The whole configuration.
#[derive(Debug)]
pub struct Config {
    pub global_spike: Spike,
    pub unskewed_avg: UnskewedAverage,
    pub weekday_spikes: Vec<WeekdaySpike>,
    pub feed_settings: Vec<FeedSetting>,
    pub misc: Misc,
    pub sorting: Sorting,
    pub blacklist: Vec<FeedIdent>,
    pub whitelist: Vec<FeedIdent>,
}

/// The index of the first setting at or after `i` whose ident selects `feed`.
pub open spec fn setting_for_feed(s: Seq<FeedSetting>, feed: FeedView, i: int) -> Option<int>
    decreases s.len() - i,
{
    if i < 0 || i >= s.len() {
        None
    } else if ident_matches(s[i].ident@, feed) {
        Some(i)
    } else {
        setting_for_feed(s, feed, i + 1)
    }
}

/// The thresholds that apply to `feed` on `today` under `config`: those of
/// the first feed setting that selects the feed (its entry for the day, else
/// its own), and without one the global entry for the day, else the global
/// thresholds.
pub open spec fn feed_spike(config: Config, feed: FeedView, today: Weekday) -> Spike {
    match setting_for_feed(config.feed_settings@, feed, 0) {
        Some(i) => {
            let setting = config.feed_settings@[i];
            match spike_for_day(setting.weekday_spikes@, today, 0) {
                Some(s) => s,
                None => setting.spike,
            }
        },
        None => match spike_for_day(config.weekday_spikes@, today, 0) {
            Some(s) => s,
            None => config.global_spike,
        },
    }
}

impl Config {
    /// Gets the thresholds that apply to `feed` on `today`.
    pub fn get_feed_spike(&self, feed: &Feed, today: Weekday) -> (r: &Spike)
        ensures
            *r == feed_spike(*self, feed@, today),
    {
        let mut i: usize = 0;
        while i < self.feed_settings.len()
            invariant
                i <= self.feed_settings@.len(),
                setting_for_feed(self.feed_settings@, feed@, 0) == setting_for_feed(
                    self.feed_settings@,
                    feed@,
                    i as int,
                ),
            decreases self.feed_settings.len() - i,
        {
            let setting = &self.feed_settings[i];
            if setting.ident.matches_feed(feed) {
                return match WeekdaySpike::get_for_today(setting.weekday_spikes.as_slice(), today) {
                    Some(s) => s,
                    None => &setting.spike,
                };
            }
            i = i + 1;
        }
        match WeekdaySpike::get_for_today(self.weekday_spikes.as_slice(), today) {
            Some(s) => s,
            None => &self.global_spike,
        }
    }
}

/// Why a configuration could not be loaded.
#[derive(Debug)]
pub enum ConfigError {
    /// The configuration file could not be read.
    Io(String),
    /// The text is no valid document; the message says where.
    ParseFailure(String),
}

// ---- reading leaves ----

/// The fixed-point number a scalar holds: an integer, or a real as written.
pub open spec fn fixed_of(y: Yaml) -> Option<Fixed> {
    match y {
        Yaml::Integer(n) => if -(MAX_WHOLE as int) <= n <= MAX_WHOLE as int {
            Some(Fixed { micros: (n * 1_000_000) as i64 })
        } else {
            None
        },
        Yaml::Real(s) => fixed_text(s@),
        _ => None,
    }
}

/// The `u32` a scalar holds: an integer in the range of `u32`, or a real
/// that is written as a plain unsigned number.
pub open spec fn u32_of(y: Yaml) -> Option<u32> {
    match y {
        Yaml::Integer(n) => if 0 <= n <= u32::MAX {
            Some(n as u32)
        } else {
            None
        },
        Yaml::Real(s) => u32_text(s@),
        _ => None,
    }
}

/// The characters of a string scalar.
pub open spec fn text_of(y: Yaml) -> Option<Seq<char>> {
    match y {
        Yaml::Str(s) => Some(s@),
        _ => None,
    }
}

/// The number under `key`, or `default` where it is absent or unreadable.
pub open spec fn fixed_field(doc: Option<Yaml>, key: Seq<char>, default: Fixed) -> Fixed {
    match lookup_in(doc, key) {
        Some(v) => match fixed_of(v) {
            Some(x) => x,
            None => default,
        },
        None => default,
    }
}

/// The number under `key`, or `None` where it is absent or unreadable.
pub open spec fn u32_field(doc: Option<Yaml>, key: Seq<char>) -> Option<u32> {
    match lookup_in(doc, key) {
        Some(v) => u32_of(v),
        None => None,
    }
}

fn fixed_from(y: &Yaml) -> (r: Option<Fixed>)
    ensures
        r == fixed_of(*y),
{
    match y {
        Yaml::Integer(n) => if -(MAX_WHOLE as i64) <= *n && *n <= MAX_WHOLE as i64 {
            Some(Fixed { micros: *n * 1_000_000 })
        } else {
            None
        },
        Yaml::Real(s) => parse_fixed(s.as_str()),
        _ => None,
    }
}

fn u32_from(y: &Yaml) -> (r: Option<u32>)
    ensures
        r == u32_of(*y),
{
    match y {
        Yaml::Integer(n) => if 0 <= *n && *n <= 0xFFFF_FFFF {
            Some(*n as u32)
        } else {
            None
        },
        Yaml::Real(s) => parse_u32(s.as_str()),
        _ => None,
    }
}

fn fixed_or(doc: Option<&Yaml>, key: &str, default: Fixed) -> (r: Fixed)
    ensures
        r == fixed_field(opt_val(doc), key@, default),
{
    match get_in(doc, key) {
        Some(v) => match fixed_from(v) {
            Some(x) => x,
            None => default,
        },
        None => default,
    }
}

fn u32_opt(doc: Option<&Yaml>, key: &str) -> (r: Option<u32>)
    ensures
        r == u32_field(opt_val(doc), key@),
{
    match get_in(doc, key) {
        Some(v) => u32_from(v),
        None => None,
    }
}

// ---- groups ----

pub open spec fn spike_of(doc: Option<Yaml>) -> Spike {
    Spike {
        jump: clamp_up(fixed_field(doc, "Jump Required"@, Fixed { micros: 300_000 }), Fixed { micros: 0 }),
        low_listener_increase: clamp_up(
            fixed_field(doc, "Low Listener Increase"@, Fixed { micros: 5_000 }),
            Fixed { micros: 0 },
        ),
        high_listener_dec: clamp_up(
            fixed_field(doc, "High Listener Decrease"@, Fixed { micros: 20_000 }),
            Fixed { micros: 0 },
        ),
        high_listener_dec_every: clamp_up(
            fixed_field(doc, "High Listener Decrease Per Listeners"@, Fixed { micros: 100_000_000 }),
            Fixed { micros: 1_000_000 },
        ),
    }
}

pub open spec fn unskewed_of(doc: Option<Yaml>) -> UnskewedAverage {
    UnskewedAverage {
        reset_pcnt: clamp_up(
            fixed_field(doc, "Reset To Average Percentage"@, Fixed { micros: 150_000 }),
            Fixed { micros: 0 },
        ),
        adjust_pcnt: clamp_up(
            fixed_field(doc, "Adjust to Average Percentage"@, Fixed { micros: 7_500 }),
            Fixed { micros: 0 },
        ),
        spikes_required: match u32_field(doc, "Spikes Required"@) {
            Some(n) => n,
            None => 1,
        },
        jump_required: clamp_up(
            fixed_field(doc, "Jump Required To Set"@, Fixed { micros: 4_000_000 }),
            Fixed { micros: 1_100_000 },
        ),
    }
}

pub open spec fn misc_of(doc: Option<Yaml>) -> Misc {
    Misc {
        update_time: clamp_up(
            fixed_field(doc, "Update Time"@, Fixed { micros: 6_000_000 }),
            Fixed { micros: 5_000_000 },
        ),
        minimum_listeners: match u32_field(doc, "Minimum Listeners"@) {
            Some(n) => n,
            None => 15,
        },
        state_feeds_id: u32_field(doc, "State Feeds ID"@),
        max_feeds: match u32_field(doc, "Maximum Feeds To Display"@) {
            Some(n) => n,
            None => 10,
        },
    }
}

pub open spec fn sort_type_of(y: Yaml) -> Option<SortType> {
    match text_of(y) {
        Some(t) => if t == "Listeners"@ {
            Some(SortType::Listeners)
        } else if t == "Jump"@ {
            Some(SortType::Jump)
        } else {
            None
        },
        None => None,
    }
}

pub open spec fn sort_order_of(y: Yaml) -> Option<SortOrder> {
    match text_of(y) {
        Some(t) => if t == "Ascending"@ {
            Some(SortOrder::Ascending)
        } else if t == "Descending"@ {
            Some(SortOrder::Descending)
        } else {
            None
        },
        None => None,
    }
}

pub open spec fn sorting_of(doc: Option<Yaml>) -> Sorting {
    Sorting {
        sort_type: match lookup_in(doc, "Sort By"@) {
            Some(v) => match sort_type_of(v) {
                Some(t) => t,
                None => SortType::Listeners,
            },
            None => SortType::Listeners,
        },
        sort_order: match lookup_in(doc, "Sort Order"@) {
            Some(v) => match sort_order_of(v) {
                Some(o) => o,
                None => SortOrder::Descending,
            },
            None => SortOrder::Descending,
        },
    }
}

fn spike_from(doc: Option<&Yaml>) -> (r: Spike)
    ensures
        r == spike_of(opt_val(doc)),
{
    Spike {
        jump: fixed_or(doc, "Jump Required", Fixed { micros: 300_000 }).at_least(Fixed { micros: 0 }),
        low_listener_increase: fixed_or(doc, "Low Listener Increase", Fixed { micros: 5_000 }).at_least(
            Fixed { micros: 0 },
        ),
        high_listener_dec: fixed_or(doc, "High Listener Decrease", Fixed { micros: 20_000 }).at_least(
            Fixed { micros: 0 },
        ),
        high_listener_dec_every: fixed_or(
            doc,
            "High Listener Decrease Per Listeners",
            Fixed { micros: 100_000_000 },
        ).at_least(Fixed { micros: 1_000_000 }),
    }
}

fn unskewed_from(doc: Option<&Yaml>) -> (r: UnskewedAverage)
    ensures
        r == unskewed_of(opt_val(doc)),
{
    UnskewedAverage {
        reset_pcnt: fixed_or(doc, "Reset To Average Percentage", Fixed { micros: 150_000 }).at_least(
            Fixed { micros: 0 },
        ),
        adjust_pcnt: fixed_or(doc, "Adjust to Average Percentage", Fixed { micros: 7_500 }).at_least(
            Fixed { micros: 0 },
        ),
        spikes_required: match u32_opt(doc, "Spikes Required") {
            Some(n) => n,
            None => 1,
        },
        jump_required: fixed_or(doc, "Jump Required To Set", Fixed { micros: 4_000_000 }).at_least(
            Fixed { micros: 1_100_000 },
        ),
    }
}

fn misc_from(doc: Option<&Yaml>) -> (r: Misc)
    ensures
        r == misc_of(opt_val(doc)),
{
    Misc {
        update_time: fixed_or(doc, "Update Time", Fixed { micros: 6_000_000 }).at_least(
            Fixed { micros: 5_000_000 },
        ),
        minimum_listeners: match u32_opt(doc, "Minimum Listeners") {
            Some(n) => n,
            None => 15,
        },
        state_feeds_id: u32_opt(doc, "State Feeds ID"),
        max_feeds: match u32_opt(doc, "Maximum Feeds To Display") {
            Some(n) => n,
            None => 10,
        },
    }
}

fn text_is(y: &Yaml, word: &str) -> (r: bool)
    ensures
        r == (text_of(*y) == Some(word@)),
{
    match y {
        Yaml::Str(s) => crate::text::str_eq(s.as_str(), word),
        _ => false,
    }
}

fn sorting_from(doc: Option<&Yaml>) -> (r: Sorting)
    ensures
        r == sorting_of(opt_val(doc)),
{
    let sort_type = match get_in(doc, "Sort By") {
        Some(v) => if text_is(v, "Listeners") {
            SortType::Listeners
        } else if text_is(v, "Jump") {
            SortType::Jump
        } else {
            SortType::Listeners
        },
        None => SortType::Listeners,
    };
    let sort_order = match get_in(doc, "Sort Order") {
        Some(v) => if text_is(v, "Ascending") {
            SortOrder::Ascending
        } else if text_is(v, "Descending") {
            SortOrder::Descending
        } else {
            SortOrder::Descending
        },
        None => SortOrder::Descending,
    };
    Sorting { sort_type, sort_order }
}

// ---- variants ----

/// The characters of the string under `key`, where there is one.
pub open spec fn text_field(doc: Option<Yaml>, key: Seq<char>) -> Option<Seq<char>> {
    match lookup_in(doc, key) {
        Some(v) => text_of(v),
        None => None,
    }
}

/// The ident a mapping names: the first of its keys `Name`, `ID`, `County`
/// and `State ID` whose value can be read.
pub open spec fn ident_of(y: Yaml) -> Option<FeedIdentView> {
    let d = Some(y);
    if text_field(d, "Name"@) is Some {
        Some(FeedIdentView::Name(text_field(d, "Name"@).unwrap()))
    } else if u32_field(d, "ID"@) is Some {
        Some(FeedIdentView::ID(u32_field(d, "ID"@).unwrap()))
    } else if text_field(d, "County"@) is Some {
        Some(FeedIdentView::County(text_field(d, "County"@).unwrap()))
    } else if u32_field(d, "State ID"@) is Some {
        Some(FeedIdentView::State(u32_field(d, "State ID"@).unwrap()))
    } else {
        None
    }
}

/// The day entry a mapping names: the first of the keys `Sunday` to
/// `Saturday` that it has, with the thresholds under it.
pub open spec fn weekday_of(y: Yaml) -> Option<WeekdaySpike> {
    if lookup(y, "Sunday"@) is Some {
        Some(WeekdaySpike::Sunday(spike_of(lookup(y, "Sunday"@))))
    } else if lookup(y, "Monday"@) is Some {
        Some(WeekdaySpike::Monday(spike_of(lookup(y, "Monday"@))))
    } else if lookup(y, "Tuesday"@) is Some {
        Some(WeekdaySpike::Tuesday(spike_of(lookup(y, "Tuesday"@))))
    } else if lookup(y, "Wednesday"@) is Some {
        Some(WeekdaySpike::Wednesday(spike_of(lookup(y, "Wednesday"@))))
    } else if lookup(y, "Thursday"@) is Some {
        Some(WeekdaySpike::Thursday(spike_of(lookup(y, "Thursday"@))))
    } else if lookup(y, "Friday"@) is Some {
        Some(WeekdaySpike::Friday(spike_of(lookup(y, "Friday"@))))
    } else if lookup(y, "Saturday"@) is Some {
        Some(WeekdaySpike::Saturday(spike_of(lookup(y, "Saturday"@))))
    } else {
        None
    }
}

fn text_from(doc: Option<&Yaml>, key: &str) -> (r: Option<String>)
    ensures
        r.is_some() == text_field(opt_val(doc), key@).is_some(),
        r.is_some() ==> text_field(opt_val(doc), key@) == Some(r.unwrap()@),
{
    match get_in(doc, key) {
        Some(Yaml::Str(s)) => Some(s.clone()),
        _ => None,
    }
}

fn ident_from(y: &Yaml) -> (r: Option<FeedIdent>)
    ensures
        r.is_some() == ident_of(*y).is_some(),
        r.is_some() ==> ident_of(*y) == Some(r.unwrap()@),
{
    let d = Some(y);
    if let Some(s) = text_from(d, "Name") {
        return Some(FeedIdent::Name(s));
    }
    if let Some(n) = u32_opt(d, "ID") {
        return Some(FeedIdent::ID(n));
    }
    if let Some(s) = text_from(d, "County") {
        return Some(FeedIdent::County(s));
    }
    if let Some(n) = u32_opt(d, "State ID") {
        return Some(FeedIdent::State(n));
    }
    None
}

fn weekday_from(y: &Yaml) -> (r: Option<WeekdaySpike>)
    ensures
        r == weekday_of(*y),
{
    if let Some(v) = y.get("Sunday") {
        return Some(WeekdaySpike::Sunday(spike_from(Some(v))));
    }
    if let Some(v) = y.get("Monday") {
        return Some(WeekdaySpike::Monday(spike_from(Some(v))));
    }
    if let Some(v) = y.get("Tuesday") {
        return Some(WeekdaySpike::Tuesday(spike_from(Some(v))));
    }
    if let Some(v) = y.get("Wednesday") {
        return Some(WeekdaySpike::Wednesday(spike_from(Some(v))));
    }
    if let Some(v) = y.get("Thursday") {
        return Some(WeekdaySpike::Thursday(spike_from(Some(v))));
    }
    if let Some(v) = y.get("Friday") {
        return Some(WeekdaySpike::Friday(spike_from(Some(v))));
    }
    if let Some(v) = y.get("Saturday") {
        return Some(WeekdaySpike::Saturday(spike_from(Some(v))));
    }
    None
}

// ---- lists ----

/// The elements of a sequence value; none where it is absent or no sequence.
pub open spec fn items_of(doc: Option<Yaml>) -> Seq<Yaml> {
    match doc {
        Some(Yaml::Array(v)) => v@,
        _ => Seq::empty(),
    }
}

/// The day entries that can be read from `items`, in order.
pub open spec fn weekdays_all(items: Seq<Yaml>) -> Seq<WeekdaySpike>
    decreases items.len(),
{
    if items.len() == 0 {
        Seq::empty()
    } else {
        let rest = weekdays_all(items.drop_last());
        match weekday_of(items.last()) {
            Some(w) => rest.push(w),
            None => rest,
        }
    }
}

/// The idents that can be read from `items`, in order.
pub open spec fn idents_all(items: Seq<Yaml>) -> Seq<FeedIdentView>
    decreases items.len(),
{
    if items.len() == 0 {
        Seq::empty()
    } else {
        let rest = idents_all(items.drop_last());
        match ident_of(items.last()) {
            Some(i) => rest.push(i),
            None => rest,
        }
    }
}

/// The feed setting a mapping describes; none where it names no ident.
pub open spec fn setting_of(y: Yaml) -> Option<FeedSettingView> {
    match ident_of(y) {
        Some(ident) => Some(
            FeedSettingView {
                ident,
                spike: spike_of(lookup(y, "Spike Percentages"@)),
                weekday_spikes: weekdays_all(items_of(lookup(y, "Weekday Spike Percentages"@))),
            },
        ),
        None => None,
    }
}

/// The feed settings that can be read from `items`, in order; an entry that
/// names no ident is left out.
pub open spec fn settings_all(items: Seq<Yaml>) -> Seq<FeedSettingView>
    decreases items.len(),
{
    if items.len() == 0 {
        Seq::empty()
    } else {
        let rest = settings_all(items.drop_last());
        match setting_of(items.last()) {
            Some(st) => rest.push(st),
            None => rest,
        }
    }
}

pub open spec fn ident_views(s: Seq<FeedIdent>) -> Seq<FeedIdentView> {
    s.map_values(|i: FeedIdent| i@)
}

pub open spec fn setting_views(s: Seq<FeedSetting>) -> Seq<FeedSettingView> {
    s.map_values(|f: FeedSetting| f@)
}

fn items_in<'a>(doc: Option<&'a Yaml>) -> (r: &'a [Yaml])
    ensures
        r@ == items_of(opt_val(doc)),
{
    match doc {
        Some(Yaml::Array(v)) => v.as_slice(),
        _ => &[],
    }
}

fn weekdays_from(doc: Option<&Yaml>) -> (r: Vec<WeekdaySpike>)
    ensures
        r@ == weekdays_all(items_of(opt_val(doc))),
{
    let items = items_in(doc);
    let mut out: Vec<WeekdaySpike> = Vec::new();
    let mut i: usize = 0;
    while i < items.len()
        invariant
            i <= items@.len(),
            out@ == weekdays_all(items@.subrange(0, i as int)),
        decreases items.len() - i,
    {
        assert(items@.subrange(0, i + 1).drop_last() =~= items@.subrange(0, i as int));
        if let Some(w) = weekday_from(&items[i]) {
            out.push(w);
        }
        i = i + 1;
    }
    assert(items@.subrange(0, items@.len() as int) =~= items@);
    out
}

fn idents_from(doc: Option<&Yaml>) -> (r: Vec<FeedIdent>)
    ensures
        ident_views(r@) == idents_all(items_of(opt_val(doc))),
{
    let items = items_in(doc);
    let mut out: Vec<FeedIdent> = Vec::new();
    let mut i: usize = 0;
    while i < items.len()
        invariant
            i <= items@.len(),
            ident_views(out@) == idents_all(items@.subrange(0, i as int)),
        decreases items.len() - i,
    {
        assert(items@.subrange(0, i + 1).drop_last() =~= items@.subrange(0, i as int));
        if let Some(id) = ident_from(&items[i]) {
            let ghost before = out@;
            out.push(id);
            assert(ident_views(out@) =~= ident_views(before).push(out@.last()@));
        }
        i = i + 1;
    }
    assert(items@.subrange(0, items@.len() as int) =~= items@);
    out
}

fn setting_from(y: &Yaml) -> (r: Option<FeedSetting>)
    ensures
        r.is_some() == setting_of(*y).is_some(),
        r.is_some() ==> setting_of(*y) == Some(r.unwrap()@),
{
    match ident_from(y) {
        Some(ident) => Some(
            FeedSetting {
                ident,
                spike: spike_from(y.get("Spike Percentages")),
                weekday_spikes: weekdays_from(y.get("Weekday Spike Percentages")),
            },
        ),
        None => None,
    }
}

fn settings_from(doc: Option<&Yaml>) -> (r: Vec<FeedSetting>)
    ensures
        setting_views(r@) == settings_all(items_of(opt_val(doc))),
{
    let items = items_in(doc);
    let mut out: Vec<FeedSetting> = Vec::new();
    let mut i: usize = 0;
    assert(setting_views(out@) =~= Seq::<FeedSettingView>::empty());
    while i < items.len()
        invariant
            i <= items@.len(),
            setting_views(out@) == settings_all(items@.subrange(0, i as int)),
        decreases items.len() - i,
    {
        assert(items@.subrange(0, i + 1).drop_last() =~= items@.subrange(0, i as int));
        if let Some(st) = setting_from(&items[i]) {
            let ghost before = out@;
            out.push(st);
            assert(setting_views(out@) =~= setting_views(before).push(out@.last()@));
        }
        i = i + 1;
    }
    assert(items@.subrange(0, items@.len() as int) =~= items@);
    out
}

// ---- the whole configuration ----

/// The value of a [`Config`].
pub struct ConfigView {
    pub global_spike: Spike,
    pub unskewed_avg: UnskewedAverage,
    pub weekday_spikes: Seq<WeekdaySpike>,
    pub feed_settings: Seq<FeedSettingView>,
    pub misc: Misc,
    pub sorting: Sorting,
    pub blacklist: Seq<FeedIdentView>,
    pub whitelist: Seq<FeedIdentView>,
}

impl View for Config {
    type V = ConfigView;

    open spec fn view(&self) -> ConfigView {
        ConfigView {
            global_spike: self.global_spike,
            unskewed_avg: self.unskewed_avg,
            weekday_spikes: self.weekday_spikes@,
            feed_settings: setting_views(self.feed_settings@),
            misc: self.misc,
            sorting: self.sorting,
            blacklist: ident_views(self.blacklist@),
            whitelist: ident_views(self.whitelist@),
        }
    }
}

/// The configuration a document describes.
pub open spec fn config_of(doc: Option<Yaml>) -> ConfigView {
    ConfigView {
        global_spike: spike_of(lookup_in(doc, "Spike Percentage"@)),
        unskewed_avg: unskewed_of(lookup_in(doc, "Unskewed Average"@)),
        weekday_spikes: weekdays_all(items_of(lookup_in(doc, "Weekday Spike Percentages"@))),
        feed_settings: settings_all(items_of(lookup_in(doc, "Feed Settings"@))),
        misc: misc_of(lookup_in(doc, "Misc"@)),
        sorting: sorting_of(lookup_in(doc, "Feed Sorting"@)),
        blacklist: idents_all(items_of(lookup_in(doc, "Blacklist"@))),
        whitelist: idents_all(items_of(lookup_in(doc, "Whitelist"@))),
    }
}

/// The default thresholds.
pub open spec fn default_spike() -> Spike {
    Spike {
        jump: Fixed { micros: 300_000 },
        low_listener_increase: Fixed { micros: 5_000 },
        high_listener_dec: Fixed { micros: 20_000 },
        high_listener_dec_every: Fixed { micros: 100_000_000 },
    }
}

/// The configuration that applies where the document says nothing.
pub open spec fn default_view() -> ConfigView {
    ConfigView {
        global_spike: default_spike(),
        unskewed_avg: UnskewedAverage {
            reset_pcnt: Fixed { micros: 150_000 },
            adjust_pcnt: Fixed { micros: 7_500 },
            spikes_required: 1,
            jump_required: Fixed { micros: 4_000_000 },
        },
        weekday_spikes: Seq::empty(),
        feed_settings: Seq::empty(),
        misc: Misc {
            update_time: Fixed { micros: 6_000_000 },
            minimum_listeners: 15,
            state_feeds_id: None,
            max_feeds: 10,
        },
        sorting: Sorting { sort_type: SortType::Listeners, sort_order: SortOrder::Descending },
        blacklist: Seq::empty(),
        whitelist: Seq::empty(),
    }
}

impl Default for Config {
    fn default() -> (r: Config)
        ensures
            r@ == default_view(),
    {
        let r = Config {
            global_spike: spike_from(None),
            unskewed_avg: unskewed_from(None),
            weekday_spikes: Vec::new(),
            feed_settings: Vec::new(),
            misc: misc_from(None),
            sorting: sorting_from(None),
            blacklist: Vec::new(),
            whitelist: Vec::new(),
        };
        assert(setting_views(r.feed_settings@) =~= Seq::empty());
        assert(ident_views(r.blacklist@) =~= Seq::empty());
        assert(ident_views(r.whitelist@) =~= Seq::empty());
        r
    }
}

impl Config {
    /// Reads the configuration from a document.
    pub fn from_document(doc: &Yaml) -> (r: Config)
        ensures
            r@ == config_of(Some(*doc)),
    {
        Config {
            global_spike: spike_from(doc.get("Spike Percentage")),
            unskewed_avg: unskewed_from(doc.get("Unskewed Average")),
            weekday_spikes: weekdays_from(doc.get("Weekday Spike Percentages")),
            feed_settings: settings_from(doc.get("Feed Settings")),
            misc: misc_from(doc.get("Misc")),
            sorting: sorting_from(doc.get("Feed Sorting")),
            blacklist: idents_from(doc.get("Blacklist")),
            whitelist: idents_from(doc.get("Whitelist")),
        }
    }

    /// Reads the configuration from the first of the documents of a file;
    /// a file without any gives the defaults.
    pub fn from_documents(docs: &[Yaml]) -> (r: Config)
        ensures
            docs@.len() == 0 ==> r@ == default_view(),
            docs@.len() > 0 ==> r@ == config_of(Some(docs@[0])),
    {
        if docs.len() == 0 {
            Config::default()
        } else {
            Config::from_document(&docs[0])
        }
    }
}

// ---- laws ----

/// Whether the value under `key` in `doc` reads as the number `x`.
pub open spec fn reads_as(doc: Yaml, key: Seq<char>, x: Fixed) -> bool {
    match lookup(doc, key) {
        Some(v) => fixed_of(v) == Some(x),
        None => false,
    }
}

/// A field with a minimum that is given the value `x` holds `x` where `x` is
/// at least the minimum, and the minimum where `x` lies below it.
pub proof fn lemma_minimum_fields(doc: Yaml, x: Fixed)
    ensures
        reads_as(doc, "Jump Required"@, x) ==> spike_of(Some(doc)).jump == (
        if x.micros < 0 { Fixed { micros: 0 } } else { x }),
        reads_as(doc, "Low Listener Increase"@, x) ==> spike_of(Some(doc)).low_listener_increase == (
        if x.micros < 0 { Fixed { micros: 0 } } else { x }),
        reads_as(doc, "High Listener Decrease"@, x) ==> spike_of(Some(doc)).high_listener_dec == (
        if x.micros < 0 { Fixed { micros: 0 } } else { x }),
        reads_as(doc, "High Listener Decrease Per Listeners"@, x) ==> spike_of(
            Some(doc),
        ).high_listener_dec_every == (if x.micros < 1_000_000 { Fixed { micros: 1_000_000 } } else { x }),
        reads_as(doc, "Reset To Average Percentage"@, x) ==> unskewed_of(Some(doc)).reset_pcnt == (
        if x.micros < 0 { Fixed { micros: 0 } } else { x }),
        reads_as(doc, "Adjust to Average Percentage"@, x) ==> unskewed_of(Some(doc)).adjust_pcnt == (
        if x.micros < 0 { Fixed { micros: 0 } } else { x }),
        reads_as(doc, "Jump Required To Set"@, x) ==> unskewed_of(Some(doc)).jump_required == (
        if x.micros < 1_100_000 { Fixed { micros: 1_100_000 } } else { x }),
        reads_as(doc, "Update Time"@, x) ==> misc_of(Some(doc)).update_time == (
        if x.micros < 5_000_000 { Fixed { micros: 5_000_000 } } else { x }),
{
}

/// Every field with a minimum holds at least that minimum, whatever the
/// document says; so do the groups of a loaded configuration.
pub proof fn lemma_minimums_hold(doc: Option<Yaml>)
    ensures
        spike_of(doc).jump.micros >= 0,
        spike_of(doc).low_listener_increase.micros >= 0,
        spike_of(doc).high_listener_dec.micros >= 0,
        spike_of(doc).high_listener_dec_every.micros >= 1_000_000,
        unskewed_of(doc).reset_pcnt.micros >= 0,
        unskewed_of(doc).adjust_pcnt.micros >= 0,
        unskewed_of(doc).jump_required.micros >= 1_100_000,
        misc_of(doc).update_time.micros >= 5_000_000,
        config_of(doc).global_spike.jump.micros >= 0,
        config_of(doc).global_spike.low_listener_increase.micros >= 0,
        config_of(doc).global_spike.high_listener_dec.micros >= 0,
        config_of(doc).global_spike.high_listener_dec_every.micros >= 1_000_000,
        config_of(doc).unskewed_avg.reset_pcnt.micros >= 0,
        config_of(doc).unskewed_avg.adjust_pcnt.micros >= 0,
        config_of(doc).unskewed_avg.jump_required.micros >= 1_100_000,
        config_of(doc).misc.update_time.micros >= 5_000_000,
{
}

/// A document without entries, like an absent one, gives the default
/// configuration.
pub proof fn lemma_empty_document(doc: Yaml)
    requires
        !(doc is Hash) || doc->Hash_0@.len() == 0,
    ensures
        config_of(Some(doc)) == default_view(),
        config_of(None) == default_view(),
{
    assert(forall|k: Seq<char>| lookup(doc, k) is None);
    assert(items_of(None) =~= Seq::<Yaml>::empty());
    assert(settings_all(Seq::<Yaml>::empty()) =~= Seq::<FeedSettingView>::empty());
    assert(weekdays_all(Seq::<Yaml>::empty()) =~= Seq::<WeekdaySpike>::empty());
    assert(idents_all(Seq::<Yaml>::empty()) =~= Seq::<FeedIdentView>::empty());
}

proof fn lemma_setting_found(s: Seq<FeedSetting>, feed: FeedView, i: int, k: int)
    requires
        0 <= k <= i < s.len(),
        ident_matches(s[i].ident@, feed),
        forall|j: int| 0 <= j < i ==> !ident_matches(#[trigger] s[j].ident@, feed),
    ensures
        setting_for_feed(s, feed, k) == Some(i),
    decreases i - k,
{
    if k < i {
        lemma_setting_found(s, feed, i, k + 1);
    }
}

/// Where several feed settings select a feed, the first of them decides its
/// thresholds: its entry for the day, else its own thresholds.
pub proof fn lemma_first_setting_wins(config: Config, feed: FeedView, today: Weekday, i: int)
    requires
        0 <= i < config.feed_settings@.len(),
        ident_matches(config.feed_settings@[i].ident@, feed),
        forall|j: int| 0 <= j < i ==> !ident_matches(#[trigger] config.feed_settings@[j].ident@, feed),
    ensures
        feed_spike(config, feed, today) == match spike_for_day(config.feed_settings@[i].weekday_spikes@, today, 0) {
            Some(s) => s,
            None => config.feed_settings@[i].spike,
        },
{
    lemma_setting_found(config.feed_settings@, feed, i, 0);
}

/// Resolution depends on the configuration, the feed and the day alone: two
/// resolutions of the same three agree.
pub proof fn lemma_resolution_deterministic(config: Config, feed: &Feed, today: Weekday, a: Spike, b: Spike)
    requires
        a == feed_spike(config, feed@, today),
        b == feed_spike(config, feed@, today),
    ensures
        a == b,
{
}

} // verus!
