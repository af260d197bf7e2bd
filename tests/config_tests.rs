use feedwatch::config::{
    Config, FeedIdent, FeedSetting, Misc, SortOrder, SortType, Spike,
    Weekday, WeekdaySpike,
};
use feedwatch::feed::{Feed, State};
use feedwatch::number::Fixed;
use feedwatch::yaml::Yaml;

fn s(t: &str) -> Yaml {
    Yaml::Str(t.to_string())
}

fn map(entries: Vec<(&str, Yaml)>) -> Yaml {
    Yaml::Hash(entries.into_iter().map(|(k, v)| (s(k), v)).collect())
}

fn fx(micros: i64) -> Fixed {
    Fixed::from_micros(micros)
}

fn default_spike() -> Spike {
    Spike {
        jump: fx(300_000),
        low_listener_increase: fx(5_000),
        high_listener_dec: fx(20_000),
        high_listener_dec_every: fx(100_000_000),
    }
}

fn spike_with_jump(micros: i64) -> Spike {
    Spike { jump: fx(micros), ..default_spike() }
}

fn feed(id: u32, county: &str, state: u32) -> Feed {
    Feed {
        id,
        name: format!("Feed {}", id),
        listeners: 10,
        state: State::new(state, "ST".to_string()),
        county: county.to_string(),
        alert: None,
    }
}

fn assert_defaults(c: &Config) {
    assert_eq!(c.global_spike, default_spike());
    assert_eq!(c.unskewed_avg.reset_pcnt, fx(150_000));
    assert_eq!(c.unskewed_avg.adjust_pcnt, fx(7_500));
    assert_eq!(c.unskewed_avg.spikes_required, 1);
    assert_eq!(c.unskewed_avg.jump_required, fx(4_000_000));
    assert!(c.weekday_spikes.is_empty());
    assert!(c.feed_settings.is_empty());
    assert_eq!(
        c.misc,
        Misc { update_time: fx(6_000_000), minimum_listeners: 15, state_feeds_id: None, max_feeds: 10 }
    );
    assert_eq!(c.sorting.sort_type, SortType::Listeners);
    assert_eq!(c.sorting.sort_order, SortOrder::Descending);
    assert!(c.blacklist.is_empty());
    assert!(c.whitelist.is_empty());
}

#[test]
fn no_documents_give_defaults() {
    let c = Config::from_documents(&[]);
    assert_defaults(&c);
}

#[test]
fn empty_mapping_gives_defaults() {
    let c = Config::from_document(&Yaml::Hash(Vec::new()));
    assert_defaults(&c);
    let c = Config::from_document(&Yaml::Null);
    assert_defaults(&c);
}

#[test]
fn default_impl_matches_empty_load() {
    assert_defaults(&Config::default());
}

#[test]
fn values_below_minimum_are_raised() {
    let doc = map(vec![
        (
            "Spike Percentage",
            map(vec![
                ("Low Listener Increase", Yaml::Real("-0.5".to_string())),
                ("High Listener Decrease", Yaml::Integer(-3)),
                ("High Listener Decrease Per Listeners", Yaml::Real("0.25".to_string())),
            ]),
        ),
        (
            "Unskewed Average",
            map(vec![
                ("Reset To Average Percentage", Yaml::Real("-0.1".to_string())),
                ("Jump Required To Set", Yaml::Real("1.0".to_string())),
            ]),
        ),
        ("Misc", map(vec![("Update Time", Yaml::Integer(2))])),
    ]);
    let c = Config::from_document(&doc);
    assert_eq!(c.global_spike.low_listener_increase, fx(0));
    assert_eq!(c.global_spike.high_listener_dec, fx(0));
    assert_eq!(c.global_spike.high_listener_dec_every, fx(1_000_000));
    assert_eq!(c.unskewed_avg.reset_pcnt, fx(0));
    assert_eq!(c.unskewed_avg.jump_required, fx(1_100_000));
    assert_eq!(c.misc.update_time, fx(5_000_000));
}

#[test]
fn values_at_or_above_minimum_are_kept() {
    let doc = map(vec![
        (
            "Spike Percentage",
            map(vec![
                ("Jump Required", Yaml::Real("0.45".to_string())),
                ("Low Listener Increase", Yaml::Real("0.0".to_string())),
                ("High Listener Decrease Per Listeners", Yaml::Integer(250)),
            ]),
        ),
        (
            "Unskewed Average",
            map(vec![
                ("Jump Required To Set", Yaml::Real("1.1".to_string())),
                ("Spikes Required", Yaml::Integer(3)),
            ]),
        ),
        ("Misc", map(vec![("Update Time", Yaml::Real("7.5".to_string()))])),
    ]);
    let c = Config::from_document(&doc);
    assert_eq!(c.global_spike.jump, fx(450_000));
    assert_eq!(c.global_spike.low_listener_increase, fx(0));
    assert_eq!(c.global_spike.high_listener_dec_every, fx(250_000_000));
    assert_eq!(c.unskewed_avg.jump_required, fx(1_100_000));
    assert_eq!(c.unskewed_avg.spikes_required, 3);
    assert_eq!(c.misc.update_time, fx(7_500_000));
}

#[test]
fn unreadable_values_fall_back_to_defaults() {
    let doc = map(vec![
        ("Spike Percentage", map(vec![("Jump Required", s("high"))])),
        (
            "Misc",
            map(vec![
                ("Minimum Listeners", Yaml::Boolean(true)),
                ("State Feeds ID", Yaml::Integer(12)),
                ("Maximum Feeds To Display", Yaml::Real("2.5".to_string())),
            ]),
        ),
        ("Feed Sorting", map(vec![("Sort By", s("Jump")), ("Sort Order", s("Sideways"))])),
    ]);
    let c = Config::from_document(&doc);
    assert_eq!(c.global_spike.jump, fx(300_000));
    assert_eq!(c.misc.minimum_listeners, 15);
    assert_eq!(c.misc.state_feeds_id, Some(12));
    assert_eq!(c.misc.max_feeds, 10);
    assert_eq!(c.sorting.sort_type, SortType::Jump);
    assert_eq!(c.sorting.sort_order, SortOrder::Descending);
}

#[test]
fn lists_drop_entries_that_cannot_be_read() {
    let doc = map(vec![
        (
            "Blacklist",
            Yaml::Array(vec![
                map(vec![("ID", Yaml::Integer(5))]),
                s("nonsense"),
                map(vec![("Name", Yaml::Integer(4)), ("County", s("Cook"))]),
                map(vec![("State ID", Yaml::Integer(17))]),
            ]),
        ),
        (
            "Weekday Spike Percentages",
            Yaml::Array(vec![
                map(vec![("Monday", map(vec![("Jump Required", Yaml::Real("0.9".to_string()))]))]),
                map(vec![("Someday", Yaml::Null)]),
                map(vec![("Friday", Yaml::Null)]),
            ]),
        ),
    ]);
    let c = Config::from_document(&doc);
    assert_eq!(c.blacklist.len(), 3);
    assert!(matches!(c.blacklist[0], FeedIdent::ID(5)));
    assert!(matches!(&c.blacklist[1], FeedIdent::County(x) if x == "Cook"));
    assert!(matches!(c.blacklist[2], FeedIdent::State(17)));
    assert_eq!(
        c.weekday_spikes,
        vec![WeekdaySpike::Monday(spike_with_jump(900_000)), WeekdaySpike::Friday(default_spike())]
    );
}

#[test]
fn ident_keys_are_probed_in_order() {
    let doc = map(vec![(
        "Whitelist",
        Yaml::Array(vec![map(vec![("County", s("Lake")), ("Name", s("Fire")), ("ID", Yaml::Integer(9))])]),
    )]);
    let c = Config::from_document(&doc);
    assert!(matches!(&c.whitelist[0], FeedIdent::Name(x) if x == "Fire"));
}

#[test]
fn feed_setting_without_ident_is_dropped() {
    let doc = map(vec![(
        "Feed Settings",
        Yaml::Array(vec![
            map(vec![("Spike Percentages", map(vec![]))]),
            map(vec![("County", s("Lake"))]),
        ]),
    )]);
    let c = Config::from_document(&doc);
    assert_eq!(c.feed_settings.len(), 1);
    assert!(matches!(&c.feed_settings[0].ident, FeedIdent::County(x) if x == "Lake"));
}

#[test]
fn jump_below_zero_is_raised() {
    let doc = map(vec![("Spike Percentage", map(vec![("Jump Required", Yaml::Real("-1.0".to_string()))]))]);
    assert_eq!(Config::from_document(&doc).global_spike.jump, fx(0));
}

#[test]
fn out_of_range_integers_are_unreadable() {
    let doc = map(vec![(
        "Misc",
        map(vec![
            ("Minimum Listeners", Yaml::Integer(-1)),
            ("Maximum Feeds To Display", Yaml::Integer(1 << 40)),
            ("State Feeds ID", Yaml::Integer(4294967295)),
        ]),
    )]);
    let c = Config::from_document(&doc);
    assert_eq!(c.misc.minimum_listeners, 15);
    assert_eq!(c.misc.max_feeds, 10);
    assert_eq!(c.misc.state_feeds_id, Some(4294967295));
}

#[test]
fn feed_settings_are_read() {
    let doc = map(vec![(
        "Feed Settings",
        Yaml::Array(vec![map(vec![
            ("ID", Yaml::Integer(5)),
            ("Spike Percentages", map(vec![("Jump Required", Yaml::Integer(2))])),
            (
                "Weekday Spike Percentages",
                Yaml::Array(vec![map(vec![("Sunday", map(vec![]))])]),
            ),
        ])]),
    )]);
    let c = Config::from_document(&doc);
    assert_eq!(c.feed_settings.len(), 1);
    let st = &c.feed_settings[0];
    assert!(matches!(st.ident, FeedIdent::ID(5)));
    assert_eq!(st.spike, spike_with_jump(2_000_000));
    assert_eq!(st.weekday_spikes, vec![WeekdaySpike::Sunday(default_spike())]);
}

fn config_with(settings: Vec<FeedSetting>, weekday_spikes: Vec<WeekdaySpike>) -> Config {
    let mut c = Config::default();
    c.feed_settings = settings;
    c.weekday_spikes = weekday_spikes;
    c
}

#[test]
fn first_matching_setting_wins() {
    let a = spike_with_jump(111_000);
    let b = spike_with_jump(222_000);
    let c = config_with(
        vec![
            FeedSetting { ident: FeedIdent::County("X".to_string()), spike: a, weekday_spikes: vec![] },
            FeedSetting { ident: FeedIdent::ID(5), spike: b, weekday_spikes: vec![] },
        ],
        vec![],
    );
    let f = feed(5, "X", 1);
    assert_eq!(*c.get_feed_spike(&f, Weekday::Monday), a);
    assert_eq!(*c.get_feed_spike(&f, Weekday::Monday), *c.get_feed_spike(&f, Weekday::Monday));
    let g = feed(5, "Y", 1);
    assert_eq!(*c.get_feed_spike(&g, Weekday::Monday), b);
}

#[test]
fn setting_day_entry_overrides_setting_spike() {
    let a = spike_with_jump(111_000);
    let day = spike_with_jump(333_000);
    let later = spike_with_jump(444_000);
    let c = config_with(
        vec![FeedSetting {
            ident: FeedIdent::State(3),
            spike: a,
            weekday_spikes: vec![
                WeekdaySpike::Tuesday(day),
                WeekdaySpike::Tuesday(later),
            ],
        }],
        vec![],
    );
    let f = feed(1, "Z", 3);
    assert_eq!(*c.get_feed_spike(&f, Weekday::Tuesday), day);
    assert_eq!(*c.get_feed_spike(&f, Weekday::Wednesday), a);
}

#[test]
fn global_day_entry_then_global_spike() {
    let day = spike_with_jump(555_000);
    let c = config_with(
        vec![FeedSetting { ident: FeedIdent::Name("Other".to_string()), spike: day, weekday_spikes: vec![] }],
        vec![WeekdaySpike::Saturday(day)],
    );
    let f = feed(1, "Z", 3);
    assert_eq!(*c.get_feed_spike(&f, Weekday::Saturday), day);
    assert_eq!(*c.get_feed_spike(&f, Weekday::Sunday), default_spike());
}

#[test]
fn get_for_today_takes_first_entry() {
    let a = spike_with_jump(1);
    let b = spike_with_jump(2);
    let list = [WeekdaySpike::Monday(a), WeekdaySpike::Friday(b), WeekdaySpike::Friday(a)];
    assert_eq!(WeekdaySpike::get_for_today(&list, Weekday::Friday), Some(&b));
    assert_eq!(WeekdaySpike::get_for_today(&list, Weekday::Sunday), None);
}

#[test]
fn idents_match_their_field() {
    let f = feed(8, "Cook", 14);
    assert!(FeedIdent::Name("Feed 8".to_string()).matches_feed(&f));
    assert!(!FeedIdent::Name("feed 8".to_string()).matches_feed(&f));
    assert!(FeedIdent::ID(8).matches_feed(&f));
    assert!(FeedIdent::County("Cook".to_string()).matches_feed(&f));
    assert!(FeedIdent::State(14).matches_feed(&f));
    assert!(!FeedIdent::State(8).matches_feed(&f));
}
