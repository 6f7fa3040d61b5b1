use memer::cache::{Fetch, PostCache};
use memer::config::subs_from_str;
use memer::data::{pick, Data, Delivery, CACHE_WINDOW_SECS};
use memer::db::{Channel, ChannelInfo, ChannelRegistry};
use memer::limiter::{Decision, Wait};
use memer::post::{QuickPost, Score, Submission};
use memer::store::MemoryStore;

fn submission(sub: &str, n: u32) -> Submission {
    Submission {
        title: format!("{} {}", sub, n),
        score: Score { bits: (n as f64).to_bits() },
        url: Some(format!("https://example.org/{}/{}.png", sub, n)),
        selftext: String::new(),
        over_18: false,
        permalink: format!("/r/{}/comments/{}", sub, n),
        subreddit: sub.to_string(),
    }
}

fn post(sub: &str, n: u32) -> QuickPost {
    QuickPost {
        title: format!("{} {}", sub, n),
        score: Score { bits: (n as f64).to_bits() },
        content: format!("https://example.org/{}/{}.png", sub, n),
        nsfw: false,
        permalink: format!("/r/{}/comments/{}", sub, n),
        sub: sub.to_string(),
    }
}

fn fresh(now: i64) -> Data {
    Data::new(
        1,
        "memer".to_string(),
        "memer#0001".to_string(),
        now,
        PostCache::with_capacity(0),
        ChannelRegistry::with_capacity(0),
    )
}

fn sources(names: &[&str]) -> Vec<String> {
    names.iter().map(|s| s.to_string()).collect()
}

#[test]
fn new_data_starts_the_windows_from_now() {
    let data = fresh(1_000);
    assert_eq!(data.bot_id, 1);
    assert_eq!(data.bot_name, "memer");
    assert_eq!(data.bot_tag, "memer#0001");
    assert_eq!(CACHE_WINDOW_SECS, 3_600);
    assert_eq!(data.cache_time, 4_600);
    assert_eq!(data.blacklist.reset_at(), 11_800);
    assert_eq!(data.posts.len(), 0);
    assert_eq!(data.channels.len(), 0);
    assert_eq!(data.last_post.last(1), None);
}

#[test]
fn start_reads_the_clock() {
    let data = Data::start(
        1,
        "memer".to_string(),
        "memer#0001".to_string(),
        PostCache::with_capacity(0),
        ChannelRegistry::with_capacity(0),
    );
    assert!(data.cache_time > 1_600_000_000 + 3_600);
    assert!(data.cache_time < (1 << 48) + 3_600);
    assert_eq!(data.blacklist.reset_at() - 10_800, data.cache_time - 3_600);
}

#[test]
fn add_posts_appends_to_the_cache() {
    let mut data = fresh(0);
    data.add_posts("aww".to_string(), vec![post("aww", 1)]);
    data.add_posts("aww".to_string(), vec![post("aww", 2)]);
    assert_eq!(data.posts.get(&"aww".to_string()), vec![post("aww", 1), post("aww", 2)]);
}

#[test]
fn add_blacklist_is_scoped_to_the_channel() {
    let mut data = fresh(0);
    data.add_blacklist(5, post("aww", 1));
    assert!(data.blacklist.contains(5, &post("aww", 1)));
    assert!(!data.blacklist.contains(6, &post("aww", 1)));
}

#[test]
fn update_blacklist_time_resets_an_expired_blacklist() {
    let mut data = fresh(0);
    data.add_blacklist(5, post("aww", 1));
    assert!(data.update_blacklist_time());
    assert_eq!(data.blacklist.reset_at(), 21_600);
    assert!(!data.blacklist.contains(5, &post("aww", 1)));
}

#[test]
fn update_blacklist_time_keeps_a_blacklist_within_its_epoch() {
    let mut data = fresh(i64::MAX - 30_000);
    data.add_blacklist(5, post("aww", 1));
    assert!(!data.update_blacklist_time());
    assert_eq!(data.blacklist.reset_at(), i64::MAX - 19_200);
    assert!(data.blacklist.contains(5, &post("aww", 1)));
}

#[test]
fn reset_blacklist_starts_an_epoch_from_the_clock() {
    let mut data = fresh(0);
    data.add_blacklist(5, post("aww", 1));
    data.reset_blacklist();
    assert!(data.blacklist.reset_at() > 1_600_000_000 + 10_800);
    assert!(data.blacklist.reset_at() < (1 << 48) + 10_800);
    assert!(data.blacklist.entries(5).is_empty());
}

#[test]
fn add_db_channel_writes_through_and_registers() {
    let mut data = fresh(0);
    let mut store = MemoryStore::new();
    data.add_db_channel(&mut store, 42, ChannelInfo { name: "first".to_string(), nsfw: false });
    data.add_db_channel(&mut store, 42, ChannelInfo { name: "second".to_string(), nsfw: true });
    let records: Vec<Channel> = store.find_all();
    assert_eq!(records.len(), 1);
    assert_eq!(records[0].channel_id, 42);
    assert_eq!(records[0].info, ChannelInfo { name: "second".to_string(), nsfw: true });
    assert!(records[0].time > 1_600_000_000);
    assert_eq!(data.channels.get(42), Some(ChannelInfo { name: "second".to_string(), nsfw: true }));
}

#[test]
fn check_command_admits_within_the_budget_and_then_answers() {
    let data = fresh(0);
    for _ in 0..10 {
        let check = data.check_command(3);
        assert!(check.proceed);
        assert_eq!(check.reply, None);
    }
    let check = data.check_command(3);
    assert!(!check.proceed);
    let reply = check.reply.unwrap();
    assert!(reply.starts_with("This channel is sending too many requests! Try again in "));
    assert!(reply.len() > "This channel is sending too many requests! Try again in ".len());
}

#[test]
fn pick_takes_the_first_item_that_passes() {
    let items = vec![post("aww", 1), post("aww", 2), post("aww", 3)];
    assert_eq!(pick(&items, &Vec::new(), &None), Some(0));
    assert_eq!(pick(&items, &vec![post("aww", 1)], &None), Some(1));
    assert_eq!(pick(&items, &vec![post("aww", 1)], &Some(post("aww", 2))), Some(2));
    assert_eq!(pick(&items, &vec![post("aww", 3), post("aww", 1)], &Some(post("aww", 2))), None);
    assert_eq!(pick(&Vec::new(), &Vec::new(), &None), None);
}

#[test]
fn a_refused_request_changes_nothing() {
    let mut data = fresh(0);
    data.add_posts("aww".to_string(), vec![post("aww", 1)]);
    let wait = Wait { secs: 2, nanos: 5 };
    let delivery =
        data.deliver_decided(Decision::Deny { retry_after: wait }, 7, &sources(&["aww"]), true);
    assert_eq!(delivery, Delivery::Limited { retry_after: wait });
    assert_eq!(data.last_post.last(7), None);
    assert!(data.blacklist.entries(7).is_empty());
}

#[test]
fn nothing_is_sent_from_an_empty_cache() {
    let mut data = fresh(0);
    assert_eq!(data.deliver_decided(Decision::Admit, 7, &sources(&["aww"]), true), Delivery::Nothing);
    assert_eq!(data.deliver_decided(Decision::Admit, 7, &Vec::new(), true), Delivery::Nothing);
    assert_eq!(data.last_post.last(7), None);
}

#[test]
fn sources_are_tried_in_order() {
    let mut data = fresh(0);
    data.add_posts("aww".to_string(), vec![post("aww", 1)]);
    data.add_posts("pics".to_string(), vec![post("pics", 1)]);
    let order = sources(&["missing", "pics", "aww"]);
    assert_eq!(
        data.deliver_decided(Decision::Admit, 7, &order, true),
        Delivery::Delivered(post("pics", 1))
    );
    assert_eq!(
        data.deliver_decided(Decision::Admit, 7, &order, true),
        Delivery::Delivered(post("aww", 1))
    );
    assert_eq!(data.deliver_decided(Decision::Admit, 7, &order, true), Delivery::Nothing);
}

#[test]
fn without_remembering_only_the_immediate_repeat_is_avoided() {
    let mut data = fresh(0);
    data.add_posts("aww".to_string(), vec![post("aww", 1), post("aww", 2)]);
    let aww = sources(&["aww"]);
    assert_eq!(
        data.deliver_decided(Decision::Admit, 7, &aww, false),
        Delivery::Delivered(post("aww", 1))
    );
    assert_eq!(
        data.deliver_decided(Decision::Admit, 7, &aww, false),
        Delivery::Delivered(post("aww", 2))
    );
    assert_eq!(
        data.deliver_decided(Decision::Admit, 7, &aww, false),
        Delivery::Delivered(post("aww", 1))
    );
    assert!(data.blacklist.entries(7).is_empty());
}

#[test]
fn channels_are_served_independently() {
    let mut data = fresh(0);
    data.add_posts("aww".to_string(), vec![post("aww", 1)]);
    let aww = sources(&["aww"]);
    assert_eq!(
        data.deliver_decided(Decision::Admit, 7, &aww, true),
        Delivery::Delivered(post("aww", 1))
    );
    assert_eq!(
        data.deliver_decided(Decision::Admit, 8, &aww, true),
        Delivery::Delivered(post("aww", 1))
    );
    assert_eq!(data.deliver_decided(Decision::Admit, 7, &aww, true), Delivery::Nothing);
}

#[test]
fn end_to_end_refresh_and_delivery_without_repeats() {
    let config = subs_from_str(r#"{"cats": ["aww"], "dogs": ["rarepuppers"]}"#).unwrap();
    let names = config.source_names();
    assert_eq!(names, vec!["aww", "rarepuppers"]);

    let mut data = fresh(1_000);
    let failed = data.posts.refresh(vec![
        Fetch { source: "aww".to_string(), outcome: Some(vec![submission("aww", 1), submission("aww", 2)]) },
        Fetch { source: "rarepuppers".to_string(), outcome: Some(vec![submission("rarepuppers", 1)]) },
    ]);
    assert!(failed.is_empty());
    assert_eq!(data.posts.len(), 2);
    assert!(data.posts.contains(&"aww".to_string()));
    assert!(data.posts.contains(&"rarepuppers".to_string()));

    let first = match data.deliver(7, &names, true) {
        Delivery::Delivered(post) => post,
        other => panic!("{:?}", other),
    };
    let cached: Vec<QuickPost> = vec![post("aww", 1), post("aww", 2), post("rarepuppers", 1)];
    assert!(cached.contains(&first));
    assert_eq!(data.last_post.last(7), Some(first.clone()));

    let mut seen = vec![first.permalink.clone()];
    for _ in 0..2 {
        match data.deliver(7, &names, true) {
            Delivery::Delivered(post) => {
                assert!(!seen.contains(&post.permalink));
                assert_eq!(data.last_post.last(7), Some(post.clone()));
                seen.push(post.permalink);
            }
            other => panic!("{:?}", other),
        }
    }
    assert_eq!(data.deliver(7, &names, true), Delivery::Nothing);

    assert!(data.blacklist.reset_if_expired(11_800));
    match data.deliver(7, &names, true) {
        Delivery::Delivered(post) => assert!(cached.contains(&post)),
        other => panic!("{:?}", other),
    }
}

#[test]
fn deliver_is_limited_once_the_budget_is_spent() {
    let mut data = fresh(0);
    data.add_posts("aww".to_string(), (1..=20).map(|n| post("aww", n)).collect());
    let aww = sources(&["aww"]);
    for n in 1..=10 {
        assert_eq!(data.deliver(7, &aww, true), Delivery::Delivered(post("aww", n)));
    }
    match data.deliver(7, &aww, true) {
        Delivery::Limited { retry_after } => {
            assert!(retry_after.secs < 6 || (retry_after.secs == 6 && retry_after.nanos == 0))
        }
        other => panic!("{:?}", other),
    }
    assert_eq!(data.last_post.last(7), Some(post("aww", 10)));
    assert_eq!(data.blacklist.entries(7).len(), 10);
}

#[test]
fn start_at_a_reading_starts_the_windows_from_it() {
    let data = Data::start_at(
        1,
        "memer".to_string(),
        "memer#0001".to_string(),
        100,
        PostCache::with_capacity(0),
        ChannelRegistry::with_capacity(0),
    )
    .unwrap();
    assert_eq!(data.bot_id, 1);
    assert_eq!(data.bot_name, "memer");
    assert_eq!(data.bot_tag, "memer#0001");
    assert_eq!(data.cache_time, 3_700);
    assert_eq!(data.blacklist.reset_at(), 10_900);
    assert_eq!(data.posts.len(), 0);
    assert_eq!(data.last_post.last(1), None);
}

#[test]
fn start_at_the_latest_reading_that_has_an_epoch() {
    let latest = i64::MAX - 10_800;
    let data = Data::start_at(
        1,
        String::new(),
        String::new(),
        latest,
        PostCache::with_capacity(0),
        ChannelRegistry::with_capacity(0),
    )
    .unwrap();
    assert_eq!(data.blacklist.reset_at(), i64::MAX);
    assert!(Data::start_at(
        1,
        String::new(),
        String::new(),
        latest + 1,
        PostCache::with_capacity(0),
        ChannelRegistry::with_capacity(0),
    )
    .is_none());
}

#[test]
fn start_keeps_the_cache_and_the_registry_it_is_given() {
    let mut posts = PostCache::with_capacity(1);
    posts.append("aww".to_string(), vec![post("aww", 1)]);
    let mut channels = ChannelRegistry::with_capacity(1);
    channels.insert(5, ChannelInfo { name: "general".to_string(), nsfw: false });
    let data =
        Data::start_at(9, "b".to_string(), "b#1".to_string(), 0, posts, channels).unwrap();
    assert_eq!(data.posts.get(&"aww".to_string()), vec![post("aww", 1)]);
    assert_eq!(
        data.channels.get(5),
        Some(ChannelInfo { name: "general".to_string(), nsfw: false })
    );
}

#[test]
fn reset_blacklist_at_a_reading_starts_an_epoch_from_it() {
    let mut data = fresh(0);
    data.add_blacklist(5, post("aww", 1));
    assert!(data.reset_blacklist_at(50));
    assert_eq!(data.blacklist.reset_at(), 10_850);
    assert!(data.blacklist.entries(5).is_empty());
}

#[test]
fn reset_blacklist_at_too_late_a_reading_changes_nothing() {
    let mut data = fresh(0);
    data.add_blacklist(5, post("aww", 1));
    assert!(!data.reset_blacklist_at(i64::MAX - 10_799));
    assert_eq!(data.blacklist.reset_at(), 10_800);
    assert!(data.blacklist.contains(5, &post("aww", 1)));
    assert!(data.reset_blacklist_at(i64::MAX - 10_800));
    assert_eq!(data.blacklist.reset_at(), i64::MAX);
}

#[test]
fn update_blacklist_time_at_a_reading_goes_by_the_boundary() {
    let mut data = fresh(0);
    data.add_blacklist(5, post("aww", 1));
    assert!(!data.update_blacklist_time_at(10_799));
    assert_eq!(data.blacklist.reset_at(), 10_800);
    assert!(data.blacklist.contains(5, &post("aww", 1)));
    assert!(data.update_blacklist_time_at(10_800));
    assert_eq!(data.blacklist.reset_at(), 21_600);
    assert!(data.blacklist.entries(5).is_empty());
    assert!(!data.update_blacklist_time_at(10_800));
}

#[test]
fn update_blacklist_time_at_never_ends_an_epoch_that_cannot_advance() {
    let mut data = fresh(i64::MAX - 10_800);
    data.add_blacklist(5, post("aww", 1));
    assert_eq!(data.blacklist.reset_at(), i64::MAX);
    assert!(!data.update_blacklist_time_at(i64::MAX));
    assert_eq!(data.blacklist.reset_at(), i64::MAX);
    assert!(data.blacklist.contains(5, &post("aww", 1)));
}

#[test]
fn a_capacity_beyond_the_largest_is_taken_as_the_largest() {
    let mut posts = PostCache::with_capacity(usize::MAX);
    assert_eq!(posts.len(), 0);
    posts.append("aww".to_string(), vec![post("aww", 1)]);
    assert_eq!(posts.len(), 1);
    let mut channels = ChannelRegistry::with_capacity(usize::MAX);
    assert_eq!(channels.len(), 0);
    channels.insert(5, ChannelInfo { name: "general".to_string(), nsfw: false });
    assert_eq!(channels.len(), 1);
}
