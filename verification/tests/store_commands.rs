use pepperbot::category::match_category;
use pepperbot::commands::{answer, broadcast_text, is_admin, Command};
use pepperbot::message::MessageError;
use pepperbot::queue::{AckHandle, ListEntry, MessageQueue, RedisList, RedisStreamClient};
use pepperbot::store::{
    create_generic_config, delete_subscriber, get_config, get_subscriber_amount,
    get_subscribers, increase_config_value, new_connection, parse_filter, select, set_config,
    set_subscriber, Config, Database, RedisError,
};

fn entry(id: &str) -> ListEntry {
    ListEntry {
        message_id: id.to_string(),
        link: format!("https://x/{id}"),
        title: "t".to_string(),
        category: "c".to_string(),
    }
}

#[test]
fn config_defaults_keep_existing_values() {
    let mut con = new_connection(0);
    set_config(&mut con, Config::MessagesSentKey, "9".to_string()).unwrap();
    create_generic_config(&mut con).unwrap();
    assert_eq!(
        get_config(&mut con, Config::OperationalKey, Database::CONFIG),
        Some("1".to_string())
    );
    assert_eq!(
        get_config(&mut con, Config::MessagesSentKey, Database::CONFIG),
        Some("9".to_string())
    );
    assert_eq!(
        get_config(&mut con, Config::DealsSentKey, Database::CONFIG),
        Some("0".to_string())
    );
}

#[test]
fn increase_starts_missing_counters_and_swallows_junk() {
    let mut con = new_connection(0);
    increase_config_value(&mut con, Config::DealsSentKey, Database::MESSAGE, 3).unwrap();
    assert_eq!(con.active, Database::MESSAGE);
    assert_eq!(
        get_config(&mut con, Config::DealsSentKey, Database::CONFIG),
        Some("3".to_string())
    );
    increase_config_value(&mut con, Config::DealsSentKey, Database::CONFIG, 4).unwrap();
    assert_eq!(
        get_config(&mut con, Config::DealsSentKey, Database::CONFIG),
        Some("7".to_string())
    );
    set_config(&mut con, Config::DealsSentKey, "not a number".to_string()).unwrap();
    increase_config_value(&mut con, Config::DealsSentKey, Database::CONFIG, 1).unwrap();
    assert_eq!(
        get_config(&mut con, Config::DealsSentKey, Database::CONFIG),
        Some("not a number".to_string())
    );
}

#[test]
fn config_keys_have_their_fixed_names() {
    assert_eq!(Config::OperationalKey.value(), "is_operational");
    assert_eq!(Config::MessagesSentKey.value(), "messages_sent_count");
    assert_eq!(Config::DealsSentKey.value(), "deals_sent_count");
    assert_eq!(Database::SUBSCRIBER.index(), 0);
    assert_eq!(Database::MESSAGE.index(), 1);
    assert_eq!(Database::CONFIG.index(), 2);
}

#[test]
fn error_descriptions() {
    assert_eq!(RedisError::RedisUrlMissing.message(), "Redis url not set in ENV");
    assert_eq!(RedisError::NoSubscribers.message(), "No subscribers found");
    assert_eq!(RedisError::RedisError.message(), "redis operation failed");
    assert_eq!(MessageError::ParseError.message(), "message could not be rendered");
    assert_eq!(MessageError::RedisError.message(), "redis operation failed");
}

#[test]
fn subscriber_directory_updates_and_parses_filters() {
    let mut con = new_connection(0);
    set_subscriber(&mut con, "1", "gaming,elektronica");
    set_subscriber(&mut con, "2", "1");
    assert_eq!(get_subscriber_amount(&mut con), 2);
    set_subscriber(&mut con, "1", "gaming");
    assert_eq!(get_subscriber_amount(&mut con), 2);
    let subs = get_subscribers(&mut con).unwrap();
    assert_eq!(subs.len(), 2);
    assert_eq!(subs[0].chat_id, "1");
    assert_eq!(subs[0].categories, Some(vec!["gaming".to_string()]));
    assert_eq!(subs[1].chat_id, "2");
    assert_eq!(subs[1].categories, None);
    delete_subscriber(&mut con, "1");
    assert_eq!(get_subscriber_amount(&mut con), 1);
}

#[test]
fn filter_parsing_recognises_the_sentinel() {
    assert_eq!(parse_filter("1"), None);
    assert_eq!(parse_filter("gaming,1"), None);
    assert_eq!(
        parse_filter("gaming,mode & accessoires"),
        Some(vec!["gaming".to_string(), "mode & accessoires".to_string()])
    );
    assert_eq!(parse_filter(""), Some(vec!["".to_string()]));
}

#[test]
fn fuzzy_category_matching() {
    assert_eq!(match_category("Gaming"), Some("gaming".to_string()));
    assert_eq!(match_category("gamin"), Some("gaming".to_string()));
    assert_eq!(match_category("elektronica"), Some("elektronica".to_string()));
    assert_eq!(match_category(""), None);
    assert_eq!(match_category("zzzqqqxxx"), None);
}

#[test]
fn admin_commands_gate_on_identity() {
    let mut con = new_connection(0);
    assert!(is_admin(Some("11"), "11"));
    assert!(!is_admin(Some("11"), "22"));
    assert!(!is_admin(None, "11"));
    let replies = answer(&mut con, Command::AdminStopBot, "22", Some("11"), None);
    assert!(replies.is_empty());
    assert!(get_config(&mut con, Config::OperationalKey, Database::CONFIG).is_none());
    let replies = answer(&mut con, Command::AdminStopBot, "11", Some("11"), None);
    assert_eq!(replies.len(), 1);
    assert_eq!(replies[0].text, "Stopped bot");
    assert_eq!(
        get_config(&mut con, Config::OperationalKey, Database::CONFIG),
        Some("0".to_string())
    );
    let replies = answer(&mut con, Command::AdminStartBot, "11", Some("11"), None);
    assert_eq!(replies[0].text, "Started bot");
    assert_eq!(
        get_config(&mut con, Config::OperationalKey, Database::CONFIG),
        Some("1".to_string())
    );
}

#[test]
fn broadcast_reaches_every_subscriber_unfiltered() {
    let mut con = new_connection(0);
    set_subscriber(&mut con, "1", "gaming");
    set_subscriber(&mut con, "2", "1");
    let replies = answer(
        &mut con,
        Command::AdminBroadcast,
        "11",
        Some("11"),
        Some("/admin_broadcast  big news "),
    );
    assert_eq!(replies.len(), 2);
    assert_eq!(replies[0].chat_id, "1");
    assert_eq!(replies[1].chat_id, "2");
    assert_eq!(replies[0].text, "big news");
    assert_eq!(broadcast_text("/admin_broadcast hello"), "hello");
}

#[test]
fn start_stop_and_categories_commands() {
    let mut con = new_connection(0);
    let replies = answer(&mut con, Command::Start, "5", None, None);
    assert_eq!(
        replies[0].text,
        "Signup was successful. You will now receive new updates from Pepper"
    );
    let subs = get_subscribers(&mut con).unwrap();
    assert_eq!(subs.len(), 1);
    assert_eq!(subs[0].categories, None);
    let replies = answer(
        &mut con,
        Command::Categories,
        "5",
        None,
        Some("/categories gaming, elektronica, nonsensezz"),
    );
    assert_eq!(replies[0].text, "Signed up for gaming, elektronica");
    let subs = get_subscribers(&mut con).unwrap();
    assert_eq!(
        subs[0].categories,
        Some(vec!["gaming".to_string(), "elektronica".to_string()])
    );
    let replies = answer(&mut con, Command::Categories, "5", None, Some("/categories"));
    assert_eq!(replies[0].text, "No categories passed, disabled your category filters");
    let subs = get_subscribers(&mut con).unwrap();
    assert_eq!(subs[0].categories, None);
    let replies = answer(&mut con, Command::Stop, "5", None, None);
    assert_eq!(
        replies[0].text,
        "Subscription was stopped successfully. You will now receive new updates from Pepper"
    );
    assert_eq!(get_subscriber_amount(&mut con), 0);
}

#[test]
fn help_hides_admin_lines_from_others() {
    let mut con = new_connection(0);
    let replies = answer(&mut con, Command::Help, "5", Some("11"), None);
    assert_eq!(replies.len(), 1);
    assert!(!replies[0].text.contains("Admin"));
    let replies = answer(&mut con, Command::Help, "11", Some("11"), None);
    assert!(replies[0].text.contains("Admin - Stop bot from sending messages"));
    let replies = answer(&mut con, Command::Help, "5", None, None);
    assert!(replies.is_empty());
}

#[test]
fn available_categories_lists_them_all() {
    let mut con = new_connection(0);
    let replies = answer(&mut con, Command::AvailableCategories, "5", None, None);
    assert!(replies[0]
        .text
        .starts_with("The following categories are available for signups: \n\n"));
    assert!(replies[0].text.contains("Elektronica\nGaming\nBoodschappen"));
    assert!(replies[0].text.ends_with("Services & Contracten"));
}

#[test]
fn list_backend_is_first_in_first_out() {
    let mut list = RedisList { con: new_connection(0) };
    list.create_generic_config().unwrap();
    select(&mut list.con, Database::MESSAGE);
    let wire = list.add(entry("1")).unwrap();
    assert_eq!(
        wire,
        "{\"message_id\":\"1\",\"link\":\"https://x/1\",\"title\":\"t\",\"category\":\"c\"}"
    );
    list.add(entry("2")).unwrap();
    assert_eq!(list.read().unwrap().message_id, "1");
    assert_eq!(list.read().unwrap().message_id, "2");
    assert!(list.read().is_none());
    let name_a = list.consumer_name();
    let name_b = list.consumer_name();
    assert_eq!(name_a.len(), 36);
    assert_eq!(name_b.len(), 36);
    assert_ne!(name_a, name_b);
    assert!(list.get_connection().is_ok());
}

#[test]
fn stream_backend_claims_acks_and_redelivers() {
    let mut stream = RedisStreamClient { con: new_connection(0) };
    stream.create_generic_config().unwrap();
    stream.ensure_ready().unwrap();
    stream.ensure_ready().unwrap();
    let id1 = stream.add(entry("1")).unwrap();
    let id2 = stream.add(entry("2")).unwrap();
    assert!(id1 < id2);
    let (got1, fields1) = stream.read("consumer-a").unwrap();
    assert_eq!(got1, id1);
    assert_eq!(fields1.message_id, "1");
    // The first entry is claimed, so another consumer gets the second.
    let (got2, fields2) = stream.read("consumer-b").unwrap();
    assert_eq!(got2, id2);
    assert_eq!(fields2.message_id, "2");
    assert!(stream.read("consumer-c").is_none());
    // An unacknowledged claim can be reclaimed and handed out again; an
    // acknowledged entry never comes back.
    stream.ack(id2).unwrap();
    stream.reclaim(id1).unwrap();
    stream.reclaim(id2).unwrap();
    let (again, _) = stream.read("consumer-c").unwrap();
    assert_eq!(again, id1);
    stream.ack(id1).unwrap();
    assert!(stream.read("consumer-d").is_none());
}

#[test]
fn stream_backend_trims_oldest_at_the_cap() {
    let mut stream = RedisStreamClient { con: new_connection(0) };
    stream.ensure_ready().unwrap();
    for i in 0..101u32 {
        stream.add(entry(&format!("{i}"))).unwrap();
    }
    assert_eq!(stream.con.stream.entries.len(), 100);
    // The oldest entry was trimmed even though it was never acknowledged.
    let (first, fields) = stream.read("c").unwrap();
    assert_eq!(first, 1);
    assert_eq!(fields.message_id, "1");
}

#[test]
fn unified_queue_contract_over_both_backends() {
    let mut con = new_connection(0);
    select(&mut con, Database::MESSAGE);
    let mut q = MessageQueue::List(RedisList { con });
    q.ensure_ready().unwrap();
    q.push(entry("1")).unwrap();
    let (e, h) = q.pop("me").unwrap();
    assert_eq!(e.message_id, "1");
    assert!(matches!(h, AckHandle::Unneeded));
    q.ack(h).unwrap();
    assert!(q.pop("me").is_none());

    let mut q = MessageQueue::Stream(RedisStreamClient { con: new_connection(0) });
    q.ensure_ready().unwrap();
    q.push(entry("2")).unwrap();
    let (e, h) = q.pop("me").unwrap();
    assert_eq!(e.message_id, "2");
    assert!(matches!(h, AckHandle::Position(0)));
    q.ack(h).unwrap();
    assert!(q.pop("me").is_none());
}
