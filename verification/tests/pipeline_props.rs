use pepperbot::message::{Deal, Message};
use pepperbot::pipeline::{dispatch_step, poll_feed, record_messages_sent, DispatchOutcome, FeedItem};
use pepperbot::store::{
    get_config, new_connection, read_message, select, set_config, set_subscriber, Config,
    Connection, Database,
};

fn feed_item(link: &str, title: &str, category: &str) -> FeedItem {
    FeedItem {
        link: Some(link.to_string()),
        title: Some(title.to_string()),
        categories: vec![category.to_string()],
    }
}

fn connection_with_subscriber(chat_id: &str, raw: &str) -> Connection {
    let mut con = new_connection(1_000);
    set_subscriber(&mut con, chat_id, raw);
    con
}

#[test]
fn idempotency_same_id_delivered_once() {
    let mut con = connection_with_subscriber("100", "1");
    let items = vec![
        feed_item("https://deals.example/x", "A deal", "gaming"),
        feed_item("https://deals.example/x", "A deal", "gaming"),
    ];
    poll_feed(&mut con, &items);
    assert_eq!(con.deals.len(), 2);
    let mut delivered = 0;
    for _ in 0..2 {
        match dispatch_step(&mut con) {
            DispatchOutcome::Deliver { sends } => delivered += sends.len(),
            DispatchOutcome::Duplicate => {}
            _ => panic!("unexpected outcome"),
        }
    }
    assert_eq!(delivered, 1);
}

#[test]
fn ordering_is_first_in_first_out() {
    let mut con = new_connection(0);
    let e1 = Message::new(Deal::new("a".to_string(), "c".to_string(), "t1".to_string()));
    let e2 = Message::new(Deal::new("b".to_string(), "c".to_string(), "t2".to_string()));
    pepperbot::store::publish_message(&mut con, e1).unwrap();
    pepperbot::store::publish_message(&mut con, e2).unwrap();
    let first = read_message(&mut con).unwrap();
    let second = read_message(&mut con).unwrap();
    assert_eq!(first.id, "a");
    assert_eq!(second.id, "b");
    assert!(read_message(&mut con).is_none());
}

#[test]
fn category_filter_matches_and_blocks() {
    let mut con = connection_with_subscriber("7", "gaming");
    let items = vec![
        feed_item("https://deals.example/g", "game", "gaming"),
        feed_item("https://deals.example/e", "tv", "electronics"),
    ];
    poll_feed(&mut con, &items);
    // The snapshot is walked newest-first, so the electronics deal is
    // dispatched first and must reach nobody.
    match dispatch_step(&mut con) {
        DispatchOutcome::Deliver { sends } => assert_eq!(sends.len(), 0),
        _ => panic!("expected a delivery decision"),
    }
    match dispatch_step(&mut con) {
        DispatchOutcome::Deliver { sends } => {
            assert_eq!(sends.len(), 1);
            assert_eq!(sends[0].chat_id, "7");
            assert_eq!(sends[0].text, "[game](https://deals.example/g)");
        }
        _ => panic!("expected a delivery decision"),
    }
}

#[test]
fn no_filter_subscriber_receives_everything() {
    let mut con = connection_with_subscriber("9", "1");
    let items = vec![
        feed_item("https://deals.example/g", "game", "gaming"),
        feed_item("https://deals.example/e", "tv", "electronics"),
    ];
    poll_feed(&mut con, &items);
    for _ in 0..2 {
        match dispatch_step(&mut con) {
            DispatchOutcome::Deliver { sends } => {
                assert_eq!(sends.len(), 1);
                assert_eq!(sends[0].chat_id, "9");
            }
            _ => panic!("expected a delivery decision"),
        }
    }
}

#[test]
fn operational_gate_suppresses_but_marks() {
    let mut con = connection_with_subscriber("5", "1");
    set_config(&mut con, Config::OperationalKey, "0".to_string()).unwrap();
    let items = vec![feed_item("https://deals.example/x", "deal", "gaming")];
    poll_feed(&mut con, &items);
    match dispatch_step(&mut con) {
        DispatchOutcome::Suppressed => {}
        _ => panic!("expected suppression"),
    }
    // Counters untouched while disabled.
    let deals = get_config(&mut con, Config::DealsSentKey, Database::MESSAGE);
    assert!(deals.is_none());
    // Re-enable and submit the same item again: the marker set while
    // disabled still suppresses redelivery.
    set_config(&mut con, Config::OperationalKey, "1".to_string()).unwrap();
    poll_feed(&mut con, &items);
    assert_eq!(con.deals.len(), 0, "the poller pre-filter sees the marker");
    // Force an envelope past the pre-filter to test the consumer-side gate.
    let msg = Message::new(Deal::new(
        "https://deals.example/x".to_string(),
        "gaming".to_string(),
        "deal".to_string(),
    ));
    pepperbot::store::publish_message(&mut con, msg).unwrap();
    match dispatch_step(&mut con) {
        DispatchOutcome::Duplicate => {}
        _ => panic!("expected the marker to suppress redelivery"),
    }
}

#[test]
fn counters_move_by_delivered_amounts() {
    let mut con = new_connection(50);
    set_subscriber(&mut con, "1", "1");
    select(&mut con, Database::SUBSCRIBER);
    set_subscriber(&mut con, "2", "1");
    let items = vec![
        feed_item("https://deals.example/a", "a", "gaming"),
        feed_item("https://deals.example/b", "b", "gaming"),
    ];
    poll_feed(&mut con, &items);
    let mut total = 0u8;
    for _ in 0..2 {
        match dispatch_step(&mut con) {
            DispatchOutcome::Deliver { sends } => {
                assert_eq!(sends.len(), 2);
                record_messages_sent(&mut con, sends.len() as u8).unwrap();
                total += sends.len() as u8;
            }
            _ => panic!("expected a delivery decision"),
        }
    }
    assert_eq!(total, 4);
    let sent = get_config(&mut con, Config::MessagesSentKey, Database::MESSAGE).unwrap();
    assert_eq!(sent, "4");
    let deals = get_config(&mut con, Config::DealsSentKey, Database::MESSAGE).unwrap();
    assert_eq!(deals, "2");
}

#[test]
fn end_to_end_two_items() {
    let mut con = connection_with_subscriber("42", "1");
    // The feed reports newest first: "a" is the newest item, "b" the older
    // one, so the queue must end up holding "b" before "a".
    let items = vec![feed_item("a", "newest", "gaming"), feed_item("b", "older", "gaming")];
    poll_feed(&mut con, &items);
    assert_eq!(con.deals.len(), 2);
    assert_eq!(con.deals[0].id, "b");
    assert_eq!(con.deals[1].id, "a");
    let mut order = Vec::new();
    for _ in 0..2 {
        match dispatch_step(&mut con) {
            DispatchOutcome::Deliver { sends } => {
                assert_eq!(sends.len(), 1);
                assert_eq!(sends[0].chat_id, "42");
                order.push(sends[0].text.clone());
            }
            _ => panic!("expected a delivery decision"),
        }
    }
    assert_eq!(order, vec!["[older](b)".to_string(), "[newest](a)".to_string()]);
    // Both markers exist with the fixed two-day expiry.
    for id in ["a", "b"] {
        let marker = con
            .markers
            .iter()
            .find(|m| m.key == id)
            .expect("marker missing");
        assert_eq!(marker.expires_at - con.now, 172_800);
    }
}

#[test]
fn expiry_reopens_the_retention_window() {
    let mut con = connection_with_subscriber("8", "1");
    let items = vec![feed_item("https://deals.example/x", "deal", "gaming")];
    poll_feed(&mut con, &items);
    match dispatch_step(&mut con) {
        DispatchOutcome::Deliver { sends } => assert_eq!(sends.len(), 1),
        _ => panic!("expected a delivery decision"),
    }
    // Within the window the id stays suppressed; once the marker lapses the
    // same id counts as novel again.
    pepperbot::store::advance_time(&mut con, 172_799);
    poll_feed(&mut con, &items);
    assert_eq!(con.deals.len(), 0);
    pepperbot::store::advance_time(&mut con, 1);
    poll_feed(&mut con, &items);
    assert_eq!(con.deals.len(), 1);
    match dispatch_step(&mut con) {
        DispatchOutcome::Deliver { sends } => assert_eq!(sends.len(), 1),
        _ => panic!("expected a delivery decision"),
    }
}

#[test]
fn idle_dispatcher_reports_empty_queue() {
    let mut con = new_connection(0);
    match dispatch_step(&mut con) {
        DispatchOutcome::Idle => {}
        _ => panic!("expected an idle step"),
    }
}

#[test]
fn poller_skips_items_without_links_and_defaults_fields() {
    let mut con = new_connection(0);
    let items = vec![
        FeedItem { link: None, title: Some("no link".to_string()), categories: vec![] },
        FeedItem { link: Some("x".to_string()), title: None, categories: vec![] },
    ];
    poll_feed(&mut con, &items);
    assert_eq!(con.deals.len(), 1);
    assert_eq!(con.deals[0].id, "x");
    assert_eq!(con.deals[0].payload.title, "");
    assert_eq!(con.deals[0].payload.category, "");
}

#[test]
fn poller_lowercases_the_first_category() {
    let mut con = new_connection(0);
    let items = vec![feed_item("x", "t", "Gaming")];
    poll_feed(&mut con, &items);
    assert_eq!(con.deals[0].payload.category, "gaming");
}
