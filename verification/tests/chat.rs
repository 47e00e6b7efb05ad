use chat_core::group::{Group, PollOutcome};
use chat_core::group_table::GroupTable;
use chat_core::protocol::{FromClient, FromServer};
use chat_core::server::{handle_request, lag_report, subscriber_step, unknown_group_error, DeliveryStep, Dispatch};
use std::sync::Arc;

fn arc(s: &str) -> Arc<String> {
    Arc::new(String::from(s))
}

#[test]
fn join_sees_only_future_posts() {
    let mut group = Group::new(arc("lobby"));
    group.post(arc("m1"));
    group.post(arc("m2"));
    let mut sub = group.subscribe();
    // The cursor starts at the end of the log: two messages were posted.
    assert_eq!(sub.cursor(), 2);
    // Nothing posted before the join is ever delivered.
    assert!(matches!(group.poll(&mut sub), PollOutcome::Pending));
    group.post(arc("m3"));
    match group.poll(&mut sub) {
        PollOutcome::Delivered(m) => assert_eq!(*m, "m3"),
        _ => panic!("expected the first post after the join"),
    }
    assert!(matches!(group.poll(&mut sub), PollOutcome::Pending));
}

#[test]
fn subscribers_share_one_order() {
    let mut group = Group::new(arc("lobby"));
    let mut a = group.subscribe();
    let mut b = group.subscribe();
    group.post(arc("first"));
    group.post(arc("second"));
    let mut seen_a = Vec::new();
    let mut seen_b = Vec::new();
    for _ in 0..2 {
        match group.poll(&mut a) {
            PollOutcome::Delivered(m) => seen_a.push((*m).clone()),
            _ => panic!("expected a delivery"),
        }
        match group.poll(&mut b) {
            PollOutcome::Delivered(m) => seen_b.push((*m).clone()),
            _ => panic!("expected a delivery"),
        }
    }
    assert_eq!(seen_a, vec!["first".to_string(), "second".to_string()]);
    assert_eq!(seen_a, seen_b);
}

#[test]
fn lag_reports_exact_loss_and_resumes_at_oldest() {
    // The worked example: capacity 3, five posts.
    let mut group = Group::with_capacity(arc("g"), 3);
    let mut early = group.subscribe();
    for text in ["A", "B", "C", "D", "E"] {
        group.post(arc(text));
    }
    // A subscriber that joins now sees nothing retroactively.
    let mut late = group.subscribe();
    assert!(matches!(group.poll(&mut late), PollOutcome::Pending));
    // The early subscriber missed A and B, then reads C, D, E in order.
    match group.poll(&mut early) {
        PollOutcome::Lagged(n) => assert_eq!(n, 2),
        _ => panic!("expected a lag report"),
    }
    for expected in ["C", "D", "E"] {
        match group.poll(&mut early) {
            PollOutcome::Delivered(m) => assert_eq!(*m, expected),
            _ => panic!("expected a delivery"),
        }
    }
    assert!(matches!(group.poll(&mut early), PollOutcome::Pending));
}

#[test]
fn closed_group_drains_then_stops() {
    let mut group = Group::with_capacity(arc("g"), 8);
    let mut sub = group.subscribe();
    group.post(arc("last words"));
    group.close();
    match group.poll(&mut sub) {
        PollOutcome::Delivered(m) => assert_eq!(*m, "last words"),
        _ => panic!("retained messages are still delivered after close"),
    }
    assert!(matches!(group.poll(&mut sub), PollOutcome::Closed));
}

#[test]
fn post_to_unknown_group_is_isolated() {
    let mut table = GroupTable::new();
    let join = handle_request(&mut table, FromClient::Join { group_name: arc("dogs") });
    let (dogs, mut sub) = match join {
        Dispatch::Joined(idx, sub) => (idx, sub),
        _ => panic!("a join always succeeds"),
    };
    // Posting to a group nobody created yields an error reply and changes
    // nothing else.
    let reply = handle_request(
        &mut table,
        FromClient::Post { group_name: arc("ghost"), message: arc("boo") },
    );
    match reply {
        Dispatch::Reply(FromServer::Error(m)) => {
            assert_eq!(m, "Group 'ghost' does not exist");
        },
        _ => panic!("expected an error reply"),
    }
    assert_eq!(table.len(), 1);
    // The existing group still works as if nothing happened.
    let posted = handle_request(
        &mut table,
        FromClient::Post { group_name: arc("dogs"), message: arc("woof") },
    );
    assert!(matches!(posted, Dispatch::Posted));
    match subscriber_step(table.group_at(dogs), &mut sub) {
        DeliveryStep::Send(FromServer::Message { group_name, message }) => {
            assert_eq!(*group_name, "dogs");
            assert_eq!(*message, "woof");
        },
        _ => panic!("expected the posted message"),
    }
}

#[test]
fn at_most_one_group_per_name() {
    let mut table = GroupTable::new();
    let first = table.get_or_create(arc("room"));
    let second = table.get_or_create(arc("room"));
    let third = table.get_or_create(arc("room"));
    assert_eq!(first, second);
    assert_eq!(second, third);
    assert_eq!(table.len(), 1);
    let other = table.get_or_create(arc("hall"));
    assert_ne!(first, other);
    assert_eq!(table.len(), 2);
}

#[test]
fn zero_subscriber_posts_succeed_and_stay_bounded() {
    let mut group = Group::with_capacity(arc("idle"), 2);
    // No subscriber exists; posting is still fine, and the retained history
    // stays bounded by the capacity: a later subscriber that rewinds can lose
    // everything but the last two messages.
    let mut early = group.subscribe();
    for text in ["1", "2", "3", "4", "5"] {
        group.post(arc(text));
    }
    match group.poll(&mut early) {
        PollOutcome::Lagged(n) => assert_eq!(n, 3),
        _ => panic!("expected a lag report"),
    }
    match group.poll(&mut early) {
        PollOutcome::Delivered(m) => assert_eq!(*m, "4"),
        _ => panic!("expected the oldest retained message"),
    }
}

#[test]
fn delivery_loop_reports_lag_to_the_client() {
    let mut group = Group::with_capacity(arc("news"), 2);
    let mut sub = group.subscribe();
    for text in ["a", "b", "c", "d", "e"] {
        group.post(arc(text));
    }
    match subscriber_step(&group, &mut sub) {
        DeliveryStep::Send(FromServer::Error(m)) => {
            assert_eq!(m, "Dropped 3 messages from news.");
        },
        _ => panic!("expected a lag report packet"),
    }
    match subscriber_step(&group, &mut sub) {
        DeliveryStep::Send(FromServer::Message { group_name, message }) => {
            assert_eq!(*group_name, "news");
            assert_eq!(*message, "d");
        },
        _ => panic!("expected a delivery packet"),
    }
}

#[test]
fn delivery_loop_waits_and_stops() {
    let mut group = Group::new(arc("quiet"));
    let mut sub = group.subscribe();
    assert!(matches!(subscriber_step(&group, &mut sub), DeliveryStep::Wait));
    group.close();
    assert!(matches!(subscriber_step(&group, &mut sub), DeliveryStep::Stop));
}

#[test]
fn error_texts_are_exact() {
    assert_eq!(
        unknown_group_error(&"ghost".to_string()),
        "Group 'ghost' does not exist"
    );
    assert_eq!(lag_report(1, &"g".to_string()), "Dropped 1 messages from g.");
    assert_eq!(
        lag_report(12045, &"busy room".to_string()),
        "Dropped 12045 messages from busy room."
    );
}

#[test]
fn group_lookup_is_read_only() {
    let mut table = GroupTable::new();
    assert!(table.get(&"nowhere".to_string()).is_none());
    assert_eq!(table.len(), 0);
    table.get_or_create(arc("somewhere"));
    let found = table.get(&"somewhere".to_string());
    assert_eq!(**found.expect("created above").name(), "somewhere");
    assert_eq!(table.len(), 1);
}

#[test]
fn test_fromclient_json() {
    let from_client = FromClient::Post {
        group_name: arc("Dogs"),
        message: arc("Samoyeds rock!"),
    };

    let json = chat_core::codec::encode_from_client(&from_client);

    assert_eq!(json, "{\"Post\":{\"group_name\":\"Dogs\",\"message\":\"Samoyeds rock!\"}}");

    // The real JSON parser reads the encoder's output back as the same packet.
    let parsed: serde_json::Value = serde_json::from_str(&json).unwrap();
    assert_eq!(parsed["Post"]["group_name"], "Dogs");
    assert_eq!(parsed["Post"]["message"], "Samoyeds rock!");
}

#[test]
fn encoder_escapes_like_json_demands() {
    let join = FromClient::Join { group_name: arc("quo\"te back\\slash") };
    assert_eq!(
        chat_core::codec::encode_from_client(&join),
        "{\"Join\":{\"group_name\":\"quo\\\"te back\\\\slash\"}}"
    );

    let report = FromServer::Error("line\nbreak tab\t bell\u{7}".to_string());
    let line = chat_core::codec::encode_from_server(&report);
    assert_eq!(line, "{\"Error\":\"line\\nbreak tab\\t bell\\u0007\"}");
    let parsed: serde_json::Value = serde_json::from_str(&line).unwrap();
    assert_eq!(parsed["Error"], "line\nbreak tab\t bell\u{7}");

    let message = FromServer::Message { group_name: arc("g"), message: arc("hi") };
    assert_eq!(
        chat_core::codec::encode_from_server(&message),
        "{\"Message\":{\"group_name\":\"g\",\"message\":\"hi\"}}"
    );
}
