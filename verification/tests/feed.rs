use autoblur::json::{get_field, Json};

fn to_json_text(j: &Json) -> String {
    fn value_of(j: &Json) -> serde_json::Value {
        match j {
            Json::Null => serde_json::Value::Null,
            Json::Bool(b) => serde_json::Value::Bool(*b),
            Json::Number(t) => serde_json::from_str(t).unwrap(),
            Json::Str(s) => serde_json::Value::String(s.clone()),
            Json::Array(a) => serde_json::Value::Array(a.iter().map(value_of).collect()),
            Json::Object(o) => serde_json::Value::Object(o.iter().map(|(k, x)| (k.clone(), value_of(x))).collect()),
        }
    }
    value_of(j).to_string()
}
use autoblur::socket::{
    classify_event, classify_frame, event_would_panic, feed_url, gen_id, new_feed_url, subscribe_frame,
    try_parse_event, AsyncSocketBuilder, FeedError, FrameAction, Subscription,
    ID_ALPHABET, ID_LENGTH,
};

const LEVELS: &str = r#"42["0xabc.COLLECTION.{}.denormalizer.bidLevels",{"contractAddress":"0xabc","updates":[{"price":"1.5","executableSize":2}]}]"#;

#[test]
fn ids_are_drawn_from_the_alphabet() {
    let id = gen_id();
    assert_eq!(id.chars().count(), ID_LENGTH);
    assert!(id.chars().all(|c| ID_ALPHABET.contains(c)));
    assert_ne!(gen_id(), gen_id());
}

#[test]
fn feed_urls() {
    assert_eq!(
        feed_url("a", "b"),
        "wss://feeds.prod.blur.io/socket.io/?tabId=a&storageId=b&EIO=4&transport=websocket"
    );
    let u = new_feed_url();
    assert!(u.starts_with("wss://feeds.prod.blur.io/socket.io/?tabId="));
    assert!(u.ends_with("&EIO=4&transport=websocket"));
    assert_eq!(u.len(), feed_url("123456789012", "123456789012").len());
}

#[test]
fn events_lose_their_packet_prefix() {
    let j = try_parse_event(r#"42["ev",{"a":1}]"#).unwrap();
    assert_eq!(to_json_text(&j), r#"["ev",{"a":1}]"#);
    let j = try_parse_event(r#"0{"sid":"x"}"#).unwrap();
    assert_eq!(to_json_text(&j), r#"{"sid":"x"}"#);
    let j = try_parse_event(r#"x[1]"#).unwrap();
    assert_eq!(to_json_text(&j), "[1]");
    assert!(try_parse_event("40").is_none());
}

#[test]
fn frames_are_classified() {
    assert!(matches!(classify_frame("2"), FrameAction::Pong));
    assert!(matches!(classify_frame("3"), FrameAction::Skip));
    assert!(matches!(classify_frame(r#"0{"sid":"x"}"#), FrameAction::Skip));
    assert!(matches!(classify_frame(r#"40{"sid":"x"}"#), FrameAction::Skip));
    assert!(matches!(classify_frame("4x"), FrameAction::Failed(FeedError::InvalidEvent)));
    assert!(matches!(classify_frame("42[]"), FrameAction::Failed(FeedError::NoEventName)));
    assert!(matches!(classify_frame("42[1,2]"), FrameAction::Failed(FeedError::EventNameNotString)));
    assert!(matches!(classify_frame(r#"42["x"]"#), FrameAction::Failed(FeedError::NoEventData)));
    assert!(matches!(classify_frame(r#"42["other",{}]"#), FrameAction::Skip));
    assert!(matches!(
        classify_frame(r#"42["a.COLLECTION.{}.denormalizer.bidLevels",5]"#),
        FrameAction::Failed(FeedError::DataNotObject)
    ));
    assert!(matches!(
        classify_frame(r#"42["a.COLLECTION.{}.denormalizer.bidLevels",{}]"#),
        FrameAction::Failed(FeedError::NoUpdates)
    ));
    assert!(matches!(
        classify_frame(r#"42["a.COLLECTION.{}.denormalizer.bidLevels",{"updates":1}]"#),
        FrameAction::Failed(FeedError::UpdatesNotArray)
    ));
    match classify_frame(LEVELS) {
        FrameAction::BidLevels { contract_addr, updates } => {
            assert_eq!(contract_addr, "0xabc");
            assert_eq!(updates.len(), 1);
            assert_eq!(to_json_text(get_field(&updates[0], "price").unwrap()), r#""1.5""#);
        }
        other => panic!("unexpected {:?}", other),
    }
}

#[test]
fn events_without_address_are_caught() {
    let ev = try_parse_event(r#"42["a.COLLECTION.{}.denormalizer.bidLevels",{"updates":[]}]"#).unwrap();
    assert!(event_would_panic(&ev));
    let ev = try_parse_event(LEVELS).unwrap();
    assert!(!event_would_panic(&ev));
    assert!(matches!(classify_event(ev), FrameAction::BidLevels { .. }));
    assert!(matches!(classify_event(Json::Null), FrameAction::Skip));
}

#[test]
fn subscriptions_are_numbered_frames() {
    let sub = Subscription::Collection { addr: "0xabc".to_string() };
    assert_eq!(
        subscribe_frame(0, &sub),
        r#"420["subscribe",["0xabc.COLLECTION.{}.denormalizer.bidLevels"]]"#
    );
    assert_eq!(
        subscribe_frame(17, &sub),
        r#"4217["subscribe",["0xabc.COLLECTION.{}.denormalizer.bidLevels"]]"#
    );
    let mut b = AsyncSocketBuilder::new();
    b.subscribe(sub.clone());
    b.subscribe(Subscription::Collection { addr: "0xdef".to_string() });
    let subs = b.into_subscriptions();
    assert_eq!(subs.len(), 2);
    assert_eq!(
        subscribe_frame(1, &subs[1]),
        r#"421["subscribe",["0xdef.COLLECTION.{}.denormalizer.bidLevels"]]"#
    );
}
