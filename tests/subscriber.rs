use client_bridge::{
    Handle, PollOutcome, Registry, RegistryError, Topic, TopicAction, TopicSubscriber,
};

fn s(t: &str) -> String {
    t.to_string()
}

fn bridge_with(topics: &[&str]) -> (Registry<u8>, TopicSubscriber) {
    let mut reg: Registry<u8> = Registry::new();
    let h = reg.register(0);
    let mut sub = TopicSubscriber::new(h);
    let texts: Vec<String> = topics.iter().map(|t| s(t)).collect();
    sub.topics(&texts).unwrap();
    (reg, sub)
}

#[test]
fn topic_grammar() {
    assert!(Topic::parse("messages").is_ok());
    assert!(Topic::parse("messages/indexation/abc_1-2").is_ok());
    assert_eq!(Topic::parse("milestones/latest").unwrap().as_str(), "milestones/latest");
    assert!(Topic::parse("").is_err());
    assert!(Topic::parse("a b").is_err());
    assert!(Topic::parse("a//b").is_err());
    assert!(Topic::parse("/a").is_err());
    assert!(Topic::parse("a/").is_err());
    assert!(Topic::parse("é").is_err());
    assert_eq!(Topic::parse("a#").unwrap_err().text, s("a#"));
}

#[test]
fn subscribed_events_come_out_in_delivery_order() {
    let (reg, mut sub) = bridge_with(&["a", "b"]);
    let req = sub.subscribe(&reg).unwrap();
    assert_eq!(req.action, TopicAction::Subscribe);
    assert_eq!(req.topics, vec![s("a"), s("b")]);
    assert_eq!(req.client, sub.client());
    assert!(sub.complete(req.action, Ok(())).is_ok());
    assert!(sub.is_subscribed());
    sub.push_event(s("e1"));
    sub.push_event(s("e2"));
    sub.push_event(s("e3"));
    assert_eq!(sub.poll(), PollOutcome::Event(s("e1")));
    assert_eq!(sub.poll(), PollOutcome::Event(s("e2")));
    assert_eq!(sub.poll(), PollOutcome::Event(s("e3")));
    assert_eq!(sub.poll(), PollOutcome::Pending);
}

#[test]
fn waiting_polls_each_get_a_distinct_event() {
    let (_reg, mut sub) = bridge_with(&["a"]);
    let n = 4;
    let mut waiting = 0;
    for _ in 0..n {
        if sub.poll() == PollOutcome::Pending {
            waiting += 1;
        }
    }
    assert_eq!(waiting, n);
    for i in 0..n {
        sub.push_event(format!("event-{}", i));
    }
    let mut got = vec![];
    for _ in 0..n {
        match sub.poll() {
            PollOutcome::Event(e) => got.push(e),
            other => panic!("expected an event, got {:?}", other),
        }
    }
    assert_eq!(got, vec![s("event-0"), s("event-1"), s("event-2"), s("event-3")]);
    assert_eq!(sub.poll(), PollOutcome::Pending);
}

#[test]
fn unsubscribe_keeps_buffered_events() {
    let (reg, mut sub) = bridge_with(&["a"]);
    let req = sub.subscribe(&reg).unwrap();
    sub.complete(req.action, Ok(())).unwrap();
    sub.push_event(s("kept"));
    let req = sub.unsubscribe(&reg).unwrap();
    assert_eq!(req.action, TopicAction::Unsubscribe);
    sub.complete(req.action, Ok(())).unwrap();
    assert!(!sub.is_subscribed());
    assert_eq!(sub.poll(), PollOutcome::Event(s("kept")));
}

#[test]
fn malformed_topic_leaves_list_unchanged() {
    let (_reg, mut sub) = bridge_with(&["a"]);
    assert!(sub.topic("").is_err());
    assert!(sub.topic("bad topic").is_err());
    assert_eq!(sub.topic_list(), vec![s("a")]);
    assert!(sub.topic("c").is_ok());
    assert_eq!(sub.topic_list(), vec![s("a"), s("c")]);
}

#[test]
fn add_topics_round_trip() {
    let (_reg, mut sub) = bridge_with(&["x", "y", "z"]);
    assert_eq!(sub.topic_list(), vec![s("x"), s("y"), s("z")]);
    sub.topics(&vec![s("x"), s("x")]).unwrap();
    assert_eq!(sub.topic_list(), vec![s("x"), s("y"), s("z"), s("x"), s("x")]);
}

#[test]
fn add_topics_is_all_or_nothing() {
    let (_reg, mut sub) = bridge_with(&["a"]);
    let err = sub.topics(&vec![s("b"), s("no good"), s("c")]).unwrap_err();
    assert_eq!(err.text, s("no good"));
    assert_eq!(sub.topic_list(), vec![s("a")]);
}

#[test]
fn request_for_unknown_handle_is_not_found() {
    let reg: Registry<u8> = Registry::new();
    let sub = TopicSubscriber::new(Handle::from_id(7));
    assert_eq!(sub.subscribe(&reg), Err(RegistryError::NotFound));
    assert_eq!(sub.unsubscribe(&reg), Err(RegistryError::NotFound));
}

#[test]
fn broker_refusal_changes_nothing() {
    let (reg, mut sub) = bridge_with(&["a"]);
    let req = sub.subscribe(&reg).unwrap();
    let err = sub.complete(req.action, Err(s("topic refused"))).unwrap_err();
    assert_eq!(err.reason, s("topic refused"));
    assert!(!sub.is_subscribed());
    assert_eq!(sub.topic_list(), vec![s("a")]);
}

#[test]
fn closed_queue_still_hands_out_buffered_events() {
    let (_reg, mut sub) = bridge_with(&[]);
    sub.push_event(s("last"));
    sub.close();
    assert_eq!(sub.poll(), PollOutcome::Event(s("last")));
    assert_eq!(sub.poll(), PollOutcome::Closed);
}
