use client_bridge::{BuildError, ClientBuilderWrapper};

fn s(t: &str) -> String {
    t.to_string()
}

#[test]
fn nodes_are_concatenated_in_call_order() {
    let mut b = ClientBuilderWrapper::new();
    b.node(s("http://a.example:14265"));
    b.nodes(vec![s("http://b.example"), s("http://c.example")]);
    b.node(s("http://a.example:14265"));
    let c = b.build().unwrap();
    assert_eq!(
        c.nodes,
        vec![
            s("http://a.example:14265"),
            s("http://b.example"),
            s("http://c.example"),
            s("http://a.example:14265")
        ]
    );
    assert_eq!(c.quorum_size, None);
    assert_eq!(c.quorum_threshold, None);
    assert_eq!(c.broker_options, None);
}

#[test]
fn build_without_nodes_fails() {
    let b = ClientBuilderWrapper::new();
    assert_eq!(b.build(), Err(BuildError::NoNodes));
    let mut b2 = ClientBuilderWrapper::new();
    b2.quorum_size(3);
    b2.nodes(vec![]);
    assert_eq!(b2.build(), Err(BuildError::NoNodes));
}

#[test]
fn quorum_size_last_write_wins() {
    let mut b = ClientBuilderWrapper::new();
    b.node(s("https://node.example"));
    b.quorum_size(2);
    b.quorum_size(5);
    b.quorum_threshold(40);
    b.quorum_threshold(66);
    let c = b.build().unwrap();
    assert_eq!(c.quorum_size, Some(5));
    assert_eq!(c.quorum_threshold, Some(66));
}

#[test]
fn invalid_node_url_is_reported_with_its_position() {
    let mut b = ClientBuilderWrapper::new();
    b.nodes(vec![s("http://ok.example"), s("not a url"), s("also bad")]);
    assert_eq!(
        b.build(),
        Err(BuildError::InvalidNodeUrl { index: 1, url: s("not a url") })
    );
}

#[test]
fn build_with_takes_node_checks_as_given() {
    let mut b = ClientBuilderWrapper::new();
    b.nodes(vec![s("x"), s("y")]);
    assert!(b.build_with(&vec![true, true]).is_ok());
    assert_eq!(
        b.build_with(&vec![true, false]),
        Err(BuildError::InvalidNodeUrl { index: 1, url: s("y") })
    );
}

#[test]
fn broker_options_accepts_json_and_refuses_other_text() {
    let mut b = ClientBuilderWrapper::new();
    b.node(s("http://n.example"));
    assert!(b.broker_options(s("{\"automaticDisconnect\": false}")).is_ok());
    let bad = b.broker_options(s("{ not json"));
    assert_eq!(bad.unwrap_err().text, s("{ not json"));
    let c = b.build().unwrap();
    assert_eq!(c.broker_options, Some(s("{\"automaticDisconnect\": false}")));
}

#[test]
fn apply_broker_options_follows_the_given_check() {
    let mut b = ClientBuilderWrapper::new();
    assert!(b.apply_broker_options(s("{}"), false).is_err());
    assert!(b.apply_broker_options(s("{}"), true).is_ok());
    b.node(s("http://n.example"));
    assert_eq!(b.build().unwrap().broker_options, Some(s("{}")));
}

#[test]
fn build_twice_gives_two_equal_configurations() {
    let mut b = ClientBuilderWrapper::new();
    b.node(s("http://n.example"));
    b.quorum_size(1);
    let c1 = b.build().unwrap();
    let c2 = b.build().unwrap();
    assert_eq!(c1, c2);
}
