use hiroz::topic_name::{
    is_valid_topic_component, qualify_service_name, qualify_topic_name, TopicNameError,
};


#[test]
fn test_absolute_topics() {
    assert_eq!(
        qualify_topic_name("/chatter", "/", "node").unwrap(),
        "/chatter"
    );
    assert_eq!(
        qualify_topic_name("/chatter", "/ns", "node").unwrap(),
        "/chatter"
    );
    assert_eq!(
        qualify_topic_name("/foo/bar", "/ns", "node").unwrap(),
        "/foo/bar"
    );
}

#[test]
fn test_absolute_topics_trailing_slash() {
    assert_eq!(
        qualify_topic_name("/chatter/", "/ns", "node").unwrap(),
        "/chatter"
    );
}

#[test]
fn test_relative_topics_root_namespace() {
    assert_eq!(
        qualify_topic_name("chatter", "/", "node").unwrap(),
        "/chatter"
    );
    assert_eq!(
        qualify_topic_name("chatter", "", "node").unwrap(),
        "/chatter"
    );
}

#[test]
fn test_relative_topics_named_namespace() {
    assert_eq!(
        qualify_topic_name("chatter", "/ns", "node").unwrap(),
        "/ns/chatter"
    );
    assert_eq!(
        qualify_topic_name("foo/bar", "/ns", "node").unwrap(),
        "/ns/foo/bar"
    );
    assert_eq!(
        qualify_topic_name("chatter", "/my/nested/ns", "node").unwrap(),
        "/my/nested/ns/chatter"
    );
}

#[test]
fn test_private_topics() {
    assert_eq!(
        qualify_topic_name("~my_topic", "/", "node").unwrap(),
        "/node/my_topic"
    );
    assert_eq!(
        qualify_topic_name("~my_topic", "/ns", "node").unwrap(),
        "/ns/node/my_topic"
    );
    assert_eq!(qualify_topic_name("~", "/ns", "node").unwrap(), "/ns/node");
    assert_eq!(
        qualify_topic_name("~/my_topic", "/ns", "node").unwrap(),
        "/ns/node/my_topic"
    );
}

#[test]
fn test_private_topics_nested() {
    assert_eq!(
        qualify_topic_name("~foo/bar", "/ns", "node").unwrap(),
        "/ns/node/foo/bar"
    );
}

#[test]
fn test_empty_topic() {
    assert!(matches!(
        qualify_topic_name("", "/", "node"),
        Err(TopicNameError::Empty)
    ));
}

#[test]
fn test_invalid_namespace() {
    assert!(matches!(
        qualify_topic_name("chatter", "/ns/", "node"),
        Err(TopicNameError::InvalidNamespace(_))
    ));
}

#[test]
fn test_invalid_node_name() {
    assert!(matches!(
        qualify_topic_name("chatter", "/ns", ""),
        Err(TopicNameError::InvalidNodeName(_))
    ));
    assert!(matches!(
        qualify_topic_name("chatter", "/ns", "123node"),
        Err(TopicNameError::InvalidNodeName(_))
    ));
}

#[test]
fn test_valid_topic_components() {
    assert!(is_valid_topic_component("foo"));
    assert!(is_valid_topic_component("_foo"));
    assert!(is_valid_topic_component("foo123"));
    assert!(is_valid_topic_component("foo_bar"));
    assert!(is_valid_topic_component("FooBar"));

    assert!(!is_valid_topic_component(""));
    assert!(!is_valid_topic_component("123"));
    assert!(!is_valid_topic_component("foo-bar"));
    assert!(!is_valid_topic_component("foo bar"));
}

#[test]
fn test_service_names() {
    assert_eq!(
        qualify_service_name("/add_two_ints", "/", "node").unwrap(),
        "/add_two_ints"
    );
    assert_eq!(
        qualify_service_name("add_two_ints", "/ns", "node").unwrap(),
        "/ns/add_two_ints"
    );
    assert_eq!(
        qualify_service_name("~my_service", "/ns", "node").unwrap(),
        "/ns/node/my_service"
    );
}

#[test]
fn absolute_names_reject_invalid_components() {
    for bad in [
        "/bad name", // space
        "/a/b c",    // space in a later component
        "/1abc",     // must not start with a digit
        "/a/2b",     // ditto, later component
        "/a-b",      // hyphen is not a valid component character
        "/a.b",      // nor is a dot
        "/a//b",     // empty component
        "//a",       // empty leading component
        "/a/b//",    // empty component after trailing-slash strip
    ] {
        assert!(
            qualify_topic_name(bad, "/ns", "node").is_err(),
            "expected `{bad}` to be rejected"
        );
    }
}

#[test]
fn absolute_names_still_accept_valid_components() {
    for good in [
        "/chatter",
        "/a/b/c",
        "/_private",
        "/a_1/b_2",
        "/chatter/", // trailing slash is stripped, not rejected
    ] {
        assert!(
            qualify_topic_name(good, "/ns", "node").is_ok(),
            "expected `{good}` to be accepted"
        );
    }
}

#[test]
fn empty_components_are_rejected_on_every_branch() {
    assert!(
        qualify_topic_name("/a//b", "/ns", "node").is_err(),
        "absolute"
    );
    assert!(
        qualify_topic_name("a//b", "/ns", "node").is_err(),
        "relative"
    );
    assert!(
        qualify_topic_name("~/a//b", "/ns", "node").is_err(),
        "private"
    );
}

#[test]
fn namespaces_reject_empty_components() {
    assert!(
        qualify_topic_name("chatter", "//ns", "node").is_err(),
        "//ns"
    );
    assert!(
        qualify_topic_name("chatter", "/ns//sub", "node").is_err(),
        "/ns//sub"
    );
    assert!(
        qualify_topic_name("chatter", "/ns/", "node").is_err(),
        "trailing slash"
    );
    // Still accepted: the single leading slash is the separator, not an
    // empty component, and a bare namespace needs no slash at all.
    assert!(qualify_topic_name("chatter", "/ns", "node").is_ok(), "/ns");
    assert!(qualify_topic_name("chatter", "ns", "node").is_ok(), "ns");
    assert!(qualify_topic_name("chatter", "/", "node").is_ok(), "/");
    assert!(qualify_topic_name("chatter", "", "node").is_ok(), "empty");
}

#[test]
fn trailing_slash_is_normalized_on_every_branch() {
    assert_eq!(qualify_topic_name("/a/", "/ns", "node").unwrap(), "/a");
    assert_eq!(qualify_topic_name("a/", "/ns", "node").unwrap(), "/ns/a");
    assert_eq!(
        qualify_topic_name("~/a/", "/ns", "node").unwrap(),
        "/ns/node/a"
    );
}

#[test]
fn slash_only_names_are_rejected() {
    for bad in ["/", "//", "///"] {
        assert!(
            qualify_topic_name(bad, "/ns", "node").is_err(),
            "expected `{bad}` to be rejected"
        );
    }
}

#[test]
fn service_names_reject_invalid_absolute_components() {
    assert!(qualify_service_name("/bad name", "/ns", "node").is_err());
    assert!(qualify_service_name("/add_two_ints", "/ns", "node").is_ok());
}

#[test]
fn the_errors_say_which_name_is_wrong() {
    assert_eq!(
        qualify_topic_name("a-b", "/ns", "node").unwrap_err().message(),
        "Topic name contains invalid characters: invalid component 'a-b' in topic"
    );
    assert_eq!(
        qualify_topic_name("~/a-b", "/ns", "node").unwrap_err(),
        TopicNameError::InvalidCharacters("invalid component 'a-b' in private topic".to_string())
    );
    assert_eq!(
        qualify_topic_name("a//b", "/ns", "node").unwrap_err(),
        TopicNameError::InvalidCharacters(
            "empty component in topic: '//' and a trailing '/' are not valid ROS 2 names"
                .to_string()
        )
    );
    assert_eq!(
        qualify_topic_name("/", "/ns", "node").unwrap_err(),
        TopicNameError::InvalidCharacters("topic cannot be just '/'".to_string())
    );
    assert_eq!(
        qualify_topic_name("a", "/ns/", "node").unwrap_err().message(),
        "Invalid namespace: namespace cannot end with '/'"
    );
    assert_eq!(
        qualify_topic_name("a", "/n-s", "node").unwrap_err().message(),
        "Invalid namespace: invalid component 'n-s'"
    );
    assert_eq!(
        qualify_topic_name("a", "/ns", "1").unwrap_err().message(),
        "Invalid node name: invalid node name '1'"
    );
    assert_eq!(qualify_topic_name("", "", "n").unwrap_err().message(), "Topic name is empty");
}

#[test]
fn a_qualified_name_is_left_alone() {
    for (topic, expected) in [("~a/b", "/ns/node/a/b"), ("c", "/ns/c"), ("/d", "/d")] {
        let name = qualify_topic_name(topic, "ns", "node").unwrap();
        assert_eq!(name, expected);
        assert_eq!(qualify_topic_name(&name, "/other", "peer").unwrap(), name);
    }
}
