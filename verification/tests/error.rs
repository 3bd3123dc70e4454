use hiroz::error::{is_timeout, AnyError, Error};
use hiroz::time::Duration;

fn wrapper(source: Error) -> AnyError {
    AnyError::Foreign {
        text: "wrapper".to_string(),
        source: Some(Box::new(AnyError::Own(source))),
    }
}

#[test]
fn timeout_constructor_is_detected() {
    let err = Error::timeout(Duration::from_millis(250));
    assert!(is_timeout(&err));
    match err {
        AnyError::Own(e) => assert!(e.message().contains("250ms")),
        other => panic!("expected Timeout, got {other:?}"),
    }
}

#[test]
fn non_timeout_errors_are_not_flagged() {
    let other = AnyError::Own(Error::Other("some other failure".to_string()));
    assert!(!is_timeout(&other));

    let zenoh_err = AnyError::Foreign {
        text: zenoh::Error::from("plain failure").to_string(),
        source: None,
    };
    assert!(!is_timeout(&zenoh_err));
}

#[test]
fn is_timeout_walks_the_source_chain() {
    let wrapped = wrapper(Error::Timeout(Duration::from_secs(1)));
    assert!(is_timeout(&wrapped));

    let wrapped_other = wrapper(Error::Other("nope".to_string()));
    assert!(!is_timeout(&wrapped_other));
}

#[test]
fn downcast_recovers_the_variant() {
    let err = Error::timeout(Duration::from_secs(3));
    match err {
        AnyError::Own(Error::Timeout(d)) => assert_eq!(d, Duration::from_secs(3)),
        other => panic!("expected Timeout, got {other:?}"),
    }
}

#[test]
fn errors_say_what_happened() {
    assert_eq!(
        Error::Timeout(Duration::from_secs(2)).message(),
        "operation timed out after 2s"
    );
    assert_eq!(
        Error::Timeout(Duration::from_millis(1500)).message(),
        "operation timed out after 1.5s"
    );
    assert_eq!(Error::Other("x".to_string()).message(), "x");
}

#[test]
fn a_timeout_deep_in_the_chain_is_found() {
    let mut err = Error::timeout(Duration::from_secs(1));
    for i in 0..20 {
        err = AnyError::Foreign {
            text: format!("layer {i}"),
            source: Some(Box::new(err)),
        };
    }
    assert!(is_timeout(&err));
}
