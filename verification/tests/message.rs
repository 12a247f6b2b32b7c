use awsdeck::message::{ErrorKind, Message};

#[test]
fn classify_maps_common_sdk_failures() {
    assert_eq!(
        ErrorKind::classify(
            "ExpiredTokenException: the security token included in the request is expired"
        ),
        ErrorKind::Auth
    );
    assert_eq!(
        ErrorKind::classify("the SSO session associated with this profile has expired"),
        ErrorKind::Auth
    );
    assert_eq!(
        ErrorKind::classify(
            "UnrecognizedClientException: The security token included in the request is invalid"
        ),
        ErrorKind::Auth
    );
    assert_eq!(
        ErrorKind::classify("dispatch failure: could not load credentials"),
        ErrorKind::Auth
    );
    assert_eq!(
        ErrorKind::classify(
            "AccessDeniedException: User is not authorized to perform: logs:DescribeLogGroups"
        ),
        ErrorKind::AccessDenied
    );
    assert_eq!(
        ErrorKind::classify("ThrottlingException: Rate exceeded"),
        ErrorKind::Throttle
    );
    assert_eq!(ErrorKind::classify("TooManyRequestsException"), ErrorKind::Throttle);
    assert_eq!(
        ErrorKind::classify("dispatch failure: timeout while connecting"),
        ErrorKind::Network
    );
    assert_eq!(
        ErrorKind::classify("ValidationException: invalid pattern"),
        ErrorKind::Other
    );
}

#[test]
fn hint_and_retryable_are_consistent() {
    assert!(ErrorKind::Auth.hint().is_some());
    assert!(ErrorKind::AccessDenied.hint().is_some());
    assert!(ErrorKind::Other.hint().is_none());
    assert!(ErrorKind::Throttle.retryable());
    assert!(ErrorKind::Network.retryable());
    assert!(!ErrorKind::Auth.retryable());
    assert!(!ErrorKind::Other.retryable());
}

#[test]
fn err_constructor_is_other() {
    match Message::err("boom") {
        Message::Error { kind, detail } => {
            assert_eq!(kind, ErrorKind::Other);
            assert_eq!(detail, "boom");
            assert!(!kind.retryable());
        }
        _ => panic!("debe ser Error"),
    }
}
