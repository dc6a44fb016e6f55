use tinyurl::interpret;
use tinyurl::outcome::INVALID_ALIAS;
use tinyurl::outcome::INVALID_URL;
use tinyurl::outcome::NO_ENDPOINT;
use tinyurl::outcome::NO_REPLY;
use tinyurl::outcome::REJECTION;
use tinyurl::report;
use tinyurl::Report;
use tinyurl::ShortenError;

#[test]
fn rejection_body_is_a_rejection() {
    assert_eq!(REJECTION, "Error");
    assert_eq!(interpret("Error".to_string()), Err(ShortenError::Rejected));
}

#[test]
fn any_other_body_is_the_short_url() {
    assert_eq!(
        interpret("https://tinyurl.com/abcde".to_string()),
        Ok("https://tinyurl.com/abcde".to_string())
    );
}

#[test]
fn bodies_close_to_the_rejection_are_short_urls() {
    for body in ["error", "ERROR", "Error ", " Error", "Error\n", "Erro", "Errors", ""] {
        assert_eq!(interpret(body.to_string()), Ok(body.to_string()));
    }
}

#[test]
fn short_url_is_printed_with_status_zero() {
    let shown = report(false, Ok("https://tinyurl.com/abcde".to_string()));
    assert_eq!(
        shown,
        Report { line: "https://tinyurl.com/abcde".to_string(), status: 0 }
    );
    let shown = report(true, Ok("https://tinyurl.com/abcde".to_string()));
    assert_eq!(
        shown,
        Report { line: "https://tinyurl.com/abcde".to_string(), status: 0 }
    );
}

#[test]
fn rejection_without_alias_blames_the_url() {
    let shown = report(false, Err(ShortenError::Rejected));
    assert_eq!(INVALID_URL, "the url you entered is invalid");
    assert_eq!(
        shown,
        Report { line: "the url you entered is invalid".to_string(), status: 1 }
    );
}

#[test]
fn rejection_with_alias_blames_url_or_alias() {
    let shown = report(true, Err(ShortenError::Rejected));
    assert_eq!(
        INVALID_ALIAS,
        "the url/alias you entered is invalid; alias must be at least 5 characters"
    );
    assert_eq!(
        shown,
        Report {
            line: "the url/alias you entered is invalid; alias must be at least 5 characters"
                .to_string(),
            status: 1,
        }
    );
}

#[test]
fn rejected_reply_ends_in_failure() {
    let shown = report(false, interpret("Error".to_string()));
    assert_eq!(shown.status, 1);
    assert_ne!(shown.line, "Error");
}

#[test]
fn accepted_reply_ends_in_success() {
    let shown = report(true, interpret("https://tinyurl.com/my-alias".to_string()));
    assert_eq!(shown.status, 0);
    assert_eq!(shown.line, "https://tinyurl.com/my-alias");
}

#[test]
fn missing_reply_is_said_with_its_cause() {
    let cause = "connection refused".to_string();
    let shown = report(false, Err(ShortenError::Network(cause)));
    assert_eq!(NO_REPLY, "the request failed: ");
    assert_eq!(
        shown,
        Report { line: "the request failed: connection refused".to_string(), status: 1 }
    );
    let shown = report(true, Err(ShortenError::Network(String::new())));
    assert_eq!(shown, Report { line: "the request failed: ".to_string(), status: 1 });
}

#[test]
fn unusable_endpoint_is_said() {
    let shown = report(false, Err(ShortenError::Configuration));
    assert_eq!(NO_ENDPOINT, "the service endpoint is not a usable URL");
    assert_eq!(
        shown,
        Report { line: "the service endpoint is not a usable URL".to_string(), status: 1 }
    );
    assert_eq!(report(true, Err(ShortenError::Configuration)), shown);
}

#[test]
fn every_error_ends_with_a_line_and_a_failure_status() {
    let errors = vec![
        ShortenError::Configuration,
        ShortenError::Network("timed out".to_string()),
        ShortenError::Rejected,
    ];
    for error in errors {
        let shown = report(false, Err(error));
        assert!(!shown.line.is_empty());
        assert_ne!(shown.status, 0);
    }
}
