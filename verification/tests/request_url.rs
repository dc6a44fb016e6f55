use tinyurl::request::ENDPOINT;
use tinyurl::ShortenError;
use tinyurl::TinyURL;
use url::Url;

#[test]
fn test_builder() {
    let short = TinyURL::new("https://example.com").request_url();
    assert!(short.is_ok());
}

#[test]
fn test_with_alias() {
    let short = TinyURL::new("https://example.com")
        .alias("some-random-nickname")
        .request_url();
    assert!(short.is_ok());
}

#[test]
fn request_without_alias_is_the_endpoint_and_the_url_parameter() {
    let request = TinyURL::new("https://example.com").request_url();
    assert_eq!(
        request,
        Ok("https://tinyurl.com/api-create.php?url=https%3A%2F%2Fexample.com".to_string())
    );
}

#[test]
fn request_with_alias_has_both_parameters() {
    let request = TinyURL::new("https://example.com").alias("abcde").request_url();
    assert_eq!(
        request,
        Ok("https://tinyurl.com/api-create.php?url=https%3A%2F%2Fexample.com&alias=abcde"
            .to_string())
    );
}

#[test]
fn request_with_long_alias() {
    let request = TinyURL::new("https://example.com")
        .alias("some-random-nickname")
        .request_url();
    assert_eq!(
        request,
        Ok(
            "https://tinyurl.com/api-create.php?url=https%3A%2F%2Fexample.com&alias=some-random-nickname"
                .to_string()
        )
    );
}

#[test]
fn request_starts_with_the_endpoint() {
    let request = TinyURL::new("x").request_url().unwrap();
    assert_eq!(ENDPOINT, "https://tinyurl.com/api-create.php");
    assert_eq!(request, format!("{}?url=x", ENDPOINT));
}

#[test]
fn plain_bytes_are_written_as_they_stand() {
    let request = TinyURL::new("AZaz09*-._").request_url().unwrap();
    assert_eq!(request, "https://tinyurl.com/api-create.php?url=AZaz09*-._");
}

#[test]
fn space_is_written_as_plus_and_plus_as_percent() {
    let request = TinyURL::new("a b+c").request_url().unwrap();
    assert_eq!(request, "https://tinyurl.com/api-create.php?url=a+b%2Bc");
}

#[test]
fn dividing_characters_are_percent_encoded() {
    let request = TinyURL::new("a&b=c?d#e%f").alias("x&y=z").request_url().unwrap();
    assert_eq!(
        request,
        "https://tinyurl.com/api-create.php?url=a%26b%3Dc%3Fd%23e%25f&alias=x%26y%3Dz"
    );
}

#[test]
fn bytes_next_to_the_plain_ranges_are_percent_encoded() {
    let request = TinyURL::new("/:@[`{~,").request_url().unwrap();
    assert_eq!(
        request,
        "https://tinyurl.com/api-create.php?url=%2F%3A%40%5B%60%7B%7E%2C"
    );
}

#[test]
fn text_beyond_ascii_is_written_by_its_utf8_bytes() {
    let request = TinyURL::new("\u{c9}t\u{e9}").alias("\u{20ac}5\u{1f600}").request_url().unwrap();
    assert_eq!(
        request,
        "https://tinyurl.com/api-create.php?url=%C3%89t%C3%A9&alias=%E2%82%AC5%F0%9F%98%80"
    );
}

#[test]
fn control_bytes_have_two_upper_case_digits() {
    let request = TinyURL::new("\u{0}\n\u{1f}\u{7f}").request_url().unwrap();
    assert_eq!(request, "https://tinyurl.com/api-create.php?url=%00%0A%1F%7F");
}

#[test]
fn empty_alias_is_still_a_parameter() {
    let request = TinyURL::new("https://example.com").alias("").request_url().unwrap();
    assert_eq!(
        request,
        "https://tinyurl.com/api-create.php?url=https%3A%2F%2Fexample.com&alias="
    );
}

#[test]
fn default_request_is_for_google() {
    let request = TinyURL::default().request_url();
    assert_eq!(
        request,
        Ok("https://tinyurl.com/api-create.php?url=https%3A%2F%2Fgoogle.com".to_string())
    );
}

#[test]
fn default_request_takes_an_alias() {
    let request = TinyURL::default().alias("start").request_url().unwrap();
    assert_eq!(
        request,
        "https://tinyurl.com/api-create.php?url=https%3A%2F%2Fgoogle.com&alias=start"
    );
}

#[test]
fn last_alias_wins() {
    let twice = TinyURL::new("https://example.com")
        .alias("first-one")
        .alias("second-one")
        .request_url()
        .unwrap();
    let once = TinyURL::new("https://example.com")
        .alias("second-one")
        .request_url()
        .unwrap();
    assert_eq!(twice, once);
    assert_eq!(
        twice,
        "https://tinyurl.com/api-create.php?url=https%3A%2F%2Fexample.com&alias=second-one"
    );
    assert!(!twice.contains("first-one"));
}

#[test]
fn request_on_the_parsed_endpoint_is_the_request_url() {
    let request = TinyURL::new("https://example.com").alias("abcde");
    let built = request.request_from(Url::parse(ENDPOINT));
    assert_eq!(built, request.request_url());
    assert_eq!(
        built,
        Ok("https://tinyurl.com/api-create.php?url=https%3A%2F%2Fexample.com&alias=abcde"
            .to_string())
    );
}

#[test]
fn text_that_is_no_url_is_a_configuration_error() {
    let request = TinyURL::new("https://example.com");
    let built = request.request_from(Url::parse("not a url"));
    assert_eq!(built, Err(ShortenError::Configuration));
}

#[test]
fn another_url_is_a_configuration_error() {
    let request = TinyURL::new("https://example.com");
    assert_eq!(
        request.request_from(Url::parse("https://tinyurl.com/api-create.php?lang=fr")),
        Err(ShortenError::Configuration)
    );
    assert_eq!(
        request.request_from(Url::parse("https://tinyurl.com/api-create.php#top")),
        Err(ShortenError::Configuration)
    );
    assert_eq!(
        request.request_from(Url::parse("https://example.net/")),
        Err(ShortenError::Configuration)
    );
}

#[test]
fn text_that_the_parser_writes_as_the_endpoint_is_the_endpoint() {
    let request = TinyURL::new("https://example.com");
    let rewritten = Url::parse("HTTPS://TinyURL.com/api-create.php");
    assert_eq!(
        request.request_from(rewritten),
        Ok("https://tinyurl.com/api-create.php?url=https%3A%2F%2Fexample.com".to_string())
    );
}
