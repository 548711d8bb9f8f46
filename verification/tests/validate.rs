use url_shortener::failure::Failure;
use url_shortener::validate::{has_authority, validate};

fn canonical(raw: &str) -> Result<String, Failure> {
    validate(raw).map(|t| t.as_str().to_string())
}

#[test]
fn accepts_a_plain_https_target() {
    assert_eq!(canonical("https://example.com/page"), Ok("https://example.com/page".to_string()));
}

#[test]
fn normalizes_scheme_and_host_casing() {
    assert_eq!(canonical("HTTPS://EXAMPLE.com/Page?Q=1"), Ok("https://example.com/Page?Q=1".to_string()));
}

#[test]
fn adds_the_root_path_to_a_bare_host() {
    assert_eq!(canonical("https://a.com"), Ok("https://a.com/".to_string()));
}

#[test]
fn rejects_text_that_is_no_url() {
    assert_eq!(canonical("not-a-url"), Err(Failure::InvalidUrl));
}

#[test]
fn rejects_the_empty_text() {
    assert_eq!(canonical(""), Err(Failure::InvalidUrl));
}

#[test]
fn rejects_a_scheme_without_host() {
    assert_eq!(canonical("ftp:bad"), Err(Failure::InvalidUrl));
}

#[test]
fn rejects_a_relative_path() {
    assert_eq!(canonical("/just/a/path"), Err(Failure::InvalidUrl));
    assert_eq!(canonical("//example.com/page"), Err(Failure::InvalidUrl));
}

#[test]
fn rejects_urls_without_host() {
    assert_eq!(canonical("mailto:someone@example.com"), Err(Failure::InvalidUrl));
    assert_eq!(canonical("data:text/plain,Stuff"), Err(Failure::InvalidUrl));
    assert_eq!(canonical("file:///etc/hosts"), Err(Failure::InvalidUrl));
    assert_eq!(canonical("unix:/run/foo.socket"), Err(Failure::InvalidUrl));
}

#[test]
fn rejects_an_empty_host() {
    assert_eq!(canonical("https://"), Err(Failure::InvalidUrl));
    assert_eq!(canonical("https://?q=1"), Err(Failure::InvalidUrl));
    assert_eq!(canonical("https://:8080/page"), Err(Failure::InvalidUrl));
}

#[test]
fn rejects_a_host_that_only_a_lenient_reading_finds() {
    assert_eq!(canonical("https:example.com"), Err(Failure::InvalidUrl));
    assert_eq!(canonical("https:/example.com"), Err(Failure::InvalidUrl));
    assert_eq!(canonical("http:\\\\example.com"), Err(Failure::InvalidUrl));
}

#[test]
fn keeps_path_and_query_as_they_are() {
    assert_eq!(
        canonical("http://Example.COM:8080/A/b/../c?x=Y&z=%7e#Frag"),
        Ok("http://example.com:8080/A/c?x=Y&z=%7e#Frag".to_string())
    );
}

#[test]
fn equivalent_spellings_share_one_canonical_form() {
    assert_eq!(canonical("HTTP://EXAMPLE.COM"), canonical("http://example.com/"));
    assert_eq!(canonical("  https://example.com/page  "), canonical("https://example.com/page"));
}

#[test]
fn accepts_other_schemes_with_a_host() {
    assert_eq!(canonical("ftp://rms@example.com/pub"), Ok("ftp://rms@example.com/pub".to_string()));
    assert_eq!(canonical("git://host.example/repo"), Ok("git://host.example/repo".to_string()));
}

#[test]
fn a_validated_target_can_be_duplicated() {
    let target = validate("https://example.com/page").unwrap();
    let twin = target.duplicate();
    assert_eq!(twin.as_str(), target.as_str());
}

#[test]
fn authority_is_read_from_the_text() {
    assert!(has_authority("https://example.com"));
    assert!(has_authority("a://"));
    assert!(!has_authority("ftp:bad"));
    assert!(!has_authority("https:/example.com"));
    assert!(!has_authority("https:"));
    assert!(!has_authority("https:/"));
    assert!(!has_authority("no colon here //"));
    assert!(!has_authority("a:b://c"));
    assert!(!has_authority(""));
}

#[test]
fn writes_an_international_host_in_ascii() {
    assert_eq!(
        canonical("https://M\u{dc}NCHEN.de/stra\u{df}e"),
        Ok("https://xn--mnchen-3ya.de/stra%C3%9Fe".to_string())
    );
}

#[test]
fn authority_is_found_behind_text_that_is_not_ascii() {
    assert!(has_authority("\u{e9}\u{e8}://x"));
    assert!(!has_authority("\u{e9}\u{e8}:/x"));
    assert!(!has_authority("\u{4e2d}\u{6587}:x//"));
}

#[test]
fn a_long_text_without_colon_is_rejected() {
    let text = "a".repeat(200_000);
    assert!(!has_authority(&text));
    assert_eq!(canonical(&text), Err(Failure::InvalidUrl));
}
