use url_shortener::failure::Failure;
use url_shortener::http::{
    redirect_reply, shorten_reply, INTERNAL_SERVER_ERROR, NOT_FOUND, OK, SEE_OTHER,
    UNPROCESSABLE_ENTITY,
};

#[test]
fn status_codes() {
    assert_eq!(OK, 200);
    assert_eq!(SEE_OTHER, 303);
    assert_eq!(NOT_FOUND, 404);
    assert_eq!(UNPROCESSABLE_ENTITY, 422);
    assert_eq!(INTERNAL_SERVER_ERROR, 500);
}

#[test]
fn a_short_url_is_the_body_of_a_200() {
    let reply = shorten_reply(Ok("http://localhost:3000/abC123".to_string()));
    assert_eq!(reply.status, 200);
    assert_eq!(reply.location, None);
    assert_eq!(reply.body, "http://localhost:3000/abC123");
}

#[test]
fn an_invalid_url_is_a_422() {
    let reply = shorten_reply(Err(Failure::InvalidUrl));
    assert_eq!(reply.status, 422);
    assert_eq!(reply.location, None);
    assert_eq!(reply.body, "");
}

#[test]
fn every_other_shorten_failure_is_a_500() {
    for failure in [
        Failure::Storage,
        Failure::GenerationExhausted,
        Failure::Conflict,
        Failure::NotFound,
    ] {
        let reply = shorten_reply(Err(failure));
        assert_eq!(reply.status, 500);
        assert_eq!(reply.location, None);
        assert_eq!(reply.body, "");
    }
}

#[test]
fn a_target_is_a_redirect() {
    let reply = redirect_reply(Ok("https://example.com/page".to_string()));
    assert_eq!(reply.status, 303);
    assert_eq!(reply.location, Some("https://example.com/page".to_string()));
    assert_eq!(reply.body, "");
}

#[test]
fn an_unknown_code_is_a_404() {
    let reply = redirect_reply(Err(Failure::NotFound));
    assert_eq!(reply.status, 404);
    assert_eq!(reply.location, None);
    assert_eq!(reply.body, "Id Not Found");
}

#[test]
fn every_other_resolve_failure_is_a_500() {
    for failure in [
        Failure::Storage,
        Failure::GenerationExhausted,
        Failure::Conflict,
        Failure::InvalidUrl,
    ] {
        let reply = redirect_reply(Err(failure));
        assert_eq!(reply.status, 500);
        assert_eq!(reply.location, None);
        assert_eq!(reply.body, "Somenthing went wrong");
    }
}
