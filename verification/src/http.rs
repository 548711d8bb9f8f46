//! The replies at the HTTP boundary: which status, redirect and body answer
//! the outcome of a shorten or a resolve request.

use vstd::prelude::*;
use crate::failure::{text_view, Failure};

verus! {

/// Status of a successful shorten request.
pub const OK: u16 = 200;

/// Status of a successful resolve request: a redirect to the target.
pub const SEE_OTHER: u16 = 303;

/// Status for a code without mapping.
pub const NOT_FOUND: u16 = 404;

/// Status for a text that is no target.
pub const UNPROCESSABLE_ENTITY: u16 = 422;

/// Status for every failure that is not the client's.
pub const INTERNAL_SERVER_ERROR: u16 = 500;

/// A reply as plain values.
pub struct Reply {
    /// The status code.
    pub status: u16,
    /// Where the client is sent, for a redirect.
    pub location: Option<String>,
    /// The body text.
    pub body: String,
}

/// A reply with its texts taken by their views.
pub struct ReplyView {
    pub status: u16,
    pub location: Option<Seq<char>>,
    pub body: Seq<char>,
}

impl View for Reply {
    type V = ReplyView;

    open spec fn view(&self) -> ReplyView {
        ReplyView {
            status: self.status,
            location: match self.location {
                Some(text) => Some(text@),
                None => None,
            },
            body: self.body@,
        }
    }
}

/// The reply to a shorten request: the short URL as the body of a 200, a bare
/// 422 for a text that is no target, a bare 500 for every other failure.
pub open spec fn shorten_reply_of(result: Result<Seq<char>, Failure>) -> ReplyView {
    match result {
        Ok(short) => ReplyView { status: OK, location: None, body: short },
        Err(Failure::InvalidUrl) => ReplyView {
            status: UNPROCESSABLE_ENTITY,
            location: None,
            body: Seq::empty(),
        },
        Err(_) => ReplyView { status: INTERNAL_SERVER_ERROR, location: None, body: Seq::empty() },
    }
}

/// The reply to a resolve request: a redirect to the target, a 404 for a code
/// without mapping, a 500 for every other failure. The body of a failure names
/// its class and nothing of the store.
pub open spec fn redirect_reply_of(result: Result<Seq<char>, Failure>) -> ReplyView {
    match result {
        Ok(target) => ReplyView { status: SEE_OTHER, location: Some(target), body: Seq::empty() },
        Err(Failure::NotFound) => ReplyView {
            status: NOT_FOUND,
            location: None,
            body: "Id Not Found"@,
        },
        Err(_) => ReplyView {
            status: INTERNAL_SERVER_ERROR,
            location: None,
            body: "Somenthing went wrong"@,
        },
    }
}

/// Computes the reply to a shorten request from its outcome.
pub fn shorten_reply(result: Result<String, Failure>) -> (reply: Reply)
    ensures
        reply@ == shorten_reply_of(text_view(result)),
{
    match result {
        Ok(short) => Reply { status: OK, location: None, body: short },
        Err(Failure::InvalidUrl) => Reply {
            status: UNPROCESSABLE_ENTITY,
            location: None,
            body: String::new(),
        },
        Err(_) => Reply { status: INTERNAL_SERVER_ERROR, location: None, body: String::new() },
    }
}

/// Computes the reply to a resolve request from its outcome.
pub fn redirect_reply(result: Result<String, Failure>) -> (reply: Reply)
    ensures
        reply@ == redirect_reply_of(text_view(result)),
{
    match result {
        Ok(target) => Reply { status: SEE_OTHER, location: Some(target), body: String::new() },
        Err(Failure::NotFound) => Reply {
            status: NOT_FOUND,
            location: None,
            body: "Id Not Found".to_owned(),
        },
        Err(_) => Reply {
            status: INTERNAL_SERVER_ERROR,
            location: None,
            body: "Somenthing went wrong".to_owned(),
        },
    }
}

} // verus!
