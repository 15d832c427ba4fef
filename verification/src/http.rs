//! What the HTTP boundary is told: one reply per request, and its status.

use crate::alias::is_alias;
use crate::service::{link_view, resolve_spec, shorten_spec, url_view, Error, ShortLink, Shortener};
use crate::validate::has_scheme;
use vstd::prelude::*;

verus! {

/// A mapping was created.
pub const CREATED: u16 = 201;

/// The visitor is sent on to the long URL, for good.
pub const MOVED_PERMANENTLY: u16 = 301;

/// The text to shorten is malformed.
pub const BAD_REQUEST: u16 = 400;

/// The alias is unknown.
pub const NOT_FOUND: u16 = 404;

/// The alias that was drawn is taken.
pub const CONFLICT: u16 = 409;

/// The storage failed.
pub const INTERNAL_SERVER_ERROR: u16 = 500;

/// The status with which each kind of failure is reported.
pub open spec fn error_status(error: Error) -> u16 {
    match error {
        Error::InvalidInput => BAD_REQUEST,
        Error::AliasCollision => CONFLICT,
        Error::NotFound => NOT_FOUND,
        Error::StorageError => INTERNAL_SERVER_ERROR,
    }
}

impl Error {
    /// The status with which this failure is reported.
    pub fn status(&self) -> (code: u16)
        ensures
            code == error_status(*self),
    {
        match self {
            Error::InvalidInput => BAD_REQUEST,
            Error::AliasCollision => CONFLICT,
            Error::NotFound => NOT_FOUND,
            Error::StorageError => INTERNAL_SERVER_ERROR,
        }
    }
}

/// The answer to one request.
#[derive(Clone, Debug)]
pub enum Reply {
    /// A mapping was created; the body carries the short link.
    Created { short_url: String },
    /// The alias is known; the visitor is sent on for good.
    MovedPermanently { location: String },
    /// The request failed; there is no body.
    Failed { error: Error },
}

/// A reply with its texts as sequences of characters.
pub enum ReplyView {
    Created { short_url: Seq<char> },
    MovedPermanently { location: Seq<char> },
    Failed { error: Error },
}

impl View for Reply {
    type V = ReplyView;

    open spec fn view(&self) -> ReplyView {
        match *self {
            Reply::Created { short_url } => ReplyView::Created { short_url: short_url@ },
            Reply::MovedPermanently { location } => ReplyView::MovedPermanently {
                location: location@,
            },
            Reply::Failed { error } => ReplyView::Failed { error },
        }
    }
}

/// The status line of a reply.
pub open spec fn reply_status(reply: ReplyView) -> u16 {
    match reply {
        ReplyView::Created { .. } => CREATED,
        ReplyView::MovedPermanently { .. } => MOVED_PERMANENTLY,
        ReplyView::Failed { error } => error_status(error),
    }
}

/// The reply to a shortening that ended in `r`.
pub open spec fn shorten_reply_spec(r: Result<(Seq<char>, Seq<char>), Error>) -> ReplyView {
    match r {
        Ok(link) => ReplyView::Created { short_url: link.1 },
        Err(error) => ReplyView::Failed { error },
    }
}

/// The reply to a lookup that ended in `r`.
pub open spec fn redirect_reply_spec(r: Result<Seq<char>, Error>) -> ReplyView {
    match r {
        Ok(url) => ReplyView::MovedPermanently { location: url },
        Err(error) => ReplyView::Failed { error },
    }
}

impl Reply {
    /// The status line of this reply.
    pub fn status(&self) -> (code: u16)
        ensures
            code == reply_status(self@),
    {
        match self {
            Reply::Created { .. } => CREATED,
            Reply::MovedPermanently { .. } => MOVED_PERMANENTLY,
            Reply::Failed { error } => error.status(),
        }
    }
}

/// Words the result of a shortening as a reply.
pub fn shorten_reply(r: Result<ShortLink, Error>) -> (reply: Reply)
    ensures
        reply@ == shorten_reply_spec(link_view(r)),
{
    match r {
        Ok(link) => Reply::Created { short_url: link.short_url },
        Err(error) => Reply::Failed { error },
    }
}

/// Words the result of a resolution as a reply.
pub fn redirect_reply(r: Result<String, Error>) -> (reply: Reply)
    ensures
        reply@ == redirect_reply_spec(url_view(r)),
{
    match r {
        Ok(location) => Reply::MovedPermanently { location },
        Err(error) => Reply::Failed { error },
    }
}

/// Answers a request to shorten the text `url`.
pub fn shorten_handler(service: &mut Shortener, url: &str) -> (reply: Reply)
    ensures
        final(service).base_url_text() == old(service).base_url_text(),
        exists|alias: Seq<char>|
            #![trigger is_alias(alias)]
            {
                &&& is_alias(alias)
                &&& final(service)@ == shorten_spec(
                    old(service)@,
                    old(service).base_url_text(),
                    url@,
                    alias,
                ).0
                &&& reply@ == shorten_reply_spec(
                    shorten_spec(old(service)@, old(service).base_url_text(), url@, alias).1,
                )
            },
        !has_scheme(url@) ==> reply@ == (ReplyView::Failed { error: Error::InvalidInput }),
{
    shorten_reply(service.shorten(url))
}

/// Answers a visit to the short link of `alias`.
pub fn redirect_handler(service: &Shortener, alias: &str) -> (reply: Reply)
    ensures
        reply@ == redirect_reply_spec(resolve_spec(service@, alias@)),
{
    redirect_reply(service.resolve(alias))
}

} // verus!
