//! Answers to the requests that the bot serves.
use vstd::prelude::*;

use crate::json::{Json, JsonView};

verus! {

/// An answer to a request.
pub enum HttpReply {
    /// Status 200, with a text.
    Text(String),
    /// Status 200, with a JSON value.
    Value(Json),
    /// Status 204, with nothing.
    NoContent,
    /// Status 400, with nothing.
    Rejected,
    /// Status 400, with a message.
    BadRequest(String),
    /// Status 404, with a message.
    NotFound(String),
}

/// An answer over mathematical values.
pub enum ReplyView {
    Text(Seq<char>),
    Value(JsonView),
    NoContent,
    Rejected,
    BadRequest(Seq<char>),
    NotFound(Seq<char>),
}

impl View for HttpReply {
    type V = ReplyView;

    open spec fn view(&self) -> ReplyView {
        match *self {
            HttpReply::Text(text) => ReplyView::Text(text@),
            HttpReply::Value(value) => ReplyView::Value(value@),
            HttpReply::NoContent => ReplyView::NoContent,
            HttpReply::Rejected => ReplyView::Rejected,
            HttpReply::BadRequest(message) => ReplyView::BadRequest(message@),
            HttpReply::NotFound(message) => ReplyView::NotFound(message@),
        }
    }
}

impl ReplyView {
    /// The status of the answer.
    pub open spec fn status(self) -> nat {
        match self {
            ReplyView::Text(_) => 200,
            ReplyView::Value(_) => 200,
            ReplyView::NoContent => 204,
            ReplyView::Rejected => 400,
            ReplyView::BadRequest(_) => 400,
            ReplyView::NotFound(_) => 404,
        }
    }
}

impl HttpReply {
    /// The status of the answer.
    pub fn status_code(&self) -> (r: u16)
        ensures
            r == self@.status(),
    {
        match self {
            HttpReply::Text(_) => 200,
            HttpReply::Value(_) => 200,
            HttpReply::NoContent => 204,
            HttpReply::Rejected => 400,
            HttpReply::BadRequest(_) => 400,
            HttpReply::NotFound(_) => 404,
        }
    }
}

/// An answer is seen whole, and its status is that of its kind.
pub proof fn law_answers_are_seen_whole(reply: HttpReply)
    ensures
        match reply {
            HttpReply::Text(text) => reply@ == ReplyView::Text(text@) && reply@.status() == 200,
            HttpReply::Value(value) => reply@ == ReplyView::Value(value@) && reply@.status() == 200,
            HttpReply::NoContent => reply@ == ReplyView::NoContent && reply@.status() == 204,
            HttpReply::Rejected => reply@ == ReplyView::Rejected && reply@.status() == 400,
            HttpReply::BadRequest(message) => reply@ == ReplyView::BadRequest(message@)
                && reply@.status() == 400,
            HttpReply::NotFound(message) => reply@ == ReplyView::NotFound(message@)
                && reply@.status() == 404,
        },
{
}

} // verus!
