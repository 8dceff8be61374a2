//! Answers to requests.

use vstd::prelude::*;
use vstd::string::*;

use crate::json::{field, Json, JsonView};

verus! {

/// A status code and a JSON body.
#[derive(Debug)]
pub struct Reply {
    pub status: u16,
    pub body: Json,
}

/// The content of a reply.
#[verifier::ext_equal]
pub struct ReplyView {
    pub status: u16,
    pub body: JsonView,
}

impl View for Reply {
    type V = ReplyView;

    open spec fn view(&self) -> ReplyView {
        ReplyView { status: self.status, body: self.body@ }
    }
}

/// The body `{"error": message}`.
pub open spec fn error_body(message: Seq<char>) -> JsonView {
    JsonView::Object(seq![("error"@, JsonView::Text(message))])
}

/// The body `{"error": error, "message": message}`.
pub open spec fn error_message_body(error: Seq<char>, message: Seq<char>) -> JsonView {
    JsonView::Object(
        seq![("error"@, JsonView::Text(error)), ("message"@, JsonView::Text(message))],
    )
}

/// A refusal with an error text.
pub open spec fn refusal(status: u16, message: Seq<char>) -> ReplyView {
    ReplyView { status, body: error_body(message) }
}

/// A refusal with an error code and a message.
pub open spec fn refusal_with_message(
    status: u16,
    error: Seq<char>,
    message: Seq<char>,
) -> ReplyView {
    ReplyView { status, body: error_message_body(error, message) }
}

/// A refusal with an error text.
pub fn error_reply(status: u16, message: &str) -> (r: Reply)
    ensures
        r@ == refusal(status, message@),
{
    let r = Reply { status, body: Json::Object(vec![field("error", Json::text(message))]) };
    assert(r.body@->Object_0 =~= error_body(message@)->Object_0);
    r
}

/// A refusal with an error code and a message.
pub fn error_message_reply(status: u16, error: &str, message: &str) -> (r: Reply)
    ensures
        r@ == refusal_with_message(status, error@, message@),
{
    let r = Reply {
        status,
        body: Json::Object(
            vec![field("error", Json::text(error)), field("message", Json::text(message))],
        ),
    };
    assert(r.body@->Object_0 =~= error_message_body(error@, message@)->Object_0);
    r
}

/// A refusal says why in its field `error`.
pub proof fn refusals_say_why(status: u16, message: &str, r: Reply)
    requires
        call_ensures(error_reply, (status, message), r),
    ensures
        r@.status == status,
        crate::json::get_view(r@.body, "error"@) == Some(JsonView::Text(message@)),
{
    crate::json::first_field_is_found(r@.body->Object_0, "error"@, 0);
}

/// A refusal with a message says why in its field `error` and the message beside it.
pub proof fn refusals_bring_messages(status: u16, error: &str, message: &str, r: Reply)
    requires
        call_ensures(error_message_reply, (status, error, message), r),
    ensures
        r@.status == status,
        crate::json::get_view(r@.body, "error"@) == Some(JsonView::Text(error@)),
        crate::json::get_view(r@.body, "message"@) == Some(JsonView::Text(message@)),
{
    reveal_strlit("error");
    reveal_strlit("message");
    assert("error"@.len() == 5);
    assert("message"@.len() == 7);
    crate::json::first_field_is_found(r@.body->Object_0, "error"@, 0);
    crate::json::first_field_is_found(r@.body->Object_0, "message"@, 1);
}

} // verus!
