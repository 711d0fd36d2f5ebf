//! Events that the chat service reports to the bot.
use vstd::prelude::*;

use crate::json::{lemma_one_member, object_of_one, value_as_str, value_member, value_of_string, Json, JsonView};
use crate::message::outcome_view;
use crate::reply::{HttpReply, ReplyView};
use crate::text::same_text;

verus! {

/// What the bot does about an event.
pub enum FeishuStep {
    /// Answer the service.
    Respond(HttpReply),
    /// See to a message from a chat, and send the reply to that chat.
    Message { chat_id: String, content: String },
}

/// What the bot does about an event, over mathematical values.
pub enum FeishuStepView {
    Respond(ReplyView),
    Message { chat_id: Seq<char>, content: Seq<char> },
}

impl View for FeishuStep {
    type V = FeishuStepView;

    open spec fn view(&self) -> FeishuStepView {
        match *self {
            FeishuStep::Respond(reply) => FeishuStepView::Respond(reply@),
            FeishuStep::Message { chat_id, content } => FeishuStepView::Message {
                chat_id: chat_id@,
                content: content@,
            },
        }
    }
}

/// The step that refuses an event with a message.
pub open spec fn refuse(message: Seq<char>) -> FeishuStepView {
    FeishuStepView::Respond(ReplyView::BadRequest(message))
}

/// The service asks the bot to prove that it listens.
pub open spec fn is_verification(info: JsonView) -> bool {
    info.member("type"@).as_str() == Some("url_verification"@)
}

/// The answer to a verification: the challenge, sent back.
pub open spec fn verification_step(info: JsonView) -> FeishuStepView {
    match info.member("challenge"@).as_str() {
        Some(challenge) => FeishuStepView::Respond(
            ReplyView::Value(JsonView::Object(seq![("challenge"@, JsonView::Str(challenge))])),
        ),
        None => refuse("No challenge in request"@),
    }
}

/// The step about a message event.
pub open spec fn message_event_step(info: JsonView) -> FeishuStepView {
    let message = info.member("event"@).member("message"@);
    match message.member("content"@).as_str() {
        None => refuse("No message content in request"@),
        Some(content) => match message.member("chat_id"@).as_str() {
            None => refuse("No chat id in request"@),
            Some(chat_id) => FeishuStepView::Message { chat_id, content },
        },
    }
}

/// What to do about an event.
pub open spec fn feishu_step(info: JsonView) -> FeishuStepView {
    if is_verification(info) {
        verification_step(info)
    } else {
        match info.member("schema"@).as_str() {
            None => refuse("No schema in request"@),
            Some(schema) => if schema != "2.0"@ {
                refuse("Unsupported schema"@)
            } else {
                match info.member("header"@).member("event_type"@).as_str() {
                    None => refuse("No event type in request"@),
                    Some(event_type) => if event_type == "im.message.receive_v1"@ {
                        message_event_step(info)
                    } else {
                        FeishuStepView::Respond(ReplyView::Text("Unsupported event type"@))
                    },
                }
            },
        }
    }
}

fn refused(message: &str) -> (r: FeishuStep)
    ensures
        r@ == refuse(message@),
{
    FeishuStep::Respond(HttpReply::BadRequest(message.to_string()))
}

/// What to do about an event that the service reports.
pub fn feishu_handler(info: &Json) -> (r: FeishuStep)
    ensures
        r@ == feishu_step(info@),
        r matches FeishuStep::Message { chat_id, content } ==> {
            let message = info@.member("event"@).member("message"@);
            &&& message.member("chat_id"@).as_str() == Some(chat_id@)
            &&& message.member("content"@).as_str() == Some(content@)
        },
{
    let verification = match value_as_str(value_member(&info.value, "type")) {
        Some(kind) => same_text(kind, "url_verification"),
        None => false,
    };
    if verification {
        return match value_as_str(value_member(&info.value, "challenge")) {
            Some(challenge) => FeishuStep::Respond(
                HttpReply::Value(
                    Json {
                        value: object_of_one("challenge", value_of_string(challenge.to_string())),
                    },
                ),
            ),
            None => refused("No challenge in request"),
        };
    }
    match value_as_str(value_member(&info.value, "schema")) {
        None => return refused("No schema in request"),
        Some(schema) => {
            if !same_text(schema, "2.0") {
                return refused("Unsupported schema");
            }
        },
    }
    let event_type = match value_as_str(
        value_member(value_member(&info.value, "header"), "event_type"),
    ) {
        None => return refused("No event type in request"),
        Some(event_type) => event_type,
    };
    if !same_text(event_type, "im.message.receive_v1") {
        return FeishuStep::Respond(HttpReply::Text("Unsupported event type".to_string()));
    }
    let message = value_member(value_member(&info.value, "event"), "message");
    match value_as_str(value_member(message, "content")) {
        None => refused("No message content in request"),
        Some(content) => match value_as_str(value_member(message, "chat_id")) {
            None => refused("No chat id in request"),
            Some(chat_id) => FeishuStep::Message {
                chat_id: chat_id.to_string(),
                content: content.to_string(),
            },
        },
    }
}

/// The answer to a message event, by what came of sending the reply to the chat.
pub open spec fn sent_reply(content: Seq<char>, outcome: Result<(), Seq<char>>) -> ReplyView {
    match outcome {
        Ok(_) => ReplyView::Text("Received message: "@ + content),
        Err(error) => ReplyView::BadRequest("Failed to send message: "@ + error),
    }
}

/// The answer to a message event, by what came of sending the reply to the chat.
pub fn reply_sent(content: &str, outcome: Result<(), String>) -> (r: HttpReply)
    ensures
        r@ == sent_reply(content@, outcome_view(outcome)),
        match outcome {
            Ok(_) => r matches HttpReply::Text(text) && text@ == "Received message: "@ + content@,
            Err(error) => r matches HttpReply::BadRequest(message) && message@
                == "Failed to send message: "@ + error@,
        },
{
    match outcome {
        Ok(_) => HttpReply::Text("Received message: ".to_string().concat(content)),
        Err(error) => HttpReply::BadRequest(
            "Failed to send message: ".to_string().concat(error.as_str()),
        ),
    }
}

/// The event reports a message: it is no verification, has the schema 2.0, is of the type
/// that reports messages, and tells the content and the chat.
pub open spec fn is_message_event(info: JsonView) -> bool {
    let message = info.member("event"@).member("message"@);
    &&& !is_verification(info)
    &&& info.member("schema"@).as_str() == Some("2.0"@)
    &&& info.member("header"@).member("event_type"@).as_str() == Some("im.message.receive_v1"@)
    &&& message.member("content"@).as_str() is Some
    &&& message.member("chat_id"@).as_str() is Some
}

/// A challenge is sent back as it came, whatever else the request holds.
pub proof fn law_challenge_is_sent_back(info: JsonView, challenge: Seq<char>)
    requires
        info.member("type"@).as_str() == Some("url_verification"@),
        info.member("challenge"@).as_str() == Some(challenge),
    ensures
        feishu_step(info) matches FeishuStepView::Respond(ReplyView::Value(value)) && {
            &&& value.member("challenge"@).as_str() == Some(challenge)
            &&& value matches JsonView::Object(entries) && entries.len() == 1
        },
{
    lemma_one_member("challenge"@, JsonView::Str(challenge));
}

/// A message is served exactly if the event reports one, with the content and the chat that
/// the event tells.
pub proof fn law_only_message_events_are_served(
    info: JsonView,
    chat_id: Seq<char>,
    content: Seq<char>,
)
    ensures
        feishu_step(info) == (FeishuStepView::Message { chat_id, content }) <==> {
            let message = info.member("event"@).member("message"@);
            &&& info.member("type"@).as_str() != Some("url_verification"@)
            &&& info.member("schema"@).as_str() == Some("2.0"@)
            &&& info.member("header"@).member("event_type"@).as_str() == Some(
                "im.message.receive_v1"@,
            )
            &&& message.member("content"@).as_str() == Some(content)
            &&& message.member("chat_id"@).as_str() == Some(chat_id)
        },
{
}

/// An event that is no verification and lacks the schema 2.0 is refused.
pub proof fn law_schema_is_required(info: JsonView)
    requires
        info.member("type"@).as_str() != Some("url_verification"@),
        info.member("schema"@).as_str() != Some("2.0"@),
    ensures
        feishu_step(info) matches FeishuStepView::Respond(reply) && reply.status() == 400,
{
}

/// An event is refused with the message that names the first thing that is wrong with it,
/// and an event of another type is passed over.
pub proof fn law_refusals_name_their_reason(info: JsonView)
    ensures
        ({
            let step = feishu_step(info);
            let verifies = info.member("type"@).as_str() == Some("url_verification"@);
            let schema = info.member("schema"@).as_str();
            let event_type = info.member("header"@).member("event_type"@).as_str();
            let message = info.member("event"@).member("message"@);
            let reports = !verifies && schema == Some("2.0"@) && event_type == Some(
                "im.message.receive_v1"@,
            );
            &&& verifies && info.member("challenge"@).as_str() is None ==> step
                == FeishuStepView::Respond(ReplyView::BadRequest("No challenge in request"@))
            &&& !verifies && schema is None ==> step == FeishuStepView::Respond(
                ReplyView::BadRequest("No schema in request"@),
            )
            &&& !verifies && schema is Some && schema != Some("2.0"@) ==> step
                == FeishuStepView::Respond(ReplyView::BadRequest("Unsupported schema"@))
            &&& !verifies && schema == Some("2.0"@) && event_type is None ==> step
                == FeishuStepView::Respond(ReplyView::BadRequest("No event type in request"@))
            &&& !verifies && schema == Some("2.0"@) && event_type is Some && event_type != Some(
                "im.message.receive_v1"@,
            ) ==> step == FeishuStepView::Respond(ReplyView::Text("Unsupported event type"@))
            &&& reports && message.member("content"@).as_str() is None ==> step
                == FeishuStepView::Respond(ReplyView::BadRequest("No message content in request"@))
            &&& reports && message.member("content"@).as_str() is Some && message.member(
                "chat_id"@,
            ).as_str() is None ==> step == FeishuStepView::Respond(
                ReplyView::BadRequest("No chat id in request"@),
            )
        }),
{
}

/// The service is told the whole message that was received, or the whole error.
pub proof fn law_receipt_is_told(content: Seq<char>, error: Seq<char>)
    ensures
        sent_reply(content, Ok(())) == ReplyView::Text("Received message: "@ + content),
        sent_reply(content, Err(error)) == ReplyView::BadRequest(
            "Failed to send message: "@ + error,
        ),
{
}

/// What is done about an event is seen whole.
pub proof fn law_feishu_steps_are_seen_whole(step: FeishuStep)
    ensures
        match step {
            FeishuStep::Respond(reply) => step@ == FeishuStepView::Respond(reply@),
            FeishuStep::Message { chat_id, content } => step@ == (FeishuStepView::Message {
                chat_id: chat_id@,
                content: content@,
            }),
        },
{
}

} // verus!
