//! Messages that chats send to the bot, and its replies.
//!
//! A reply may need the database or the state of the machine. A [`MessageStep`] then says
//! what is to be looked up or changed, and the function that takes the outcome goes on
//! from there.
use vstd::prelude::*;

use crate::command::{
    command_of, law_padding_is_ignored, law_written_commands, parse_command, Command, CommandView,
};
use crate::json::{
    json_parsed, json_text, lemma_one_member, object_of_one, value_as_str, value_member, value_of_string, yields,
    Json, JsonView,
};
use crate::subscription::{
    rows_view, Row, RowView, Subscription, SubscriptionEvent, SubscriptionView,
};
use crate::text::{is_space, law_trimmed, trim, trimmed};

verus! {

/// A message that the bot sends: its type, and its content as JSON text.
pub enum FeishuNewMessage {
    Text(String),
    Interactive(String),
}

/// A message over mathematical values.
pub enum MessageView {
    Text(Seq<char>),
    Interactive(Seq<char>),
}

impl View for FeishuNewMessage {
    type V = MessageView;

    open spec fn view(&self) -> MessageView {
        match *self {
            FeishuNewMessage::Text(content) => MessageView::Text(content@),
            FeishuNewMessage::Interactive(content) => MessageView::Interactive(content@),
        }
    }
}

impl MessageView {
    /// The content of the message.
    pub open spec fn content(self) -> Seq<char> {
        match self {
            MessageView::Text(content) => content,
            MessageView::Interactive(content) => content,
        }
    }

    /// Reading the content gives this value.
    pub open spec fn reads_as(self, value: JsonView) -> bool {
        yields(json_parsed(self.content()), value)
    }
}

/// The JSON value of a text message.
pub open spec fn text_value(text: Seq<char>) -> JsonView {
    JsonView::Object(seq![("text"@, JsonView::Str(text))])
}

/// The message that says `text`.
pub open spec fn said(text: Seq<char>) -> MessageView {
    MessageView::Text(json_text(text_value(text)))
}

/// Reading the message that says `text` gives back the value that it was written from.
pub open spec fn reads_back(text: Seq<char>) -> bool {
    said(text).reads_as(text_value(text))
}

/// What the bot does next about a message.
pub enum MessageStep {
    /// Send this reply.
    Reply(FeishuNewMessage),
    /// Measure the memory of the process and of the machine.
    Probe,
    /// Look whether this very subscription is stored. Nothing else may change the store until
    /// the step that follows is done.
    Check(Subscription),
    /// Store this subscription, which was not found.
    Insert(Subscription),
    /// Remove one stored subscription that equals this one.
    Remove(Subscription),
    /// Fetch the stored subscriptions of this chat.
    List(String),
}

/// What the bot does next, over mathematical values.
pub enum StepView {
    Reply(MessageView),
    Probe,
    Check(SubscriptionView),
    Insert(SubscriptionView),
    Remove(SubscriptionView),
    List(Seq<char>),
}

impl View for MessageStep {
    type V = StepView;

    open spec fn view(&self) -> StepView {
        match *self {
            MessageStep::Reply(message) => StepView::Reply(message@),
            MessageStep::Probe => StepView::Probe,
            MessageStep::Check(subscription) => StepView::Check(subscription@),
            MessageStep::Insert(subscription) => StepView::Insert(subscription@),
            MessageStep::Remove(subscription) => StepView::Remove(subscription@),
            MessageStep::List(chat_id) => StepView::List(chat_id@),
        }
    }
}

/// What the bot answers to a request for help.
pub const HELP_TEXT: &'static str = "Available commands:
- `@bot help`: Show this help message
- `@bot ping`: Check if the bot is alive
- `@bot subscribe <repo> <pr|issue>`: Subscribe to the events of a repository
- `@bot unsubscribe <repo> <pr|issue>`: Unsubscribe from the events of a repository
- `@bot list`: List all the subscriptions
";

/// The text of a message: its member `text`, and nothing where that is no string.
pub open spec fn text_of(message: JsonView) -> Seq<char> {
    match message.member("text"@).as_str() {
        Some(text) => text,
        None => Seq::empty(),
    }
}

/// What the bot says at once to a command, if it does.
pub open spec fn command_text(command: CommandView) -> Option<Seq<char>> {
    match command {
        CommandView::Help => Some(HELP_TEXT@),
        CommandView::Unsupported => Some("Unsupported command"@),
        _ => None,
    }
}

/// The first step about a command from a chat.
pub open spec fn command_step(chat_id: Seq<char>, command: CommandView) -> StepView {
    match command {
        CommandView::Help => StepView::Reply(said(HELP_TEXT@)),
        CommandView::Ping => StepView::Probe,
        CommandView::Subscribe { repo, event } => StepView::Check(
            SubscriptionView { chat_id, repo, event },
        ),
        CommandView::Unsubscribe { repo, event } => StepView::Remove(
            SubscriptionView { chat_id, repo, event },
        ),
        CommandView::List => StepView::List(chat_id),
        CommandView::Unsupported => StepView::Reply(said("Unsupported command"@)),
    }
}

/// What the bot says at once to a message, if it does, by what its content reads as.
pub open spec fn first_text(content: Result<JsonView, Seq<char>>) -> Option<Seq<char>> {
    match content {
        Ok(message) => command_text(command_of(trimmed(text_of(message)))),
        Err(error) => Some("Failed to parse message: "@ + error),
    }
}

/// The first step about a message from a chat, by what its content reads as.
pub open spec fn message_step(
    chat_id: Seq<char>,
    content: Result<JsonView, Seq<char>>,
) -> StepView {
    match content {
        Ok(message) => command_step(chat_id, command_of(trimmed(text_of(message)))),
        Err(error) => StepView::Reply(said("Failed to parse message: "@ + error)),
    }
}

/// The message that says `text`.
pub fn text_message(text: &str) -> (r: FeishuNewMessage)
    ensures
        r@ == said(text@),
        reads_back(text@),
        r matches FeishuNewMessage::Text(content) && yields(
            json_parsed(content@),
            JsonView::Object(seq![("text"@, JsonView::Str(text@))]),
        ),
{
    let value = Json { value: object_of_one("text", value_of_string(text.to_string())) };
    proof {
        reveal_with_fuel(JsonView::plain, 2);
    }
    FeishuNewMessage::Text(value.to_text())
}

/// The first step about a command from a chat.
pub fn answer_command(chat_id: &str, command: Command) -> (r: MessageStep)
    ensures
        r@ == command_step(chat_id@, command@),
        command_text(command@) matches Some(text) ==> r@ == StepView::Reply(said(text))
            && reads_back(text),
        match command {
            Command::Help => r is Reply,
            Command::Ping => r is Probe,
            Command::Subscribe { repo, event } => r matches MessageStep::Check(wanted)
                && wanted.chat_id@ == chat_id@ && wanted.repo@ == repo@ && wanted.event == event,
            Command::Unsubscribe { repo, event } => r matches MessageStep::Remove(wanted)
                && wanted.chat_id@ == chat_id@ && wanted.repo@ == repo@ && wanted.event == event,
            Command::List => r matches MessageStep::List(wanted) && wanted@ == chat_id@,
            Command::Unsupported => r is Reply,
        },
{
    match command {
        Command::Help => MessageStep::Reply(text_message(HELP_TEXT)),
        Command::Ping => MessageStep::Probe,
        Command::Subscribe { repo, event } => MessageStep::Check(
            Subscription { chat_id: chat_id.to_string(), repo, event },
        ),
        Command::Unsubscribe { repo, event } => MessageStep::Remove(
            Subscription { chat_id: chat_id.to_string(), repo, event },
        ),
        Command::List => MessageStep::List(chat_id.to_string()),
        Command::Unsupported => MessageStep::Reply(text_message("Unsupported command")),
    }
}

/// The text of a message: its member `text`, and nothing where that is no string.
pub fn message_text(message: &Json) -> (r: &str)
    ensures
        r@ == text_of(message@),
{
    match value_as_str(value_member(&message.value, "text")) {
        Some(text) => text,
        None => {
            proof {
                reveal_strlit("");
                assert(""@ =~= Seq::<char>::empty());
            }
            ""
        },
    }
}

/// The mathematical value of what came of reading a message.
pub open spec fn reading_view(message: Result<Json, String>) -> Result<JsonView, Seq<char>> {
    match message {
        Ok(message) => Ok(message@),
        Err(error) => Err(error@),
    }
}

/// The first step about a message from a chat, by what its content reads as.
pub fn answer_message(chat_id: &str, message: Result<Json, String>) -> (r: MessageStep)
    ensures
        r@ == message_step(chat_id@, reading_view(message)),
        first_text(reading_view(message)) matches Some(text) ==> r@ == StepView::Reply(said(text))
            && reads_back(text),
{
    match message {
        Ok(message) => answer_command(chat_id, parse_command(trim(message_text(&message)))),
        Err(error) => MessageStep::Reply(
            text_message("Failed to parse message: ".to_string().concat(error.as_str()).as_str()),
        ),
    }
}

/// The first step about a message from a chat. `content` is the message's JSON text.
pub fn feishu_message_handler(chat_id: &str, content: &str) -> (r: MessageStep)
    ensures
        r@ == message_step(chat_id@, json_parsed(content@)),
        first_text(json_parsed(content@)) matches Some(text) ==> r@ == StepView::Reply(said(text))
            && reads_back(text),
{
    answer_message(chat_id, Json::parse(content))
}

/// What the bot says to a ping.
pub open spec fn pong_text(used: Seq<char>, free: Seq<char>, total: Seq<char>) -> Seq<char> {
    "Pong!\nMemory Usage: "@ + used + " MiB\nFree Memory: "@ + free + " MiB / "@ + total
        + " MiB"@
}

/// The reply to a ping. The arguments are sizes in mebibytes, as they are to be shown.
pub fn memory_probed(used: &str, free: &str, total: &str) -> (r: FeishuNewMessage)
    ensures
        r@ == said(pong_text(used@, free@, total@)),
        reads_back(pong_text(used@, free@, total@)),
{
    let text = "Pong!\nMemory Usage: ".to_string().concat(used).concat(
        " MiB\nFree Memory: ",
    ).concat(free).concat(" MiB / ").concat(total).concat(" MiB");
    text_message(text.as_str())
}

/// What came of looking for a subscription.
pub enum CheckOutcome {
    /// The subscription could not be turned into a query.
    NotConverted(String),
    /// The query failed.
    NotSearched(String),
    /// The subscription is stored.
    Found,
    /// The subscription is not stored.
    Missing,
}

/// What came of looking for a subscription, over mathematical values.
pub enum CheckView {
    NotConverted(Seq<char>),
    NotSearched(Seq<char>),
    Found,
    Missing,
}

impl View for CheckOutcome {
    type V = CheckView;

    open spec fn view(&self) -> CheckView {
        match *self {
            CheckOutcome::NotConverted(error) => CheckView::NotConverted(error@),
            CheckOutcome::NotSearched(error) => CheckView::NotSearched(error@),
            CheckOutcome::Found => CheckView::Found,
            CheckOutcome::Missing => CheckView::Missing,
        }
    }
}

/// What the bot says after looking for a subscription that a chat asked for, unless it goes
/// on to store it.
pub open spec fn checked_text(subscription: SubscriptionView, outcome: CheckView) -> Option<
    Seq<char>,
> {
    match outcome {
        CheckView::Found => Some("Already subscribed to "@ + subscription.topic()),
        CheckView::NotConverted(error) => Some(
            "Failed to check subscription existence: Failed to convert subscription to document: "@
                + error,
        ),
        CheckView::NotSearched(error) => Some(
            "Failed to check subscription existence: Failed to find subscription: "@ + error,
        ),
        CheckView::Missing => None,
    }
}

/// The step after looking for a subscription that a chat asked for.
pub open spec fn checked_step(subscription: SubscriptionView, outcome: CheckView) -> StepView {
    match checked_text(subscription, outcome) {
        Some(text) => StepView::Reply(said(text)),
        None => StepView::Insert(subscription),
    }
}

/// The step after looking for a subscription that a chat asked for.
pub fn subscription_checked(subscription: Subscription, outcome: CheckOutcome) -> (r: MessageStep)
    ensures
        r@ == checked_step(subscription@, outcome@),
        outcome is Missing ==> r == MessageStep::Insert(subscription),
        !(outcome is Missing) ==> r is Reply,
        checked_text(subscription@, outcome@) matches Some(text) ==> reads_back(text),
{
    match outcome {
        CheckOutcome::Found => MessageStep::Reply(
            text_message(
                "Already subscribed to ".to_string().concat(
                    subscription.topic_text().as_str(),
                ).as_str(),
            ),
        ),
        CheckOutcome::NotConverted(error) => MessageStep::Reply(
            text_message(
                "Failed to check subscription existence: Failed to convert subscription to document: ".to_string().concat(
                    error.as_str(),
                ).as_str(),
            ),
        ),
        CheckOutcome::NotSearched(error) => MessageStep::Reply(
            text_message(
                "Failed to check subscription existence: Failed to find subscription: ".to_string().concat(
                    error.as_str(),
                ).as_str(),
            ),
        ),
        CheckOutcome::Missing => MessageStep::Insert(subscription),
    }
}

/// What the bot says after storing a subscription.
pub open spec fn inserted_text(
    subscription: SubscriptionView,
    outcome: Result<(), Seq<char>>,
) -> Seq<char> {
    match outcome {
        Ok(_) => "Subscribed to "@ + subscription.topic(),
        Err(error) => "Failed to subscribe: "@ + error,
    }
}

/// The reply after storing a subscription.
pub fn subscription_inserted(subscription: &Subscription, outcome: Result<(), String>) -> (r:
    FeishuNewMessage)
    ensures
        r@ == said(inserted_text(subscription@, outcome_view(outcome))),
        reads_back(inserted_text(subscription@, outcome_view(outcome))),
{
    match outcome {
        Ok(_) => text_message(
            "Subscribed to ".to_string().concat(subscription.topic_text().as_str()).as_str(),
        ),
        Err(error) => text_message(
            "Failed to subscribe: ".to_string().concat(error.as_str()).as_str(),
        ),
    }
}

/// The mathematical value of an outcome that is either done or an error message.
pub open spec fn outcome_view(outcome: Result<(), String>) -> Result<(), Seq<char>> {
    match outcome {
        Ok(_) => Ok(()),
        Err(error) => Err(error@),
    }
}

/// What came of removing a subscription.
pub enum RemoveOutcome {
    /// The subscription could not be turned into a query.
    NotConverted(String),
    /// The removal failed.
    Failed(String),
    /// So many stored subscriptions were removed.
    Removed(u64),
}

/// What came of removing a subscription, over mathematical values.
pub enum RemoveView {
    NotConverted(Seq<char>),
    Failed(Seq<char>),
    Removed(nat),
}

impl View for RemoveOutcome {
    type V = RemoveView;

    open spec fn view(&self) -> RemoveView {
        match *self {
            RemoveOutcome::NotConverted(error) => RemoveView::NotConverted(error@),
            RemoveOutcome::Failed(error) => RemoveView::Failed(error@),
            RemoveOutcome::Removed(count) => RemoveView::Removed(count as nat),
        }
    }
}

/// What the bot says after removing a subscription.
pub open spec fn removed_text(subscription: SubscriptionView, outcome: RemoveView) -> Seq<char> {
    match outcome {
        RemoveView::NotConverted(error) => "Failed to convert subscription to document: "@ + error,
        RemoveView::Failed(error) => "Failed to unsubscribe: "@ + error,
        RemoveView::Removed(count) => if count == 0 {
            "Have not subscribed to "@ + subscription.topic()
        } else {
            "Unsubscribed from "@ + subscription.topic()
        },
    }
}

/// The reply after removing a subscription.
pub fn subscription_removed(subscription: &Subscription, outcome: RemoveOutcome) -> (r:
    FeishuNewMessage)
    ensures
        r@ == said(removed_text(subscription@, outcome@)),
        reads_back(removed_text(subscription@, outcome@)),
{
    match outcome {
        RemoveOutcome::NotConverted(error) => text_message(
            "Failed to convert subscription to document: ".to_string().concat(
                error.as_str(),
            ).as_str(),
        ),
        RemoveOutcome::Failed(error) => text_message(
            "Failed to unsubscribe: ".to_string().concat(error.as_str()).as_str(),
        ),
        RemoveOutcome::Removed(count) => if count == 0 {
            text_message(
                "Have not subscribed to ".to_string().concat(
                    subscription.topic_text().as_str(),
                ).as_str(),
            )
        } else {
            text_message(
                "Unsubscribed from ".to_string().concat(
                    subscription.topic_text().as_str(),
                ).as_str(),
            )
        },
    }
}

/// The topics of subscriptions, one to a line.
pub open spec fn topic_lines(subscriptions: Seq<SubscriptionView>) -> Seq<char>
    decreases subscriptions.len(),
{
    if subscriptions.len() == 0 {
        Seq::empty()
    } else if subscriptions.len() == 1 {
        subscriptions[0].topic()
    } else {
        topic_lines(subscriptions.drop_last()) + "\n"@ + subscriptions.last().topic()
    }
}

/// The subscriptions in rows, or the message of the first row that holds an error.
pub open spec fn subscriptions_in(rows: Seq<RowView>) -> Result<Seq<SubscriptionView>, Seq<char>>
    decreases rows.len(),
{
    if rows.len() == 0 {
        Ok(Seq::empty())
    } else {
        match subscriptions_in(rows.drop_last()) {
            Err(error) => Err(error),
            Ok(subscriptions) => match rows.last() {
                Ok(subscription) => Ok(subscriptions.push(subscription)),
                Err(error) => Err(error),
            },
        }
    }
}

/// What the bot says after fetching the subscriptions of a chat.
pub open spec fn listed_text(outcome: Result<Seq<RowView>, Seq<char>>) -> Seq<char> {
    match outcome {
        Err(error) => "Failed to list subscriptions: "@ + error,
        Ok(rows) => match subscriptions_in(rows) {
            Err(error) => "Failed to list subscriptions: "@ + error,
            Ok(subscriptions) => "Subscriptions: \n"@ + topic_lines(subscriptions),
        },
    }
}

/// The mathematical value of what came of a query.
pub open spec fn found_view(outcome: Result<Vec<Row>, String>) -> Result<Seq<RowView>, Seq<char>> {
    match outcome {
        Ok(rows) => Ok(rows_view(rows@)),
        Err(error) => Err(error@),
    }
}

proof fn lemma_error_stays(rows: Seq<RowView>, n: int)
    requires
        0 <= n <= rows.len(),
        subscriptions_in(rows.take(n)) is Err,
    ensures
        subscriptions_in(rows) == subscriptions_in(rows.take(n)),
    decreases rows.len(),
{
    if n < rows.len() {
        assert(rows.drop_last().take(n) =~= rows.take(n));
        lemma_error_stays(rows.drop_last(), n);
    } else {
        assert(rows.take(n) =~= rows);
    }
}

/// The reply after fetching the subscriptions of a chat.
pub fn subscriptions_listed(outcome: Result<Vec<Row>, String>) -> (r: FeishuNewMessage)
    ensures
        r@ == said(listed_text(found_view(outcome))),
        reads_back(listed_text(found_view(outcome))),
{
    match outcome {
        Err(error) => text_message(
            "Failed to list subscriptions: ".to_string().concat(error.as_str()).as_str(),
        ),
        Ok(rows) => {
            let ghost all = rows_view(rows@);
            let ghost mut seen: Seq<SubscriptionView> = Seq::empty();
            let mut lines = String::new();
            for i in 0..rows.len()
                invariant
                    outcome matches Ok(given) && rows_view(given@) == all,
                    all == rows_view(rows@),
                    all.len() == rows@.len(),
                    subscriptions_in(all.take(i as int)) == Ok::<Seq<SubscriptionView>, Seq<char>>(
                        seen,
                    ),
                    seen.len() == i,
                    lines@ == topic_lines(seen),
            {
                assert(all.take(i + 1).drop_last() =~= all.take(i as int));
                match &rows[i] {
                    Ok(subscription) => {
                        if i > 0 {
                            lines.append("\n");
                        }
                        lines.append(subscription.topic_text().as_str());
                        proof {
                            let longer = seen.push(subscription@);
                            assert(longer.drop_last() =~= seen);
                            assert(lines@ =~= topic_lines(longer));
                            seen = longer;
                        }
                    },
                    Err(error) => {
                        proof {
                            lemma_error_stays(all, i + 1);
                        }
                        return text_message(
                            "Failed to list subscriptions: ".to_string().concat(
                                error.as_str(),
                            ).as_str(),
                        );
                    },
                }
            }
            assert(all.take(rows@.len() as int) =~= all);
            text_message("Subscriptions: \n".to_string().concat(lines.as_str()).as_str())
        },
    }
}

/// A text message holds its text whole, and reading it gives that very text back.
pub proof fn law_text_message_holds_its_text(text: Seq<char>)
    ensures
        said(text) == MessageView::Text(json_text(text_value(text))),
        text_value(text).member("text"@).as_str() == Some(text),
        text_value(text) matches JsonView::Object(entries) && entries.len() == 1,
        text_of(text_value(text)) == text,
{
    lemma_one_member("text"@, JsonView::Str(text));
}

/// The text of a message is its member `text` where that is a string, and empty otherwise,
/// whatever else the message holds.
pub proof fn law_text_is_the_member(message: JsonView, text: Seq<char>)
    ensures
        message.member("text"@).as_str() == Some(text) ==> text_of(message) == text,
        message.member("text"@).as_str() is None ==> text_of(message).len() == 0,
{
}

/// A message in any of the written forms, with any white space around it, is understood,
/// whoever is mentioned. A chat that subscribes or unsubscribes does so for itself, for the
/// very repository that it names and for the kind of event that it names.
pub proof fn law_written_messages_are_understood(
    chat_id: Seq<char>,
    message: JsonView,
    padding: (Seq<char>, Seq<char>),
    who: Seq<char>,
    gaps: (Seq<char>, Seq<char>, Seq<char>),
    repo: Seq<char>,
    event: SubscriptionEvent,
    words: Seq<char>,
)
    requires
        message.member("text"@).as_str() == Some(padding.0 + words + padding.1),
        forall|i: int| 0 <= i < padding.0.len() ==> is_space(#[trigger] padding.0[i]),
        forall|i: int| 0 <= i < padding.1.len() ==> is_space(#[trigger] padding.1[i]),
        who.len() > 0,
        forall|i: int| 0 <= i < who.len() ==> !is_space(#[trigger] who[i]),
        gaps.0.len() > 0,
        forall|i: int| 0 <= i < gaps.0.len() ==> is_space(#[trigger] gaps.0[i]),
        gaps.1.len() > 0,
        forall|i: int| 0 <= i < gaps.1.len() ==> is_space(#[trigger] gaps.1[i]),
        gaps.2.len() > 0,
        forall|i: int| 0 <= i < gaps.2.len() ==> is_space(#[trigger] gaps.2[i]),
        repo.len() > 0,
        forall|i: int| 0 <= i < repo.len() ==> !is_space(#[trigger] repo[i]),
    ensures
        ({
            let step = message_step(chat_id, Ok(message));
            let mention = seq!['@'] + who + gaps.0;
            let word = match event {
                SubscriptionEvent::PullRequest => "pr"@,
                SubscriptionEvent::Issue => "issue"@,
            };
            let wanted = SubscriptionView { chat_id, repo, event };
            &&& words == mention + "help"@ ==> step == StepView::Reply(said(HELP_TEXT@))
            &&& words == mention + "ping"@ ==> step == StepView::Probe
            &&& words == mention + "list"@ ==> step == StepView::List(chat_id)
            &&& words == mention + "subscribe"@ + gaps.1 + repo + gaps.2 + word ==> step
                == StepView::Check(wanted)
            &&& words == mention + "unsubscribe"@ + gaps.1 + repo + gaps.2 + word ==> step
                == StepView::Remove(wanted)
        }),
{
    law_written_commands(who, gaps, repo, event);
    law_trimmed(padding.0, words, padding.1);
    law_padding_is_ignored(padding.0, words, padding.1);
}

/// A message that mentions nobody or says something else is answered that the command is
/// unsupported, and one that is no JSON is answered with what is wrong with it.
pub proof fn law_other_messages_are_answered(
    chat_id: Seq<char>,
    message: JsonView,
    error: Seq<char>,
)
    ensures
        command_of(trimmed(text_of(message))) is Unsupported ==> message_step(chat_id, Ok(message))
            == StepView::Reply(said("Unsupported command"@)),
        message_step(chat_id, Err(error)) == StepView::Reply(
            said("Failed to parse message: "@ + error),
        ),
{
}

/// The reply to a ping shows all three sizes as they were given.
pub proof fn law_ping_shows_sizes(used: Seq<char>, free: Seq<char>, total: Seq<char>)
    ensures
        pong_text(used, free, total) == "Pong!\nMemory Usage: "@ + used + " MiB\nFree Memory: "@
            + free + " MiB / "@ + total + " MiB"@,
{
}

/// After the search a missing subscription is stored as it was asked for. Otherwise nothing
/// is stored, and the chat is told why.
pub proof fn law_search_decides_storing(subscription: SubscriptionView, error: Seq<char>)
    ensures
        checked_step(subscription, CheckView::Missing) == StepView::Insert(subscription),
        checked_step(subscription, CheckView::Found) == StepView::Reply(
            said("Already subscribed to "@ + subscription.topic()),
        ),
        checked_step(subscription, CheckView::NotConverted(error)) == StepView::Reply(
            said(
                "Failed to check subscription existence: Failed to convert subscription to document: "@
                    + error,
            ),
        ),
        checked_step(subscription, CheckView::NotSearched(error)) == StepView::Reply(
            said("Failed to check subscription existence: Failed to find subscription: "@ + error),
        ),
{
}

/// The chat is told what came of storing and of removing a subscription: the topic where it
/// was done, that there was none where nothing was removed, and the whole error where it
/// failed.
pub proof fn law_changes_are_told(
    subscription: SubscriptionView,
    error: Seq<char>,
    count: nat,
)
    ensures
        inserted_text(subscription, Ok(())) == "Subscribed to "@ + subscription.topic(),
        inserted_text(subscription, Err(error)) == "Failed to subscribe: "@ + error,
        count > 0 ==> removed_text(subscription, RemoveView::Removed(count))
            == "Unsubscribed from "@ + subscription.topic(),
        removed_text(subscription, RemoveView::Removed(0)) == "Have not subscribed to "@
            + subscription.topic(),
        removed_text(subscription, RemoveView::Failed(error)) == "Failed to unsubscribe: "@ + error,
        removed_text(subscription, RemoveView::NotConverted(error))
            == "Failed to convert subscription to document: "@ + error,
{
}

/// Rows without an error give all their subscriptions, in their order. Otherwise the first
/// row with an error decides.
pub proof fn law_rows_give_all_subscriptions(rows: Seq<RowView>, n: int)
    ensures
        (forall|i: int| 0 <= i < rows.len() ==> (#[trigger] rows[i]) is Ok) ==> {
            &&& subscriptions_in(rows) matches Ok(all)
            &&& all.len() == rows.len()
            &&& forall|i: int| 0 <= i < rows.len() ==> #[trigger] all[i] == rows[i]->Ok_0
        },
        0 <= n < rows.len() && rows[n] is Err && (forall|i: int|
            0 <= i < n ==> (#[trigger] rows[i]) is Ok) ==> subscriptions_in(rows) == Err::<
            Seq<SubscriptionView>,
            Seq<char>,
        >(rows[n]->Err_0),
    decreases rows.len(),
{
    if rows.len() > 0 {
        let before = rows.drop_last();
        law_rows_give_all_subscriptions(before, n);
        assert forall|i: int| 0 <= i < before.len() implies before[i] == #[trigger] rows[i] by {}
        if n == rows.len() - 1 && (forall|i: int| 0 <= i < n ==> (#[trigger] rows[i]) is Ok) {
            assert forall|i: int| 0 <= i < before.len() implies (#[trigger] before[i]) is Ok by {
                assert(rows[i] is Ok);
            }
        }
    }
}

/// A list grows by one line with each subscription: the topic of the new one, behind all the
/// lines before it. A list of one is its topic, and a list of none is empty.
pub proof fn law_list_grows_by_a_line(
    subscriptions: Seq<SubscriptionView>,
    next: SubscriptionView,
)
    ensures
        subscriptions.len() == 0 ==> topic_lines(subscriptions).len() == 0,
        subscriptions.len() == 0 ==> topic_lines(subscriptions.push(next)) == next.topic(),
        subscriptions.len() > 0 ==> topic_lines(subscriptions.push(next)) == topic_lines(
            subscriptions,
        ) + "\n"@ + next.topic(),
{
    assert(subscriptions.push(next).drop_last() =~= subscriptions);
}

/// Every subscription stands in the list: line `i` is the topic of subscription `i`, and a
/// line break parts it from the lines before it and behind it.
pub proof fn law_list_has_every_line(subscriptions: Seq<SubscriptionView>, i: int)
    requires
        0 <= i < subscriptions.len(),
    ensures
        exists|before: Seq<char>, after: Seq<char>|
            #![trigger before + subscriptions[i].topic() + after]
            {
                &&& topic_lines(subscriptions) == before + subscriptions[i].topic() + after
                &&& i == 0 ==> before.len() == 0
                &&& i > 0 ==> before == topic_lines(subscriptions.take(i)) + "\n"@
                &&& i == subscriptions.len() - 1 ==> after.len() == 0
                &&& i < subscriptions.len() - 1 ==> after.len() > 0 && after[0] == '\n'
            },
    decreases subscriptions.len(),
{
    reveal_strlit("\n");
    let topic = subscriptions[i].topic();
    let rest = subscriptions.drop_last();
    assert(rest.push(subscriptions.last()) =~= subscriptions);
    law_list_grows_by_a_line(rest, subscriptions.last());
    if i == subscriptions.len() - 1 {
        let before = if i == 0 {
            Seq::empty()
        } else {
            topic_lines(rest) + "\n"@
        };
        let after = Seq::<char>::empty();
        assert(subscriptions.take(i) =~= rest);
        assert(topic_lines(subscriptions) =~= before + topic + after);
    } else {
        law_list_has_every_line(rest, i);
        assert(rest[i] == subscriptions[i]);
        assert(rest.take(i) =~= subscriptions.take(i));
        let (before, after) = choose|before: Seq<char>, after: Seq<char>|
            #![trigger before + rest[i].topic() + after]
            {
                &&& topic_lines(rest) == before + rest[i].topic() + after
                &&& i == 0 ==> before.len() == 0
                &&& i > 0 ==> before == topic_lines(rest.take(i)) + "\n"@
                &&& i == rest.len() - 1 ==> after.len() == 0
                &&& i < rest.len() - 1 ==> after.len() > 0 && after[0] == '\n'
            };
        let longer = after + "\n"@ + subscriptions.last().topic();
        assert(topic_lines(subscriptions) =~= before + topic + longer);
    }
}

/// How many line breaks a text holds.
pub open spec fn line_breaks(text: Seq<char>) -> nat {
    text.filter(|c: char| c == '\n').len()
}

/// A list has exactly as many lines as there are subscriptions, where no repository has a
/// line break in its name.
pub proof fn law_list_has_no_other_lines(subscriptions: Seq<SubscriptionView>)
    requires
        subscriptions.len() > 0,
        forall|i: int, j: int|
            0 <= i < subscriptions.len() && 0 <= j < subscriptions[i].repo.len()
                ==> #[trigger] subscriptions[i].repo[j] != '\n',
    ensures
        line_breaks(topic_lines(subscriptions)) + 1 == subscriptions.len(),
    decreases subscriptions.len(),
{
    let rest = subscriptions.drop_last();
    let last = subscriptions.last();
    assert(rest.push(last) =~= subscriptions);
    law_list_grows_by_a_line(rest, last);
    assert forall|j: int| 0 <= j < last.topic().len() implies #[trigger] last.topic()[j] != '\n' by {
        reveal_strlit(" ");
        reveal_strlit("PullRequest");
        reveal_strlit("Issue");
        assert(subscriptions[subscriptions.len() - 1] == last);
        if j < last.repo.len() {
            assert(subscriptions[subscriptions.len() - 1].repo[j] != '\n');
        }
    }
    lemma_no_breaks(last.topic());
    if rest.len() > 0 {
        assert forall|i: int, j: int|
            0 <= i < rest.len() && 0 <= j < rest[i].repo.len() implies #[trigger] rest[i].repo[j]
            != '\n' by {
            assert(subscriptions[i].repo[j] != '\n');
        }
        law_list_has_no_other_lines(rest);
        let is_break = |c: char| c == '\n';
        Seq::filter_distributes_over_add(topic_lines(rest), "\n"@, is_break);
        Seq::filter_distributes_over_add(topic_lines(rest) + "\n"@, last.topic(), is_break);
        assert("\n"@.filter(is_break).len() == 1) by {
            reveal_strlit("\n");
            reveal_with_fuel(Seq::filter, 2);
            assert("\n"@.drop_last() =~= Seq::empty());
        }
    }
}

proof fn lemma_no_breaks(text: Seq<char>)
    requires
        forall|j: int| 0 <= j < text.len() ==> #[trigger] text[j] != '\n',
    ensures
        line_breaks(text) == 0,
    decreases text.len(),
{
    reveal(Seq::filter);
    if text.len() > 0 {
        lemma_no_breaks(text.drop_last());
    }
}

/// The list that a chat gets holds the topics of all its subscriptions behind a heading. A
/// failure is told with the whole error: that of the search, or that of the first row that
/// could not be read.
pub proof fn law_list_is_told(
    rows: Seq<RowView>,
    subscriptions: Seq<SubscriptionView>,
    error: Seq<char>,
)
    ensures
        (rows.len() == subscriptions.len() && forall|i: int|
            0 <= i < rows.len() ==> #[trigger] rows[i] == Ok::<SubscriptionView, Seq<char>>(
                subscriptions[i],
            )) ==> listed_text(Ok(rows)) == "Subscriptions: \n"@ + topic_lines(subscriptions),
        subscriptions_in(rows) == Err::<Seq<SubscriptionView>, Seq<char>>(error) ==> listed_text(
            Ok(rows),
        ) == "Failed to list subscriptions: "@ + error,
        listed_text(Err(error)) == "Failed to list subscriptions: "@ + error,
{
    law_rows_give_all_subscriptions(rows, 0);
    if rows.len() == subscriptions.len() && forall|i: int|
        0 <= i < rows.len() ==> #[trigger] rows[i] == Ok::<SubscriptionView, Seq<char>>(
            subscriptions[i],
        ) {
        assert(subscriptions_in(rows) matches Ok(all) && all =~= subscriptions);
    }
}

/// Messages, steps and what came of them are seen whole.
pub proof fn law_messages_are_seen_whole(
    message: FeishuNewMessage,
    step: MessageStep,
    check: CheckOutcome,
    removal: RemoveOutcome,
)
    ensures
        match message {
            FeishuNewMessage::Text(content) => message@ == MessageView::Text(content@)
                && message@.content() == content@,
            FeishuNewMessage::Interactive(content) => message@ == MessageView::Interactive(content@)
                && message@.content() == content@,
        },
        match step {
            MessageStep::Reply(reply) => step@ == StepView::Reply(reply@),
            MessageStep::Probe => step@ == StepView::Probe,
            MessageStep::Check(s) => step@ == StepView::Check(
                SubscriptionView { chat_id: s.chat_id@, repo: s.repo@, event: s.event },
            ),
            MessageStep::Insert(s) => step@ == StepView::Insert(
                SubscriptionView { chat_id: s.chat_id@, repo: s.repo@, event: s.event },
            ),
            MessageStep::Remove(s) => step@ == StepView::Remove(
                SubscriptionView { chat_id: s.chat_id@, repo: s.repo@, event: s.event },
            ),
            MessageStep::List(chat_id) => step@ == StepView::List(chat_id@),
        },
        match check {
            CheckOutcome::NotConverted(error) => check@ == CheckView::NotConverted(error@),
            CheckOutcome::NotSearched(error) => check@ == CheckView::NotSearched(error@),
            CheckOutcome::Found => check@ == CheckView::Found,
            CheckOutcome::Missing => check@ == CheckView::Missing,
        },
        match removal {
            RemoveOutcome::NotConverted(error) => removal@ == RemoveView::NotConverted(error@),
            RemoveOutcome::Failed(error) => removal@ == RemoveView::Failed(error@),
            RemoveOutcome::Removed(count) => removal@ == RemoveView::Removed(count as nat),
        },
{
}

/// What came of reading, of changing and of searching is seen whole.
pub proof fn law_outcomes_are_seen_whole(
    message: Result<Json, String>,
    outcome: Result<(), String>,
    found: Result<Vec<Row>, String>,
)
    ensures
        match message {
            Ok(value) => reading_view(message) == Ok::<JsonView, Seq<char>>(value@),
            Err(error) => reading_view(message) == Err::<JsonView, Seq<char>>(error@),
        },
        match outcome {
            Ok(_) => outcome_view(outcome) is Ok,
            Err(error) => outcome_view(outcome) == Err::<(), Seq<char>>(error@),
        },
        match found {
            Ok(rows) => found_view(found) == Ok::<Seq<RowView>, Seq<char>>(rows_view(rows@)),
            Err(error) => found_view(found) == Err::<Seq<RowView>, Seq<char>>(error@),
        },
{
}

} // verus!
