//! Events that GitHub reports to the bot, and the cards that tell chats of them.
//!
//! An event is read as one kind of payload after the other, until one fits. A card then
//! goes to every chat that subscribed to such events of the repository.
use vstd::prelude::*;

use crate::credential::{message_request, ApiRequest, ApiRequestView, FeishuCredential};
use crate::json::{
    json_text, lemma_one_member, lemma_three_members, lemma_two_members, object_of_one, object_of_three, object_of_two, value_of_bool, value_of_items,
    value_of_string, Json, JsonView,
};
use crate::message::{found_view, outcome_view, FeishuNewMessage, MessageView};
use crate::reply::{HttpReply, ReplyView};
use crate::subscription::{rows_view, Row, RowView, SubscriptionEvent, SubscriptionView};
use crate::text::{decimal, decimal_text, same_text};

verus! {

/// The header that names an event: it may be missing, or hold no text.
pub open spec fn header_view(header: Option<Result<String, String>>) -> Option<
    Result<Seq<char>, Seq<char>>,
> {
    match header {
        None => None,
        Some(Ok(event_type)) => Some(Ok(event_type@)),
        Some(Err(error)) => Some(Err(error@)),
    }
}

/// The answer to an event whose header does not name it.
pub open spec fn header_refusal(header: Option<Result<Seq<char>, Seq<char>>>) -> ReplyView {
    match header {
        Some(Err(error)) => ReplyView::BadRequest(
            "Failed to parse X-GitHub-Event header: "@ + error,
        ),
        _ => ReplyView::BadRequest("No X-GitHub-Event header in request"@),
    }
}

/// Takes the type of an event from its header, or refuses the event.
pub fn event_type_of(header: Option<Result<String, String>>) -> (r: Result<String, HttpReply>)
    ensures
        match r {
            Ok(event_type) => header_view(header) matches Some(Ok(named)) && named == event_type@,
            Err(reply) => {
                &&& !(header_view(header) matches Some(Ok(_)))
                &&& reply@ == header_refusal(header_view(header))
            },
        },
        match header {
            Some(Ok(named)) => r matches Ok(event_type) && event_type@ == named@,
            Some(Err(error)) => r matches Err(HttpReply::BadRequest(message)) && message@
                == "Failed to parse X-GitHub-Event header: "@ + error@,
            None => r matches Err(HttpReply::BadRequest(message)) && message@
                == "No X-GitHub-Event header in request"@,
        },
{
    match header {
        None => Err(HttpReply::BadRequest("No X-GitHub-Event header in request".to_string())),
        Some(Err(error)) => Err(
            HttpReply::BadRequest(
                "Failed to parse X-GitHub-Event header: ".to_string().concat(error.as_str()),
            ),
        ),
        Some(Ok(event_type)) => Ok(event_type),
    }
}

/// The kinds of payload that the bot knows.
#[derive(Debug, Copy, Clone, PartialEq, Eq, Structural)]
pub enum PayloadKind {
    IssuesOpened,
    IssueCommentCreated,
    IssuesClosed,
    IssuesReopened,
    PullRequestOpened,
    PullRequestClosed,
    PullRequestReopened,
}

impl PayloadKind {
    /// What happened, in the words of a card.
    pub open spec fn action(self) -> Seq<char> {
        match self {
            PayloadKind::IssuesOpened => "Opened"@,
            PayloadKind::IssueCommentCreated => "Commented"@,
            PayloadKind::IssuesClosed => "Closed"@,
            PayloadKind::IssuesReopened => "Reopened"@,
            PayloadKind::PullRequestOpened => "Opened"@,
            PayloadKind::PullRequestClosed => "Closed"@,
            PayloadKind::PullRequestReopened => "Reopened"@,
        }
    }

    /// The kind of event that a chat subscribes to.
    pub open spec fn event(self) -> SubscriptionEvent {
        match self {
            PayloadKind::IssuesOpened => SubscriptionEvent::Issue,
            PayloadKind::IssueCommentCreated => SubscriptionEvent::Issue,
            PayloadKind::IssuesClosed => SubscriptionEvent::Issue,
            PayloadKind::IssuesReopened => SubscriptionEvent::Issue,
            PayloadKind::PullRequestOpened => SubscriptionEvent::PullRequest,
            PayloadKind::PullRequestClosed => SubscriptionEvent::PullRequest,
            PayloadKind::PullRequestReopened => SubscriptionEvent::PullRequest,
        }
    }

    /// What happened, in the words of a card.
    pub fn action_text(self) -> (r: &'static str)
        ensures
            r@ == self.action(),
    {
        match self {
            PayloadKind::IssuesOpened => "Opened",
            PayloadKind::IssueCommentCreated => "Commented",
            PayloadKind::IssuesClosed => "Closed",
            PayloadKind::IssuesReopened => "Reopened",
            PayloadKind::PullRequestOpened => "Opened",
            PayloadKind::PullRequestClosed => "Closed",
            PayloadKind::PullRequestReopened => "Reopened",
        }
    }

    /// The kind of event that a chat subscribes to.
    pub fn subscription_event(self) -> (r: SubscriptionEvent)
        ensures
            r == self.event(),
    {
        match self {
            PayloadKind::IssuesOpened => SubscriptionEvent::Issue,
            PayloadKind::IssueCommentCreated => SubscriptionEvent::Issue,
            PayloadKind::IssuesClosed => SubscriptionEvent::Issue,
            PayloadKind::IssuesReopened => SubscriptionEvent::Issue,
            PayloadKind::PullRequestOpened => SubscriptionEvent::PullRequest,
            PayloadKind::PullRequestClosed => SubscriptionEvent::PullRequest,
            PayloadKind::PullRequestReopened => SubscriptionEvent::PullRequest,
        }
    }
}

/// What a card tells of an issue or a pull request.
pub struct Payload {
    pub repo: String,
    pub repo_url: String,
    pub number: i128,
    pub title: String,
    pub url: String,
    pub sender_login: String,
    pub sender_url: String,
    /// What the issue or the pull request itself says.
    pub body: Option<String>,
    /// What a comment on it says.
    pub comment: Option<String>,
}

/// What a card tells of an issue or a pull request, over mathematical values.
pub struct PayloadView {
    pub repo: Seq<char>,
    pub repo_url: Seq<char>,
    pub number: int,
    pub title: Seq<char>,
    pub url: Seq<char>,
    pub sender_login: Seq<char>,
    pub sender_url: Seq<char>,
    pub body: Option<Seq<char>>,
    pub comment: Option<Seq<char>>,
}

/// The mathematical value of a text that may be missing.
pub open spec fn text_view(text: Option<String>) -> Option<Seq<char>> {
    match text {
        Some(text) => Some(text@),
        None => None,
    }
}

impl View for Payload {
    type V = PayloadView;

    open spec fn view(&self) -> PayloadView {
        PayloadView {
            repo: self.repo@,
            repo_url: self.repo_url@,
            number: self.number as int,
            title: self.title@,
            url: self.url@,
            sender_login: self.sender_login@,
            sender_url: self.sender_url@,
            body: text_view(self.body),
            comment: text_view(self.comment),
        }
    }
}

/// A link in the markup of a card.
pub open spec fn link(label: Seq<char>, url: Seq<char>) -> Seq<char> {
    "["@ + label + "]("@ + url + ")"@
}

/// The headline of a card.
pub open spec fn card_title(kind: PayloadKind, payload: PayloadView) -> Seq<char> {
    "["@ + kind.action() + "] #"@ + decimal(payload.number) + " "@ + payload.title
}

/// What a card quotes: the comment where the news is a comment, else the issue or the pull
/// request itself, and nothing where that says nothing.
pub open spec fn quoted(kind: PayloadKind, payload: PayloadView) -> Seq<char> {
    let told = if kind == PayloadKind::IssueCommentCreated {
        payload.comment
    } else {
        payload.body
    };
    match told {
        Some(text) => text,
        None => Seq::empty(),
    }
}

/// Picks what a card quotes: the comment where the news is a comment, else what the issue
/// or the pull request itself says.
pub fn body_told(kind: PayloadKind, own: Option<String>, comment: Option<String>) -> (r: Option<
    String,
>)
    ensures
        r == (if kind == PayloadKind::IssueCommentCreated {
            comment
        } else {
            own
        }),
{
    match kind {
        PayloadKind::IssueCommentCreated => comment,
        _ => own,
    }
}

/// The main part of a card: who did what to which issue or pull request, and what was
/// written.
pub open spec fn card_story(kind: PayloadKind, payload: PayloadView) -> Seq<char> {
    kind.action() + " by "@ + link(payload.sender_login, payload.sender_url) + ".\n"@ + link(
        "#"@ + decimal(payload.number) + " "@ + payload.title,
        payload.url,
    ) + "\n"@ + quoted(kind, payload)
}

/// The card about an issue or a pull request.
pub open spec fn card_value(kind: PayloadKind, payload: PayloadView) -> JsonView {
    let story = JsonView::Object(
        seq![
            ("tag"@, JsonView::Str("markdown"@)),
            ("content"@, JsonView::Str(card_story(kind, payload))),
        ],
    );
    let divider = JsonView::Object(seq![("tag"@, JsonView::Str("hr"@))]);
    let repo_link = JsonView::Object(
        seq![
            ("tag"@, JsonView::Str("lark_md"@)),
            ("content"@, JsonView::Str(link(payload.repo, payload.repo_url))),
        ],
    );
    let note = JsonView::Object(
        seq![
            ("tag"@, JsonView::Str("note"@)),
            ("elements"@, JsonView::Array(seq![repo_link])),
        ],
    );
    let title = JsonView::Object(
        seq![
            ("content"@, JsonView::Str(card_title(kind, payload))),
            ("tag"@, JsonView::Str("plain_text"@)),
        ],
    );
    JsonView::Object(
        seq![
            (
                "config"@,
                JsonView::Object(seq![("wide_screen_mode"@, JsonView::Bool(true))]),
            ),
            ("elements"@, JsonView::Array(seq![story, divider, note])),
            (
                "header"@,
                JsonView::Object(
                    seq![("template"@, JsonView::Str("blue"@)), ("title"@, title)],
                ),
            ),
        ],
    )
}

fn link_text(label: &str, url: &str) -> (r: String)
    ensures
        r@ == link(label@, url@),
{
    "[".to_string().concat(label).concat("](").concat(url).concat(")")
}

/// A copy of a text that may be missing.
fn copied(text: &Option<String>) -> (r: Option<String>)
    ensures
        text_view(r) == text_view(*text),
{
    match text {
        Some(text) => Some(text.clone()),
        None => None,
    }
}

/// A string value.
fn text_value_of(text: &str) -> (r: serde_json::Value)
    ensures
        crate::json::json_view(r) == JsonView::Str(text@),
{
    value_of_string(text.to_string())
}

proof fn lemma_card_keys()
    ensures
        "tag"@ != "content"@,
        "tag"@ != "elements"@,
        "config"@ != "elements"@,
        "config"@ != "header"@,
        "elements"@ != "header"@,
        "template"@ != "title"@,
{
    reveal_strlit("tag");
    reveal_strlit("content");
    reveal_strlit("elements");
    reveal_strlit("config");
    reveal_strlit("header");
    reveal_strlit("template");
    reveal_strlit("title");
    assert("tag"@.len() == 3 && "content"@.len() == 7 && "elements"@.len() == 8);
    assert("config"@[0] == 'c' && "header"@[0] == 'h' && "elements"@[0] == 'e');
    assert("template"@.len() == 8 && "title"@.len() == 5);
}

proof fn lemma_card_plain(kind: PayloadKind, payload: PayloadView)
    ensures
        card_value(kind, payload).plain(127),
{
    reveal_with_fuel(JsonView::plain, 6);
}

/// The card about an issue or a pull request.
pub fn card(kind: PayloadKind, payload: &Payload) -> (r: FeishuNewMessage)
    ensures
        r@ == MessageView::Interactive(json_text(card_value(kind, payload@))),
        r@.reads_as(card_value(kind, payload@)),
{
    proof {
        lemma_card_keys();
        lemma_card_plain(kind, payload@);
    }
    let number = decimal_text(payload.number);
    let body = match body_told(kind, copied(&payload.body), copied(&payload.comment)) {
        Some(body) => body,
        None => String::new(),
    };
    let headline = "[".to_string().concat(kind.action_text()).concat("] #").concat(
        number.as_str(),
    ).concat(" ").concat(payload.title.as_str());
    let name = "#".to_string().concat(number.as_str()).concat(" ").concat(payload.title.as_str());
    let told = kind.action_text().to_string().concat(" by ").concat(
        link_text(payload.sender_login.as_str(), payload.sender_url.as_str()).as_str(),
    ).concat(".\n").concat(link_text(name.as_str(), payload.url.as_str()).as_str()).concat(
        "\n",
    ).concat(body.as_str());
    let story = object_of_two(
        "tag",
        text_value_of("markdown"),
        "content",
        value_of_string(told),
    );
    let divider = object_of_one("tag", text_value_of("hr"));
    let repo_link = object_of_two(
        "tag",
        text_value_of("lark_md"),
        "content",
        value_of_string(link_text(payload.repo.as_str(), payload.repo_url.as_str())),
    );
    let mut note_parts: Vec<serde_json::Value> = Vec::new();
    note_parts.push(repo_link);
    let note = object_of_two(
        "tag",
        text_value_of("note"),
        "elements",
        value_of_items(note_parts),
    );
    let mut parts: Vec<serde_json::Value> = Vec::new();
    parts.push(story);
    parts.push(divider);
    parts.push(note);
    let title = object_of_two(
        "content",
        value_of_string(headline),
        "tag",
        text_value_of("plain_text"),
    );
    let header = object_of_two("template", text_value_of("blue"), "title", title);
    let config = object_of_one("wide_screen_mode", value_of_bool(true));
    let whole = Json {
        value: object_of_three(
            "config",
            config,
            "elements",
            value_of_items(parts),
            "header",
            header,
        ),
    };
    proof {
        let view = |v: serde_json::Value| crate::json::json_view(v);
        assert(note_parts@.map_values(view) =~= seq![crate::json::json_view(repo_link)]);
        assert(parts@.map_values(view) =~= seq![
            crate::json::json_view(story),
            crate::json::json_view(divider),
            crate::json::json_view(note),
        ]);
        assert(whole@ == card_value(kind, payload@));
    }
    FeishuNewMessage::Interactive(whole.to_text())
}

/// News for the chats that subscribed to one kind of event of a repository.
pub struct Notice {
    pub repo: String,
    pub event: SubscriptionEvent,
    pub card: FeishuNewMessage,
}

/// News over mathematical values.
pub struct NoticeView {
    pub repo: Seq<char>,
    pub event: SubscriptionEvent,
    pub card: MessageView,
}

impl View for Notice {
    type V = NoticeView;

    open spec fn view(&self) -> NoticeView {
        NoticeView { repo: self.repo@, event: self.event, card: self.card@ }
    }
}

/// What the bot does about an event.
pub enum GithubStep {
    /// Answer GitHub.
    Respond(HttpReply),
    /// Read the event as this kind of payload.
    Read(PayloadKind),
    /// Fetch the stored subscriptions to this kind of event of this repository.
    Find(Notice),
}

/// What the bot does about an event, over mathematical values.
pub enum GithubStepView {
    Respond(ReplyView),
    Read(PayloadKind),
    Find(NoticeView),
}

impl View for GithubStep {
    type V = GithubStepView;

    open spec fn view(&self) -> GithubStepView {
        match *self {
            GithubStep::Respond(reply) => GithubStepView::Respond(reply@),
            GithubStep::Read(kind) => GithubStepView::Read(kind),
            GithubStep::Find(notice) => GithubStepView::Find(notice@),
        }
    }
}

/// The type of event is one about issues.
pub open spec fn about_issues(event_type: Seq<char>) -> bool {
    event_type == "issues"@ || event_type == "issue_comment"@
}

/// The type of event is one about pull requests.
pub open spec fn about_pull_requests(event_type: Seq<char>) -> bool {
    event_type == "pull_request"@
}

/// The first step about an event of a type.
pub open spec fn github_step(event_type: Seq<char>) -> GithubStepView {
    if about_issues(event_type) {
        GithubStepView::Read(PayloadKind::IssuesOpened)
    } else if about_pull_requests(event_type) {
        GithubStepView::Read(PayloadKind::PullRequestOpened)
    } else {
        GithubStepView::Respond(ReplyView::NoContent)
    }
}

/// The first step about an event of a type.
pub fn github_handler(event_type: &str) -> (r: GithubStep)
    ensures
        r@ == github_step(event_type@),
{
    if same_text(event_type, "issues") || same_text(event_type, "issue_comment") {
        GithubStep::Read(PayloadKind::IssuesOpened)
    } else if same_text(event_type, "pull_request") {
        GithubStep::Read(PayloadKind::PullRequestOpened)
    } else {
        GithubStep::Respond(HttpReply::NoContent)
    }
}

/// The news that a payload brings.
pub open spec fn notice_of(kind: PayloadKind, payload: PayloadView) -> NoticeView {
    NoticeView {
        repo: payload.repo,
        event: kind.event(),
        card: MessageView::Interactive(json_text(card_value(kind, payload))),
    }
}

/// The step after an event did not fit a kind of payload: the next kind, or the answer
/// where there is none left.
pub open spec fn unfit_step(kind: PayloadKind) -> GithubStepView {
    match kind {
        PayloadKind::IssuesOpened => GithubStepView::Read(PayloadKind::IssueCommentCreated),
        PayloadKind::IssueCommentCreated => GithubStepView::Read(PayloadKind::IssuesClosed),
        PayloadKind::IssuesClosed => GithubStepView::Read(PayloadKind::IssuesReopened),
        PayloadKind::IssuesReopened => GithubStepView::Respond(ReplyView::NoContent),
        PayloadKind::PullRequestOpened => GithubStepView::Read(PayloadKind::PullRequestClosed),
        PayloadKind::PullRequestClosed => GithubStepView::Read(PayloadKind::PullRequestReopened),
        PayloadKind::PullRequestReopened => GithubStepView::Respond(ReplyView::Rejected),
    }
}

/// The step after an event was read as a kind of payload.
pub open spec fn read_step(kind: PayloadKind, payload: Option<PayloadView>) -> GithubStepView {
    match payload {
        Some(payload) => GithubStepView::Find(notice_of(kind, payload)),
        None => unfit_step(kind),
    }
}

/// The mathematical value of what came of reading an event as a kind of payload.
pub open spec fn payload_view(payload: Option<Payload>) -> Option<PayloadView> {
    match payload {
        Some(payload) => Some(payload@),
        None => None,
    }
}

/// The step after an event was read as a kind of payload, which it may not have fitted.
pub fn payload_read(kind: PayloadKind, payload: Option<Payload>) -> (r: GithubStep)
    ensures
        r@ == read_step(kind, payload_view(payload)),
        payload_view(payload) matches Some(told) ==> notice_of(kind, told).card.reads_as(
            card_value(kind, told),
        ),
        payload matches Some(told) ==> {
            &&& r matches GithubStep::Find(notice)
            &&& notice.repo@ == told.repo@
            &&& notice.event == kind.event()
            &&& notice.card matches FeishuNewMessage::Interactive(content) && content@ == json_text(
                card_value(kind, told@),
            )
        },
        payload is None ==> !(r is Find),
{
    match payload {
        Some(payload) => {
            let card = card(kind, &payload);
            GithubStep::Find(Notice { repo: payload.repo, event: kind.subscription_event(), card })
        },
        None => match kind {
            PayloadKind::IssuesOpened => GithubStep::Read(PayloadKind::IssueCommentCreated),
            PayloadKind::IssueCommentCreated => GithubStep::Read(PayloadKind::IssuesClosed),
            PayloadKind::IssuesClosed => GithubStep::Read(PayloadKind::IssuesReopened),
            PayloadKind::IssuesReopened => GithubStep::Respond(HttpReply::NoContent),
            PayloadKind::PullRequestOpened => GithubStep::Read(PayloadKind::PullRequestClosed),
            PayloadKind::PullRequestClosed => GithubStep::Read(PayloadKind::PullRequestReopened),
            PayloadKind::PullRequestReopened => GithubStep::Respond(HttpReply::Rejected),
        },
    }
}

/// The chats of the subscriptions in rows. Rows that hold an error are passed over.
pub open spec fn recipients(rows: Seq<RowView>) -> Seq<Seq<char>>
    decreases rows.len(),
{
    if rows.len() == 0 {
        Seq::empty()
    } else {
        match rows.last() {
            Ok(subscription) => recipients(rows.drop_last()).push(subscription.chat_id),
            Err(_) => recipients(rows.drop_last()),
        }
    }
}

/// A card on its way to a number of chats, one after the other.
pub struct Delivery {
    chats: Vec<String>,
    sent: usize,
    card: FeishuNewMessage,
}

/// A delivery over mathematical values: the chats that are to have the card, and how many
/// of them have it.
pub struct DeliveryView {
    pub chats: Seq<Seq<char>>,
    pub sent: nat,
    pub card: MessageView,
}

impl View for Delivery {
    type V = DeliveryView;

    closed spec fn view(&self) -> DeliveryView {
        DeliveryView {
            chats: self.chats@.map_values(|chat: String| chat@),
            sent: self.sent as nat,
            card: self.card@,
        }
    }
}

/// What is to be done about a delivery.
pub enum DeliveryStep {
    /// Make this request.
    Send(ApiRequest),
    /// Answer GitHub.
    Respond(HttpReply),
}

/// What is to be done about a delivery, over mathematical values.
pub enum DeliveryStepView {
    Send(ApiRequestView),
    Respond(ReplyView),
}

impl View for DeliveryStep {
    type V = DeliveryStepView;

    open spec fn view(&self) -> DeliveryStepView {
        match *self {
            DeliveryStep::Send(request) => DeliveryStepView::Send(request@),
            DeliveryStep::Respond(reply) => DeliveryStepView::Respond(reply@),
        }
    }
}

/// What to do about a delivery: send the card to the next chat, or answer where every
/// chat has it.
pub open spec fn delivery_step(delivery: DeliveryView) -> DeliveryStepView {
    if delivery.sent < delivery.chats.len() {
        DeliveryStepView::Send(
            message_request(delivery.chats[delivery.sent as int], delivery.card),
        )
    } else {
        DeliveryStepView::Respond(ReplyView::NoContent)
    }
}

/// What is made of a search for subscribers: the delivery of the news to their chats, or
/// the answer that the search failed.
pub open spec fn delivery_of(
    notice: NoticeView,
    outcome: Result<Seq<RowView>, Seq<char>>,
) -> Result<DeliveryView, ReplyView> {
    match outcome {
        Ok(rows) => Ok(DeliveryView { chats: recipients(rows), sent: 0, card: notice.card }),
        Err(error) => Err(ReplyView::NotFound("Failed to find subscriptions: "@ + error)),
    }
}

/// Prepares the delivery of news to the chats whose subscriptions were found, or tells
/// that the search failed.
pub fn subscribers_found(notice: Notice, outcome: Result<Vec<Row>, String>) -> (r: Result<
    Delivery,
    HttpReply,
>)
    ensures
        match r {
            Ok(delivery) => delivery_of(notice@, found_view(outcome)) == Ok::<
                DeliveryView,
                ReplyView,
            >(delivery@),
            Err(reply) => delivery_of(notice@, found_view(outcome)) == Err::<
                DeliveryView,
                ReplyView,
            >(reply@),
        },
        r is Ok <==> outcome is Ok,
        r matches Ok(delivery) ==> delivery@.card == notice.card@ && delivery@.sent == 0,
        r matches Err(reply) ==> (outcome matches Err(error) && reply matches HttpReply::NotFound(
            message,
        ) && message@ == "Failed to find subscriptions: "@ + error@),
{
    match outcome {
        Err(error) => Err(
            HttpReply::NotFound(
                "Failed to find subscriptions: ".to_string().concat(error.as_str()),
            ),
        ),
        Ok(rows) => {
            let ghost all = rows_view(rows@);
            let mut chats: Vec<String> = Vec::new();
            for i in 0..rows.len()
                invariant
                    all == rows_view(rows@),
                    all.len() == rows@.len(),
                    chats@.map_values(|chat: String| chat@) == recipients(all.take(i as int)),
            {
                assert(all.take(i + 1).drop_last() =~= all.take(i as int));
                if let Ok(subscription) = &rows[i] {
                    let ghost before = chats@;
                    chats.push(subscription.chat_id.clone());
                    assert(chats@.map_values(|chat: String| chat@) =~= before.map_values(
                        |chat: String| chat@,
                    ).push(subscription.chat_id@));
                }
            }
            assert(all.take(rows@.len() as int) =~= all);
            Ok(Delivery { chats, sent: 0, card: notice.card })
        },
    }
}

impl Delivery {
    /// What to do about the delivery.
    pub fn next_step(&self) -> (r: DeliveryStep)
        ensures
            r@ == delivery_step(self@),
            match r {
                DeliveryStep::Send(request) => {
                    &&& self@.sent < self@.chats.len()
                    &&& request@ == message_request(
                        self@.chats[self@.sent as int],
                        self@.card,
                    )
                },
                DeliveryStep::Respond(reply) => self@.sent >= self@.chats.len() && reply
                    is NoContent,
            },
    {
        if self.sent < self.chats.len() {
            DeliveryStep::Send(
                FeishuCredential::api_send_message(self.chats[self.sent].as_str(), &self.card),
            )
        } else {
            DeliveryStep::Respond(HttpReply::NoContent)
        }
    }

    /// Takes note of what came of sending the card to a chat. A failure ends the delivery
    /// with an answer to GitHub.
    pub fn delivered(&mut self, outcome: Result<(), String>) -> (r: Option<HttpReply>)
        ensures
            match r {
                None => outcome_view(outcome) is Ok,
                Some(reply) => outcome_view(outcome) matches Err(error) && reply@
                    == ReplyView::BadRequest("Failed to send message: "@ + error),
            },
            match outcome {
                Ok(_) => r is None,
                Err(error) => r matches Some(HttpReply::BadRequest(message)) && message@
                    == "Failed to send message: "@ + error@,
            },
            final(self)@ == (DeliveryView {
                sent: if outcome_view(outcome) is Ok && old(self)@.sent < old(self)@.chats.len() {
                    old(self)@.sent + 1
                } else {
                    old(self)@.sent
                },
                ..old(self)@
            }),
    {
        match outcome {
            Ok(_) => {
                if self.sent < self.chats.len() {
                    self.sent = self.sent + 1;
                }
                None
            },
            Err(error) => Some(
                HttpReply::BadRequest("Failed to send message: ".to_string().concat(error.as_str())),
            ),
        }
    }
}

/// The kinds of payload that an event of a type is read as, in their order.
pub open spec fn kinds_of(event_type: Seq<char>) -> Seq<PayloadKind> {
    if about_issues(event_type) {
        seq![
            PayloadKind::IssuesOpened,
            PayloadKind::IssueCommentCreated,
            PayloadKind::IssuesClosed,
            PayloadKind::IssuesReopened,
        ]
    } else if about_pull_requests(event_type) {
        seq![
            PayloadKind::PullRequestOpened,
            PayloadKind::PullRequestClosed,
            PayloadKind::PullRequestReopened,
        ]
    } else {
        seq![]
    }
}

/// How many kinds of payload may still be read after this one.
pub open spec fn kinds_after(kind: PayloadKind) -> nat {
    match kind {
        PayloadKind::IssuesOpened => 3,
        PayloadKind::IssueCommentCreated => 2,
        PayloadKind::IssuesClosed => 1,
        PayloadKind::IssuesReopened => 0,
        PayloadKind::PullRequestOpened => 2,
        PayloadKind::PullRequestClosed => 1,
        PayloadKind::PullRequestReopened => 0,
    }
}

/// Where the reading of an event ends that stands at `step`. `fits` tells what the event
/// gives as each kind of payload.
pub open spec fn read_through(
    step: GithubStepView,
    fits: spec_fn(PayloadKind) -> Option<PayloadView>,
) -> GithubStepView
    decreases
            match step {
                GithubStepView::Read(kind) => kinds_after(kind) + 1,
                _ => 0,
            },
{
    match step {
        GithubStepView::Read(kind) => read_through(read_step(kind, fits(kind)), fits),
        _ => step,
    }
}

/// After a kind of payload that does not fit comes the next one.
proof fn lemma_next_kind(event_type: Seq<char>, k: int)
    requires
        0 <= k < kinds_of(event_type).len(),
    ensures
        unfit_step(kinds_of(event_type)[k]) == (if k + 1 < kinds_of(event_type).len() {
            GithubStepView::Read(kinds_of(event_type)[k + 1])
        } else if about_issues(event_type) {
            GithubStepView::Respond(ReplyView::NoContent)
        } else {
            GithubStepView::Respond(ReplyView::Rejected)
        }),
        kinds_of(event_type)[k].event() == (if about_issues(event_type) {
            SubscriptionEvent::Issue
        } else {
            SubscriptionEvent::PullRequest
        }),
{
    let kinds = kinds_of(event_type);
    assert(k == 0 || k == 1 || k == 2 || k == 3);
}

/// Reading passes over the kinds that do not fit.
proof fn lemma_unfit_kinds(
    event_type: Seq<char>,
    fits: spec_fn(PayloadKind) -> Option<PayloadView>,
    k: int,
    n: int,
)
    requires
        0 <= k <= n < kinds_of(event_type).len(),
        forall|i: int| k <= i < n ==> fits(#[trigger] kinds_of(event_type)[i]) is None,
    ensures
        read_through(GithubStepView::Read(kinds_of(event_type)[k]), fits) == read_through(
            GithubStepView::Read(kinds_of(event_type)[n]),
            fits,
        ),
    decreases n - k,
{
    if k < n {
        assert(fits(kinds_of(event_type)[k]) is None);
        lemma_next_kind(event_type, k);
        lemma_unfit_kinds(event_type, fits, k + 1, n);
    }
}

/// The first kind of payload that an event fits decides what is told of it.
pub proof fn law_first_fit_is_told(
    event_type: Seq<char>,
    fits: spec_fn(PayloadKind) -> Option<PayloadView>,
    n: int,
)
    requires
        0 <= n < kinds_of(event_type).len(),
        forall|k: int| 0 <= k < n ==> fits(#[trigger] kinds_of(event_type)[k]) is None,
        fits(kinds_of(event_type)[n]) is Some,
    ensures
        read_through(github_step(event_type), fits) == GithubStepView::Find(
            notice_of(kinds_of(event_type)[n], fits(kinds_of(event_type)[n])->0),
        ),
{
    let kind = kinds_of(event_type)[n];
    assert(github_step(event_type) == GithubStepView::Read(kinds_of(event_type)[0]));
    lemma_unfit_kinds(event_type, fits, 0, n);
    let found = read_step(kind, fits(kind));
    assert(read_through(GithubStepView::Read(kind), fits) == read_through(found, fits));
    assert(read_through(found, fits) == found);
}

/// An event that fits no kind of payload is told to nobody: one about pull requests is
/// rejected, any other is passed over.
pub proof fn law_unfit_events_are_not_told(
    event_type: Seq<char>,
    fits: spec_fn(PayloadKind) -> Option<PayloadView>,
)
    requires
        forall|k: int|
            0 <= k < kinds_of(event_type).len() ==> fits(#[trigger] kinds_of(event_type)[k]) is None,
    ensures
        read_through(github_step(event_type), fits) == GithubStepView::Respond(
            if about_pull_requests(event_type) {
                ReplyView::Rejected
            } else {
                ReplyView::NoContent
            },
        ),
{
    lemma_types_differ();
    let kinds = kinds_of(event_type);
    if kinds.len() > 0 {
        let n = kinds.len() - 1;
        let kind = kinds[n];
        assert(github_step(event_type) == GithubStepView::Read(kinds[0]));
        lemma_unfit_kinds(event_type, fits, 0, n);
        lemma_next_kind(event_type, n);
        let end = read_step(kind, fits(kind));
        assert(read_through(GithubStepView::Read(kind), fits) == read_through(end, fits));
        assert(read_through(end, fits) == end);
    }
}

proof fn lemma_types_differ()
    ensures
        "pull_request"@ != "issues"@,
        "pull_request"@ != "issue_comment"@,
{
    reveal_strlit("issues");
    reveal_strlit("issue_comment");
    reveal_strlit("pull_request");
    assert("pull_request"@[0] != "issues"@[0]);
    assert("pull_request"@[0] != "issue_comment"@[0]);
}

/// Whatever a kind of payload leads to, it stays with its kind of event.
proof fn lemma_event_stays(kind: PayloadKind, fits: spec_fn(PayloadKind) -> Option<PayloadView>)
    ensures
        read_through(GithubStepView::Read(kind), fits) matches GithubStepView::Find(notice)
            ==> notice.event == kind.event(),
    decreases kinds_after(kind),
{
    let next = read_step(kind, fits(kind));
    assert(read_through(GithubStepView::Read(kind), fits) == read_through(next, fits));
    if let GithubStepView::Read(other) = next {
        lemma_event_stays(other, fits);
    } else {
        assert(read_through(next, fits) == next);
    }
}

/// News goes to the chats that subscribed to its kind of event and to no others: issues
/// and pull requests never mix.
pub proof fn law_events_do_not_mix(
    event_type: Seq<char>,
    fits: spec_fn(PayloadKind) -> Option<PayloadView>,
)
    ensures
        read_through(github_step(event_type), fits) matches GithubStepView::Find(notice) ==> {
            &&& about_issues(event_type) || about_pull_requests(event_type)
            &&& notice.event == (if about_issues(event_type) {
                SubscriptionEvent::Issue
            } else {
                SubscriptionEvent::PullRequest
            })
        },
{
    if let GithubStepView::Read(kind) = github_step(event_type) {
        lemma_event_stays(kind, fits);
    }
}

/// What a whole delivery comes to: the requests that were made, and the answer to GitHub.
/// `outcomes` tells what comes of sending the card to each chat.
pub open spec fn delivery_run(
    delivery: DeliveryView,
    outcomes: spec_fn(nat) -> Result<(), Seq<char>>,
) -> (Seq<ApiRequestView>, ReplyView)
    decreases delivery.chats.len() - delivery.sent,
{
    match delivery_step(delivery) {
        DeliveryStepView::Respond(reply) => (Seq::empty(), reply),
        DeliveryStepView::Send(request) => match outcomes(delivery.sent) {
            Err(error) => (
                seq![request],
                ReplyView::BadRequest("Failed to send message: "@ + error),
            ),
            Ok(_) => {
                let rest = delivery_run(
                    DeliveryView { sent: delivery.sent + 1, ..delivery },
                    outcomes,
                );
                (seq![request] + rest.0, rest.1)
            },
        },
    }
}

/// Where every sending succeeds, the card goes to every chat, in order, and GitHub is
/// answered that all is well.
pub proof fn law_every_chat_is_told(
    delivery: DeliveryView,
    outcomes: spec_fn(nat) -> Result<(), Seq<char>>,
)
    requires
        delivery.sent <= delivery.chats.len(),
        forall|k: nat|
            delivery.sent <= k < delivery.chats.len() ==> (#[trigger] outcomes(k)) is Ok,
    ensures
        delivery_run(delivery, outcomes).0 == delivery.chats.skip(
            delivery.sent as int,
        ).map_values(|chat: Seq<char>| message_request(chat, delivery.card)),
        delivery_run(delivery, outcomes).1 == ReplyView::NoContent,
    decreases delivery.chats.len() - delivery.sent,
{
    let told = |chat: Seq<char>| message_request(chat, delivery.card);
    let left = delivery.chats.skip(delivery.sent as int);
    if delivery.sent < delivery.chats.len() {
        let next = DeliveryView { sent: delivery.sent + 1, ..delivery };
        law_every_chat_is_told(next, outcomes);
        assert(outcomes(delivery.sent) is Ok);
        assert(left.map_values(told) =~= seq![told(delivery.chats[delivery.sent as int])]
            + delivery.chats.skip((delivery.sent + 1) as int).map_values(told));
    } else {
        assert(left.map_values(told) =~= Seq::empty());
    }
}

/// The first sending that fails ends the delivery: the chats before it were told, those
/// behind it are not, and GitHub is answered with the error.
pub proof fn law_first_failure_ends_delivery(
    delivery: DeliveryView,
    outcomes: spec_fn(nat) -> Result<(), Seq<char>>,
    n: nat,
)
    requires
        delivery.sent <= n < delivery.chats.len(),
        forall|k: nat| delivery.sent <= k < n ==> (#[trigger] outcomes(k)) is Ok,
        outcomes(n) is Err,
    ensures
        delivery_run(delivery, outcomes).0 == delivery.chats.subrange(
            delivery.sent as int,
            (n + 1) as int,
        ).map_values(|chat: Seq<char>| message_request(chat, delivery.card)),
        delivery_run(delivery, outcomes).1 == ReplyView::BadRequest(
            "Failed to send message: "@ + outcomes(n)->Err_0,
        ),
    decreases n - delivery.sent,
{
    let told = |chat: Seq<char>| message_request(chat, delivery.card);
    let reached = delivery.chats.subrange(delivery.sent as int, (n + 1) as int);
    if delivery.sent < n {
        let next = DeliveryView { sent: delivery.sent + 1, ..delivery };
        law_first_failure_ends_delivery(next, outcomes, n);
        assert(outcomes(delivery.sent) is Ok);
        assert(reached.map_values(told) =~= seq![told(delivery.chats[delivery.sent as int])]
            + delivery.chats.subrange(
                (delivery.sent + 1) as int,
                (n + 1) as int,
            ).map_values(told));
    } else {
        assert(reached.map_values(told) =~= seq![told(delivery.chats[n as int])]);
    }
}

/// The header that names an event is seen whole, and an event that it does not name is
/// refused with the reason.
pub proof fn law_header_is_seen_whole(header: Option<Result<String, String>>, error: Seq<char>)
    ensures
        match header {
            None => header_view(header) is None,
            Some(Ok(named)) => header_view(header) == Some(Ok::<Seq<char>, Seq<char>>(named@)),
            Some(Err(reason)) => header_view(header) == Some(Err::<Seq<char>, Seq<char>>(reason@)),
        },
        header_refusal(None) == ReplyView::BadRequest("No X-GitHub-Event header in request"@),
        header_refusal(Some(Err(error))) == ReplyView::BadRequest(
            "Failed to parse X-GitHub-Event header: "@ + error,
        ),
{
}

/// The word for what happened: pull requests and issues are opened, closed and reopened, and
/// issues are commented on.
pub proof fn law_words_tell_what_happened(kind: PayloadKind)
    ensures
        kind == PayloadKind::IssuesOpened || kind == PayloadKind::PullRequestOpened
            ==> kind.action() == "Opened"@,
        kind == PayloadKind::IssuesClosed || kind == PayloadKind::PullRequestClosed
            ==> kind.action() == "Closed"@,
        kind == PayloadKind::IssuesReopened || kind == PayloadKind::PullRequestReopened
            ==> kind.action() == "Reopened"@,
        kind == PayloadKind::IssueCommentCreated ==> kind.action() == "Commented"@,
{
}

/// News is for those who subscribed to pull requests exactly if it is about one, and
/// otherwise for those who subscribed to issues.
pub proof fn law_kinds_have_their_subscribers(kind: PayloadKind)
    ensures
        kind.event() == SubscriptionEvent::PullRequest <==> kind == PayloadKind::PullRequestOpened
            || kind == PayloadKind::PullRequestClosed || kind == PayloadKind::PullRequestReopened,
        kind.event() == SubscriptionEvent::Issue <==> kind == PayloadKind::IssuesOpened || kind
            == PayloadKind::IssueCommentCreated || kind == PayloadKind::IssuesClosed || kind
            == PayloadKind::IssuesReopened,
{
}

/// The subscribers of news are looked for under the full name of the repository, whatever
/// kind of payload brings it, and they get the card about that payload.
pub proof fn law_news_is_for_its_repository(kind: PayloadKind, payload: PayloadView)
    ensures
        read_step(kind, Some(payload)) matches GithubStepView::Find(notice) && {
            &&& notice.repo == payload.repo
            &&& notice.event == kind.event()
            &&& notice.card == MessageView::Interactive(json_text(card_value(kind, payload)))
        },
{
}

/// Payloads that tell of the same repository are looked for under the same name, however
/// else they differ.
pub proof fn law_repository_alone_is_looked_for(
    kind: PayloadKind,
    other: PayloadKind,
    a: PayloadView,
    b: PayloadView,
)
    ensures
        notice_of(kind, a).repo == notice_of(other, b).repo <==> a.repo == b.repo,
{
}

/// What a card quotes is the comment for a comment, and otherwise what the issue or the pull
/// request itself says, whole, and nothing where that is missing.
pub proof fn law_card_quotes(kind: PayloadKind, payload: PayloadView, text: Seq<char>)
    ensures
        kind == PayloadKind::IssueCommentCreated && payload.comment == Some(text) ==> quoted(
            kind,
            payload,
        ) == text,
        kind == PayloadKind::IssueCommentCreated && payload.comment is None ==> quoted(
            kind,
            payload,
        ).len() == 0,
        kind != PayloadKind::IssueCommentCreated && payload.body == Some(text) ==> quoted(
            kind,
            payload,
        ) == text,
        kind != PayloadKind::IssueCommentCreated && payload.body is None ==> quoted(
            kind,
            payload,
        ).len() == 0,
{
}

/// The main part of a card, a text in markdown, says what happened and who did it, by login
/// and address, then names the issue or the pull request, by number, title and address, and
/// quotes what was written. This is so for every kind of payload.
pub proof fn law_card_tells_who_did_what(kind: PayloadKind, payload: PayloadView)
    ensures
        card_value(kind, payload).member("elements"@) matches JsonView::Array(elements) && {
            &&& elements.len() == 3
            &&& elements[0] matches JsonView::Object(entries) && entries.len() == 2
            &&& elements[0].member("tag"@).as_str() == Some("markdown"@)
            &&& elements[0].member("content"@).as_str() == Some(
                kind.action() + " by ["@ + payload.sender_login + "]("@ + payload.sender_url
                    + ").\n"@ + "[#"@ + decimal(payload.number) + " "@ + payload.title + "]("@
                    + payload.url + ")\n"@ + quoted(kind, payload),
            )
        },
{
    lemma_card_members(kind, payload);
    lemma_story(kind, payload);
}

/// A card ends with a line across it and a note that links the repository, by its full name
/// and its address.
pub proof fn law_card_links_repository(kind: PayloadKind, payload: PayloadView)
    ensures
        card_value(kind, payload).member("elements"@) matches JsonView::Array(elements) && {
            &&& elements.len() == 3
            &&& elements[1] matches JsonView::Object(entries) && entries.len() == 1
            &&& elements[1].member("tag"@).as_str() == Some("hr"@)
            &&& elements[2] matches JsonView::Object(entries) && entries.len() == 2
            &&& elements[2].member("tag"@).as_str() == Some("note"@)
            &&& elements[2].member("elements"@) matches JsonView::Array(notes) && {
                &&& notes.len() == 1
                &&& notes[0] matches JsonView::Object(entries) && entries.len() == 2
                &&& notes[0].member("tag"@).as_str() == Some("lark_md"@)
                &&& notes[0].member("content"@).as_str() == Some(
                    "["@ + payload.repo + "]("@ + payload.repo_url + ")"@,
                )
            }
        },
{
    lemma_card_members(kind, payload);
}

/// The headline of a card says what happened, in brackets, and the number and the title of
/// the issue or the pull request. The card is blue, and wide.
pub proof fn law_card_has_headline(kind: PayloadKind, payload: PayloadView)
    ensures
        ({
            let card = card_value(kind, payload);
            let header = card.member("header"@);
            let title = header.member("title"@);
            &&& header.member("template"@).as_str() == Some("blue"@)
            &&& title.member("tag"@).as_str() == Some("plain_text"@)
            &&& title.member("content"@).as_str() == Some(
                "["@ + kind.action() + "] #"@ + decimal(payload.number) + " "@ + payload.title,
            )
            &&& card.member("config"@).member("wide_screen_mode"@) == JsonView::Bool(true)
            &&& card matches JsonView::Object(entries) && entries.len() == 3
            &&& header matches JsonView::Object(entries) && entries.len() == 2
            &&& title matches JsonView::Object(entries) && entries.len() == 2
            &&& card.member("config"@) matches JsonView::Object(entries) && entries.len() == 1
        }),
{
    lemma_card_members(kind, payload);
}

/// The parts of a card stand where their keys say.
proof fn lemma_card_members(kind: PayloadKind, payload: PayloadView)
    ensures
        ({
            let card = card_value(kind, payload);
            let header = card.member("header"@);
            let title = header.member("title"@);
            &&& header matches JsonView::Object(entries) && entries.len() == 2
            &&& title matches JsonView::Object(entries) && entries.len() == 2
            &&& card.member("config"@) matches JsonView::Object(entries) && entries.len() == 1
            &&& card.member("elements"@) matches JsonView::Array(elements) && {
                &&& elements.len() == 3
                &&& elements[0] matches JsonView::Object(entries) && entries.len() == 2
                &&& elements[1] matches JsonView::Object(entries) && entries.len() == 1
                &&& elements[2] matches JsonView::Object(entries) && entries.len() == 2
                &&& elements[0].member("tag"@) == JsonView::Str("markdown"@)
                &&& elements[0].member("content"@) == JsonView::Str(card_story(kind, payload))
                &&& elements[1].member("tag"@) == JsonView::Str("hr"@)
                &&& elements[2].member("tag"@) == JsonView::Str("note"@)
                &&& elements[2].member("elements"@) matches JsonView::Array(notes) && {
                    &&& notes.len() == 1
                    &&& notes[0] matches JsonView::Object(entries) && entries.len() == 2
                    &&& notes[0].member("tag"@) == JsonView::Str("lark_md"@)
                    &&& notes[0].member("content"@) == JsonView::Str(
                        link(payload.repo, payload.repo_url),
                    )
                }
            }
            &&& header.member("template"@) == JsonView::Str("blue"@)
            &&& title.member("tag"@) == JsonView::Str("plain_text"@)
            &&& title.member("content"@) == JsonView::Str(card_title(kind, payload))
            &&& card.member("config"@).member("wide_screen_mode"@) == JsonView::Bool(true)
        }),
{
    lemma_card_keys();
    let card = card_value(kind, payload);
    let entries = card->Object_0;
    let elements = entries[1].1->Array_0;
    let note = elements[2]->Object_0;
    let header = entries[2].1->Object_0;
    lemma_three_members(
        "config"@,
        entries[0].1,
        "elements"@,
        entries[1].1,
        "header"@,
        entries[2].1,
    );
    assert(entries =~= seq![
        ("config"@, entries[0].1),
        ("elements"@, entries[1].1),
        ("header"@, entries[2].1),
    ]);
    lemma_one_member("wide_screen_mode"@, JsonView::Bool(true));
    lemma_two_members(
        "tag"@,
        JsonView::Str("markdown"@),
        "content"@,
        JsonView::Str(card_story(kind, payload)),
    );
    lemma_one_member("tag"@, JsonView::Str("hr"@));
    lemma_two_members("tag"@, JsonView::Str("note"@), "elements"@, note[1].1);
    assert(note =~= seq![("tag"@, JsonView::Str("note"@)), ("elements"@, note[1].1)]);
    lemma_two_members(
        "tag"@,
        JsonView::Str("lark_md"@),
        "content"@,
        JsonView::Str(link(payload.repo, payload.repo_url)),
    );
    lemma_two_members("template"@, JsonView::Str("blue"@), "title"@, header[1].1);
    assert(header =~= seq![("template"@, JsonView::Str("blue"@)), ("title"@, header[1].1)]);
    lemma_two_members(
        "content"@,
        JsonView::Str(card_title(kind, payload)),
        "tag"@,
        JsonView::Str("plain_text"@),
    );
}

/// The main part of a card, piece by piece.
proof fn lemma_story(kind: PayloadKind, payload: PayloadView)
    ensures
        card_story(kind, payload) == kind.action() + " by ["@ + payload.sender_login + "]("@
            + payload.sender_url + ").\n"@ + "[#"@ + decimal(payload.number) + " "@ + payload.title
            + "]("@ + payload.url + ")\n"@ + quoted(kind, payload),
{
    lemma_marks();
    let who = kind.action() + " by ["@ + payload.sender_login + "]("@ + payload.sender_url
        + ").\n"@;
    let name = "#"@ + decimal(payload.number) + " "@ + payload.title;
    assert(kind.action() + " by "@ + link(payload.sender_login, payload.sender_url) + ".\n"@
        =~= who);
    let what = who + "[#"@ + decimal(payload.number) + " "@ + payload.title + "]("@ + payload.url;
    assert(who + link(name, payload.url) =~= what + ")"@);
    assert(what + ")"@ + "\n"@ =~= what + ")\n"@);
}

proof fn lemma_marks()
    ensures
        " by ["@ == " by "@ + "["@,
        ").\n"@ == ")"@ + ".\n"@,
        "[#"@ == "["@ + "#"@,
        ")\n"@ == ")"@ + "\n"@,
{
    reveal_strlit(" by [");
    reveal_strlit(" by ");
    reveal_strlit("[");
    reveal_strlit(").\n");
    reveal_strlit(")");
    reveal_strlit(".\n");
    reveal_strlit("[#");
    reveal_strlit("#");
    reveal_strlit(")\n");
    reveal_strlit("\n");
    assert(" by ["@ =~= " by "@ + "["@);
    assert(").\n"@ =~= ")"@ + ".\n"@);
    assert("[#"@ =~= "["@ + "#"@);
    assert(")\n"@ =~= ")"@ + "\n"@);
}

/// An event about issues is read as opened, commented, closed and reopened, in this order,
/// and is then passed over. One about pull requests is read as opened, closed and reopened,
/// and is then rejected. Any other event is passed over at once.
pub proof fn law_kinds_are_tried_in_order(event_type: Seq<char>)
    ensures
        event_type == "issues"@ || event_type == "issue_comment"@ ==> github_step(event_type)
            == GithubStepView::Read(PayloadKind::IssuesOpened),
        event_type == "pull_request"@ ==> github_step(event_type) == GithubStepView::Read(
            PayloadKind::PullRequestOpened,
        ),
        event_type != "issues"@ && event_type != "issue_comment"@ && event_type != "pull_request"@
            ==> github_step(event_type) == GithubStepView::Respond(ReplyView::NoContent),
        read_step(PayloadKind::IssuesOpened, None) == GithubStepView::Read(
            PayloadKind::IssueCommentCreated,
        ),
        read_step(PayloadKind::IssueCommentCreated, None) == GithubStepView::Read(
            PayloadKind::IssuesClosed,
        ),
        read_step(PayloadKind::IssuesClosed, None) == GithubStepView::Read(
            PayloadKind::IssuesReopened,
        ),
        read_step(PayloadKind::IssuesReopened, None) == GithubStepView::Respond(
            ReplyView::NoContent,
        ),
        read_step(PayloadKind::PullRequestOpened, None) == GithubStepView::Read(
            PayloadKind::PullRequestClosed,
        ),
        read_step(PayloadKind::PullRequestClosed, None) == GithubStepView::Read(
            PayloadKind::PullRequestReopened,
        ),
        read_step(PayloadKind::PullRequestReopened, None) == GithubStepView::Respond(
            ReplyView::Rejected,
        ),
{
    lemma_types_differ();
}

/// Each row that holds a subscription adds its whole chat behind the others, and a row that
/// holds an error adds none.
pub proof fn law_every_row_adds_its_chat(
    rows: Seq<RowView>,
    subscription: SubscriptionView,
    error: Seq<char>,
)
    ensures
        rows.len() == 0 ==> recipients(rows).len() == 0,
        recipients(rows.push(Ok(subscription))) == recipients(rows).push(subscription.chat_id),
        recipients(rows.push(Err(error))) == recipients(rows),
{
    assert(rows.push(Ok(subscription)).drop_last() =~= rows);
    assert(rows.push(Err(error)).drop_last() =~= rows);
}

/// The delivery of news starts with the chats of all rows, and with the card of the news. A
/// search that failed is answered with the whole error.
pub proof fn law_delivery_starts_with_all_chats(
    notice: NoticeView,
    rows: Seq<RowView>,
    error: Seq<char>,
)
    ensures
        delivery_of(notice, Ok(rows)) matches Ok(delivery) && {
            &&& delivery.chats == recipients(rows)
            &&& delivery.sent == 0
            &&& delivery.card == notice.card
        },
        delivery_of(notice, Err(error)) == Err::<DeliveryView, ReplyView>(
            ReplyView::NotFound("Failed to find subscriptions: "@ + error),
        ),
{
}

/// A delivery goes on with the next chat until every chat has the card, and is then answered
/// that all is well.
pub proof fn law_delivery_goes_on(delivery: DeliveryView)
    ensures
        delivery.sent < delivery.chats.len() ==> delivery_step(delivery) == DeliveryStepView::Send(
            message_request(delivery.chats[delivery.sent as int], delivery.card),
        ),
        delivery.sent >= delivery.chats.len() ==> delivery_step(delivery)
            == DeliveryStepView::Respond(ReplyView::NoContent),
{
}

/// Payloads, news and what is done about them are seen whole.
pub proof fn law_news_is_seen_whole(
    payload: Payload,
    read: Option<Payload>,
    notice: Notice,
    step: GithubStep,
    next: DeliveryStep,
)
    ensures
        payload@.repo == payload.repo@,
        payload@.repo_url == payload.repo_url@,
        payload@.number == payload.number,
        payload@.title == payload.title@,
        payload@.url == payload.url@,
        payload@.sender_login == payload.sender_login@,
        payload@.sender_url == payload.sender_url@,
        payload.body matches Some(body) ==> payload@.body == Some(body@),
        payload.body is None ==> payload@.body is None,
        payload.comment matches Some(comment) ==> payload@.comment == Some(comment@),
        payload.comment is None ==> payload@.comment is None,
        read matches Some(told) ==> payload_view(read) == Some(told@),
        read is None ==> payload_view(read) is None,
        notice@ == (NoticeView {
            repo: notice.repo@,
            event: notice.event,
            card: notice.card@,
        }),
        match step {
            GithubStep::Respond(reply) => step@ == GithubStepView::Respond(reply@),
            GithubStep::Read(kind) => step@ == GithubStepView::Read(kind),
            GithubStep::Find(news) => step@ == GithubStepView::Find(news@),
        },
        match next {
            DeliveryStep::Send(request) => next@ == DeliveryStepView::Send(request@),
            DeliveryStep::Respond(reply) => next@ == DeliveryStepView::Respond(reply@),
        },
{
}

} // verus!
