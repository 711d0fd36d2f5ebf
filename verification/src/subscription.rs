//! Subscriptions of chats to the events of repositories.
use vstd::prelude::*;

verus! {

/// The kind of event that a chat can subscribe to.
#[derive(Debug, Copy, Clone, PartialEq, Eq, Structural)]
pub enum SubscriptionEvent {
    PullRequest,
    Issue,
}

impl SubscriptionEvent {
    /// The word for this kind of event in a command.
    pub open spec fn word(self) -> Seq<char> {
        match self {
            SubscriptionEvent::PullRequest => "pr"@,
            SubscriptionEvent::Issue => "issue"@,
        }
    }

    /// The name of this kind of event, in replies and in the database.
    pub open spec fn name(self) -> Seq<char> {
        match self {
            SubscriptionEvent::PullRequest => "PullRequest"@,
            SubscriptionEvent::Issue => "Issue"@,
        }
    }

    /// The name of this kind of event, in replies and in the database.
    pub fn name_text(self) -> (r: &'static str)
        ensures
            r@ == self.name(),
    {
        match self {
            SubscriptionEvent::PullRequest => "PullRequest",
            SubscriptionEvent::Issue => "Issue",
        }
    }
}

/// A chat wants to hear of one kind of event in a repository.
#[derive(Debug)]
pub struct Subscription {
    pub chat_id: String,
    pub repo: String,
    pub event: SubscriptionEvent,
}

/// A subscription over mathematical values.
pub struct SubscriptionView {
    pub chat_id: Seq<char>,
    pub repo: Seq<char>,
    pub event: SubscriptionEvent,
}

impl View for Subscription {
    type V = SubscriptionView;

    open spec fn view(&self) -> SubscriptionView {
        SubscriptionView { chat_id: self.chat_id@, repo: self.repo@, event: self.event }
    }
}

impl SubscriptionView {
    /// What the subscription is to: the repository and the kind of event.
    pub open spec fn topic(self) -> Seq<char> {
        self.repo + " "@ + self.event.name()
    }
}

impl Subscription {
    /// What the subscription is to: the repository and the kind of event.
    pub fn topic_text(&self) -> (r: String)
        ensures
            r@ == self@.topic(),
    {
        self.repo.clone().concat(" ").concat(self.event.name_text())
    }
}

/// What a database query yields for one stored subscription: the subscription, or the
/// message of the error that reading it met.
pub type Row = Result<Subscription, String>;

/// A row over mathematical values.
pub type RowView = Result<SubscriptionView, Seq<char>>;

/// The mathematical value of a row.
pub open spec fn row_view(row: Row) -> RowView {
    match row {
        Ok(subscription) => Ok(subscription@),
        Err(message) => Err(message@),
    }
}

/// The mathematical values of rows.
pub open spec fn rows_view(rows: Seq<Row>) -> Seq<RowView> {
    rows.map_values(|row: Row| row_view(row))
}

/// The topic of a subscription is its whole repository, a blank and the name of its kind of
/// event.
pub proof fn law_topic_names_both(subscription: SubscriptionView)
    ensures
        subscription.event == SubscriptionEvent::PullRequest ==> subscription.topic()
            == subscription.repo + " "@ + "PullRequest"@,
        subscription.event == SubscriptionEvent::Issue ==> subscription.topic()
            == subscription.repo + " "@ + "Issue"@,
{
}

/// The topic tells subscriptions apart: it is the same exactly for the same repository and
/// the same kind of event, whatever the chats.
pub proof fn law_topics_differ(a: SubscriptionView, b: SubscriptionView)
    ensures
        a.topic() == b.topic() <==> a.repo == b.repo && a.event == b.event,
{
    reveal_strlit(" ");
    reveal_strlit("PullRequest");
    reveal_strlit("Issue");
    if a.topic() == b.topic() {
        assert(a.topic().last() == a.event.name().last());
        assert(b.topic().last() == b.event.name().last());
        assert(a.event == b.event);
        assert(a.repo =~= a.topic().take(a.repo.len() as int));
        assert(b.repo =~= b.topic().take(b.repo.len() as int));
        assert(a.repo.len() == b.repo.len());
    }
}

/// A query's rows are seen whole, one by one and in their order: each subscription with its
/// chat, its repository and its kind of event, each error with its message.
pub proof fn law_rows_are_seen_whole(rows: Seq<Row>)
    ensures
        rows_view(rows).len() == rows.len(),
        forall|i: int|
            #![trigger rows[i]]
            #![trigger rows_view(rows)[i]]
            0 <= i < rows.len() ==> match rows[i] {
                Ok(s) => rows_view(rows)[i] == Ok::<SubscriptionView, Seq<char>>(
                    SubscriptionView { chat_id: s.chat_id@, repo: s.repo@, event: s.event },
                ),
                Err(message) => rows_view(rows)[i] == Err::<SubscriptionView, Seq<char>>(message@),
            },
{
}

} // verus!
