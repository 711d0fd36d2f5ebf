//! What holds of the bot as a whole, over the subscriptions that it stores.
use vstd::prelude::*;

use crate::command::{command_of, CommandView};
use crate::credential::{message_request, sending, ApiErrorView, ApiRequestView};
use crate::feishu::{feishu_step, is_message_event, sent_reply, FeishuStepView};
use crate::github::{
    card_value, delivery_of, delivery_run, github_step, header_refusal, kinds_after, kinds_of,
    law_events_do_not_mix, law_every_chat_is_told, law_first_fit_is_told,
    law_kinds_are_tried_in_order, law_news_is_for_its_repository, notice_of, read_step,
    read_through, recipients, DeliveryView, GithubStepView, PayloadKind, PayloadView,
};
use crate::json::{json_parsed, json_text, JsonView};
use crate::message::{
    checked_step, command_step, inserted_text, listed_text, message_step, removed_text, said,
    subscriptions_in, text_of, topic_lines, CheckView, MessageView, RemoveView, StepView,
};
use crate::reply::ReplyView;
use crate::subscription::{RowView, SubscriptionEvent, SubscriptionView};
use crate::text::trimmed;

verus! {

/// The stored subscriptions, in the order in which they were stored.
pub type Store = Seq<SubscriptionView>;

/// The store without the first subscription that equals `subscription`.
pub open spec fn without(store: Store, subscription: SubscriptionView) -> Store
    decreases store.len(),
{
    if store.len() == 0 {
        store
    } else if store[0] == subscription {
        store.drop_first()
    } else {
        seq![store[0]] + without(store.drop_first(), subscription)
    }
}

/// The stored subscriptions of a chat.
pub open spec fn of_chat(store: Store, chat_id: Seq<char>) -> Store {
    store.filter(|s: SubscriptionView| s.chat_id == chat_id)
}

/// The stored subscriptions to a kind of event of a repository.
pub open spec fn of_topic(store: Store, repo: Seq<char>, event: SubscriptionEvent) -> Store {
    store.filter(|s: SubscriptionView| s.repo == repo && s.event == event)
}

/// Subscriptions as the rows of a query that met no error.
pub open spec fn as_rows(store: Store) -> Seq<RowView> {
    store.map_values(|s: SubscriptionView| Ok::<SubscriptionView, Seq<char>>(s))
}

/// How looking for a subscription fails.
pub enum LookFault {
    NotConverted(Seq<char>),
    NotSearched(Seq<char>),
}

/// How storing a subscription fails. It may have been stored all the same.
pub struct InsertFault {
    pub error: Seq<char>,
    pub stored: bool,
}

/// How removing a subscription fails. Where the removal was tried, the subscription may be
/// gone all the same.
pub enum RemoveFault {
    NotConverted(Seq<char>),
    Failed { error: Seq<char>, removed: bool },
}

/// What goes wrong with the database.
pub struct Faults {
    pub look: Option<LookFault>,
    pub insert: Option<InsertFault>,
    pub remove: Option<RemoveFault>,
    /// What a query yields in place of the stored subscriptions.
    pub query: Option<Result<Seq<RowView>, Seq<char>>>,
}

/// Nothing goes wrong.
pub open spec fn no_faults() -> Faults {
    Faults { look: None, insert: None, remove: None, query: None }
}

impl Faults {
    /// What comes of looking for a subscription.
    pub open spec fn looked(self, store: Store, subscription: SubscriptionView) -> CheckView {
        match self.look {
            Some(LookFault::NotConverted(error)) => CheckView::NotConverted(error),
            Some(LookFault::NotSearched(error)) => CheckView::NotSearched(error),
            None => if store.contains(subscription) {
                CheckView::Found
            } else {
                CheckView::Missing
            },
        }
    }

    /// The store after storing a subscription, and what comes of it.
    pub open spec fn inserted(self, store: Store, subscription: SubscriptionView) -> (
        Store,
        Result<(), Seq<char>>,
    ) {
        match self.insert {
            None => (store.push(subscription), Ok(())),
            Some(fault) => (
                if fault.stored {
                    store.push(subscription)
                } else {
                    store
                },
                Err(fault.error),
            ),
        }
    }

    /// The store after removing a subscription, and what comes of it.
    pub open spec fn removed(self, store: Store, subscription: SubscriptionView) -> (
        Store,
        RemoveView,
    ) {
        match self.remove {
            None => (
                without(store, subscription),
                RemoveView::Removed(
                    if store.contains(subscription) {
                        1
                    } else {
                        0
                    },
                ),
            ),
            Some(RemoveFault::NotConverted(error)) => (store, RemoveView::NotConverted(error)),
            Some(RemoveFault::Failed { error, removed }) => (
                if removed {
                    without(store, subscription)
                } else {
                    store
                },
                RemoveView::Failed(error),
            ),
        }
    }

    /// What comes of a query for these stored subscriptions.
    pub open spec fn found(self, wanted: Store) -> Result<Seq<RowView>, Seq<char>> {
        match self.query {
            None => Ok(as_rows(wanted)),
            Some(outcome) => outcome,
        }
    }
}

/// Carries out a step: the store afterwards, and the reply to the chat. `pong` is the
/// reply to a ping.
pub open spec fn carry_out(
    store: Store,
    step: StepView,
    pong: MessageView,
    faults: Faults,
) -> (Store, MessageView)
    decreases
            if step is Check {
                1nat
            } else {
                0nat
            },
{
    match step {
        StepView::Reply(reply) => (store, reply),
        StepView::Probe => (store, pong),
        StepView::Check(subscription) => carry_out(
            store,
            checked_step(subscription, faults.looked(store, subscription)),
            pong,
            faults,
        ),
        StepView::Insert(subscription) => {
            let (after, outcome) = faults.inserted(store, subscription);
            (after, said(inserted_text(subscription, outcome)))
        },
        StepView::Remove(subscription) => {
            let (after, outcome) = faults.removed(store, subscription);
            (after, said(removed_text(subscription, outcome)))
        },
        StepView::List(chat_id) => (store, said(listed_text(faults.found(of_chat(store, chat_id))))),
    }
}

/// Serves a command from a chat, with a database that does as it is asked: the store
/// afterwards, and the reply.
pub open spec fn serve(
    store: Store,
    chat_id: Seq<char>,
    command: CommandView,
    pong: MessageView,
) -> (Store, MessageView) {
    carry_out(store, command_step(chat_id, command), pong, no_faults())
}

/// A message from a chat, with what goes wrong while it is seen to.
pub struct Call {
    pub chat_id: Seq<char>,
    pub content: Seq<char>,
    pub pong: MessageView,
    pub faults: Faults,
}

impl Call {
    /// The first step about the message.
    pub open spec fn step(self) -> StepView {
        message_step(self.chat_id, json_parsed(self.content))
    }

    /// The store after the message, and the reply to the chat.
    pub open spec fn served(self, store: Store) -> (Store, MessageView) {
        carry_out(store, self.step(), self.pong, self.faults)
    }
}

/// The store after messages that are seen to one after the other.
pub open spec fn store_after(store: Store, calls: Seq<Call>) -> Store
    decreases calls.len(),
{
    if calls.len() == 0 {
        store
    } else {
        calls.last().served(store_after(store, calls.drop_last())).0
    }
}

proof fn lemma_without(store: Store, gone: SubscriptionView)
    ensures
        !store.contains(gone) ==> without(store, gone) == store,
        forall|s: SubscriptionView|
            s != gone ==> (#[trigger] without(store, gone).contains(s) <==> store.contains(s)),
        forall|s: SubscriptionView| #[trigger]
            without(store, gone).contains(s) ==> store.contains(s),
        store.no_duplicates() ==> without(store, gone).no_duplicates() && !without(
            store,
            gone,
        ).contains(gone),
    decreases store.len(),
{
    if store.len() > 0 {
        let rest = store.drop_first();
        lemma_without(rest, gone);
        assert(store =~= seq![store[0]] + rest);
        assert forall|s: SubscriptionView| store.contains(s) <==> s == store[0] || rest.contains(
            s,
        ) by {
            if store.contains(s) && s != store[0] {
                let i = choose|i: int| 0 <= i < store.len() && store[i] == s;
                assert(rest[i - 1] == s);
            }
            if rest.contains(s) {
                let i = choose|i: int| 0 <= i < rest.len() && rest[i] == s;
                assert(store[i + 1] == s);
            }
            assert(store.contains(store[0]));
        }
        if store[0] != gone {
            let kept = without(rest, gone);
            let all = seq![store[0]] + kept;
            assert forall|s: SubscriptionView| #[trigger] all.contains(s) <==> s == store[0]
                || kept.contains(s) by {
                if all.contains(s) && s != store[0] {
                    let i = choose|i: int| 0 <= i < all.len() && all[i] == s;
                    assert(kept[i - 1] == s);
                }
                if kept.contains(s) {
                    let i = choose|i: int| 0 <= i < kept.len() && kept[i] == s;
                    assert(all[i + 1] == s);
                }
                assert(all[0] == store[0]);
            }
            if store.no_duplicates() {
                assert forall|i: int, j: int|
                    0 <= i < rest.len() && 0 <= j < rest.len() && i != j implies rest[i]
                    != rest[j] by {
                    assert(store[i + 1] != store[j + 1]);
                }
                assert(!rest.contains(store[0])) by {
                    if rest.contains(store[0]) {
                        let i = choose|i: int| 0 <= i < rest.len() && rest[i] == store[0];
                        assert(store[i + 1] == store[0]);
                    }
                }
                assert(!kept.contains(store[0]));
                assert forall|i: int, j: int|
                    0 <= i < all.len() && 0 <= j < all.len() && i != j implies all[i] != all[j] by {
                    if i > 0 && j > 0 {
                        assert(kept[i - 1] != kept[j - 1]);
                    } else if i > 0 {
                        assert(kept.contains(kept[i - 1]));
                    } else {
                        assert(kept.contains(kept[j - 1]));
                    }
                }
            }
        } else if store.no_duplicates() {
            assert(!rest.contains(gone)) by {
                if rest.contains(gone) {
                    let i = choose|i: int| 0 <= i < rest.len() && rest[i] == gone;
                    assert(store[i + 1] == store[0]);
                }
            }
            assert forall|i: int, j: int|
                0 <= i < rest.len() && 0 <= j < rest.len() && i != j implies rest[i] != rest[j] by {
                assert(store[i + 1] != store[j + 1]);
            }
        }
    }
}

/// No message ever stores a subscription twice, whatever goes wrong with the database.
pub proof fn law_no_duplicates(store: Store, call: Call)
    requires
        store.no_duplicates(),
    ensures
        call.served(store).0.no_duplicates(),
{
    reveal_with_fuel(carry_out, 2);
    match call.step() {
        StepView::Remove(subscription) => {
            lemma_without(store, subscription);
        },
        StepView::Check(subscription) => {
            if !store.contains(subscription) {
                lemma_pushed_no_duplicates(store, subscription);
            }
        },
        _ => {},
    }
}

proof fn lemma_pushed_no_duplicates(store: Store, added: SubscriptionView)
    requires
        store.no_duplicates(),
        !store.contains(added),
    ensures
        store.push(added).no_duplicates(),
{
    let longer = store.push(added);
    assert forall|i: int, j: int|
        0 <= i < longer.len() && 0 <= j < longer.len() && i != j implies longer[i] != longer[j] by {
        if i == store.len() {
            assert(store.contains(store[j]));
        } else if j == store.len() {
            assert(store.contains(store[i]));
        }
    }
}

/// No subscription is ever stored twice, however many messages come, in whatever order the
/// database takes them, and whichever of its operations fail.
pub proof fn law_no_duplicates_ever(store: Store, calls: Seq<Call>)
    requires
        store.no_duplicates(),
    ensures
        store_after(store, calls).no_duplicates(),
    decreases calls.len(),
{
    if calls.len() > 0 {
        law_no_duplicates_ever(store, calls.drop_last());
        law_no_duplicates(store_after(store, calls.drop_last()), calls.last());
    }
}

/// Subscribing stores the subscription behind the others, and the chat is told so. A
/// subscription that is stored already is left alone, and the chat is told that.
pub proof fn law_subscribing(
    store: Store,
    subscription: SubscriptionView,
    pong: MessageView,
)
    ensures
        ({
            let command = CommandView::Subscribe {
                repo: subscription.repo,
                event: subscription.event,
            };
            let served = serve(store, subscription.chat_id, command, pong);
            if store.contains(subscription) {
                served == (store, said("Already subscribed to "@ + subscription.topic()))
            } else {
                served == (
                    store.push(subscription),
                    said("Subscribed to "@ + subscription.topic()),
                )
            }
        }),
{
    reveal_with_fuel(carry_out, 2);
}

/// To subscribe again changes nothing.
pub proof fn law_subscribing_twice(
    store: Store,
    chat_id: Seq<char>,
    repo: Seq<char>,
    event: SubscriptionEvent,
    pong: MessageView,
)
    ensures
        ({
            let command = CommandView::Subscribe { repo, event };
            let once = serve(store, chat_id, command, pong).0;
            serve(once, chat_id, command, pong).0 == once
        }),
{
    reveal_with_fuel(carry_out, 2);
    let subscription = SubscriptionView { chat_id, repo, event };
    let longer = store.push(subscription);
    assert(longer[store.len() as int] == subscription);
    assert(longer.contains(subscription));
}

/// To unsubscribe undoes a subscription that was not stored before.
pub proof fn law_unsubscribing_undoes(
    store: Store,
    chat_id: Seq<char>,
    repo: Seq<char>,
    event: SubscriptionEvent,
    pong: MessageView,
)
    requires
        !store.contains(SubscriptionView { chat_id, repo, event }),
    ensures
        ({
            let on = CommandView::Subscribe { repo, event };
            let off = CommandView::Unsubscribe { repo, event };
            serve(serve(store, chat_id, on, pong).0, chat_id, off, pong).0 == store
        }),
{
    reveal_with_fuel(carry_out, 2);
    let subscription = SubscriptionView { chat_id, repo, event };
    lemma_without_pushed(store, subscription);
}

proof fn lemma_without_pushed(store: Store, subscription: SubscriptionView)
    requires
        !store.contains(subscription),
    ensures
        without(store.push(subscription), subscription) == store,
    decreases store.len(),
{
    let longer = store.push(subscription);
    if store.len() == 0 {
        assert(longer.drop_first() =~= store);
    } else {
        assert(store.contains(store[0]));
        let rest = store.drop_first();
        assert(longer.drop_first() =~= rest.push(subscription));
        assert(!rest.contains(subscription)) by {
            if rest.contains(subscription) {
                let i = choose|i: int| 0 <= i < rest.len() && rest[i] == subscription;
                assert(store[i + 1] == subscription);
            }
        }
        lemma_without_pushed(rest, subscription);
        assert(store =~= seq![store[0]] + rest);
    }
}

/// Unsubscribing leaves no such subscription in the store, and tells the chat whether there was
/// one. Every other subscription stays.
pub proof fn law_unsubscribing(
    store: Store,
    subscription: SubscriptionView,
    other: SubscriptionView,
    pong: MessageView,
)
    requires
        store.no_duplicates(),
        other != subscription,
    ensures
        ({
            let command = CommandView::Unsubscribe {
                repo: subscription.repo,
                event: subscription.event,
            };
            let served = serve(store, subscription.chat_id, command, pong);
            &&& !served.0.contains(subscription)
            &&& served.0.contains(other) <==> store.contains(other)
            &&& served.1 == (if store.contains(subscription) {
                said("Unsubscribed from "@ + subscription.topic())
            } else {
                said("Have not subscribed to "@ + subscription.topic())
            })
        }),
{
    lemma_without(store, subscription);
}

/// A chat has no say over the subscriptions of another: they stay as they are, in their
/// order, whatever goes wrong with the database.
pub proof fn law_chats_are_apart(store: Store, call: Call, other: Seq<char>)
    requires
        other != call.chat_id,
    ensures
        of_chat(call.served(store).0, other) == of_chat(store, other),
{
    let wanted = |s: SubscriptionView| s.chat_id == other;
    reveal_with_fuel(carry_out, 2);
    match call.step() {
        StepView::Remove(subscription) => {
            lemma_without_filter(store, subscription, wanted);
        },
        StepView::Check(subscription) => {
            lemma_pushed_filter(store, subscription, wanted);
        },
        _ => {},
    }
}

/// A message touches the subscription that it names and no other, whatever goes wrong with
/// the database: all others stay as they are, in their order. A message that names none
/// changes nothing.
pub proof fn law_message_touches_one_subscription(store: Store, call: Call)
    ensures
        ({
            let after = call.served(store).0;
            match call.step() {
                StepView::Check(named) => after.filter(|s: SubscriptionView| s != named)
                    == store.filter(|s: SubscriptionView| s != named),
                StepView::Remove(named) => after.filter(|s: SubscriptionView| s != named)
                    == store.filter(|s: SubscriptionView| s != named),
                _ => after == store,
            }
        }),
{
    reveal_with_fuel(carry_out, 2);
    match call.step() {
        StepView::Remove(named) => {
            lemma_without_filter(store, named, |s: SubscriptionView| s != named);
        },
        StepView::Check(named) => {
            lemma_pushed_filter(store, named, |s: SubscriptionView| s != named);
        },
        _ => {},
    }
}

proof fn lemma_pushed_filter(
    store: Store,
    added: SubscriptionView,
    wanted: spec_fn(SubscriptionView) -> bool,
)
    requires
        !wanted(added),
    ensures
        store.push(added).filter(wanted) == store.filter(wanted),
{
    reveal(Seq::filter);
    assert(store.push(added).drop_last() =~= store);
}

proof fn lemma_without_filter(
    store: Store,
    gone: SubscriptionView,
    wanted: spec_fn(SubscriptionView) -> bool,
)
    requires
        !wanted(gone),
    ensures
        without(store, gone).filter(wanted) == store.filter(wanted),
    decreases store.len(),
{
    if store.len() > 0 {
        let head = seq![store[0]];
        let rest = store.drop_first();
        lemma_without_filter(rest, gone, wanted);
        assert(store =~= head + rest);
        Seq::filter_distributes_over_add(head, rest, wanted);
        Seq::filter_distributes_over_add(head, without(rest, gone), wanted);
        if store[0] == gone {
            reveal_with_fuel(Seq::filter, 2);
            assert(!wanted(head.last()));
            assert(head.filter(wanted) =~= Seq::empty());
            assert(head.filter(wanted) + rest.filter(wanted) =~= rest.filter(wanted));
        }
    }
}

proof fn lemma_pushed(store: Store, added: SubscriptionView, s: SubscriptionView)
    ensures
        store.push(added).contains(s) <==> store.contains(s) || s == added,
{
    let longer = store.push(added);
    if longer.contains(s) && s != added {
        let i = choose|i: int| 0 <= i < longer.len() && longer[i] == s;
        assert(store[i] == s);
    }
    if store.contains(s) {
        let i = choose|i: int| 0 <= i < store.len() && store[i] == s;
        assert(longer[i] == s);
    }
    assert(longer[store.len() as int] == added);
}

/// Commands other than to subscribe and to unsubscribe change nothing.
pub proof fn law_questions_change_nothing(
    store: Store,
    chat_id: Seq<char>,
    command: CommandView,
    pong: MessageView,
    faults: Faults,
)
    requires
        !(command is Subscribe),
        !(command is Unsubscribe),
    ensures
        carry_out(store, command_step(chat_id, command), pong, faults).0 == store,
{
}

proof fn lemma_rows(store: Store)
    ensures
        subscriptions_in(as_rows(store)) == Ok::<Seq<SubscriptionView>, Seq<char>>(store),
    decreases store.len(),
{
    if store.len() > 0 {
        lemma_rows(store.drop_last());
        assert(as_rows(store).drop_last() =~= as_rows(store.drop_last()));
        assert(store.drop_last().push(store.last()) =~= store);
    } else {
        assert(store =~= Seq::empty());
    }
}

/// A list shows the subscriptions of the chat that asks, all of them and no others, in
/// the order in which they were stored.
pub proof fn law_list_shows_own_subscriptions(
    store: Store,
    chat_id: Seq<char>,
    subscription: SubscriptionView,
    pong: MessageView,
)
    ensures
        serve(store, chat_id, CommandView::List, pong).1 == said(
            "Subscriptions: \n"@ + topic_lines(of_chat(store, chat_id)),
        ),
        of_chat(store, chat_id).contains(subscription) <==> store.contains(subscription)
            && subscription.chat_id == chat_id,
{
    lemma_rows(of_chat(store, chat_id));
    lemma_filter(store, |s: SubscriptionView| s.chat_id == chat_id, subscription);
}

proof fn lemma_filter(
    store: Store,
    wanted: spec_fn(SubscriptionView) -> bool,
    s: SubscriptionView,
)
    ensures
        store.filter(wanted).contains(s) <==> store.contains(s) && wanted(s),
    decreases store.len(),
{
    reveal(Seq::filter);
    if store.len() > 0 {
        let rest = store.drop_last();
        lemma_filter(rest, wanted, s);
        lemma_pushed(rest, store.last(), s);
        lemma_pushed(rest.filter(wanted), store.last(), s);
        assert(rest.push(store.last()) =~= store);
    }
}

proof fn lemma_recipients(found: Store)
    ensures
        recipients(as_rows(found)) == found.map_values(|s: SubscriptionView| s.chat_id),
    decreases found.len(),
{
    if found.len() > 0 {
        lemma_recipients(found.drop_last());
        assert(as_rows(found).drop_last() =~= as_rows(found.drop_last()));
        assert(found.map_values(|s: SubscriptionView| s.chat_id) =~= found.drop_last().map_values(
            |s: SubscriptionView| s.chat_id,
        ).push(found.last().chat_id));
    } else {
        assert(found.map_values(|s: SubscriptionView| s.chat_id) =~= Seq::empty());
    }
}

/// News of a repository goes to a chat exactly if the chat subscribed to that kind of
/// event of that repository.
pub proof fn law_news_reaches_subscribers(
    store: Store,
    chat_id: Seq<char>,
    repo: Seq<char>,
    event: SubscriptionEvent,
)
    ensures
        recipients(as_rows(of_topic(store, repo, event))).contains(chat_id) <==> store.contains(
            SubscriptionView { chat_id, repo, event },
        ),
{
    let wanted = |s: SubscriptionView| s.repo == repo && s.event == event;
    let found = of_topic(store, repo, event);
    let told = found.map_values(|s: SubscriptionView| s.chat_id);
    lemma_recipients(found);
    let subscription = SubscriptionView { chat_id, repo, event };
    lemma_filter(store, wanted, subscription);
    if told.contains(chat_id) {
        let i = choose|i: int| 0 <= i < told.len() && told[i] == chat_id;
        assert(found.contains(found[i]));
        lemma_filter(store, wanted, found[i]);
        assert(found[i] == subscription);
    }
    if found.contains(subscription) {
        let i = choose|i: int| 0 <= i < found.len() && found[i] == subscription;
        assert(told[i] == chat_id);
    }
}

/// Right after a chat sent the message to subscribe it is among those who hear the news, and
/// right after the message to unsubscribe it is not.
pub proof fn law_messages_decide_who_hears_news(
    store: Store,
    chat_id: Seq<char>,
    message: JsonView,
    repo: Seq<char>,
    event: SubscriptionEvent,
    pong: MessageView,
)
    requires
        store.no_duplicates(),
    ensures
        ({
            let command = command_of(trimmed(text_of(message)));
            let after = carry_out(store, message_step(chat_id, Ok(message)), pong, no_faults()).0;
            let told = recipients(as_rows(of_topic(after, repo, event)));
            &&& command == (CommandView::Subscribe { repo, event }) ==> told.contains(chat_id)
            &&& command == (CommandView::Unsubscribe { repo, event }) ==> !told.contains(chat_id)
            &&& !(command is Subscribe) && !(command is Unsubscribe) ==> after == store
        }),
{
    let command = command_of(trimmed(text_of(message)));
    let subscription = SubscriptionView { chat_id, repo, event };
    let after = serve(store, chat_id, command, pong).0;
    law_news_reaches_subscribers(after, chat_id, repo, event);
    if command == (CommandView::Subscribe { repo, event }) {
        law_subscribing(store, subscription, pong);
        lemma_pushed(store, subscription, subscription);
    } else if command == (CommandView::Unsubscribe { repo, event }) {
        lemma_without(store, subscription);
    } else if !(command is Subscribe) && !(command is Unsubscribe) {
        law_questions_change_nothing(store, chat_id, command, pong, no_faults());
    }
}

proof fn lemma_filter_no_duplicates(store: Store, wanted: spec_fn(SubscriptionView) -> bool)
    requires
        store.no_duplicates(),
    ensures
        store.filter(wanted).no_duplicates(),
    decreases store.len(),
{
    reveal(Seq::filter);
    if store.len() > 0 {
        let rest = store.drop_last();
        lemma_filter_no_duplicates(rest, wanted);
        if wanted(store.last()) {
            lemma_filter(rest, wanted, store.last());
            let kept = rest.filter(wanted);
            assert(!rest.contains(store.last()));
            assert forall|i: int| 0 <= i < kept.len() implies kept[i] != store.last() by {
                assert(kept.contains(kept[i]));
            }
        }
    }
}

/// Nobody is told the same news twice.
pub proof fn law_news_comes_once(store: Store, repo: Seq<char>, event: SubscriptionEvent)
    requires
        store.no_duplicates(),
    ensures
        recipients(as_rows(of_topic(store, repo, event))).no_duplicates(),
{
    let wanted = |s: SubscriptionView| s.repo == repo && s.event == event;
    let found = of_topic(store, repo, event);
    let told = found.map_values(|s: SubscriptionView| s.chat_id);
    lemma_recipients(found);
    lemma_filter_no_duplicates(store, wanted);
    assert forall|i: int, j: int|
        0 <= i < told.len() && 0 <= j < told.len() && i != j implies told[i] != told[j] by {
        assert(found.contains(found[i]));
        assert(found.contains(found[j]));
        lemma_filter(store, wanted, found[i]);
        lemma_filter(store, wanted, found[j]);
        assert(found[i] != found[j]);
    }
}

/// None of the messages has this step.
pub open spec fn none_has_step(calls: Seq<Call>, step: StepView) -> bool {
    forall|k: int| 0 <= k < calls.len() ==> (#[trigger] calls[k]).step() != step
}

/// A stored subscription stays until a message asks for its removal, and one that is not
/// stored stays away until a message asks for it, whatever other messages come from whatever
/// chats and whichever operations of the database fail.
pub proof fn law_subscription_stays(store: Store, calls: Seq<Call>, s: SubscriptionView)
    ensures
        none_has_step(calls, StepView::Remove(s)) && store.contains(s) ==> store_after(
            store,
            calls,
        ).contains(s),
        none_has_step(calls, StepView::Check(s)) && !store.contains(s) ==> !store_after(
            store,
            calls,
        ).contains(s),
        none_has_step(calls, StepView::Check(s)) && none_has_step(calls, StepView::Remove(s))
            ==> store_after(store, calls).contains(s) == store.contains(s),
    decreases calls.len(),
{
    if calls.len() > 0 {
        let earlier = calls.drop_last();
        let before = store_after(store, earlier);
        law_subscription_stays(store, earlier, s);
        assert forall|step: StepView| none_has_step(calls, step) implies none_has_step(
            earlier,
            step,
        ) && calls.last().step() != step by {
            assert(calls[calls.len() - 1].step() != step);
            assert forall|k: int| 0 <= k < earlier.len() implies (#[trigger] earlier[k]).step()
                != step by {
                assert(earlier[k] == calls[k]);
            }
        }
        reveal_with_fuel(carry_out, 2);
        match calls.last().step() {
            StepView::Remove(named) => {
                lemma_without(before, named);
            },
            StepView::Check(named) => {
                lemma_pushed(before, named, s);
            },
            _ => {},
        }
    }
}

/// A chat that subscribed hears the news of every later event, once each, until it sends the
/// message to unsubscribe. A chat that unsubscribed hears none, until it sends the message to
/// subscribe. `asked` is the message that subscribed or unsubscribed, and `calls` are the
/// messages that came after it, from whatever chats.
pub proof fn law_news_lasts(
    store: Store,
    asked: Call,
    calls: Seq<Call>,
    chat_id: Seq<char>,
    repo: Seq<char>,
    event: SubscriptionEvent,
)
    requires
        store.no_duplicates(),
        asked.faults == no_faults(),
    ensures
        ({
            let subscription = SubscriptionView { chat_id, repo, event };
            let after = store_after(asked.served(store).0, calls);
            let told = recipients(as_rows(of_topic(after, repo, event)));
            &&& told.no_duplicates()
            &&& asked.step() == StepView::Check(subscription) && none_has_step(
                calls,
                StepView::Remove(subscription),
            ) ==> told.contains(chat_id)
            &&& asked.step() == StepView::Remove(subscription) && none_has_step(
                calls,
                StepView::Check(subscription),
            ) ==> !told.contains(chat_id)
        }),
{
    let subscription = SubscriptionView { chat_id, repo, event };
    let first = asked.served(store).0;
    let after = store_after(first, calls);
    law_no_duplicates(store, asked);
    law_no_duplicates_ever(first, calls);
    law_news_comes_once(after, repo, event);
    law_news_reaches_subscribers(after, chat_id, repo, event);
    law_subscription_stays(first, calls, subscription);
    reveal_with_fuel(carry_out, 2);
    lemma_pushed(store, subscription, subscription);
    lemma_without(store, subscription);
}

/// What a whole event comes to: the store afterwards, the requests that were made to the
/// chat service, and the answer to whoever reported the event.
pub struct EventRun {
    pub store: Store,
    pub requests: Seq<ApiRequestView>,
    pub reply: ReplyView,
}

/// The run of an event that the chat service reports. `answer` is what comes of a request to
/// the service.
pub open spec fn feishu_run(
    store: Store,
    info: JsonView,
    pong: MessageView,
    faults: Faults,
    answer: Result<JsonView, ApiErrorView>,
) -> EventRun {
    match feishu_step(info) {
        FeishuStepView::Respond(reply) => EventRun { store, requests: seq![], reply },
        FeishuStepView::Message { chat_id, content } => {
            let served = (Call { chat_id, content, pong, faults }).served(store);
            EventRun {
                store: served.0,
                requests: seq![message_request(chat_id, served.1)],
                reply: sent_reply(content, sending(answer)),
            }
        },
    }
}

/// An event of the chat service sends one message where it reports one, and otherwise none,
/// and then leaves the store alone. The answer is a text or a value with the status 200, or
/// a message with the status 400.
pub proof fn law_feishu_event_sends_once(
    store: Store,
    info: JsonView,
    pong: MessageView,
    faults: Faults,
    answer: Result<JsonView, ApiErrorView>,
)
    ensures
        ({
            let run = feishu_run(store, info, pong, faults, answer);
            &&& run.requests.len() == (if is_message_event(info) {
                1nat
            } else {
                0nat
            })
            &&& !is_message_event(info) ==> run.store == store
            &&& run.reply is Text || run.reply is Value ==> run.reply.status() == 200
            &&& !(run.reply is Text || run.reply is Value) ==> run.reply is BadRequest
                && run.reply.status() == 400
        }),
{
}

/// A message is answered in the chat that it came from, and the chat service is told that
/// it was received exactly if the answer could be sent.
pub proof fn law_message_is_answered(
    store: Store,
    info: JsonView,
    call: Call,
    answer: Result<JsonView, ApiErrorView>,
)
    requires
        feishu_step(info) == (FeishuStepView::Message {
            chat_id: call.chat_id,
            content: call.content,
        }),
    ensures
        ({
            let run = feishu_run(store, info, call.pong, call.faults, answer);
            &&& run.store == call.served(store).0
            &&& run.requests == seq![message_request(call.chat_id, call.served(store).1)]
            &&& run.reply == (match answer {
                Ok(_) => ReplyView::Text("Received message: "@ + call.content),
                Err(error) => ReplyView::BadRequest("Failed to send message: "@ + error.message()),
            })
        }),
{
}

/// The run of a GitHub event that stands at `step`. `fits` tells what the event gives as
/// each kind of payload, and `answers` what comes of each request to the chat service.
pub open spec fn github_run_from(
    store: Store,
    step: GithubStepView,
    fits: spec_fn(PayloadKind) -> Option<PayloadView>,
    faults: Faults,
    answers: spec_fn(nat) -> Result<JsonView, ApiErrorView>,
) -> EventRun
    decreases
            match step {
                GithubStepView::Read(kind) => kinds_after(kind) + 1,
                _ => 0,
            },
{
    match step {
        GithubStepView::Respond(reply) => EventRun { store, requests: seq![], reply },
        GithubStepView::Read(kind) => github_run_from(
            store,
            read_step(kind, fits(kind)),
            fits,
            faults,
            answers,
        ),
        GithubStepView::Find(notice) => {
            let found = faults.found(of_topic(store, notice.repo, notice.event));
            match delivery_of(notice, found) {
                Err(reply) => EventRun { store, requests: seq![], reply },
                Ok(delivery) => {
                    let run = delivery_run(delivery, |k: nat| sending(answers(k)));
                    EventRun { store, requests: run.0, reply: run.1 }
                },
            }
        },
    }
}

/// The run of a GitHub event from its header on.
pub open spec fn github_run(
    store: Store,
    header: Option<Result<Seq<char>, Seq<char>>>,
    fits: spec_fn(PayloadKind) -> Option<PayloadView>,
    faults: Faults,
    answers: spec_fn(nat) -> Result<JsonView, ApiErrorView>,
) -> EventRun {
    match header {
        Some(Ok(event_type)) => github_run_from(
            store,
            github_step(event_type),
            fits,
            faults,
            answers,
        ),
        _ => EventRun { store, requests: seq![], reply: header_refusal(header) },
    }
}

proof fn lemma_github_run(
    store: Store,
    step: GithubStepView,
    fits: spec_fn(PayloadKind) -> Option<PayloadView>,
    faults: Faults,
    answers: spec_fn(nat) -> Result<JsonView, ApiErrorView>,
)
    ensures
        github_run_from(store, step, fits, faults, answers).store == store,
        github_run_from(store, step, fits, faults, answers) == github_run_from(
            store,
            read_through(step, fits),
            fits,
            faults,
            answers,
        ),
    decreases
            match step {
                GithubStepView::Read(kind) => kinds_after(kind) + 1,
                _ => 0,
            },
{
    if let GithubStepView::Read(kind) = step {
        lemma_github_run(store, read_step(kind, fits(kind)), fits, faults, answers);
    }
}

/// A GitHub event leaves the subscriptions as they are, whatever its header and its body
/// hold and whatever it is answered.
pub proof fn law_github_event_keeps_store(
    store: Store,
    header: Option<Result<Seq<char>, Seq<char>>>,
    fits: spec_fn(PayloadKind) -> Option<PayloadView>,
    faults: Faults,
    answers: spec_fn(nat) -> Result<JsonView, ApiErrorView>,
)
    ensures
        github_run(store, header, fits, faults, answers).store == store,
{
    if let Some(Ok(event_type)) = header {
        lemma_github_run(store, github_step(event_type), fits, faults, answers);
    }
}

/// Where nothing goes wrong, a GitHub event sends its card to every chat that subscribed to
/// such events of the repository, in the order of the subscriptions, and to no other chat.
pub proof fn law_github_event_tells_subscribers(
    store: Store,
    event_type: Seq<char>,
    fits: spec_fn(PayloadKind) -> Option<PayloadView>,
    answers: spec_fn(nat) -> Result<JsonView, ApiErrorView>,
    n: int,
)
    requires
        0 <= n < kinds_of(event_type).len(),
        forall|k: int| 0 <= k < n ==> fits(#[trigger] kinds_of(event_type)[k]) is None,
        fits(kinds_of(event_type)[n]) is Some,
        forall|k: nat| (#[trigger] answers(k)) is Ok,
    ensures
        ({
            let kind = kinds_of(event_type)[n];
            let payload = fits(kind)->0;
            let event = if event_type == "pull_request"@ {
                SubscriptionEvent::PullRequest
            } else {
                SubscriptionEvent::Issue
            };
            let card = MessageView::Interactive(json_text(card_value(kind, payload)));
            let run = github_run(store, Some(Ok(event_type)), fits, no_faults(), answers);
            &&& run.requests == store.filter(
                |s: SubscriptionView| s.repo == payload.repo && s.event == event,
            ).map_values(|s: SubscriptionView| message_request(s.chat_id, card))
            &&& run.reply == ReplyView::NoContent
        }),
{
    let kind = kinds_of(event_type)[n];
    let notice = notice_of(kind, fits(kind)->0);
    law_news_is_for_its_repository(kind, fits(kind)->0);
    law_events_do_not_mix(event_type, fits);
    law_kinds_are_tried_in_order(event_type);
    let event = notice.event;
    let found = of_topic(store, notice.repo, event);
    let outcomes = |k: nat| sending(answers(k));
    let delivery = DeliveryView { chats: recipients(as_rows(found)), sent: 0, card: notice.card };
    lemma_github_run(store, github_step(event_type), fits, no_faults(), answers);
    law_first_fit_is_told(event_type, fits, n);
    assert forall|k: nat| (#[trigger] outcomes(k)) is Ok by {
        assert(answers(k) is Ok);
    }
    law_every_chat_is_told(delivery, outcomes);
    lemma_recipients(found);
    let told = |chat: Seq<char>| message_request(chat, delivery.card);
    assert(delivery.chats.skip(0) =~= delivery.chats);
    assert(delivery.chats.map_values(told) =~= found.map_values(
        |s: SubscriptionView| message_request(s.chat_id, notice.card),
    ));
}

} // verus!
