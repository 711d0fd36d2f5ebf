use feishu_bot::json::Json;
use feishu_bot::message::{
    feishu_message_handler, message_text, subscription_checked, subscription_inserted,
    subscription_removed, subscriptions_listed, CheckOutcome, FeishuNewMessage, MessageStep,
    RemoveOutcome,
};
use feishu_bot::github::{subscribers_found, DeliveryStep, Notice};
use feishu_bot::subscription::{Row, Subscription, SubscriptionEvent};
use polodb_core::bson::Document;
use polodb_core::Database;

const COLLECTION: &str = "subscriptions";

fn document(subscription: &Subscription) -> Document {
    let mut document = Document::new();
    document.insert("chat_id", subscription.chat_id.clone());
    document.insert("repo", subscription.repo.clone());
    document.insert("event", subscription.event.name_text());
    document
}

fn row(document: Document) -> Row {
    Ok(Subscription {
        chat_id: document.get_str("chat_id").unwrap().to_string(),
        repo: document.get_str("repo").unwrap().to_string(),
        event: if document.get_str("event").unwrap() == "Issue" {
            SubscriptionEvent::Issue
        } else {
            SubscriptionEvent::PullRequest
        },
    })
}

fn find(db: &Database, query: Document) -> Vec<Row> {
    db.collection::<Document>(COLLECTION)
        .find(query)
        .unwrap()
        .map(|found| row(found.unwrap()))
        .collect()
}

fn said(message: FeishuNewMessage) -> String {
    match message {
        FeishuNewMessage::Text(content) => {
            message_text(&Json::parse(&content).unwrap()).to_string()
        }
        FeishuNewMessage::Interactive(_) => panic!("no text message"),
    }
}

/// Serves a command from a chat over a database.
fn serve(db: &Database, chat_id: &str, command: &str) -> String {
    let col = db.collection::<Document>(COLLECTION);
    let mut step = feishu_message_handler(chat_id, &format!("{{\"text\":\"{}\"}}", command));
    loop {
        match step {
            MessageStep::Reply(message) => return said(message),
            MessageStep::Probe => panic!("no probe here"),
            MessageStep::Check(subscription) => {
                let outcome = match col.find_one(document(&subscription)).unwrap() {
                    Some(_) => CheckOutcome::Found,
                    None => CheckOutcome::Missing,
                };
                step = subscription_checked(subscription, outcome);
            }
            MessageStep::Insert(subscription) => {
                col.insert_one(document(&subscription)).unwrap();
                return said(subscription_inserted(&subscription, Ok(())));
            }
            MessageStep::Remove(subscription) => {
                let result = col.delete_one(document(&subscription)).unwrap();
                let outcome = RemoveOutcome::Removed(result.deleted_count);
                return said(subscription_removed(&subscription, outcome));
            }
            MessageStep::List(chat_id) => {
                let mut query = Document::new();
                query.insert("chat_id", chat_id);
                return said(subscriptions_listed(Ok(find(db, query))));
            }
        }
    }
}

/// The chats that hear of an event.
fn told(db: &Database, repo: &str, event: SubscriptionEvent) -> Vec<String> {
    let mut query = Document::new();
    query.insert("repo", repo);
    query.insert("event", event.name_text());
    let notice = Notice {
        repo: repo.to_string(),
        event,
        card: FeishuNewMessage::Interactive("{}".to_string()),
    };
    let mut delivery = match subscribers_found(notice, Ok(find(db, query))) {
        Ok(delivery) => delivery,
        Err(_) => panic!("no delivery"),
    };
    let mut chats = Vec::new();
    loop {
        match delivery.next_step() {
            DeliveryStep::Respond(_) => return chats,
            DeliveryStep::Send(request) => {
                chats.push(request.body.value["receive_id"].as_str().unwrap().to_string());
                delivery.delivered(Ok(()));
            }
        }
    }
}

#[test]
fn to_subscribe_twice_stores_once() {
    let db = Database::open_memory().unwrap();
    assert_eq!(serve(&db, "c", "@b subscribe r pr"), "Subscribed to r PullRequest");
    assert_eq!(
        serve(&db, "c", "@b subscribe r pr"),
        "Already subscribed to r PullRequest"
    );
    assert_eq!(serve(&db, "c", "@b list"), "Subscriptions: \nr PullRequest");
}

#[test]
fn to_unsubscribe_undoes() {
    let db = Database::open_memory().unwrap();
    assert_eq!(
        serve(&db, "c", "@b unsubscribe r issue"),
        "Have not subscribed to r Issue"
    );
    serve(&db, "c", "@b subscribe q issue");
    serve(&db, "c", "@b subscribe r issue");
    assert_eq!(
        serve(&db, "c", "@b unsubscribe r issue"),
        "Unsubscribed from r Issue"
    );
    assert_eq!(serve(&db, "c", "@b list"), "Subscriptions: \nq Issue");
    assert_eq!(
        serve(&db, "c", "@b unsubscribe r issue"),
        "Have not subscribed to r Issue"
    );
}

#[test]
fn chats_are_apart() {
    let db = Database::open_memory().unwrap();
    serve(&db, "a", "@b subscribe r pr");
    serve(&db, "b", "@b subscribe r pr");
    serve(&db, "a", "@b unsubscribe r pr");
    assert_eq!(serve(&db, "a", "@b list"), "Subscriptions: \n");
    assert_eq!(serve(&db, "b", "@b list"), "Subscriptions: \nr PullRequest");
}

#[test]
fn questions_change_nothing() {
    let db = Database::open_memory().unwrap();
    serve(&db, "a", "@b subscribe r pr");
    serve(&db, "a", "@b help");
    serve(&db, "a", "@b nonsense");
    serve(&db, "a", "@b list");
    assert_eq!(serve(&db, "a", "@b list"), "Subscriptions: \nr PullRequest");
}

#[test]
fn news_reaches_subscribers_once() {
    let db = Database::open_memory().unwrap();
    serve(&db, "a", "@b subscribe r pr");
    serve(&db, "a", "@b subscribe r pr");
    serve(&db, "b", "@b subscribe r issue");
    serve(&db, "c", "@b subscribe q pr");
    assert_eq!(told(&db, "r", SubscriptionEvent::PullRequest), ["a"]);
    assert_eq!(told(&db, "r", SubscriptionEvent::Issue), ["b"]);
    assert!(told(&db, "q", SubscriptionEvent::Issue).is_empty());
    serve(&db, "a", "@b unsubscribe r pr");
    assert!(told(&db, "r", SubscriptionEvent::PullRequest).is_empty());
}

#[test]
fn news_leaves_the_subscriptions_alone() {
    let db = Database::open_memory().unwrap();
    serve(&db, "a", "@b subscribe r pr");
    serve(&db, "a", "@b subscribe q issue");
    told(&db, "r", SubscriptionEvent::PullRequest);
    told(&db, "q", SubscriptionEvent::Issue);
    assert_eq!(
        serve(&db, "a", "@b list"),
        "Subscriptions: \nr PullRequest\nq Issue"
    );
}

#[test]
fn failing_searches_store_nothing() {
    let db = Database::open_memory().unwrap();
    let col = db.collection::<Document>(COLLECTION);
    let ask = || feishu_message_handler("c", r#"{"text":"@b subscribe r pr"}"#);
    // The first search fails, the second finds nothing, the third finds the subscription.
    for turn in 0..3 {
        let wanted = match ask() {
            MessageStep::Check(wanted) => wanted,
            _ => panic!("no check"),
        };
        let outcome = if turn == 0 {
            CheckOutcome::NotSearched("locked".to_string())
        } else if col.find_one(document(&wanted)).unwrap().is_some() {
            CheckOutcome::Found
        } else {
            CheckOutcome::Missing
        };
        match subscription_checked(wanted, outcome) {
            MessageStep::Insert(stored) => {
                assert_eq!(turn, 1);
                col.insert_one(document(&stored)).unwrap();
                // It was stored, though the database reports an error.
                assert_eq!(
                    said(subscription_inserted(&stored, Err("late".to_string()))),
                    "Failed to subscribe: late"
                );
            }
            MessageStep::Reply(_) => assert_ne!(turn, 1),
            _ => panic!("no reply"),
        }
    }
    assert_eq!(serve(&db, "c", "@b list"), "Subscriptions: \nr PullRequest");
}

#[test]
fn a_subscription_lasts_until_its_chat_unsubscribes() {
    let db = Database::open_memory().unwrap();
    serve(&db, "a", "@b subscribe r pr");
    for (chat_id, command) in [
        ("a", "@b subscribe r issue"),
        ("b", "@b unsubscribe r pr"),
        ("a", "@b unsubscribe q pr"),
        ("a", "@b subscribe r pr"),
        ("b", "@b subscribe r pr"),
        ("a", "@b unsubscribe r issue"),
        ("b", "@b unsubscribe r pr"),
        ("a", "@b nonsense"),
    ] {
        serve(&db, chat_id, command);
        let chats = told(&db, "r", SubscriptionEvent::PullRequest);
        assert_eq!(chats.iter().filter(|chat| *chat == "a").count(), 1);
    }
    serve(&db, "a", "@b unsubscribe r pr");
    for (chat_id, command) in [
        ("a", "@b subscribe r issue"),
        ("b", "@b subscribe r pr"),
        ("a", "@b unsubscribe r pr"),
    ] {
        serve(&db, chat_id, command);
        assert!(!told(&db, "r", SubscriptionEvent::PullRequest).contains(&"a".to_string()));
    }
}

#[test]
fn a_message_touches_the_subscription_that_it_names() {
    let db = Database::open_memory().unwrap();
    for topic in ["p pr", "q issue", "r pr"] {
        serve(&db, "a", &format!("@b subscribe {}", topic));
    }
    serve(&db, "a", "@b unsubscribe q issue");
    assert_eq!(
        serve(&db, "a", "@b list"),
        "Subscriptions: \np PullRequest\nr PullRequest"
    );
    serve(&db, "a", "@b subscribe q pr");
    assert_eq!(
        serve(&db, "a", "@b list"),
        "Subscriptions: \np PullRequest\nr PullRequest\nq PullRequest"
    );
}
