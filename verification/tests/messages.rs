use feishu_bot::json::Json;
use feishu_bot::message::{
    answer_message, feishu_message_handler, memory_probed, message_text, subscription_checked,
    subscription_inserted, subscription_removed, subscriptions_listed, text_message, CheckOutcome,
    FeishuNewMessage, MessageStep, RemoveOutcome, HELP_TEXT,
};
use feishu_bot::subscription::{Row, Subscription, SubscriptionEvent};

fn subscription(chat_id: &str, repo: &str, event: SubscriptionEvent) -> Subscription {
    Subscription {
        chat_id: chat_id.to_string(),
        repo: repo.to_string(),
        event,
    }
}

/// The text that a text message says.
fn said(message: &FeishuNewMessage) -> String {
    match message {
        FeishuNewMessage::Text(content) => {
            let value = Json::parse(content).unwrap();
            assert_eq!(&value.to_text(), content);
            message_text(&value).to_string()
        }
        FeishuNewMessage::Interactive(_) => panic!("no text message"),
    }
}

fn reply(step: MessageStep) -> String {
    match step {
        MessageStep::Reply(message) => said(&message),
        _ => panic!("no reply"),
    }
}

/// The content of a message that says `text`.
fn content(text: &str) -> String {
    match text_message(text) {
        FeishuNewMessage::Text(content) => content,
        FeishuNewMessage::Interactive(_) => panic!("no text message"),
    }
}

#[test]
fn a_text_message_is_a_json_object() {
    assert_eq!(content("hi"), r#"{"text":"hi"}"#);
    assert_eq!(
        content("a \"b\"\n\\\u{1}\u{4f60}"),
        "{\"text\":\"a \\\"b\\\"\\n\\\\\\u0001\u{4f60}\"}"
    );
}

#[test]
fn help_is_shown() {
    let help = "Available commands:\n- `@bot help`: Show this help message\n- `@bot ping`: Check if the bot is alive\n- `@bot subscribe <repo> <pr|issue>`: Subscribe to the events of a repository\n- `@bot unsubscribe <repo> <pr|issue>`: Unsubscribe from the events of a repository\n- `@bot list`: List all the subscriptions\n";
    assert_eq!(HELP_TEXT, help);
    assert_eq!(
        reply(feishu_message_handler("chat", r#"{"text":" @bot  help\n"}"#)),
        help
    );
}

#[test]
fn malformed_content_is_reported() {
    let error = serde_json::from_str::<serde_json::Value>("{\"text\":").unwrap_err();
    assert_eq!(
        reply(feishu_message_handler("chat", "{\"text\":")),
        format!("Failed to parse message: {}", error)
    );
    assert_eq!(
        reply(answer_message("chat", Err("broken".to_string()))),
        "Failed to parse message: broken"
    );
}

#[test]
fn content_without_text_is_unsupported() {
    for content in ["{}", "[]", "null", "7", r#"{"text":7}"#, r#"{"text":""}"#, "\"@bot help\""] {
        assert_eq!(
            reply(feishu_message_handler("chat", content)),
            "Unsupported command"
        );
    }
}

#[test]
fn a_ping_measures_memory() {
    assert!(matches!(
        feishu_message_handler("chat", &content("@bot ping")),
        MessageStep::Probe
    ));
    assert_eq!(
        said(&memory_probed("1.5", "200", "400.25")),
        "Pong!\nMemory Usage: 1.5 MiB\nFree Memory: 200 MiB / 400.25 MiB"
    );
}

#[test]
fn to_subscribe_looks_first() {
    match feishu_message_handler("chat", &content("@bot subscribe octo/repo pr")) {
        MessageStep::Check(wanted) => {
            assert_eq!(wanted.chat_id, "chat");
            assert_eq!(wanted.repo, "octo/repo");
            assert_eq!(wanted.event, SubscriptionEvent::PullRequest);
        }
        _ => panic!("no check"),
    }
}

#[test]
fn a_missing_subscription_is_stored() {
    let wanted = subscription("chat", "octo/repo", SubscriptionEvent::Issue);
    let stored = match subscription_checked(wanted, CheckOutcome::Missing) {
        MessageStep::Insert(stored) => stored,
        _ => panic!("no insertion"),
    };
    assert_eq!(stored.chat_id, "chat");
    assert_eq!(stored.repo, "octo/repo");
    assert_eq!(stored.event, SubscriptionEvent::Issue);
    assert_eq!(
        said(&subscription_inserted(&stored, Ok(()))),
        "Subscribed to octo/repo Issue"
    );
    assert_eq!(
        said(&subscription_inserted(&stored, Err("full".to_string()))),
        "Failed to subscribe: full"
    );
}

#[test]
fn other_outcomes_of_the_search_are_told() {
    let wanted = || subscription("chat", "r", SubscriptionEvent::PullRequest);
    assert_eq!(
        reply(subscription_checked(wanted(), CheckOutcome::Found)),
        "Already subscribed to r PullRequest"
    );
    assert_eq!(
        reply(subscription_checked(
            wanted(),
            CheckOutcome::NotConverted("x".to_string())
        )),
        "Failed to check subscription existence: Failed to convert subscription to document: x"
    );
    assert_eq!(
        reply(subscription_checked(
            wanted(),
            CheckOutcome::NotSearched("y".to_string())
        )),
        "Failed to check subscription existence: Failed to find subscription: y"
    );
}

#[test]
fn to_unsubscribe_removes() {
    let wanted = match feishu_message_handler("chat", &content("@bot unsubscribe r issue")) {
        MessageStep::Remove(wanted) => wanted,
        _ => panic!("no removal"),
    };
    assert_eq!(wanted.chat_id, "chat");
    assert_eq!(wanted.repo, "r");
    assert_eq!(wanted.event, SubscriptionEvent::Issue);
    assert_eq!(
        said(&subscription_removed(&wanted, RemoveOutcome::Removed(0))),
        "Have not subscribed to r Issue"
    );
    assert_eq!(
        said(&subscription_removed(&wanted, RemoveOutcome::Removed(1))),
        "Unsubscribed from r Issue"
    );
    assert_eq!(
        said(&subscription_removed(
            &wanted,
            RemoveOutcome::Failed("z".to_string())
        )),
        "Failed to unsubscribe: z"
    );
    assert_eq!(
        said(&subscription_removed(
            &wanted,
            RemoveOutcome::NotConverted("w".to_string())
        )),
        "Failed to convert subscription to document: w"
    );
}

#[test]
fn a_list_has_a_line_for_each_subscription() {
    match feishu_message_handler("chat", &content("@bot list")) {
        MessageStep::List(chat_id) => assert_eq!(chat_id, "chat"),
        _ => panic!("no list"),
    }
    let rows: Vec<Row> = vec![
        Ok(subscription("chat", "a", SubscriptionEvent::PullRequest)),
        Ok(subscription("chat", "b", SubscriptionEvent::Issue)),
        Ok(subscription("chat", "c", SubscriptionEvent::Issue)),
    ];
    assert_eq!(
        said(&subscriptions_listed(Ok(rows))),
        "Subscriptions: \na PullRequest\nb Issue\nc Issue"
    );
    assert_eq!(said(&subscriptions_listed(Ok(vec![]))), "Subscriptions: \n");
    assert_eq!(
        said(&subscriptions_listed(Err("gone".to_string()))),
        "Failed to list subscriptions: gone"
    );
}

#[test]
fn a_list_fails_with_its_first_error() {
    let rows: Vec<Row> = vec![
        Ok(subscription("chat", "a", SubscriptionEvent::PullRequest)),
        Err("first".to_string()),
        Ok(subscription("chat", "b", SubscriptionEvent::Issue)),
        Err("second".to_string()),
    ];
    assert_eq!(
        said(&subscriptions_listed(Ok(rows))),
        "Failed to list subscriptions: first"
    );
}

#[test]
fn json_is_read_and_written() {
    assert!(Json::parse("{").is_err());
    let text = r#"{"b":[1,true,null,"x"],"a":{"c":-5}}"#;
    assert_eq!(Json::parse(text).unwrap().to_text(), text);
    assert_eq!(
        Json::parse(" { \"a\" : 1 } ").unwrap().to_text(),
        r#"{"a":1}"#
    );
}
