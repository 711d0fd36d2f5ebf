use feishu_bot::feishu::{feishu_handler, reply_sent, FeishuStep};
use feishu_bot::github::{
    body_told, card, event_type_of, github_handler, payload_read, subscribers_found, DeliveryStep, GithubStep,
    Notice, Payload, PayloadKind,
};
use feishu_bot::json::Json;
use feishu_bot::message::FeishuNewMessage;
use feishu_bot::reply::HttpReply;
use feishu_bot::subscription::{Row, Subscription, SubscriptionEvent};

fn step(text: &str) -> FeishuStep {
    feishu_handler(&Json::parse(text).unwrap())
}

/// An answer in one line, to compare.
fn shown(reply: &HttpReply) -> String {
    let body = match reply {
        HttpReply::Text(text) => text.clone(),
        HttpReply::Value(value) => value.to_text(),
        HttpReply::NoContent | HttpReply::Rejected => String::new(),
        HttpReply::BadRequest(message) | HttpReply::NotFound(message) => message.clone(),
    };
    format!("{} {}", reply.status_code(), body)
}

fn answered(step: FeishuStep) -> String {
    match step {
        FeishuStep::Respond(reply) => shown(&reply),
        FeishuStep::Message { .. } => panic!("no answer"),
    }
}

#[test]
fn a_challenge_is_sent_back() {
    assert_eq!(
        answered(step(r#"{"type":"url_verification","challenge":"abc","token":"x"}"#)),
        r#"200 {"challenge":"abc"}"#
    );
    assert_eq!(
        answered(step(r#"{"type":"url_verification","schema":"2.0"}"#)),
        "400 No challenge in request"
    );
    assert_eq!(
        answered(step(r#"{"type":"url_verification","challenge":1}"#)),
        "400 No challenge in request"
    );
}

#[test]
fn events_need_the_schema() {
    assert_eq!(answered(step("{}")), "400 No schema in request");
    assert_eq!(answered(step("[]")), "400 No schema in request");
    assert_eq!(answered(step(r#"{"schema":2.0}"#)), "400 No schema in request");
    assert_eq!(answered(step(r#"{"schema":"1.0"}"#)), "400 Unsupported schema");
    assert_eq!(
        answered(step(r#"{"type":"other","challenge":"abc"}"#)),
        "400 No schema in request"
    );
}

#[test]
fn events_need_a_type() {
    assert_eq!(
        answered(step(r#"{"schema":"2.0"}"#)),
        "400 No event type in request"
    );
    assert_eq!(
        answered(step(r#"{"schema":"2.0","header":{"event_type":null}}"#)),
        "400 No event type in request"
    );
    assert_eq!(
        answered(step(r#"{"schema":"2.0","header":{"event_type":"im.chat.updated_v1"}}"#)),
        "200 Unsupported event type"
    );
}

#[test]
fn message_events_need_content_and_chat() {
    let head = r#"{"schema":"2.0","header":{"event_type":"im.message.receive_v1"}"#;
    assert_eq!(
        answered(step(&format!("{}}}", head))),
        "400 No message content in request"
    );
    assert_eq!(
        answered(step(&format!(r#"{},"event":{{"message":{{"chat_id":"c"}}}}}}"#, head))),
        "400 No message content in request"
    );
    assert_eq!(
        answered(step(&format!(r#"{},"event":{{"message":{{"content":"m"}}}}}}"#, head))),
        "400 No chat id in request"
    );
    let whole = format!(
        r#"{},"event":{{"message":{{"content":"m","chat_id":"c"}}}}}}"#,
        head
    );
    match step(&whole) {
        FeishuStep::Message { chat_id, content } => {
            assert_eq!(chat_id, "c");
            assert_eq!(content, "m");
        }
        FeishuStep::Respond(_) => panic!("no message"),
    }
}

#[test]
fn the_service_hears_what_came_of_the_reply() {
    assert_eq!(
        shown(&reply_sent("{\"text\":\"x\"}", Ok(()))),
        "200 Received message: {\"text\":\"x\"}"
    );
    assert_eq!(
        shown(&reply_sent("m", Err("Bad response".to_string()))),
        "400 Failed to send message: Bad response"
    );
}

#[test]
fn the_header_names_the_event() {
    match event_type_of(Some(Ok("issues".to_string()))) {
        Ok(event_type) => assert_eq!(event_type, "issues"),
        Err(_) => panic!("refused"),
    }
    match event_type_of(None) {
        Ok(_) => panic!("accepted"),
        Err(reply) => assert_eq!(shown(&reply), "400 No X-GitHub-Event header in request"),
    }
    match event_type_of(Some(Err("bad bytes".to_string()))) {
        Ok(_) => panic!("accepted"),
        Err(reply) => assert_eq!(
            shown(&reply),
            "400 Failed to parse X-GitHub-Event header: bad bytes"
        ),
    }
}

fn payload(body: Option<&str>, comment: Option<&str>) -> Payload {
    Payload {
        repo: "octo/repo".to_string(),
        repo_url: "https://github.com/octo/repo".to_string(),
        number: 42,
        title: "A \"title\"".to_string(),
        url: "https://github.com/octo/repo/issues/42".to_string(),
        sender_login: "cat".to_string(),
        sender_url: "https://github.com/cat".to_string(),
        body: body.map(|b| b.to_string()),
        comment: comment.map(|c| c.to_string()),
    }
}

/// Reads an event of a type that fits some kinds of payload.
fn read(event_type: &str, fits: &[PayloadKind]) -> (Vec<PayloadKind>, Result<Notice, String>) {
    let mut tried = Vec::new();
    let mut step = github_handler(event_type);
    loop {
        match step {
            GithubStep::Respond(reply) => return (tried, Err(shown(&reply))),
            GithubStep::Find(notice) => return (tried, Ok(notice)),
            GithubStep::Read(kind) => {
                tried.push(kind);
                let payload = if fits.contains(&kind) {
                    Some(payload(Some("text"), None))
                } else {
                    None
                };
                step = payload_read(kind, payload);
            }
        }
    }
}

const ISSUE_KINDS: [PayloadKind; 4] = [
    PayloadKind::IssuesOpened,
    PayloadKind::IssueCommentCreated,
    PayloadKind::IssuesClosed,
    PayloadKind::IssuesReopened,
];

const PULL_REQUEST_KINDS: [PayloadKind; 3] = [
    PayloadKind::PullRequestOpened,
    PayloadKind::PullRequestClosed,
    PayloadKind::PullRequestReopened,
];

fn card_of(notice: &Notice) -> String {
    match &notice.card {
        FeishuNewMessage::Interactive(text) => text.clone(),
        FeishuNewMessage::Text(_) => panic!("no card"),
    }
}

#[test]
fn issues_are_read_in_order() {
    let actions = ["Opened", "Commented", "Closed", "Reopened"];
    for event_type in ["issues", "issue_comment"] {
        for n in 0..4 {
            let (tried, outcome) = read(event_type, &ISSUE_KINDS[n..]);
            assert_eq!(tried, ISSUE_KINDS[..n + 1]);
            let notice = outcome.unwrap_or_else(|_| panic!("no notice"));
            assert_eq!(notice.repo, "octo/repo");
            assert_eq!(notice.event, SubscriptionEvent::Issue);
            assert!(card_of(&notice).contains(&format!("[{}] #42", actions[n])));
        }
        let (tried, outcome) = read(event_type, &PULL_REQUEST_KINDS);
        assert_eq!(tried, ISSUE_KINDS);
        assert_eq!(outcome.err(), Some("204 ".to_string()));
    }
}

#[test]
fn pull_requests_are_read_in_order() {
    let actions = ["Opened", "Closed", "Reopened"];
    for n in 0..3 {
        let (tried, outcome) = read("pull_request", &PULL_REQUEST_KINDS[n..]);
        assert_eq!(tried, PULL_REQUEST_KINDS[..n + 1]);
        let notice = outcome.unwrap_or_else(|_| panic!("no notice"));
        assert_eq!(notice.event, SubscriptionEvent::PullRequest);
        assert!(card_of(&notice).contains(&format!("[{}] #42", actions[n])));
    }
    let (tried, outcome) = read("pull_request", &ISSUE_KINDS);
    assert_eq!(tried, PULL_REQUEST_KINDS);
    assert_eq!(outcome.err(), Some("400 ".to_string()));
}

#[test]
fn other_events_are_passed_over() {
    for event_type in ["push", "", "Issues", "issues ", "pull_request_review"] {
        let (tried, outcome) = read(event_type, &ISSUE_KINDS);
        assert!(tried.is_empty());
        assert_eq!(outcome.err(), Some("204 ".to_string()));
    }
}

#[test]
fn a_card_tells_the_story() {
    let whole = r##"{"config":{"wide_screen_mode":true},"elements":[{"tag":"markdown","content":"Commented by [cat](https://github.com/cat).\n[#42 A \"title\"](https://github.com/octo/repo/issues/42)\nWell said."},{"tag":"hr"},{"tag":"note","elements":[{"tag":"lark_md","content":"[octo/repo](https://github.com/octo/repo)"}]}],"header":{"template":"blue","title":{"content":"[Commented] #42 A \"title\"","tag":"plain_text"}}}"##;
    match card(
        PayloadKind::IssueCommentCreated,
        &payload(Some("The issue itself."), Some("Well said.")),
    ) {
        FeishuNewMessage::Interactive(text) => {
            assert_eq!(text, whole);
            assert_eq!(Json::parse(&text).unwrap().to_text(), text);
        }
        FeishuNewMessage::Text(_) => panic!("no card"),
    }
}

#[test]
fn a_missing_body_is_empty() {
    match card(PayloadKind::PullRequestClosed, &payload(None, None)) {
        FeishuNewMessage::Interactive(text) => {
            assert!(text.contains(r#"issues/42)\n"},{"tag":"hr"}"#));
        }
        FeishuNewMessage::Text(_) => panic!("no card"),
    }
}

#[test]
fn a_card_quotes_the_comment_or_the_issue() {
    let own = || Some("own".to_string());
    let comment = || Some("comment".to_string());
    for kind in ISSUE_KINDS.iter().chain(PULL_REQUEST_KINDS.iter()) {
        let commented = *kind == PayloadKind::IssueCommentCreated;
        let told = body_told(*kind, own(), comment());
        assert_eq!(told, if commented { comment() } else { own() });
        assert_eq!(body_told(*kind, None, comment()).is_some(), commented);
        let end = if commented { r#"\ncomment"}"# } else { r#"\nown"}"# };
        match card(*kind, &payload(Some("own"), Some("comment"))) {
            FeishuNewMessage::Interactive(text) => assert!(text.contains(end), "{}", text),
            FeishuNewMessage::Text(_) => panic!("no card"),
        }
    }
}

fn notice() -> Notice {
    Notice {
        repo: "octo/repo".to_string(),
        event: SubscriptionEvent::Issue,
        card: FeishuNewMessage::Interactive("{}".to_string()),
    }
}

fn rows() -> Vec<Row> {
    let row = |chat_id: &str| {
        Ok(Subscription {
            chat_id: chat_id.to_string(),
            repo: "octo/repo".to_string(),
            event: SubscriptionEvent::Issue,
        })
    };
    vec![row("a"), Err("unreadable".to_string()), row("b"), row("c")]
}

/// The bodies of the requests that a delivery makes, and the answer at its end, where the
/// sending of number `fails` fails.
fn deliver(rows: Vec<Row>, fails: usize) -> (Vec<String>, String) {
    let mut delivery = match subscribers_found(notice(), Ok(rows)) {
        Ok(delivery) => delivery,
        Err(_) => panic!("no delivery"),
    };
    let mut bodies = Vec::new();
    loop {
        match delivery.next_step() {
            DeliveryStep::Respond(reply) => return (bodies, shown(&reply)),
            DeliveryStep::Send(request) => {
                bodies.push(request.body.to_text());
                let outcome = if bodies.len() == fails {
                    Err("refused".to_string())
                } else {
                    Ok(())
                };
                if let Some(reply) = delivery.delivered(outcome) {
                    return (bodies, shown(&reply));
                }
            }
        }
    }
}

fn body(chat_id: &str) -> String {
    format!(
        r#"{{"receive_id":"{}","msg_type":"interactive","content":"{{}}"}}"#,
        chat_id
    )
}

#[test]
fn every_subscriber_is_told() {
    let (bodies, answer) = deliver(rows(), 0);
    assert_eq!(bodies, [body("a"), body("b"), body("c")]);
    assert_eq!(answer, "204 ");
    let (bodies, answer) = deliver(vec![], 0);
    assert!(bodies.is_empty());
    assert_eq!(answer, "204 ");
}

#[test]
fn a_failure_ends_the_delivery() {
    let (bodies, answer) = deliver(rows(), 2);
    assert_eq!(bodies, [body("a"), body("b")]);
    assert_eq!(answer, "400 Failed to send message: refused");
}

#[test]
fn a_failed_search_is_reported() {
    match subscribers_found(notice(), Err("locked".to_string())) {
        Ok(_) => panic!("found"),
        Err(reply) => assert_eq!(shown(&reply), "404 Failed to find subscriptions: locked"),
    }
}
