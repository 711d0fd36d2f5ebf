use feishu_bot::credential::{
    is_success, message_sent, ApiError, ApiRequest, Attempt, FeishuCredential, Method, Progress,
    RequestStep, RequestTask,
};
use feishu_bot::json::Json;
use feishu_bot::message::FeishuNewMessage;

fn json(text: &str) -> Json {
    Json::parse(text).unwrap()
}

fn credential() -> FeishuCredential {
    FeishuCredential::new("id".to_string(), "secret".to_string())
}

fn accepted(text: &str) -> Attempt {
    Attempt::Answered {
        status: 200,
        answer: json(text),
    }
}

fn refused() -> Attempt {
    Attempt::Answered {
        status: 401,
        answer: json("{}"),
    }
}

/// A request in one line, to compare.
fn shown(request: &ApiRequest) -> String {
    format!(
        "{:?} {} {}",
        request.method,
        request.url,
        request.body.to_text()
    )
}

/// What a request came to, the tokens that it was sent with, and how often a token was
/// asked for.
fn run(
    credential: &mut FeishuCredential,
    granted: &str,
    mut attempts: Vec<Attempt>,
) -> (Result<String, String>, Vec<String>, usize) {
    let message = FeishuNewMessage::Text("{}".to_string());
    let wanted = FeishuCredential::api_send_message("c", &message);
    let line = shown(&wanted);
    let mut task = RequestTask::new(wanted);
    let mut tokens = Vec::new();
    let mut asked = 0;
    loop {
        let mut step = credential.request_json(&task);
        loop {
            match step {
                RequestStep::Send { request, token } => {
                    assert_eq!(shown(request), line);
                    tokens.push(token);
                    break;
                }
                RequestStep::Fail(error) => return (Err(error.message_text()), tokens, asked),
                RequestStep::Refresh(request) => {
                    assert_eq!(shown(&request), shown(&credential.token_request()));
                    asked += 1;
                    let outcome = FeishuCredential::refresh_token(&json(granted));
                    step = credential.token_refreshed(&task, outcome);
                }
            }
        }
        match task.attempted(attempts.remove(0)) {
            Progress::Again => {}
            Progress::Done(Ok(answer)) => return (Ok(answer.to_text()), tokens, asked),
            Progress::Done(Err(error)) => return (Err(error.message_text()), tokens, asked),
        }
    }
}

const GRANTED: &str = r#"{"code":0,"tenant_access_token":"t"}"#;

fn check(request: &ApiRequest, url: &str, body: &str) {
    assert!(matches!(request.method, Method::Post));
    assert_eq!(request.url, url);
    assert_eq!(request.body.to_text(), body);
}

#[test]
fn a_token_is_asked_for_with_the_identity() {
    check(
        &credential().token_request(),
        "https://open.feishu.cn/open-apis/auth/v3/tenant_access_token/internal",
        r#"{"app_id":"id","app_secret":"secret"}"#,
    );
}

#[test]
fn a_token_is_granted_with_code_zero() {
    match FeishuCredential::refresh_token(&json(GRANTED)) {
        Ok(token) => assert_eq!(token, "t"),
        Err(_) => panic!("no token"),
    }
}

#[test]
fn any_other_answer_grants_no_token() {
    for answer in [
        "{}",
        "null",
        r#"{"code":1,"tenant_access_token":"t"}"#,
        r#"{"code":"0","tenant_access_token":"t"}"#,
        r#"{"code":0.0,"tenant_access_token":"t"}"#,
        r#"{"code":18446744073709551615,"tenant_access_token":"t"}"#,
        r#"{"code":0}"#,
        r#"{"code":0,"tenant_access_token":5}"#,
        r#"{"tenant_access_token":"t"}"#,
    ] {
        match FeishuCredential::refresh_token(&json(answer)) {
            Ok(_) => panic!("{}", answer),
            Err(error) => assert_eq!(error.message_text(), "Bad response"),
        }
    }
}

#[test]
fn messages_are_sent_to_their_chat() {
    check(
        &FeishuCredential::api_send_message(
            "oc_1",
            &FeishuNewMessage::Text(r#"{"text":"hi"}"#.to_string()),
        ),
        "https://open.feishu.cn/open-apis/im/v1/messages?receive_id_type=chat_id",
        r#"{"receive_id":"oc_1","msg_type":"text","content":"{\"text\":\"hi\"}"}"#,
    );
    check(
        &FeishuCredential::api_send_message(
            "oc_2",
            &FeishuNewMessage::Interactive("{}".to_string()),
        ),
        "https://open.feishu.cn/open-apis/im/v1/messages?receive_id_type=chat_id",
        r#"{"receive_id":"oc_2","msg_type":"interactive","content":"{}"}"#,
    );
}

#[test]
fn the_first_answer_of_success_is_returned() {
    let mut credential = credential();
    let attempts = vec![refused(), accepted("[1]"), refused()];
    let (outcome, tokens, asked) = run(&mut credential, GRANTED, attempts);
    assert_eq!(outcome, Ok("[1]".to_string()));
    assert_eq!(tokens, ["t", "t"]);
    assert_eq!(asked, 1);
}

#[test]
fn three_refusals_are_the_end() {
    let mut credential = credential();
    let attempts = vec![
        refused(),
        refused(),
        refused(),
        accepted("[1]"),
    ];
    let (outcome, tokens, asked) = run(&mut credential, GRANTED, attempts);
    assert_eq!(outcome, Err("Failed to get a valid response".to_string()));
    assert_eq!(tokens.len(), 3);
    assert_eq!(asked, 1);
}

#[test]
fn a_failure_of_transport_is_the_end() {
    let mut credential = credential();
    let attempts = vec![
        refused(),
        Attempt::Failed(ApiError::Transport("reset".to_string())),
        accepted("[1]"),
    ];
    let (outcome, tokens, _) = run(&mut credential, GRANTED, attempts);
    assert_eq!(outcome, Err("reset".to_string()));
    assert_eq!(tokens.len(), 2);
}

#[test]
fn a_token_is_kept_for_later_requests() {
    let mut credential = credential();
    run(&mut credential, GRANTED, vec![accepted("1")]);
    let other = r#"{"code":0,"tenant_access_token":"other"}"#;
    let (outcome, tokens, asked) =
        run(&mut credential, other, vec![accepted("2")]);
    assert_eq!(outcome, Ok("2".to_string()));
    assert_eq!(tokens, ["t"]);
    assert_eq!(asked, 0);
}

#[test]
fn without_a_token_nothing_is_sent() {
    let mut credential = credential();
    let (outcome, tokens, asked) = run(&mut credential, "{}", vec![]);
    assert_eq!(outcome, Err("Bad response".to_string()));
    assert!(tokens.is_empty());
    assert_eq!(asked, 1);
    // The next request asks again.
    let (outcome, _, asked) = run(&mut credential, GRANTED, vec![accepted("3")]);
    assert_eq!(outcome, Ok("3".to_string()));
    assert_eq!(asked, 1);
}

#[test]
fn refusals_beyond_the_last_attempt_do_not_count() {
    let mut task = RequestTask::new(credential().token_request());
    assert!(matches!(task.attempted(refused()), Progress::Again));
    assert!(matches!(task.attempted(refused()), Progress::Again));
    for _ in 0..1000 {
        assert!(matches!(
            task.attempted(refused()),
            Progress::Done(Err(ApiError::NoValidResponse))
        ));
    }
    assert!(matches!(
        credential().request_json(&task),
        RequestStep::Fail(ApiError::NoValidResponse)
    ));
}

#[test]
fn success_is_a_status_of_two_hundred_and_more() {
    for status in 0..1000u16 {
        assert_eq!(is_success(status), status / 100 == 2, "{}", status);
    }
    assert!(!is_success(u16::MAX));
    let mut task = RequestTask::new(credential().token_request());
    for status in [199, 300] {
        let answer = json("1");
        assert!(matches!(
            task.attempted(Attempt::Answered { status, answer }),
            Progress::Again
        ));
    }
    let answer = json("2");
    let status = 299;
    assert!(matches!(
        task.attempted(Attempt::Answered { status, answer }),
        Progress::Done(Ok(_))
    ));
}

#[test]
fn a_message_is_sent_exactly_if_its_request_succeeds() {
    assert_eq!(message_sent(Ok(json(r#"{"code":99}"#))), Ok(()));
    assert_eq!(message_sent(Ok(json("null"))), Ok(()));
    assert_eq!(
        message_sent(Err(ApiError::NoValidResponse)),
        Err("Failed to get a valid response".to_string())
    );
    assert_eq!(
        message_sent(Err(ApiError::BadResponse)),
        Err("Bad response".to_string())
    );
    assert_eq!(
        message_sent(Err(ApiError::Transport("reset".to_string()))),
        Err("reset".to_string())
    );
}

#[test]
fn methods_have_their_names() {
    let named = [
        (Method::Get, "GET"),
        (Method::Post, "POST"),
        (Method::Put, "PUT"),
        (Method::Delete, "DELETE"),
        (Method::Head, "HEAD"),
        (Method::Options, "OPTIONS"),
        (Method::Connect, "CONNECT"),
        (Method::Patch, "PATCH"),
        (Method::Trace, "TRACE"),
        (Method::Extension("PURGE".to_string()), "PURGE"),
    ];
    for (method, name) in named {
        assert_eq!(method.name_text(), name);
        let known = reqwest::Method::from_bytes(name.as_bytes()).unwrap();
        assert_eq!(known.as_str(), name);
    }
}

#[test]
fn one_token_serves_requests_that_alternate() {
    let mut credential = credential();
    let message = FeishuNewMessage::Text("{}".to_string());
    let first = RequestTask::new(FeishuCredential::api_send_message("a", &message));
    let second = RequestTask::new(FeishuCredential::api_send_message("b", &message));
    // The first request is refused a token, the second gets one, and both go on with it.
    assert!(matches!(
        credential.request_json(&first),
        RequestStep::Refresh(_)
    ));
    let refusal = FeishuCredential::refresh_token(&json("{}"));
    assert!(matches!(
        credential.token_refreshed(&first, refusal),
        RequestStep::Fail(ApiError::BadResponse)
    ));
    assert!(matches!(
        credential.request_json(&second),
        RequestStep::Refresh(_)
    ));
    let grant = FeishuCredential::refresh_token(&json(GRANTED));
    match credential.token_refreshed(&second, grant) {
        RequestStep::Send { token, .. } => assert_eq!(token, "t"),
        _ => panic!("not sent"),
    }
    for task in [&first, &second, &first] {
        match credential.request_json(task) {
            RequestStep::Send { token, .. } => assert_eq!(token, "t"),
            _ => panic!("not sent"),
        }
    }
}
