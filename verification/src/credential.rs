//! The bot's credential, and the requests that it makes with it.
//!
//! A request carries an access token, which the bot asks for once and then keeps. It is
//! made up to [`MAX_ATTEMPTS`] times, until an answer has a status of success.
use vstd::prelude::*;

use crate::json::{
    lemma_three_members, lemma_two_members, object_of_three, object_of_two, value_as_i64, value_as_str, value_member, value_of_string, Json,
    JsonView,
};
use crate::message::{outcome_view, FeishuNewMessage, MessageView};

verus! {

/// Where the bot asks for an access token.
pub const TOKEN_URL: &'static str = "https://open.feishu.cn/open-apis/auth/v3/tenant_access_token/internal";

/// Where the bot sends a message to a chat.
pub const MESSAGE_URL: &'static str = "https://open.feishu.cn/open-apis/im/v1/messages?receive_id_type=chat_id";

/// How often a request is made before the bot gives up.
pub const MAX_ATTEMPTS: u8 = 3;

/// The method of a request.
#[derive(Debug, Clone)]
pub enum Method {
    Get,
    Post,
    Put,
    Delete,
    Head,
    Options,
    Connect,
    Patch,
    Trace,
    /// Any other method, by its name.
    Extension(String),
}

/// The method of a request, over mathematical values.
pub enum MethodView {
    Get,
    Post,
    Put,
    Delete,
    Head,
    Options,
    Connect,
    Patch,
    Trace,
    Extension(Seq<char>),
}

impl View for Method {
    type V = MethodView;

    open spec fn view(&self) -> MethodView {
        match *self {
            Method::Get => MethodView::Get,
            Method::Post => MethodView::Post,
            Method::Put => MethodView::Put,
            Method::Delete => MethodView::Delete,
            Method::Head => MethodView::Head,
            Method::Options => MethodView::Options,
            Method::Connect => MethodView::Connect,
            Method::Patch => MethodView::Patch,
            Method::Trace => MethodView::Trace,
            Method::Extension(name) => MethodView::Extension(name@),
        }
    }
}

impl MethodView {
    /// The name of the method in a request.
    pub open spec fn name(self) -> Seq<char> {
        match self {
            MethodView::Get => "GET"@,
            MethodView::Post => "POST"@,
            MethodView::Put => "PUT"@,
            MethodView::Delete => "DELETE"@,
            MethodView::Head => "HEAD"@,
            MethodView::Options => "OPTIONS"@,
            MethodView::Connect => "CONNECT"@,
            MethodView::Patch => "PATCH"@,
            MethodView::Trace => "TRACE"@,
            MethodView::Extension(name) => name,
        }
    }
}

impl Method {
    /// The name of the method in a request.
    pub fn name_text(&self) -> (r: &str)
        ensures
            r@ == self@.name(),
    {
        match self {
            Method::Get => "GET",
            Method::Post => "POST",
            Method::Put => "PUT",
            Method::Delete => "DELETE",
            Method::Head => "HEAD",
            Method::Options => "OPTIONS",
            Method::Connect => "CONNECT",
            Method::Patch => "PATCH",
            Method::Trace => "TRACE",
            Method::Extension(name) => name.as_str(),
        }
    }
}

/// A request to the service.
pub struct ApiRequest {
    pub method: Method,
    pub url: String,
    pub body: Json,
}

/// A request over mathematical values.
pub struct ApiRequestView {
    pub method: MethodView,
    pub url: Seq<char>,
    pub body: JsonView,
}

impl View for ApiRequest {
    type V = ApiRequestView;

    open spec fn view(&self) -> ApiRequestView {
        ApiRequestView { method: self.method@, url: self.url@, body: self.body@ }
    }
}

/// Why a request came to nothing.
pub enum ApiError {
    /// The service did not grant an access token.
    BadResponse,
    /// No attempt was answered with a status of success.
    NoValidResponse,
    /// A request could not be sent, or its answer could not be read.
    Transport(String),
}

/// Why a request came to nothing, over mathematical values.
pub enum ApiErrorView {
    BadResponse,
    NoValidResponse,
    Transport(Seq<char>),
}

impl View for ApiError {
    type V = ApiErrorView;

    open spec fn view(&self) -> ApiErrorView {
        match *self {
            ApiError::BadResponse => ApiErrorView::BadResponse,
            ApiError::NoValidResponse => ApiErrorView::NoValidResponse,
            ApiError::Transport(error) => ApiErrorView::Transport(error@),
        }
    }
}

impl ApiErrorView {
    /// The message of the error.
    pub open spec fn message(self) -> Seq<char> {
        match self {
            ApiErrorView::BadResponse => "Bad response"@,
            ApiErrorView::NoValidResponse => "Failed to get a valid response"@,
            ApiErrorView::Transport(error) => error,
        }
    }
}

impl ApiError {
    /// The message of the error.
    pub fn message_text(&self) -> (r: String)
        ensures
            r@ == self@.message(),
    {
        match self {
            ApiError::BadResponse => "Bad response".to_string(),
            ApiError::NoValidResponse => "Failed to get a valid response".to_string(),
            ApiError::Transport(error) => error.clone(),
        }
    }
}

/// The token that an answer of the service grants: its code is zero, and the token is a
/// string.
pub open spec fn token_in(answer: JsonView) -> Option<Seq<char>> {
    if answer.member("code"@).as_i64() == Some(0int) {
        answer.member("tenant_access_token"@).as_str()
    } else {
        None
    }
}

/// What is to be done about a request.
pub enum RequestStep<'a> {
    /// Make this request, which asks for an access token.
    Refresh(ApiRequest),
    /// Make the request with this token.
    Send { request: &'a ApiRequest, token: String },
    /// Give up.
    Fail(ApiError),
}

/// What is to be done about a request, over mathematical values.
pub enum RequestStepView {
    Refresh(ApiRequestView),
    Send { request: ApiRequestView, token: Seq<char> },
    Fail(ApiErrorView),
}

impl<'a> View for RequestStep<'a> {
    type V = RequestStepView;

    open spec fn view(&self) -> RequestStepView {
        match *self {
            RequestStep::Refresh(request) => RequestStepView::Refresh(request@),
            RequestStep::Send { request, token } => RequestStepView::Send {
                request: request@,
                token: token@,
            },
            RequestStep::Fail(error) => RequestStepView::Fail(error@),
        }
    }
}

/// What to do about a request with a credential: send it with the token that is held, get
/// a token first, or give up where it was refused too often.
pub open spec fn request_step(credential: CredentialView, task: TaskView) -> RequestStepView {
    if task.refused >= MAX_ATTEMPTS {
        RequestStepView::Fail(ApiErrorView::NoValidResponse)
    } else {
        match credential.token {
            Some(token) => RequestStepView::Send { request: task.request, token },
            None => RequestStepView::Refresh(token_request(credential)),
        }
    }
}

/// What to do about a request once a token was asked for.
pub open spec fn refreshed_step(
    task: TaskView,
    outcome: Result<Seq<char>, ApiErrorView>,
) -> RequestStepView {
    match outcome {
        Ok(token) => RequestStepView::Send { request: task.request, token },
        Err(error) => RequestStepView::Fail(error),
    }
}

/// The mathematical value of what came of asking for a token.
pub open spec fn refresh_view(outcome: Result<String, ApiError>) -> Result<
    Seq<char>,
    ApiErrorView,
> {
    match outcome {
        Ok(token) => Ok(token@),
        Err(error) => Err(error@),
    }
}

/// The identity of the bot, and the access token that it holds.
pub struct FeishuCredential {
    app_id: String,
    app_secret: String,
    tenant_access_token: Option<String>,
}

/// A credential over mathematical values.
pub struct CredentialView {
    pub app_id: Seq<char>,
    pub app_secret: Seq<char>,
    pub token: Option<Seq<char>>,
}

impl View for FeishuCredential {
    type V = CredentialView;

    closed spec fn view(&self) -> CredentialView {
        CredentialView {
            app_id: self.app_id@,
            app_secret: self.app_secret@,
            token: match self.tenant_access_token {
                Some(token) => Some(token@),
                None => None,
            },
        }
    }
}

impl CredentialView {
    /// The credential once a token was asked for: a token that was granted is held.
    pub open spec fn refreshed(self, outcome: Result<Seq<char>, ApiErrorView>) -> CredentialView {
        match outcome {
            Ok(token) => CredentialView { token: Some(token), ..self },
            Err(_) => self,
        }
    }
}

/// The request for an access token.
pub open spec fn token_request(credential: CredentialView) -> ApiRequestView {
    ApiRequestView {
        method: MethodView::Post,
        url: TOKEN_URL@,
        body: JsonView::Object(
            seq![
                ("app_id"@, JsonView::Str(credential.app_id)),
                ("app_secret"@, JsonView::Str(credential.app_secret)),
            ],
        ),
    }
}

/// The name of the type of a message.
pub open spec fn message_type(message: MessageView) -> Seq<char> {
    match message {
        MessageView::Text(_) => "text"@,
        MessageView::Interactive(_) => "interactive"@,
    }
}

/// The request that sends a message to a chat.
pub open spec fn message_request(chat_id: Seq<char>, message: MessageView) -> ApiRequestView {
    ApiRequestView {
        method: MethodView::Post,
        url: MESSAGE_URL@,
        body: JsonView::Object(
            seq![
                ("receive_id"@, JsonView::Str(chat_id)),
                ("msg_type"@, JsonView::Str(message_type(message))),
                ("content"@, JsonView::Str(message.content())),
            ],
        ),
    }
}

impl FeishuCredential {
    /// A credential that holds no token yet.
    pub fn new(app_id: String, app_secret: String) -> (r: FeishuCredential)
        ensures
            r@ == (CredentialView { app_id: app_id@, app_secret: app_secret@, token: None }),
    {
        FeishuCredential { app_id, app_secret, tenant_access_token: None }
    }

    /// The request for an access token.
    pub fn token_request(&self) -> (r: ApiRequest)
        ensures
            r@ == token_request(self@),
            r.method is Post,
            r.url@ == "https://open.feishu.cn/open-apis/auth/v3/tenant_access_token/internal"@,
            r.body@.member("app_id"@).as_str() == Some(self@.app_id),
            r.body@.member("app_secret"@).as_str() == Some(self@.app_secret),
    {
        proof {
            law_token_is_asked_for_with_identity(self@);
            reveal_strlit("app_id");
            reveal_strlit("app_secret");
            assert("app_id"@.len() != "app_secret"@.len());
        }
        let body = object_of_two(
            "app_id",
            value_of_string(self.app_id.clone()),
            "app_secret",
            value_of_string(self.app_secret.clone()),
        );
        ApiRequest { method: Method::Post, url: TOKEN_URL.to_string(), body: Json { value: body } }
    }

    /// Reads the token that the service grants in its answer to a request for one.
    pub fn refresh_token(answer: &Json) -> (r: Result<String, ApiError>)
        ensures
            match r {
                Ok(token) => token_in(answer@) == Some(token@),
                Err(error) => token_in(answer@) is None && error@ is BadResponse,
            },
            r is Ok <==> answer@.member("code"@).as_i64() == Some(0int) && answer@.member(
                "tenant_access_token"@,
            ).as_str() is Some,
            r matches Ok(token) ==> answer@.member("tenant_access_token"@).as_str() == Some(token@),
            r matches Err(error) ==> error is BadResponse,
    {
        match value_as_i64(value_member(&answer.value, "code")) {
            Some(0) => match value_as_str(value_member(&answer.value, "tenant_access_token")) {
                Some(token) => Ok(token.to_string()),
                None => Err(ApiError::BadResponse),
            },
            _ => Err(ApiError::BadResponse),
        }
    }

    /// What to do about a request: send it with the token that the credential holds, get
    /// a token first, or give up.
    pub fn request_json<'a>(&self, task: &'a RequestTask) -> (r: RequestStep<'a>)
        ensures
            r@ == request_step(self@, task@),
            match r {
                RequestStep::Refresh(request) => self@.token is None && request@ == token_request(
                    self@,
                ),
                RequestStep::Send { request, token } => self@.token == Some(token@) && request@
                    == task@.request,
                RequestStep::Fail(error) => task@.refused >= 3 && error is NoValidResponse,
            },
    {
        if task.refused >= MAX_ATTEMPTS {
            RequestStep::Fail(ApiError::NoValidResponse)
        } else {
            match &self.tenant_access_token {
                Some(token) => RequestStep::Send { request: &task.request, token: token.clone() },
                None => RequestStep::Refresh(self.token_request()),
            }
        }
    }

    /// Keeps the token that was granted, and goes on with the request.
    pub fn token_refreshed<'a>(
        &mut self,
        task: &'a RequestTask,
        outcome: Result<String, ApiError>,
    ) -> (r: RequestStep<'a>)
        ensures
            r@ == refreshed_step(task@, refresh_view(outcome)),
            final(self)@ == old(self)@.refreshed(refresh_view(outcome)),
            final(self)@.app_id == old(self)@.app_id,
            final(self)@.app_secret == old(self)@.app_secret,
            match outcome {
                Ok(granted) => {
                    &&& r matches RequestStep::Send { request, token }
                    &&& request@ == task@.request
                    &&& token@ == granted@
                    &&& final(self)@.token == Some(granted@)
                },
                Err(error) => r == RequestStep::<'a>::Fail(error) && final(self)@.token == old(
                    self,
                )@.token,
            },
    {
        match outcome {
            Ok(token) => {
                self.tenant_access_token = Some(token.clone());
                RequestStep::Send { request: &task.request, token }
            },
            Err(error) => RequestStep::Fail(error),
        }
    }

    /// The request that sends a message to a chat.
    pub fn api_send_message(chat_id: &str, content: &FeishuNewMessage) -> (r: ApiRequest)
        ensures
            r@ == message_request(chat_id@, content@),
            r.method is Post,
            r.url@
                == "https://open.feishu.cn/open-apis/im/v1/messages?receive_id_type=chat_id"@,
            r.body@.member("receive_id"@).as_str() == Some(chat_id@),
            match *content {
                FeishuNewMessage::Text(text) => {
                    &&& r.body@.member("msg_type"@).as_str() == Some("text"@)
                    &&& r.body@.member("content"@).as_str() == Some(text@)
                },
                FeishuNewMessage::Interactive(text) => {
                    &&& r.body@.member("msg_type"@).as_str() == Some("interactive"@)
                    &&& r.body@.member("content"@).as_str() == Some(text@)
                },
            },
    {
        proof {
            law_message_request_names_chat_and_content(chat_id@, content@);
            reveal_strlit("receive_id");
            reveal_strlit("msg_type");
            reveal_strlit("content");
            assert("receive_id"@.len() == 10);
            assert("msg_type"@.len() == 8);
            assert("content"@.len() == 7);
        }
        let (kind, text) = match content {
            FeishuNewMessage::Text(text) => ("text", text.clone()),
            FeishuNewMessage::Interactive(text) => ("interactive", text.clone()),
        };
        let body = object_of_three(
            "receive_id",
            value_of_string(chat_id.to_string()),
            "msg_type",
            value_of_string(kind.to_string()),
            "content",
            value_of_string(text),
        );
        ApiRequest {
            method: Method::Post,
            url: MESSAGE_URL.to_string(),
            body: Json { value: body },
        }
    }
}

/// A request on its way: what is to be sent, and how many attempts were refused.
pub struct RequestTask {
    request: ApiRequest,
    refused: u8,
}

/// A request on its way, over mathematical values.
pub struct TaskView {
    pub request: ApiRequestView,
    pub refused: nat,
}

impl View for RequestTask {
    type V = TaskView;

    closed spec fn view(&self) -> TaskView {
        TaskView { request: self.request@, refused: self.refused as nat }
    }
}

/// The status of an answer is one of success.
pub open spec fn success(status: u16) -> bool {
    200 <= status < 300
}

/// Tells a status of success from others.
pub fn is_success(status: u16) -> (r: bool)
    ensures
        r == (200 <= status < 300),
{
    200 <= status && status < 300
}

/// What one attempt came to.
pub enum Attempt {
    /// The request could not be sent, or its answer could not be read.
    Failed(ApiError),
    /// The service answered with this status.
    Answered { status: u16, answer: Json },
}

/// What one attempt came to, over mathematical values.
pub enum AttemptView {
    Failed(ApiErrorView),
    Answered { status: u16, answer: JsonView },
}

impl View for Attempt {
    type V = AttemptView;

    open spec fn view(&self) -> AttemptView {
        match *self {
            Attempt::Failed(error) => AttemptView::Failed(error@),
            Attempt::Answered { status, answer } => AttemptView::Answered {
                status,
                answer: answer@,
            },
        }
    }
}

impl AttemptView {
    /// What the attempt decides: nothing where the service answered without a status of
    /// success.
    pub open spec fn outcome(self) -> Option<Result<JsonView, ApiErrorView>> {
        match self {
            AttemptView::Failed(error) => Some(Err(error)),
            AttemptView::Answered { status, answer } => if success(status) {
                Some(Ok(answer))
            } else {
                None
            },
        }
    }

    /// The service answered without a status of success.
    pub open spec fn refused(self) -> bool {
        self.outcome() is None
    }
}

/// Whether a request is done, and what it came to.
pub enum Progress {
    /// Ask the credential again what to do.
    Again,
    /// The request is done, with this answer or this error.
    Done(Result<Json, ApiError>),
}

/// Whether a request is done, over mathematical values.
pub enum ProgressView {
    Again,
    Done(Result<JsonView, ApiErrorView>),
}

impl View for Progress {
    type V = ProgressView;

    open spec fn view(&self) -> ProgressView {
        match *self {
            Progress::Again => ProgressView::Again,
            Progress::Done(outcome) => ProgressView::Done(answer_view(outcome)),
        }
    }
}

/// The mathematical value of what a request came to.
pub open spec fn answer_view(outcome: Result<Json, ApiError>) -> Result<JsonView, ApiErrorView> {
    match outcome {
        Ok(answer) => Ok(answer@),
        Err(error) => Err(error@),
    }
}

impl TaskView {
    /// The request after an attempt. Refusals beyond the last attempt do not count.
    pub open spec fn after(self, attempt: AttemptView) -> TaskView {
        if attempt.refused() && self.refused < MAX_ATTEMPTS {
            TaskView { refused: self.refused + 1, ..self }
        } else {
            self
        }
    }

    /// Whether the request is done after an attempt, and what it came to. A refusal is
    /// the end where it is that of the last attempt.
    pub open spec fn progress(self, attempt: AttemptView) -> ProgressView {
        match attempt.outcome() {
            Some(outcome) => ProgressView::Done(outcome),
            None => if self.refused + 1 < MAX_ATTEMPTS {
                ProgressView::Again
            } else {
                ProgressView::Done(Err(ApiErrorView::NoValidResponse))
            },
        }
    }
}

impl RequestTask {
    /// A request of which no attempt was made yet.
    pub fn new(request: ApiRequest) -> (r: RequestTask)
        ensures
            r@ == (TaskView { request: request@, refused: 0 }),
    {
        RequestTask { request, refused: 0 }
    }

    /// Takes note of what an attempt came to.
    pub fn attempted(&mut self, attempt: Attempt) -> (r: Progress)
        ensures
            r@ == old(self)@.progress(attempt@),
            final(self)@ == old(self)@.after(attempt@),
            final(self)@.request == old(self)@.request,
            match attempt {
                Attempt::Failed(error) => {
                    &&& r matches Progress::Done(outcome) && outcome == Err::<Json, ApiError>(error)
                    &&& final(self)@.refused == old(self)@.refused
                },
                Attempt::Answered { status, answer } => if 200 <= status < 300 {
                    &&& r matches Progress::Done(outcome) && outcome == Ok::<Json, ApiError>(answer)
                    &&& final(self)@.refused == old(self)@.refused
                } else if old(self)@.refused < 2 {
                    &&& r is Again
                    &&& final(self)@.refused == old(self)@.refused + 1
                } else {
                    r matches Progress::Done(Err(error)) && error is NoValidResponse
                },
            },
    {
        match attempt {
            Attempt::Failed(error) => Progress::Done(Err(error)),
            Attempt::Answered { status, answer } => {
                if is_success(status) {
                    return Progress::Done(Ok(answer));
                }
                if self.refused < MAX_ATTEMPTS {
                    self.refused = self.refused + 1;
                }
                if self.refused < MAX_ATTEMPTS {
                    Progress::Again
                } else {
                    Progress::Done(Err(ApiError::NoValidResponse))
                }
            },
        }
    }
}

/// What sending a message comes to, by what the request came to: the answer does not
/// matter, and an error is told by its message.
pub open spec fn sending(outcome: Result<JsonView, ApiErrorView>) -> Result<(), Seq<char>> {
    match outcome {
        Ok(_) => Ok(()),
        Err(error) => Err(error.message()),
    }
}

/// What sending a message comes to, by what the request came to.
pub fn message_sent(outcome: Result<Json, ApiError>) -> (r: Result<(), String>)
    ensures
        outcome_view(r) == sending(answer_view(outcome)),
        r is Ok <==> outcome is Ok,
        r matches Err(message) ==> (outcome matches Err(error) && message@ == error@.message()),
{
    match outcome {
        Ok(_) => Ok(()),
        Err(error) => Err(error.message_text()),
    }
}

/// What a whole request comes to: its outcome, the credential afterwards, what was sent
/// with which token, and how a token was asked for.
pub struct RequestRun {
    pub outcome: Result<JsonView, ApiErrorView>,
    pub credential: CredentialView,
    pub sent: Seq<(ApiRequestView, Seq<char>)>,
    pub asked: Seq<ApiRequestView>,
}

/// The run of a request that stands at `step`. `granted` is what comes of asking for a
/// token, and `attempts` tells what each attempt comes to.
pub open spec fn request_run(
    step: RequestStepView,
    credential: CredentialView,
    task: TaskView,
    granted: Result<Seq<char>, ApiErrorView>,
    attempts: spec_fn(nat) -> AttemptView,
) -> RequestRun
    decreases
            if task.refused < MAX_ATTEMPTS {
                MAX_ATTEMPTS - task.refused
            } else {
                0
            },
            if step is Refresh {
                1nat
            } else {
                0nat
            },
{
    match step {
        RequestStepView::Fail(error) => RequestRun {
            outcome: Err(error),
            credential,
            sent: seq![],
            asked: seq![],
        },
        RequestStepView::Refresh(request) => {
            let run = request_run(
                refreshed_step(task, granted),
                credential.refreshed(granted),
                task,
                granted,
                attempts,
            );
            RequestRun { asked: seq![request] + run.asked, ..run }
        },
        RequestStepView::Send { request, token } => {
            let attempt = attempts(task.refused);
            match task.progress(attempt) {
                ProgressView::Done(outcome) => RequestRun {
                    outcome,
                    credential,
                    sent: seq![(request, token)],
                    asked: seq![],
                },
                ProgressView::Again => {
                    let next = task.after(attempt);
                    let run = request_run(
                        request_step(credential, next),
                        credential,
                        next,
                        granted,
                        attempts,
                    );
                    RequestRun { sent: seq![(request, token)] + run.sent, ..run }
                },
            }
        },
    }
}

/// The run of a request from its start.
pub open spec fn whole_run(
    credential: CredentialView,
    request: ApiRequestView,
    granted: Result<Seq<char>, ApiErrorView>,
    attempts: spec_fn(nat) -> AttemptView,
) -> RequestRun {
    let task = TaskView { request, refused: 0 };
    request_run(request_step(credential, task), credential, task, granted, attempts)
}

/// The token that a request is sent with, where there is one.
pub open spec fn usable_token(
    credential: CredentialView,
    granted: Result<Seq<char>, ApiErrorView>,
) -> Result<Seq<char>, ApiErrorView> {
    match credential.token {
        Some(token) => Ok(token),
        None => granted,
    }
}

/// The run of a request that is sent with a token that is held.
spec fn sending_run(
    credential: CredentialView,
    task: TaskView,
    token: Seq<char>,
    granted: Result<Seq<char>, ApiErrorView>,
    attempts: spec_fn(nat) -> AttemptView,
) -> RequestRun {
    request_run(
        RequestStepView::Send { request: task.request, token },
        credential,
        task,
        granted,
        attempts,
    )
}

/// A run gets a token where it must, and then sends.
proof fn lemma_whole_run(
    credential: CredentialView,
    request: ApiRequestView,
    granted: Result<Seq<char>, ApiErrorView>,
    attempts: spec_fn(nat) -> AttemptView,
)
    ensures
        ({
            let run = whole_run(credential, request, granted, attempts);
            let asked = if credential.token is None {
                seq![token_request(credential)]
            } else {
                seq![]
            };
            match usable_token(credential, granted) {
                Ok(token) => {
                    let held = CredentialView { token: Some(token), ..credential };
                    let task = TaskView { request, refused: 0 };
                    let sends = sending_run(held, task, token, granted, attempts);
                    run == (RequestRun { asked: asked + sends.asked, ..sends })
                },
                Err(error) => run == (RequestRun {
                    outcome: Err(error),
                    credential,
                    sent: seq![],
                    asked,
                }),
            }
        }),
{
    let task = TaskView { request, refused: 0 };
    match credential.token {
        Some(token) => {
            let sends = sending_run(credential, task, token, granted, attempts);
            assert(CredentialView { token: Some(token), ..credential } == credential);
            assert(Seq::<ApiRequestView>::empty() + sends.asked =~= sends.asked);
        },
        None => {
            reveal_with_fuel(request_run, 2);
            assert(seq![token_request(credential)] + Seq::<ApiRequestView>::empty() =~= seq![
                token_request(credential),
            ]);
        },
    }
}

proof fn lemma_sending_run(
    credential: CredentialView,
    task: TaskView,
    token: Seq<char>,
    granted: Result<Seq<char>, ApiErrorView>,
    attempts: spec_fn(nat) -> AttemptView,
)
    requires
        credential.token == Some(token),
        task.refused < MAX_ATTEMPTS,
    ensures
        ({
            let run = sending_run(credential, task, token, granted, attempts);
            &&& run.credential == credential
            &&& run.asked == Seq::<ApiRequestView>::empty()
            &&& run.sent.len() <= MAX_ATTEMPTS - task.refused
            &&& forall|k: int|
                0 <= k < run.sent.len() ==> (#[trigger] run.sent[k]) == (task.request, token)
        }),
    decreases MAX_ATTEMPTS - task.refused,
{
    let attempt = attempts(task.refused);
    if task.progress(attempt) is Again {
        lemma_sending_run(credential, task.after(attempt), token, granted, attempts);
    }
}

proof fn lemma_first_answer(
    credential: CredentialView,
    task: TaskView,
    token: Seq<char>,
    granted: Result<Seq<char>, ApiErrorView>,
    attempts: spec_fn(nat) -> AttemptView,
    n: nat,
)
    requires
        credential.token == Some(token),
        task.refused <= n < MAX_ATTEMPTS,
        forall|k: nat| task.refused <= k < n ==> (#[trigger] attempts(k)).refused(),
        !attempts(n).refused(),
    ensures
        ({
            let run = sending_run(credential, task, token, granted, attempts);
            &&& run.sent.len() == n - task.refused + 1
            &&& Some(run.outcome) == attempts(n).outcome()
        }),
    decreases n - task.refused,
{
    if task.refused < n {
        let attempt = attempts(task.refused);
        assert(attempt.refused());
        lemma_first_answer(credential, task.after(attempt), token, granted, attempts, n);
    }
}

proof fn lemma_refusals(
    credential: CredentialView,
    task: TaskView,
    token: Seq<char>,
    granted: Result<Seq<char>, ApiErrorView>,
    attempts: spec_fn(nat) -> AttemptView,
)
    requires
        credential.token == Some(token),
        task.refused < MAX_ATTEMPTS,
        forall|k: nat| task.refused <= k < MAX_ATTEMPTS ==> (#[trigger] attempts(k)).refused(),
    ensures
        ({
            let run = sending_run(credential, task, token, granted, attempts);
            &&& run.sent.len() == MAX_ATTEMPTS - task.refused
            &&& run.outcome == Err::<JsonView, ApiErrorView>(ApiErrorView::NoValidResponse)
        }),
    decreases MAX_ATTEMPTS - task.refused,
{
    let attempt = attempts(task.refused);
    assert(attempt.refused());
    if task.refused + 1 < MAX_ATTEMPTS {
        lemma_refusals(credential, task.after(attempt), token, granted, attempts);
    }
}

/// A request is sent three times at most, and every attempt sends the same request with
/// the same token.
pub proof fn law_attempts_are_alike(
    credential: CredentialView,
    request: ApiRequestView,
    granted: Result<Seq<char>, ApiErrorView>,
    attempts: spec_fn(nat) -> AttemptView,
)
    ensures
        ({
            let sent = whole_run(credential, request, granted, attempts).sent;
            &&& sent.len() <= MAX_ATTEMPTS
            &&& forall|k: int|
                0 <= k < sent.len() ==> (usable_token(credential, granted) matches Ok(token)
                    && #[trigger] sent[k] == (request, token))
        }),
{
    lemma_whole_run(credential, request, granted, attempts);
    if let Ok(token) = usable_token(credential, granted) {
        let held = CredentialView { token: Some(token), ..credential };
        lemma_sending_run(held, TaskView { request, refused: 0 }, token, granted, attempts);
    }
}

/// A token is asked for once where none is held, and not at all where one is.
pub proof fn law_token_is_asked_for_once(
    credential: CredentialView,
    request: ApiRequestView,
    granted: Result<Seq<char>, ApiErrorView>,
    attempts: spec_fn(nat) -> AttemptView,
)
    ensures
        whole_run(credential, request, granted, attempts).asked == (if credential.token is None {
            seq![token_request(credential)]
        } else {
            seq![]
        }),
{
    lemma_whole_run(credential, request, granted, attempts);
    if let Ok(token) = usable_token(credential, granted) {
        let held = CredentialView { token: Some(token), ..credential };
        lemma_sending_run(held, TaskView { request, refused: 0 }, token, granted, attempts);
    }
}

/// A token, once held, is kept whatever the request comes to.
pub proof fn law_token_is_kept(
    credential: CredentialView,
    request: ApiRequestView,
    granted: Result<Seq<char>, ApiErrorView>,
    attempts: spec_fn(nat) -> AttemptView,
)
    ensures
        whole_run(credential, request, granted, attempts).credential == (CredentialView {
            token: match usable_token(credential, granted) {
                Ok(held) => Some(held),
                Err(_) => None,
            },
            ..credential
        }),
{
    lemma_whole_run(credential, request, granted, attempts);
    if let Ok(token) = usable_token(credential, granted) {
        let held = CredentialView { token: Some(token), ..credential };
        lemma_sending_run(held, TaskView { request, refused: 0 }, token, granted, attempts);
    }
}

/// The first attempt that is not refused decides the request, if it is among the first
/// three: its answer is returned, and its failure ends the request.
pub proof fn law_first_answer_decides(
    credential: CredentialView,
    request: ApiRequestView,
    granted: Result<Seq<char>, ApiErrorView>,
    attempts: spec_fn(nat) -> AttemptView,
    n: nat,
)
    requires
        usable_token(credential, granted) is Ok,
        n < MAX_ATTEMPTS,
        forall|k: nat| k < n ==> (#[trigger] attempts(k)).refused(),
        !attempts(n).refused(),
    ensures
        whole_run(credential, request, granted, attempts).sent.len() == n + 1,
        Some(whole_run(credential, request, granted, attempts).outcome) == attempts(n).outcome(),
{
    lemma_whole_run(credential, request, granted, attempts);
    let token = usable_token(credential, granted)->Ok_0;
    let held = CredentialView { token: Some(token), ..credential };
    lemma_first_answer(held, TaskView { request, refused: 0 }, token, granted, attempts, n);
}

/// A request that is refused three times fails.
pub proof fn law_three_refusals_fail(
    credential: CredentialView,
    request: ApiRequestView,
    granted: Result<Seq<char>, ApiErrorView>,
    attempts: spec_fn(nat) -> AttemptView,
)
    requires
        usable_token(credential, granted) is Ok,
        forall|k: nat| k < MAX_ATTEMPTS ==> (#[trigger] attempts(k)).refused(),
    ensures
        whole_run(credential, request, granted, attempts).sent.len() == MAX_ATTEMPTS,
        whole_run(credential, request, granted, attempts).outcome == Err::<JsonView, ApiErrorView>(
            ApiErrorView::NoValidResponse,
        ),
{
    lemma_whole_run(credential, request, granted, attempts);
    let token = usable_token(credential, granted)->Ok_0;
    let held = CredentialView { token: Some(token), ..credential };
    lemma_refusals(held, TaskView { request, refused: 0 }, token, granted, attempts);
}

/// Where no token is held and none is granted, nothing is sent.
pub proof fn law_no_token_no_request(
    credential: CredentialView,
    request: ApiRequestView,
    granted: Result<Seq<char>, ApiErrorView>,
    attempts: spec_fn(nat) -> AttemptView,
)
    requires
        credential.token is None,
        granted is Err,
    ensures
        whole_run(credential, request, granted, attempts).sent.len() == 0,
        whole_run(credential, request, granted, attempts).outcome == Err::<JsonView, ApiErrorView>(
            granted->Err_0,
        ),
{
    lemma_whole_run(credential, request, granted, attempts);
}

/// One use of a credential, by whatever request: the request asks the credential what to
/// do, and goes on with what comes of asking for a token where it is told to ask.
pub struct Turn {
    pub task: TaskView,
    pub granted: Result<Seq<char>, ApiErrorView>,
}

impl Turn {
    /// The turn asks for a token.
    pub open spec fn asks(self, credential: CredentialView) -> bool {
        request_step(credential, self.task) is Refresh
    }

    /// What the request does in the end.
    pub open spec fn step(self, credential: CredentialView) -> RequestStepView {
        if self.asks(credential) {
            refreshed_step(self.task, self.granted)
        } else {
            request_step(credential, self.task)
        }
    }

    /// The credential after the turn.
    pub open spec fn leaves(self, credential: CredentialView) -> CredentialView {
        if self.asks(credential) {
            credential.refreshed(self.granted)
        } else {
            credential
        }
    }
}

/// The credential after the first `n` of its uses.
pub open spec fn credential_after(
    credential: CredentialView,
    turns: Seq<Turn>,
    n: nat,
) -> CredentialView
    decreases n,
{
    if n == 0 {
        credential
    } else {
        turns[n - 1].leaves(credential_after(credential, turns, (n - 1) as nat))
    }
}

proof fn lemma_token_stays(credential: CredentialView, turns: Seq<Turn>, i: nat, j: nat)
    requires
        i <= j,
        credential_after(credential, turns, i).token is Some,
    ensures
        credential_after(credential, turns, j).token == credential_after(
            credential,
            turns,
            i,
        ).token,
    decreases j - i,
{
    if i < j {
        lemma_token_stays(credential, turns, i, (j - 1) as nat);
    }
}

/// One token serves all requests, however many there are and however their uses of the
/// credential alternate. Once a turn has sent with a token, which it has as soon as a token
/// was granted to it, no later turn asks for one, and every later turn that sends sends its
/// own request with that token. So a token is granted once at most.
pub proof fn law_one_token_for_all(
    credential: CredentialView,
    turns: Seq<Turn>,
    i: nat,
    j: nat,
)
    requires
        i < j < turns.len(),
    ensures
        ({
            let earlier = credential_after(credential, turns, i);
            let later = credential_after(credential, turns, j);
            let first = turns[i as int].step(earlier);
            let second = turns[j as int].step(later);
            &&& turns[i as int].asks(earlier) && turns[i as int].granted is Ok ==> first == (
            RequestStepView::Send {
                request: turns[i as int].task.request,
                token: turns[i as int].granted->Ok_0,
            })
            &&& first is Send ==> !turns[j as int].asks(later)
            &&& first matches RequestStepView::Send { token, .. } ==> (second is Send ==> second == (
            RequestStepView::Send { request: turns[j as int].task.request, token }))
        }),
{
    let earlier = credential_after(credential, turns, i);
    if turns[i as int].step(earlier) is Send {
        lemma_token_stays(credential, turns, i + 1, j);
    }
}

/// The request for a token carries the identity of the bot whole, its id and its secret, and
/// nothing else.
pub proof fn law_token_is_asked_for_with_identity(credential: CredentialView)
    ensures
        ({
            let request = token_request(credential);
            &&& request.method is Post
            &&& request.url
                == "https://open.feishu.cn/open-apis/auth/v3/tenant_access_token/internal"@
            &&& request.body.member("app_id"@).as_str() == Some(credential.app_id)
            &&& request.body.member("app_secret"@).as_str() == Some(credential.app_secret)
            &&& request.body matches JsonView::Object(entries) && entries.len() == 2
        }),
{
    reveal_strlit("app_id");
    reveal_strlit("app_secret");
    assert("app_id"@.len() != "app_secret"@.len());
    lemma_two_members(
        "app_id"@,
        JsonView::Str(credential.app_id),
        "app_secret"@,
        JsonView::Str(credential.app_secret),
    );
}

/// A token is granted exactly by an answer whose code is the integer zero and whose token is
/// a string, and it is that string, whatever else the answer holds.
pub proof fn law_token_is_granted(answer: JsonView, token: Seq<char>)
    ensures
        token_in(answer) == Some(token) <==> answer.member("code"@).as_i64() == Some(0int)
            && answer.member("tenant_access_token"@).as_str() == Some(token),
{
}

/// Two answers that agree in their code and in their token grant the same, however else they
/// differ.
pub proof fn law_rest_of_answer_is_ignored(a: JsonView, b: JsonView)
    requires
        a.member("code"@) == b.member("code"@),
        a.member("tenant_access_token"@) == b.member("tenant_access_token"@),
    ensures
        token_in(a) == token_in(b),
{
}

/// The request that sends a message names the whole id of the chat, the type of the message
/// and its whole content, and nothing else.
pub proof fn law_message_request_names_chat_and_content(chat_id: Seq<char>, message: MessageView)
    ensures
        ({
            let request = message_request(chat_id, message);
            &&& request.method is Post
            &&& request.url
                == "https://open.feishu.cn/open-apis/im/v1/messages?receive_id_type=chat_id"@
            &&& request.body.member("receive_id"@).as_str() == Some(chat_id)
            &&& match message {
                MessageView::Text(content) => {
                    &&& request.body.member("msg_type"@).as_str() == Some("text"@)
                    &&& request.body.member("content"@).as_str() == Some(content)
                },
                MessageView::Interactive(content) => {
                    &&& request.body.member("msg_type"@).as_str() == Some("interactive"@)
                    &&& request.body.member("content"@).as_str() == Some(content)
                },
            }
            &&& request.body matches JsonView::Object(entries) && entries.len() == 3
        }),
{
    reveal_strlit("receive_id");
    reveal_strlit("msg_type");
    reveal_strlit("content");
    assert("receive_id"@.len() == 10);
    assert("msg_type"@.len() == 8);
    assert("content"@.len() == 7);
    lemma_three_members(
        "receive_id"@,
        JsonView::Str(chat_id),
        "msg_type"@,
        JsonView::Str(message_type(message)),
        "content"@,
        JsonView::Str(message.content()),
    );
}

/// Requests differ wherever their chats or their messages do: none goes to another chat, and
/// none says something else.
pub proof fn law_message_requests_differ(
    chat_a: Seq<char>,
    a: MessageView,
    chat_b: Seq<char>,
    b: MessageView,
)
    ensures
        message_request(chat_a, a) == message_request(chat_b, b) <==> chat_a == chat_b && a == b,
{
    law_message_request_names_chat_and_content(chat_a, a);
    law_message_request_names_chat_and_content(chat_b, b);
    reveal_strlit("text");
    reveal_strlit("interactive");
    assert("text"@.len() != "interactive"@.len());
}

/// An attempt decides a request by its failure, or by its answer where the status is in the
/// two hundreds. Any other status decides nothing, whatever the answer holds.
pub proof fn law_status_decides(error: ApiErrorView, status: u16, answer: JsonView)
    ensures
        AttemptView::Failed(error).outcome() == Some(Err::<JsonView, ApiErrorView>(error)),
        ({
            let attempt = AttemptView::Answered { status, answer };
            &&& attempt.refused() <==> !(200 <= status < 300)
            &&& 200 <= status < 300 ==> attempt.outcome() == Some(
                Ok::<JsonView, ApiErrorView>(answer),
            )
            &&& !(200 <= status < 300) ==> attempt.outcome() is None
        }),
        !AttemptView::Failed(error).refused(),
{
}

/// A request is done with what an attempt decides. An attempt that decides nothing counts as
/// a refusal, and the third refusal ends the request with an error.
pub proof fn law_third_refusal_is_the_end(task: TaskView, attempt: AttemptView)
    ensures
        task.after(attempt).request == task.request,
        attempt.outcome() matches Some(outcome) ==> task.progress(attempt) == ProgressView::Done(
            outcome,
        ) && task.after(attempt) == task,
        attempt.outcome() is None && task.refused < 2 ==> task.progress(attempt)
            == ProgressView::Again && task.after(attempt).refused == task.refused + 1,
        attempt.outcome() is None && task.refused >= 2 ==> task.progress(attempt)
            == ProgressView::Done(Err(ApiErrorView::NoValidResponse)),
{
}

/// While a request was refused less than three times it is sent with the token that is held,
/// and where none is held one is asked for. A token that is granted is held from then on, and
/// the request goes on with it. Where none is granted the request fails with that error, and
/// the credential stays as it is.
pub proof fn law_request_goes_on(
    credential: CredentialView,
    task: TaskView,
    token: Seq<char>,
    error: ApiErrorView,
)
    ensures
        task.refused < 3 && credential.token == Some(token) ==> request_step(credential, task) == (
        RequestStepView::Send { request: task.request, token }),
        task.refused < 3 && credential.token is None ==> request_step(credential, task)
            == RequestStepView::Refresh(token_request(credential)),
        task.refused >= 3 ==> request_step(credential, task) == RequestStepView::Fail(
            ApiErrorView::NoValidResponse,
        ),
        refreshed_step(task, Ok(token)) == (RequestStepView::Send { request: task.request, token }),
        refreshed_step(task, Err(error)) == RequestStepView::Fail(error),
        credential.refreshed(Ok(token)) == (CredentialView { token: Some(token), ..credential }),
        credential.refreshed(Err(error)) == credential,
{
}

/// Sending comes to what the request comes to: done with any answer, and failed with the
/// message of the error.
pub proof fn law_sending_follows_the_request(answer: JsonView, error: ApiErrorView)
    ensures
        sending(Ok(answer)) is Ok,
        sending(Err(error)) == Err::<(), Seq<char>>(error.message()),
{
}

/// Every error has its message, and a failure of transport is told as it was reported.
pub proof fn law_errors_have_messages(error: Seq<char>)
    ensures
        ApiErrorView::BadResponse.message() == "Bad response"@,
        ApiErrorView::NoValidResponse.message() == "Failed to get a valid response"@,
        ApiErrorView::Transport(error).message() == error,
{
}

/// Requests, errors and what came of attempts are seen whole.
pub proof fn law_requests_are_seen_whole(
    request: ApiRequest,
    error: ApiError,
    attempt: Attempt,
    progress: Progress,
    granted: Result<String, ApiError>,
    outcome: Result<Json, ApiError>,
)
    ensures
        request@ == (ApiRequestView {
            method: request.method@,
            url: request.url@,
            body: request.body@,
        }),
        request.method matches Method::Extension(name) ==> request.method@.name() == name@,
        request.method is Get ==> request.method@.name() == "GET"@,
        request.method is Post ==> request.method@.name() == "POST"@,
        request.method is Put ==> request.method@.name() == "PUT"@,
        request.method is Delete ==> request.method@.name() == "DELETE"@,
        request.method is Head ==> request.method@.name() == "HEAD"@,
        request.method is Options ==> request.method@.name() == "OPTIONS"@,
        request.method is Connect ==> request.method@.name() == "CONNECT"@,
        request.method is Patch ==> request.method@.name() == "PATCH"@,
        request.method is Trace ==> request.method@.name() == "TRACE"@,
        match error {
            ApiError::BadResponse => error@ == ApiErrorView::BadResponse,
            ApiError::NoValidResponse => error@ == ApiErrorView::NoValidResponse,
            ApiError::Transport(message) => error@ == ApiErrorView::Transport(message@),
        },
        match attempt {
            Attempt::Failed(failure) => attempt@ == AttemptView::Failed(failure@),
            Attempt::Answered { status, answer } => attempt@ == (AttemptView::Answered {
                status,
                answer: answer@,
            }),
        },
        match progress {
            Progress::Again => progress@ == ProgressView::Again,
            Progress::Done(Ok(answer)) => progress@ == ProgressView::Done(Ok(answer@)),
            Progress::Done(Err(failure)) => progress@ == ProgressView::Done(Err(failure@)),
        },
        match granted {
            Ok(token) => refresh_view(granted) == Ok::<Seq<char>, ApiErrorView>(token@),
            Err(failure) => refresh_view(granted) == Err::<Seq<char>, ApiErrorView>(failure@),
        },
        match outcome {
            Ok(answer) => answer_view(outcome) == Ok::<JsonView, ApiErrorView>(answer@),
            Err(failure) => answer_view(outcome) == Err::<JsonView, ApiErrorView>(failure@),
        },
{
}

} // verus!
