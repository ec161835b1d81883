//! Model providers that speak the OpenAI protocol: what is asked, how answers
//! are read, and when a request is made again.

use vstd::prelude::*;
use vstd::string::*;
use crate::error::{detailed, ErrorKind, NekoError};
use crate::number::{integer_text, unsigned_to_text};
use crate::secret::Secret;
use crate::single::Single;
use crate::text::{
    all_space, begins, copy_texts, ends, is_space, lemma_trimmed_between, strip_prefix,
    strip_suffix, trim, trim_end_char, trimmed, without_end,
};
use crate::types::{
    FinishReason, LlmMessage, LlmRequest, LlmResponse, LlmRole, ResponseFormat, TokenUsage,
};

verus! {

/// `s` without the closing fence, where it has one.
pub open spec fn unclosed(s: Seq<char>) -> Seq<char> {
    if ends(s, "```"@) {
        s.take(s.len() - "```"@.len())
    } else {
        s
    }
}

/// The payload of a model's answer: what stands inside a Markdown fence, where
/// there is one, and the whole answer otherwise, without white space around it.
pub open spec fn payload(raw: Seq<char>) -> Seq<char> {
    let t = trimmed(raw);
    if begins(t, "```json"@) {
        trimmed(unclosed(t.skip("```json"@.len() as int)))
    } else if begins(t, "```"@) {
        trimmed(unclosed(t.skip("```"@.len() as int)))
    } else {
        t
    }
}

/// `s` without the closing fence.
fn without_fence(s: String) -> (res: String)
    ensures
        res@ == unclosed(s@),
{
    match strip_suffix(s.as_str(), "```") {
        Some(inner) => inner,
        None => s,
    }
}

/// The JSON of a model's answer, which may stand in a Markdown fence.
pub fn extract_json(raw: &str) -> (res: Option<String>)
    ensures
        res is Some && res->0@ == payload(raw@),
{
    let t: String = trim(raw);
    if let Some(inner) = strip_prefix(t.as_str(), "```json") {
        return Some(trim(without_fence(inner).as_str()));
    }
    if let Some(inner) = strip_prefix(t.as_str(), "```") {
        return Some(trim(without_fence(inner).as_str()));
    }
    Some(t)
}

/// What stands in a fence, with white space around it, is the payload of the
/// fenced answer.
pub proof fn law_fence_is_removed(lead: Seq<char>, body: Seq<char>, tail: Seq<char>)
    requires
        all_space(lead),
        all_space(tail),
        body.len() > 0,
        !is_space(body[0]),
        !is_space(body.last()),
    ensures
        payload("```json"@ + (lead + body + tail) + "```"@) == body,
{
    reveal_strlit("```json");
    reveal_strlit("```");
    let inner = lead + body + tail;
    let raw = "```json"@ + inner + "```"@;
    lemma_trimmed_between(Seq::empty(), raw, Seq::empty());
    assert(Seq::<char>::empty() + raw + Seq::<char>::empty() =~= raw);
    assert(raw.take(7) =~= "```json"@);
    let rest = raw.skip(7);
    assert(rest =~= inner + "```"@);
    assert(rest.skip(rest.len() - 3) =~= "```"@);
    assert(rest.take(rest.len() - 3) =~= inner);
    lemma_trimmed_between(lead, body, tail);
}

/// An answer without a fence is its own payload, without white space around it.
pub proof fn law_bare_payload(lead: Seq<char>, body: Seq<char>, tail: Seq<char>)
    requires
        all_space(lead),
        all_space(tail),
        body.len() > 0,
        !is_space(body[0]),
        !is_space(body.last()),
        !begins(body, "```"@),
    ensures
        payload(lead + body + tail) == body,
{
    reveal_strlit("```json");
    reveal_strlit("```");
    lemma_trimmed_between(lead, body, tail);
    if begins(body, "```json"@) {
        assert(body.take(3) =~= body.take(7).take(3));
        assert("```json"@.take(3) =~= "```"@);
    }
}

/// `read` takes any text.
pub open spec fn reads_all<T, F: Fn(&str) -> Result<T, String>>(read: F) -> bool {
    forall|s: &str| #[trigger] call_requires(read, (s,))
}

/// `read`, given a text that says `text`, may answer `res`.
pub open spec fn read_gives<T, F: Fn(&str) -> Result<T, String>>(
    read: F,
    text: Seq<char>,
    res: Result<T, String>,
) -> bool {
    exists|s: &str| s@ == text && #[trigger] call_ensures(read, (s,), res)
}

/// Reads the JSON of a model's answer with `read`; where that fails, gives the
/// message and the text that could not be read.
pub fn parse_or_fallback<T, F: Fn(&str) -> Result<T, String>>(raw: &str, read: &F) -> (res: Result<
    T,
    (String, String),
>)
    requires
        reads_all(*read),
    ensures
        match res {
            Ok(value) => read_gives(*read, payload(raw@), Ok(value)),
            Err((message, text)) => text@ == payload(raw@) && read_gives(
                *read,
                payload(raw@),
                Err(message),
            ),
        },
{
    let cleaned: String = match extract_json(raw) {
        Some(s) => s,
        None => raw.to_string(),
    };
    let text: &str = cleaned.as_str();
    let got: Result<T, String> = read(text);
    assert(text@ == payload(raw@) && call_ensures(*read, (text,), got));
    match got {
        Ok(value) => Ok(value),
        Err(message) => Err((message, cleaned)),
    }
}

/// What reading `text` as a URL gives: how the URL is written, or the message
/// of the error.
pub uninterp spec fn url_read(text: Seq<char>) -> Result<Seq<char>, Seq<char>>;

/// What `path`, taken relative to the URL `base`, gives: how the URL is
/// written, or the message of the error.
pub uninterp spec fn url_joined(base: Seq<char>, path: Seq<char>) -> Result<Seq<char>, Seq<char>>;

/// How a status is written, with its reason.
pub uninterp spec fn status_shown(status: u16) -> Seq<char>;

/// Reads a URL.
///
/// Stands for `reqwest::Url::parse`: which texts are read, how the URL is
/// written, and the message otherwise are named, not described.
#[verifier::external_body]
fn parse_url(text: &str) -> (res: Result<String, String>)
    ensures
        match res {
            Ok(url) => url_read(text@) == Ok::<Seq<char>, Seq<char>>(url@),
            Err(e) => url_read(text@) == Err::<Seq<char>, Seq<char>>(e@),
        },
{
    match reqwest::Url::parse(text) {
        Ok(url) => Ok(url.to_string()),
        Err(e) => Err(e.to_string()),
    }
}

/// A URL relative to another.
///
/// Stands for `reqwest::Url::join` on the URL that `base` is read as; the
/// outcome is named, not described.
#[verifier::external_body]
fn join_url(base: &str, path: &str) -> (res: Result<String, String>)
    ensures
        match res {
            Ok(url) => url_joined(base@, path@) == Ok::<Seq<char>, Seq<char>>(url@),
            Err(e) => url_joined(base@, path@) == Err::<Seq<char>, Seq<char>>(e@),
        },
{
    match reqwest::Url::parse(base).and_then(|url| url.join(path)) {
        Ok(url) => Ok(url.to_string()),
        Err(e) => Err(e.to_string()),
    }
}

/// How a status is written, with its reason.
///
/// Stands for the `Display` of `reqwest::StatusCode`; the text is named, not
/// described.
#[verifier::external_body]
fn status_text(status: u16) -> (res: String)
    requires
        100 <= status <= 999,
    ensures
        res@ == status_shown(status),
{
    reqwest::StatusCode::from_u16(status).unwrap_or_default().to_string()
}

/// The text can be the value of a header: it holds no control character but
/// the tabulator.
pub open spec fn header_text(s: Seq<char>) -> bool {
    forall|i: int|
        0 <= i < s.len() ==> (#[trigger] s[i]) as u32 == 9 || (s[i] as u32 >= 32 && s[i] as u32
            != 127)
}

/// Whether a text can be the value of a header, and the message otherwise.
///
/// Stands for `reqwest::header::HeaderValue::from_str`, which takes a text
/// without control characters, the tabulator aside, and has one message for
/// all others.
#[verifier::external_body]
fn check_header(text: &str) -> (res: Result<(), String>)
    ensures
        match res {
            Ok(_) => header_text(text@),
            Err(e) => !header_text(text@) && e@ == "failed to parse header value"@,
        },
{
    match reqwest::header::HeaderValue::from_str(text) {
        Ok(_) => Ok(()),
        Err(e) => Err(e.to_string()),
    }
}

/// What the authorization header holds.
pub open spec fn bearer(key: Seq<char>) -> Seq<char> {
    "Bearer "@ + key
}

/// What is wrong with the address or the key of a provider, if anything.
pub open spec fn client_fault(base_url: Seq<char>, key: Seq<char>) -> Option<Seq<char>> {
    match url_read(without_end(base_url, '/')) {
        Err(e) => Some("invalid base_url: "@ + e),
        Ok(_) => if header_text(bearer(key)) {
            None
        } else {
            Some("invalid api key header: "@ + "failed to parse header value"@)
        },
    }
}

/// Checks the address and the key of a provider; gives the address without
/// slashes at its end.
fn check_client(base_url: &str, api_key: &Secret) -> (res: Result<String, NekoError>)
    ensures
        match res {
            Ok(base) => client_fault(base_url@, api_key@) is None && base@ == without_end(
                base_url@,
                '/',
            ),
            Err(e) => client_fault(base_url@, api_key@) is Some && e.says(
                ErrorKind::Config,
                client_fault(base_url@, api_key@)->0,
            ),
        },
{
    let base: String = trim_end_char(base_url, '/');
    if let Err(e) = parse_url(base.as_str()) {
        return Err(detailed(ErrorKind::Config, "invalid base_url: ", e.as_str()));
    }
    let header: String = "Bearer ".to_string().concat(api_key.expose());
    if let Err(e) = check_header(header.as_str()) {
        return Err(detailed(ErrorKind::Config, "invalid api key header: ", e.as_str()));
    }
    Ok(base)
}

/// A provider of completions.
pub struct OpenAiCompatibleClient {
    name: String,
    base_url: String,
    model: String,
    api_key: Secret,
    default_temperature: Single,
    default_max_tokens: Option<u32>,
    default_response_format: ResponseFormat,
    max_retries: u32,
}

/// A message of a request.
#[derive(Debug)]
pub struct OpenAiMessage {
    pub role: String,
    pub content: String,
}

/// A request for a completion.
#[derive(Debug)]
pub struct ChatCompletionRequest {
    pub model: String,
    pub messages: Vec<OpenAiMessage>,
    pub temperature: Option<Single>,
    pub max_tokens: Option<u32>,
    /// The type of the response format, where one is asked for.
    pub response_format: Option<String>,
}

/// An answer to a request.
#[derive(Debug)]
pub struct ChatCompletionResponse {
    pub choices: Vec<OpenAiChoice>,
    pub usage: Option<TokenUsage>,
}

/// A choice of an answer.
#[derive(Debug)]
pub struct OpenAiChoice {
    pub message: OpenAiMessage,
    pub finish_reason: Option<String>,
}

/// How one exchange with the provider went.
#[derive(Debug)]
pub enum Exchange {
    /// The request did not get through, for the reason given.
    SendFailed(String),
    /// The provider refused, with a status and a body where one could be read.
    Refused(u16, Option<String>),
    /// The provider agreed, but the answer could not be read.
    Undecodable(String),
    /// The provider answered.
    Answered(ChatCompletionResponse),
}

/// What is to be done after an exchange.
#[derive(Debug)]
pub enum Verdict {
    /// Make the request again; so many tries are left after that.
    Retry(u32),
    /// Hand out the result.
    Done(Result<LlmResponse, NekoError>),
}

/// A status that says the request went well.
pub open spec fn succeeds(status: int) -> bool {
    200 <= status < 300
}

/// A status that may change when the request is made again.
pub open spec fn passing(status: int) -> bool {
    status == 429 || 500 <= status < 600
}

/// Whether a status says that the request went well.
pub fn is_success(status: u16) -> (res: bool)
    ensures
        res == succeeds(status as int),
{
    200 <= status && status < 300
}

/// Whether a status may change when the request is made again.
pub fn is_transient(status: u16) -> (res: bool)
    ensures
        res == passing(status as int),
{
    status == 429 || (500 <= status && status < 600)
}

/// How a role is written.
pub open spec fn role_name(role: LlmRole) -> Seq<char> {
    match role {
        LlmRole::System => "system"@,
        LlmRole::User => "user"@,
        LlmRole::Assistant => "assistant"@,
    }
}

/// How a role is written.
pub fn role_text(role: LlmRole) -> (res: String)
    ensures
        res@ == role_name(role),
{
    match role {
        LlmRole::System => "system".to_string(),
        LlmRole::User => "user".to_string(),
        LlmRole::Assistant => "assistant".to_string(),
    }
}

/// `body` asks what `req` asks, of the model `model`, with defaults for what
/// `req` leaves open.
pub open spec fn asks(
    body: ChatCompletionRequest,
    req: LlmRequest,
    model: Seq<char>,
    default_max_tokens: Option<u32>,
    default_format: ResponseFormat,
) -> bool {
    let format = match req.response_format {
        Some(f) => f,
        None => default_format,
    };
    &&& body.model@ == model
    &&& body.messages@.len() == req.messages@.len()
    &&& forall|i: int|
        0 <= i < body.messages@.len() ==> (#[trigger] body.messages@[i]).role@ == role_name(
            req.messages@[i].role,
        ) && body.messages@[i].content@ == req.messages@[i].content@
    &&& body.temperature == Some(req.temperature)
    &&& body.max_tokens == if req.max_tokens is Some {
        req.max_tokens
    } else {
        default_max_tokens
    }
    &&& match body.response_format {
        Some(t) => format == ResponseFormat::JsonObject && t@ == "json_object"@,
        None => format == ResponseFormat::Text,
    }
}

/// Why a model stopped, by the reason that the provider gave.
pub open spec fn stops(reason: Option<String>, res: FinishReason) -> bool {
    let r = match reason {
        Some(s) => s@,
        None => "stop"@,
    };
    if r == "stop"@ {
        res is Stop
    } else if r == "length"@ {
        res is Length
    } else if r == "content_filter"@ {
        res is ContentFilter
    } else {
        res matches FinishReason::Other(s) && s@ == r
    }
}

/// The usage of an answer that states none.
pub open spec fn no_usage() -> TokenUsage {
    TokenUsage { prompt_tokens: 0, completion_tokens: 0, total_tokens: 0 }
}

/// `res` is the response that an answer carries: its first choice, and an
/// error where it has none.
pub open spec fn answers(
    resp: ChatCompletionResponse,
    res: Result<LlmResponse, NekoError>,
) -> bool {
    match res {
        Ok(r) => {
            &&& resp.choices@.len() > 0
            &&& r.content@ == resp.choices@[0].message.content@
            &&& stops(resp.choices@[0].finish_reason, r.finish_reason)
            &&& r.usage == match resp.usage {
                Some(u) => u,
                None => no_usage(),
            }
        },
        Err(e) => resp.choices@.len() == 0 && e.says(ErrorKind::Llm, "llm returned no choices"@),
    }
}

/// What a refusal says.
pub open spec fn refusal(status: u16, body: Option<String>) -> Seq<char> {
    "llm returned "@ + status_shown(status) + ": "@ + match body {
        Some(text) => text@,
        None => "<no body>"@,
    }
}

/// The exchange failed in a way that may pass.
pub open spec fn may_pass(exchange: Exchange) -> bool {
    match exchange {
        Exchange::SendFailed(_) => true,
        Exchange::Refused(status, _) => passing(status as int),
        _ => false,
    }
}

/// `res` is the final result of an exchange.
pub open spec fn settles(exchange: Exchange, res: Result<LlmResponse, NekoError>) -> bool {
    match exchange {
        Exchange::SendFailed(e) => res matches Err(err) && err.says(
            ErrorKind::Transport,
            "llm request failed: "@ + e@,
        ),
        Exchange::Refused(status, body) => res matches Err(err) && err.says(
            if 500 <= status < 600 {
                ErrorKind::Transport
            } else {
                ErrorKind::Llm
            },
            refusal(status, body),
        ),
        Exchange::Undecodable(e) => res matches Err(err) && err.says(
            ErrorKind::Parse,
            "cannot decode llm response: "@ + e@,
        ),
        Exchange::Answered(resp) => answers(resp, res),
    }
}

/// `verdict` is what to do after `exchange` with `left` more tries.
pub open spec fn judged(exchange: Exchange, left: int, verdict: Verdict) -> bool {
    match verdict {
        Verdict::Retry(then) => may_pass(exchange) && left > 0 && then == left - 1,
        Verdict::Done(res) => !(may_pass(exchange) && left > 0) && settles(exchange, res),
    }
}

/// The response that an answer carries.
pub fn read_response(resp: ChatCompletionResponse) -> (res: Result<LlmResponse, NekoError>)
    ensures
        answers(resp, res),
{
    if resp.choices.len() == 0 {
        return Err(NekoError::llm("llm returned no choices".to_string()));
    }
    let choice: &OpenAiChoice = &resp.choices[0];
    let reason: String = match &choice.finish_reason {
        Some(s) => s.clone(),
        None => "stop".to_string(),
    };
    let finish_reason: FinishReason = if crate::text::same(reason.as_str(), "stop") {
        FinishReason::Stop
    } else if crate::text::same(reason.as_str(), "length") {
        FinishReason::Length
    } else if crate::text::same(reason.as_str(), "content_filter") {
        FinishReason::ContentFilter
    } else {
        FinishReason::Other(reason)
    };
    let usage: TokenUsage = match resp.usage {
        Some(u) => u,
        None => TokenUsage { prompt_tokens: 0, completion_tokens: 0, total_tokens: 0 },
    };
    Ok(LlmResponse { content: choice.message.content.clone(), usage, finish_reason })
}

/// Decides what to do after an exchange, with `left` more tries.
pub fn judge(exchange: Exchange, left: u32) -> (res: Verdict)
    requires
        exchange matches Exchange::Refused(status, _) ==> 100 <= status <= 999,
    ensures
        judged(exchange, left as int, res),
{
    match exchange {
        Exchange::SendFailed(e) => {
            if left > 0 {
                Verdict::Retry(left - 1)
            } else {
                Verdict::Done(
                    Err(detailed(ErrorKind::Transport, "llm request failed: ", e.as_str())),
                )
            }
        },
        Exchange::Refused(status, body) => {
            if is_transient(status) && left > 0 {
                return Verdict::Retry(left - 1);
            }
            let mut text: String = "llm returned ".to_string().concat(
                status_text(status).as_str(),
            ).concat(": ");
            match &body {
                Some(b) => text.append(b.as_str()),
                None => text.append("<no body>"),
            }
            if 500 <= status && status < 600 {
                Verdict::Done(Err(NekoError::transport(text)))
            } else {
                Verdict::Done(Err(NekoError::llm(text)))
            }
        },
        Exchange::Undecodable(e) => Verdict::Done(
            Err(detailed(ErrorKind::Parse, "cannot decode llm response: ", e.as_str())),
        ),
        Exchange::Answered(resp) => Verdict::Done(read_response(resp)),
    }
}

impl OpenAiCompatibleClient {
    /// The name of the provider.
    pub closed spec fn called(self) -> Seq<char> {
        self.name@
    }

    /// The address, without slashes at its end.
    pub closed spec fn address(self) -> Seq<char> {
        self.base_url@
    }

    /// The model that is asked.
    pub closed spec fn asked_model(self) -> Seq<char> {
        self.model@
    }

    /// The key.
    pub closed spec fn key(self) -> Seq<char> {
        self.api_key@
    }

    /// The limit on tokens of a request that states none.
    pub closed spec fn default_limit(self) -> Option<u32> {
        self.default_max_tokens
    }

    /// The format of a request that states none.
    pub closed spec fn default_format(self) -> ResponseFormat {
        self.default_response_format
    }

    /// The temperature that the provider was set up with.
    pub closed spec fn set_temperature(self) -> Single {
        self.default_temperature
    }

    /// How often a request is made again.
    pub closed spec fn retries(self) -> int {
        self.max_retries as int
    }

    /// A provider that makes no request twice.
    pub fn new(
        name: String,
        base_url: &str,
        model: String,
        api_key: Secret,
        default_temperature: Single,
        default_max_tokens: Option<u32>,
        default_response_format: ResponseFormat,
    ) -> (res: Result<Self, NekoError>)
        ensures
            match res {
                Ok(client) => {
                    &&& client_fault(base_url@, api_key@) is None
                    &&& client.called() == name@
                    &&& client.address() == without_end(base_url@, '/')
                    &&& client.asked_model() == model@
                    &&& client.key() == api_key@
                    &&& client.set_temperature() == default_temperature
                    &&& client.default_limit() == default_max_tokens
                    &&& client.default_format() == default_response_format
                    &&& client.retries() == 0
                },
                Err(e) => client_fault(base_url@, api_key@) is Some && e.says(
                    ErrorKind::Config,
                    client_fault(base_url@, api_key@)->0,
                ),
            },
    {
        match check_client(base_url, &api_key) {
            Ok(base) => Ok(
                OpenAiCompatibleClient {
                    name,
                    base_url: base,
                    model,
                    api_key,
                    default_temperature,
                    default_max_tokens,
                    default_response_format,
                    max_retries: 0,
                },
            ),
            Err(e) => Err(e),
        }
    }

    /// The same provider, which makes a request again up to `max_retries` times
    /// where it failed in a way that may pass.
    pub fn with_retry(self, max_retries: u32) -> (res: Self)
        ensures
            res.retries() == max_retries,
            res.called() == self.called(),
            res.address() == self.address(),
            res.asked_model() == self.asked_model(),
            res.key() == self.key(),
            res.set_temperature() == self.set_temperature(),
            res.default_limit() == self.default_limit(),
            res.default_format() == self.default_format(),
    {
        OpenAiCompatibleClient {
            name: self.name,
            base_url: self.base_url,
            model: self.model,
            api_key: self.api_key,
            default_temperature: self.default_temperature,
            default_max_tokens: self.default_max_tokens,
            default_response_format: self.default_response_format,
            max_retries,
        }
    }

    /// The name of the provider.
    pub fn name(&self) -> (res: &str)
        ensures
            res@ == self.called(),
    {
        self.name.as_str()
    }

    /// The model that is asked.
    pub fn model(&self) -> (res: &str)
        ensures
            res@ == self.asked_model(),
    {
        self.model.as_str()
    }

    /// How often a request is made again.
    pub fn max_retries(&self) -> (res: u32)
        ensures
            res == self.retries(),
    {
        self.max_retries
    }

    /// What the authorization header holds.
    pub fn authorization(&self) -> (res: String)
        ensures
            res@ == bearer(self.key()),
    {
        "Bearer ".to_string().concat(self.api_key.expose())
    }

    /// The address that requests go to: `chat/completions` below the address of
    /// the provider.
    pub fn endpoint(&self) -> (res: Result<String, NekoError>)
        ensures
            match (res, url_joined(self.address().push('/'), "chat/completions"@)) {
                (Ok(url), Ok(u)) => url@ == u,
                (Err(e), Err(m)) => e.says(ErrorKind::Transport, "invalid endpoint url: "@ + m),
                _ => false,
            },
    {
        let mut base: String = self.base_url.clone();
        base.push('/');
        match join_url(base.as_str(), "chat/completions") {
            Ok(url) => Ok(url),
            Err(e) => Err(detailed(ErrorKind::Transport, "invalid endpoint url: ", e.as_str())),
        }
    }

    /// The body of a request.
    pub fn request_body(&self, req: &LlmRequest) -> (res: ChatCompletionRequest)
        ensures
            asks(res, *req, self.asked_model(), self.default_limit(), self.default_format()),
    {
        let mut messages: Vec<OpenAiMessage> = Vec::new();
        let mut i: usize = 0;
        while i < req.messages.len()
            invariant
                0 <= i <= req.messages@.len(),
                messages@.len() == i,
                forall|k: int|
                    0 <= k < i ==> (#[trigger] messages@[k]).role@ == role_name(
                        req.messages@[k].role,
                    ) && messages@[k].content@ == req.messages@[k].content@,
            decreases req.messages@.len() - i,
        {
            let m: &LlmMessage = &req.messages[i];
            messages.push(OpenAiMessage { role: role_text(m.role), content: m.content.clone() });
            i = i + 1;
        }
        let format: ResponseFormat = match req.response_format {
            Some(f) => f,
            None => self.default_response_format,
        };
        ChatCompletionRequest {
            model: self.model.clone(),
            messages,
            temperature: Some(req.temperature),
            max_tokens: match req.max_tokens {
                Some(n) => Some(n),
                None => self.default_max_tokens,
            },
            response_format: match format {
                ResponseFormat::Text => None,
                ResponseFormat::JsonObject => Some("json_object".to_string()),
            },
        }
    }
}

/// A run of exchanges that is settled: every one but the last failed in a way
/// that may pass with tries left, and the last has the final result `res`.
pub open spec fn settled_run(
    exchanges: Seq<Exchange>,
    retries: int,
    res: Result<LlmResponse, NekoError>,
) -> bool {
    &&& exchanges.len() > 0
    &&& forall|i: int|
        0 <= i < exchanges.len() - 1 ==> judged(
            #[trigger] exchanges[i],
            retries - i,
            Verdict::Retry((retries - i - 1) as u32),
        )
    &&& judged(exchanges.last(), retries - (exchanges.len() - 1), Verdict::Done(res))
}

/// A request is made once, and again as often as was set up at the most; it is
/// made again only after failures that may pass, and an answer is the result.
pub proof fn law_tries_are_bounded(
    exchanges: Seq<Exchange>,
    retries: int,
    res: Result<LlmResponse, NekoError>,
)
    requires
        retries >= 0,
        settled_run(exchanges, retries, res),
    ensures
        1 <= exchanges.len() <= retries + 1,
        forall|i: int| 0 <= i < exchanges.len() - 1 ==> may_pass(#[trigger] exchanges[i]),
        may_pass(exchanges.last()) ==> exchanges.len() == retries + 1,
        settles(exchanges.last(), res),
{
    if exchanges.len() > retries + 1 {
        assert(judged(exchanges[retries], 0, Verdict::Retry((retries - retries - 1) as u32)));
    }
}

/// A provider of embeddings.
pub struct OpenAiEmbeddingClient {
    name: String,
    base_url: String,
    model: String,
    api_key: Secret,
    vector_dim: usize,
}

impl OpenAiEmbeddingClient {
    /// The name of the provider.
    pub closed spec fn called(self) -> Seq<char> {
        self.name@
    }

    /// The address, without slashes at its end.
    pub closed spec fn address(self) -> Seq<char> {
        self.base_url@
    }

    /// The model that is asked.
    pub closed spec fn asked_model(self) -> Seq<char> {
        self.model@
    }

    /// The key.
    pub closed spec fn key(self) -> Seq<char> {
        self.api_key@
    }

    /// The length of a vector.
    pub closed spec fn dim(self) -> int {
        self.vector_dim as int
    }

    /// A provider of vectors of the given length.
    pub fn new(
        name: String,
        base_url: &str,
        model: String,
        api_key: Secret,
        vector_dim: usize,
    ) -> (res: Result<Self, NekoError>)
        ensures
            match res {
                Ok(client) => {
                    &&& client_fault(base_url@, api_key@) is None
                    &&& client.called() == name@
                    &&& client.address() == without_end(base_url@, '/')
                    &&& client.asked_model() == model@
                    &&& client.key() == api_key@
                    &&& client.dim() == vector_dim
                },
                Err(e) => client_fault(base_url@, api_key@) is Some && e.says(
                    ErrorKind::Config,
                    client_fault(base_url@, api_key@)->0,
                ),
            },
    {
        match check_client(base_url, &api_key) {
            Ok(base) => Ok(
                OpenAiEmbeddingClient { name, base_url: base, model, api_key, vector_dim },
            ),
            Err(e) => Err(e),
        }
    }

    /// The name of the provider.
    pub fn name(&self) -> (res: &str)
        ensures
            res@ == self.called(),
    {
        self.name.as_str()
    }

    /// The model that is asked.
    pub fn model(&self) -> (res: &str)
        ensures
            res@ == self.asked_model(),
    {
        self.model.as_str()
    }

    /// The length of a vector.
    pub fn vector_dim(&self) -> (res: usize)
        ensures
            res == self.dim(),
    {
        self.vector_dim
    }

    /// What the authorization header holds.
    pub fn authorization(&self) -> (res: String)
        ensures
            res@ == bearer(self.key()),
    {
        "Bearer ".to_string().concat(self.api_key.expose())
    }

    /// The address that requests go to: `embeddings` relative to the address of
    /// the provider, in place of the last part of its path.
    pub fn endpoint(&self) -> (res: Result<String, NekoError>)
        ensures
            match (res, url_joined(self.address(), "embeddings"@)) {
                (Ok(url), Ok(u)) => url@ == u,
                (Err(e), Err(m)) => e.says(ErrorKind::Transport, "invalid endpoint url: "@ + m),
                _ => false,
            },
    {
        match join_url(self.base_url.as_str(), "embeddings") {
            Ok(url) => Ok(url),
            Err(e) => Err(detailed(ErrorKind::Transport, "invalid endpoint url: ", e.as_str())),
        }
    }

    /// The body of a request. For no texts at all, none is made.
    pub fn request_body(&self, input: &Vec<String>) -> (res: Option<EmbeddingsRequest>)
        ensures
            match res {
                Some(body) => input@.len() > 0 && body.model@ == self.asked_model() && body.input@
                    == input@,
                None => input@.len() == 0,
            },
    {
        if input.len() == 0 {
            return None;
        }
        Some(EmbeddingsRequest { model: self.model.clone(), input: copy_texts(input) })
    }
}

/// A request for embeddings.
#[derive(Debug)]
pub struct EmbeddingsRequest {
    pub model: String,
    pub input: Vec<String>,
}

/// How one exchange with the provider of embeddings went.
#[derive(Debug)]
pub enum EmbeddingExchange {
    /// The request did not get through, for the reason given.
    SendFailed(String),
    /// The provider refused, with a status and a body where one could be read.
    Refused(u16, Option<String>),
    /// The provider agreed, but the answer could not be read.
    Undecodable(String),
    /// The provider answered with vectors.
    Answered(Vec<Vec<Single>>),
}

/// `res` is the result of an exchange over `count` texts.
pub open spec fn embedded(
    exchange: EmbeddingExchange,
    count: int,
    res: Result<Vec<Vec<Single>>, NekoError>,
) -> bool {
    match exchange {
        EmbeddingExchange::SendFailed(e) => res matches Err(err) && err.says(
            ErrorKind::Transport,
            "embedding request failed: "@ + e@,
        ),
        EmbeddingExchange::Refused(status, body) => res matches Err(err) && err.says(
            ErrorKind::Llm,
            "embeddings returned "@ + status_shown(status) + ": "@ + match body {
                Some(text) => text@,
                None => "<no body>"@,
            },
        ),
        EmbeddingExchange::Undecodable(e) => res matches Err(err) && err.says(
            ErrorKind::Parse,
            "cannot decode embeddings response: "@ + e@,
        ),
        EmbeddingExchange::Answered(vectors) => match res {
            Ok(v) => vectors@.len() == count && v == vectors,
            Err(err) => vectors@.len() != count && err.says(
                ErrorKind::Llm,
                "embeddings returned "@ + integer_text(vectors@.len() as int) + " vectors for "@
                    + integer_text(count) + " texts"@,
            ),
        },
    }
}

/// The vectors of `count` texts: one for each, or an error.
pub fn read_embeddings(exchange: EmbeddingExchange, count: usize) -> (res: Result<
    Vec<Vec<Single>>,
    NekoError,
>)
    requires
        exchange matches EmbeddingExchange::Refused(status, _) ==> 100 <= status <= 999,
    ensures
        embedded(exchange, count as int, res),
{
    match exchange {
        EmbeddingExchange::SendFailed(e) => Err(
            detailed(ErrorKind::Transport, "embedding request failed: ", e.as_str()),
        ),
        EmbeddingExchange::Refused(status, body) => {
            let mut text: String = "embeddings returned ".to_string().concat(
                status_text(status).as_str(),
            ).concat(": ");
            match &body {
                Some(b) => text.append(b.as_str()),
                None => text.append("<no body>"),
            }
            Err(NekoError::llm(text))
        },
        EmbeddingExchange::Undecodable(e) => Err(
            detailed(ErrorKind::Parse, "cannot decode embeddings response: ", e.as_str()),
        ),
        EmbeddingExchange::Answered(vectors) => {
            if vectors.len() != count {
                let text: String = "embeddings returned ".to_string().concat(
                    unsigned_to_text(vectors.len() as u128).as_str(),
                ).concat(" vectors for ").concat(unsigned_to_text(count as u128).as_str()).concat(
                    " texts",
                );
                return Err(NekoError::llm(text));
            }
            Ok(vectors)
        },
    }
}

/// A request is made again exactly where it did not get through, or was refused with
/// too many requests or a fault of the provider, and tries are left: one fewer.
pub proof fn law_only_passing_failures_are_retried(exchange: Exchange, left: int, verdict: Verdict)
    requires
        judged(exchange, left, verdict),
    ensures
        verdict is Retry <==> left > 0 && {
            ||| exchange is SendFailed
            ||| exchange matches Exchange::Refused(status, _) && (status == 429 || 500 <= status
                <= 599)
        },
        verdict matches Verdict::Retry(then) ==> then == left - 1,
{
}

/// What a request comes to: an answer is its first choice; a request that did not
/// get through, or met a fault of the provider, is an error of transport; any other
/// refusal is one of the model, and says the status and what was sent with it.
pub proof fn law_what_a_request_comes_to(exchange: Exchange, res: Result<LlmResponse, NekoError>)
    requires
        settles(exchange, res),
    ensures
        exchange matches Exchange::SendFailed(why) ==> (res matches Err(e) && e.says(
            ErrorKind::Transport,
            "llm request failed: "@ + why@,
        )),
        exchange matches Exchange::Refused(status, body) ==> (res matches Err(e) && (e.kind()
            == ErrorKind::Transport <==> 500 <= status <= 599) && (e.kind() == ErrorKind::Llm
            <==> !(500 <= status <= 599)) && (body matches Some(text) ==> e.detail()
            == "llm returned "@ + status_shown(status) + ": "@ + text@) && (body is None
            ==> e.detail() == "llm returned "@ + status_shown(status) + ": "@ + "<no body>"@)),
        exchange matches Exchange::Undecodable(why) ==> (res matches Err(e) && e.says(
            ErrorKind::Parse,
            "cannot decode llm response: "@ + why@,
        )),
        exchange matches Exchange::Answered(resp) ==> (res is Ok <==> resp.choices@.len() > 0),
        (exchange matches Exchange::Answered(resp) && res matches Ok(r)) ==> res->Ok_0.content@
            == exchange->Answered_0.choices@[0].message.content@,
{
}

/// Why a model stopped is told by name, and taken to be the end where no reason is
/// given; what the answer cost is as stated, and nothing where it is not.
pub proof fn law_end_and_cost_of_an_answer(resp: ChatCompletionResponse, r: LlmResponse)
    requires
        answers(resp, Ok(r)),
    ensures
        resp.choices@[0].finish_reason is None ==> r.finish_reason is Stop,
        resp.choices@[0].finish_reason matches Some(s) ==> {
            &&& r.finish_reason is Stop <==> s@ == "stop"@
            &&& r.finish_reason is Length <==> s@ == "length"@
            &&& r.finish_reason is ContentFilter <==> s@ == "content_filter"@
            &&& r.finish_reason matches FinishReason::Other(t) ==> t@ == s@
        },
        resp.usage matches Some(u) ==> r.usage == u,
        resp.usage is None ==> r.usage.prompt_tokens == 0 && r.usage.completion_tokens == 0
            && r.usage.total_tokens == 0,
{
    reveal_strlit("stop");
    reveal_strlit("length");
    reveal_strlit("content_filter");
    assert("stop"@.len() == 4 && "length"@.len() == 6 && "content_filter"@.len() == 14);
}

/// A request hands the model every message, in order, under the name of its role,
/// with the temperature asked for; a limit and a format that the request leaves
/// open are those of the provider.
pub proof fn law_request_asks_what_is_asked(
    body: ChatCompletionRequest,
    req: LlmRequest,
    model: Seq<char>,
    default_max_tokens: Option<u32>,
    default_format: ResponseFormat,
)
    requires
        asks(body, req, model, default_max_tokens, default_format),
    ensures
        body.model@ == model,
        body.messages@.len() == req.messages@.len(),
        forall|i: int|
            0 <= i < req.messages@.len() ==> {
                &&& (#[trigger] body.messages@[i]).content@ == req.messages@[i].content@
                &&& req.messages@[i].role == LlmRole::System ==> body.messages@[i].role@
                    == "system"@
                &&& req.messages@[i].role == LlmRole::User ==> body.messages@[i].role@ == "user"@
                &&& req.messages@[i].role == LlmRole::Assistant ==> body.messages@[i].role@
                    == "assistant"@
            },
        body.temperature == Some(req.temperature),
        req.max_tokens is Some ==> body.max_tokens == req.max_tokens,
        req.max_tokens is None ==> body.max_tokens == default_max_tokens,
        req.response_format == Some(ResponseFormat::JsonObject) ==> (body.response_format
            matches Some(t) && t@ == "json_object"@),
        req.response_format == Some(ResponseFormat::Text) ==> body.response_format is None,
        req.response_format is None ==> (body.response_format is Some <==> default_format
            == ResponseFormat::JsonObject),
{
}

/// A fence that is opened and not closed is taken off all the same.
pub proof fn law_open_fence_is_removed(raw: Seq<char>, body: Seq<char>)
    requires
        trimmed(raw) == "```json"@ + body,
        !ends(body, "```"@),
    ensures
        payload(raw) == trimmed(body),
{
    let t = trimmed(raw);
    assert(t.take("```json"@.len() as int) =~= "```json"@);
    assert(t.skip("```json"@.len() as int) =~= body);
}

/// Vectors are taken only where there is one for each text, and then as they came.
pub proof fn law_one_vector_for_each_text(
    exchange: EmbeddingExchange,
    count: int,
    res: Result<Vec<Vec<Single>>, NekoError>,
)
    requires
        embedded(exchange, count, res),
    ensures
        res matches Ok(v) ==> v@.len() == count && exchange == EmbeddingExchange::Answered(v),
        (exchange matches EmbeddingExchange::Answered(v) && v@.len() == count) ==> res is Ok,
        exchange is SendFailed ==> (res matches Err(e) && e.kind() == ErrorKind::Transport),
        exchange is Refused ==> (res matches Err(e) && e.kind() == ErrorKind::Llm),
        exchange is Undecodable ==> (res matches Err(e) && e.kind() == ErrorKind::Parse),
{
}

/// A provider is taken up exactly where its address, without slashes at the end, can
/// be read, and its key can stand in a header.
pub proof fn law_provider_is_checked(base_url: Seq<char>, key: Seq<char>)
    ensures
        client_fault(base_url, key) is None <==> url_read(without_end(base_url, '/')) is Ok
            && header_text("Bearer "@ + key),
        url_read(without_end(base_url, '/')) matches Err(e) ==> client_fault(base_url, key) == Some(
            "invalid base_url: "@ + e,
        ),
        bearer(key) == "Bearer "@ + key,
        forall|s: int| #[trigger] succeeds(s) <==> 200 <= s <= 299,
{
}

/// A fence without a name of its language is removed as well.
pub proof fn law_plain_fence_is_removed(lead: Seq<char>, body: Seq<char>, tail: Seq<char>)
    requires
        all_space(lead),
        lead.len() > 0,
        all_space(tail),
        body.len() > 0,
        !is_space(body[0]),
        !is_space(body.last()),
    ensures
        payload("```"@ + (lead + body + tail) + "```"@) == body,
{
    reveal_strlit("```json");
    reveal_strlit("```");
    let inner = lead + body + tail;
    let raw = "```"@ + inner + "```"@;
    lemma_trimmed_between(Seq::empty(), raw, Seq::empty());
    assert(Seq::<char>::empty() + raw + Seq::<char>::empty() =~= raw);
    assert(raw.take(3) =~= "```"@);
    if begins(raw, "```json"@) {
        assert(raw.take(7)[3] == 'j');
        assert(raw[3] == lead[0]);
    }
    let rest = raw.skip(3);
    assert(rest =~= inner + "```"@);
    assert(rest.skip(rest.len() - 3) =~= "```"@);
    assert(rest.take(rest.len() - 3) =~= inner);
    lemma_trimmed_between(lead, body, tail);
}

} // verus!
