//! The OpenAI Responses API adapter's decisions: it serves only contexts
//! that allow cloud processing, never stores responses, and reads its key
//! from the secret store. The HTTP exchange belongs to the application.

use crate::agent::pair_views;
use crate::developer::Timestamp;
use crate::net::{is_success_status, is_transient_status, parse_url, parsed_url};
use crate::numtext::{dec, dec_signed, i64_text, u64_text};
use crate::platform::{json_string, json_string_text};
use crate::provider::{provider_error_text, ProviderCapabilities, ProviderError, ProviderHealth};
use crate::relay::copy_opt_string;
use crate::secrets::{SecretStoreError, SecretValue};
use crate::text::{concat2, concat3, owned, strip_prefixes, strip_suffixes, trim_end_matches, trim_start_matches};
use crate::types::{
    GenerationRequest, GenerationResponse, Message, MessageRole, ModelCapabilities, ModelDescriptor,
    ModelId, ModelRef, ProviderId, TokenUsage,
};
use crate::text::is_blank_seq;
use vstd::prelude::*;

verus! {

pub open spec fn default_openai_url() -> Seq<char> {
    "https://api.openai.com/v1"@
}

/// The adapter's endpoint and its request timeout in milliseconds.
#[derive(Debug, Clone, PartialEq, Eq)]
pub struct OpenAiProviderConfig {
    pub base_url: String,
    pub request_timeout_ms: u64,
}

impl Default for OpenAiProviderConfig {
    fn default() -> (c: Self)
        ensures
            c.base_url@ == default_openai_url(),
            c.request_timeout_ms == 60_000,
    {
        OpenAiProviderConfig { base_url: owned("https://api.openai.com/v1"), request_timeout_ms: 60_000 }
    }
}

/// The OpenAI adapter: its provider id and its endpoint.
#[derive(Debug)]
pub struct OpenAiProvider {
    id: ProviderId,
    config: OpenAiProviderConfig,
}

/// Where the adapter's text output lies: content parts typed `output_text`.
#[derive(Debug, Clone, PartialEq, Eq)]
pub struct OpenAiOutputContent {
    pub kind: String,
    pub text: Option<String>,
}

/// What the application read of a Responses API reply.
#[derive(Debug, Clone, PartialEq, Eq)]
pub struct OpenAiResponseReply {
    pub created_at: i64,
    pub output: Vec<Vec<OpenAiOutputContent>>,
    pub status: String,
    pub usage: Option<TokenUsage>,
}

/// One entry of the model list.
#[derive(Debug, Clone, PartialEq, Eq)]
pub struct OpenAiModelEntry {
    pub id: String,
    pub created: i64,
    pub owned_by: String,
}

/// One input message of a Responses API request.
#[derive(Debug, Clone, PartialEq, Eq)]
pub struct OpenAiInputMessage {
    pub role: &'static str,
    pub content: String,
}

/// A Responses API request that is never stored; the temperature is an
/// `f32` bit pattern.
#[derive(Debug, Clone, PartialEq, Eq)]
pub struct OpenAiResponseRequest {
    pub model: String,
    pub input: Vec<OpenAiInputMessage>,
    pub store: bool,
    pub temperature: Option<u32>,
    pub max_output_tokens: Option<u32>,
}

/// The wire role of a message that the adapter sends.
pub open spec fn input_role(r: MessageRole) -> Seq<char> {
    match r {
        MessageRole::System => "system"@,
        MessageRole::User => "user"@,
        MessageRole::Assistant => "assistant"@,
        MessageRole::Tool => "tool"@,
    }
}

pub open spec fn has_tool_message(m: Seq<Message>) -> bool {
    exists|i: int| 0 <= i < m.len() && (#[trigger] m[i]).role == MessageRole::Tool
}

/// A context may go to OpenAI only when it allows the cloud and is not
/// local-only.
pub open spec fn cloud_permitted(request: GenerationRequest) -> bool {
    !request.context.privacy_policy.local_only && request.context.privacy_policy.cloud_allowed
}

/// What a Responses API request for `request` holds.
pub open spec fn response_request_matches(
    w: OpenAiResponseRequest,
    request: GenerationRequest,
    context_json: Seq<char>,
) -> bool {
    let m = request.messages@;
    &&& w.model@ == request.model.model_id@
    &&& w.input@.len() == m.len() + 1
    &&& w.input@[0].role@ == "developer"@
    &&& w.input@[0].content@ == "Vertex Context Protocol JSON:\n"@ + context_json
    &&& forall|i: int|
        0 <= i < m.len() ==> (#[trigger] w.input@[i + 1]).role@ == input_role(m[i].role)
            && w.input@[i + 1].content == m[i].content
    &&& !w.store
    &&& w.temperature == request.parameters.temperature
    &&& w.max_output_tokens == request.parameters.max_output_tokens
}

/// The text of a reply: the `output_text` parts that carry text, joined.
pub open spec fn output_text(parts: Seq<OpenAiOutputContent>) -> Seq<char>
    decreases parts.len(),
{
    if parts.len() == 0 {
        Seq::empty()
    } else {
        let last = parts.last();
        output_text(parts.drop_last()) + if last.kind@ == "output_text"@ && last.text is Some {
            last.text->0@
        } else {
            Seq::<char>::empty()
        }
    }
}

/// The content parts of all output items, in order.
pub open spec fn all_parts(items: Seq<Vec<OpenAiOutputContent>>) -> Seq<OpenAiOutputContent>
    decreases items.len(),
{
    if items.len() == 0 {
        Seq::empty()
    } else {
        all_parts(items.drop_last()) + items.last()@
    }
}

/// The metadata of a listed model, keyed in order.
pub open spec fn model_metadata(m: OpenAiModelEntry) -> Seq<(Seq<char>, Seq<char>)> {
    seq![("created"@, dec_signed(m.created as int)), ("owned_by"@, json_string_text(m.owned_by@))]
}

/// How the adapter lists a model: a cloud model with no declared
/// capabilities, context size or cost.
pub open spec fn descriptor_matches(r: ModelDescriptor, id: ProviderId, m: OpenAiModelEntry) -> bool {
    &&& r.reference.provider_id == id
    &&& r.reference.model_id@ == m.id@
    &&& r.display_name@ == m.id@
    &&& r.capabilities == (ModelCapabilities {
        tools: false,
        vision: false,
        structured_output: false,
        streaming: false,
    })
    &&& r.context_size is None
    &&& !r.local
    &&& r.input_cost_per_million is None
    &&& r.output_cost_per_million is None
    &&& r.available
    &&& pair_views(r.metadata@) == model_metadata(m)
}

pub open spec fn some_blank_id(v: Seq<OpenAiModelEntry>) -> bool {
    exists|i: int| 0 <= i < v.len() && is_blank_seq(#[trigger] v[i].id@)
}

/// The instant of a Unix time in seconds, in milliseconds, where chrono can
/// represent it: `chrono::DateTime::from_timestamp(secs, 0)`, which the
/// crate documents as round-tripping with `timestamp()`. Where the seconds
/// are out of chrono's range it gives `None`; that range is left unstated.
#[verifier::external_body]
fn timestamp_from_secs(secs: i64) -> (r: Option<Timestamp>)
    ensures
        r matches Some(ms) ==> ms == secs * 1000,
{
    chrono::DateTime::from_timestamp(secs, 0).map(|t| t.timestamp_millis())
}

impl crate::provider::Registrable for OpenAiProvider {
    open spec fn registered_id(&self) -> ProviderId {
        self.provider_id()
    }

    fn registration_id(&self) -> (r: ProviderId) {
        self.id().clone()
    }
}

impl OpenAiProvider {
    pub closed spec fn base(&self) -> Seq<char> {
        self.config.base_url@
    }

    pub closed spec fn provider_id(&self) -> ProviderId {
        self.id
    }

    pub closed spec fn timeout_ms(&self) -> u64 {
        self.config.request_timeout_ms
    }

    /// Accepts the configuration exactly when its endpoint, trailing slashes
    /// removed, parses as a URL.
    pub fn new(config: OpenAiProviderConfig) -> (r: Result<OpenAiProvider, ProviderError>)
        ensures
            ({
                let base = strip_suffixes(config.base_url@, "/"@);
                &&& r is Ok <==> parsed_url(base) is Some
                &&& r matches Ok(o) ==> o.base() == base && o.provider_id()@ == "openai"@
                    && o.timeout_ms() == config.request_timeout_ms
                &&& r matches Err(e) ==> e == ProviderError::InvalidRequest(e->InvalidRequest_0)
                    && e->InvalidRequest_0@ == "invalid OpenAI base URL"@
            }),
    {
        proof {
            reveal_strlit("/");
            reveal_strlit("openai");
            assert(!crate::text::is_ws("openai"@[0]));
        }
        let base = trim_end_matches(config.base_url.as_str(), "/");
        if parse_url(base.as_str()).is_none() {
            return Err(ProviderError::InvalidRequest(owned("invalid OpenAI base URL")));
        }
        let id = ProviderId::new("openai").unwrap();
        Ok(OpenAiProvider { id, config: OpenAiProviderConfig { base_url: base, request_timeout_ms: config.request_timeout_ms } })
    }

    pub fn id(&self) -> (r: &ProviderId)
        ensures
            *r == self.provider_id(),
    {
        &self.id
    }

    /// Model discovery only.
    pub fn capabilities(&self) -> (r: ProviderCapabilities)
        ensures
            r == (ProviderCapabilities { model_discovery: true, streaming: false, cost_estimation: false }),
    {
        ProviderCapabilities { model_discovery: true, streaming: false, cost_estimation: false }
    }

    /// The URL of an API path.
    pub fn endpoint(&self, path: &str) -> (r: String)
        ensures
            r@ == self.base() + "/"@ + strip_prefixes(path@, "/"@),
    {
        proof {
            reveal_strlit("/");
        }
        let rest = trim_start_matches(path, "/");
        concat3(self.config.base_url.as_str(), "/", rest.as_str())
    }

    /// The Responses API request for a generation, with the context's JSON
    /// text as the leading developer message. Refused where the context
    /// keeps to the machine, where a structured answer is asked for, and
    /// where a tool message is present, in that order of precedence.
    pub fn build_response_request(&self, request: &GenerationRequest, context_json: &str) -> (r: Result<
        OpenAiResponseRequest,
        ProviderError,
    >)
        ensures
            ({
                let cloud = cloud_permitted(*request);
                let schema = request.parameters.structured_output_schema is Some;
                let tool = has_tool_message(request.messages@);
                &&& r is Ok <==> cloud && !schema && !tool
                &&& r matches Ok(w) ==> response_request_matches(w, *request, context_json@)
                &&& !cloud ==> (r matches Err(e) && e matches ProviderError::InvalidRequest(t) && t@
                    == "Vertex Context privacy policy forbids cloud processing"@)
                &&& cloud && schema ==> (r matches Err(e) && e matches ProviderError::Unsupported(t)
                    && t@ == "structured output is not implemented by this adapter yet"@)
                &&& cloud && !schema && tool ==> (r matches Err(e) && e matches ProviderError::Unsupported(
                    t,
                ) && t@ == "tool messages are not implemented by this adapter yet"@)
            }),
    {
        if request.context.privacy_policy.local_only || !request.context.privacy_policy.cloud_allowed {
            return Err(
                ProviderError::InvalidRequest(owned("Vertex Context privacy policy forbids cloud processing")),
            );
        }
        if request.parameters.structured_output_schema.is_some() {
            return Err(
                ProviderError::Unsupported(owned("structured output is not implemented by this adapter yet")),
            );
        }
        let mut input: Vec<OpenAiInputMessage> = Vec::new();
        input.push(
            OpenAiInputMessage {
                role: "developer",
                content: concat2("Vertex Context Protocol JSON:\n", context_json),
            },
        );
        let mut i: usize = 0;
        while i < request.messages.len()
            invariant
                i <= request.messages.len(),
                cloud_permitted(*request),
                request.parameters.structured_output_schema is None,
                input@.len() == i + 1,
                input@[0].role@ == "developer"@,
                input@[0].content@ == "Vertex Context Protocol JSON:\n"@ + context_json@,
                forall|j: int| 0 <= j < i ==> (#[trigger] request.messages@[j]).role != MessageRole::Tool,
                forall|j: int|
                    0 <= j < i ==> (#[trigger] input@[j + 1]).role@ == input_role(
                        request.messages@[j].role,
                    ) && input@[j + 1].content == request.messages@[j].content,
            decreases request.messages.len() - i,
        {
            let message = &request.messages[i];
            let role = match message.role {
                MessageRole::System => "system",
                MessageRole::User => "user",
                MessageRole::Assistant => "assistant",
                MessageRole::Tool => {
                    assert(request.messages@[i as int].role == MessageRole::Tool);
                    return Err(
                        ProviderError::Unsupported(owned("tool messages are not implemented by this adapter yet")),
                    );
                },
            };
            input.push(OpenAiInputMessage { role, content: message.content.clone() });
            i += 1;
        }
        Ok(
            OpenAiResponseRequest {
                model: owned(request.model.model_id.as_str()),
                input,
                store: false,
                temperature: request.parameters.temperature,
                max_output_tokens: request.parameters.max_output_tokens,
            },
        )
    }

    /// The descriptors of the model list, in its order; one blank id fails
    /// the whole list.
    pub fn descriptors_of(&self, models: &Vec<OpenAiModelEntry>) -> (r: Result<
        Vec<ModelDescriptor>,
        ProviderError,
    >)
        ensures
            r is Ok <==> !some_blank_id(models@),
            r matches Ok(v) ==> v@.len() == models@.len() && forall|i: int|
                0 <= i < v@.len() ==> descriptor_matches(#[trigger] v@[i], self.provider_id(), models@[i]),
            r matches Err(e) ==> e matches ProviderError::Failed(t) && t@
                == "OpenAI returned an empty model id"@,
    {
        let mut out: Vec<ModelDescriptor> = Vec::new();
        let mut i: usize = 0;
        while i < models.len()
            invariant
                i <= models.len(),
                out@.len() == i,
                forall|j: int| 0 <= j < i ==> !is_blank_seq(#[trigger] models@[j].id@),
                forall|j: int|
                    0 <= j < i ==> descriptor_matches(#[trigger] out@[j], self.provider_id(), models@[j]),
            decreases models.len() - i,
        {
            let m = &models[i];
            let model_id = match ModelId::new(m.id.as_str()) {
                Ok(id) => id,
                Err(_) => {
                    assert(is_blank_seq(models@[i as int].id@));
                    return Err(ProviderError::Failed(owned("OpenAI returned an empty model id")));
                },
            };
            let mut metadata: Vec<(String, String)> = Vec::new();
            metadata.push((owned("created"), i64_text(m.created)));
            metadata.push((owned("owned_by"), json_string(m.owned_by.as_str())));
            let d = ModelDescriptor {
                display_name: owned(m.id.as_str()),
                reference: ModelRef::new(self.id.clone(), model_id),
                capabilities: ModelCapabilities {
                    tools: false,
                    vision: false,
                    structured_output: false,
                    streaming: false,
                },
                context_size: None,
                local: false,
                input_cost_per_million: None,
                output_cost_per_million: None,
                available: true,
                metadata,
            };
            assert(pair_views(d.metadata@) =~= model_metadata(*m));
            out.push(d);
            i += 1;
        }
        Ok(out)
    }

    /// The response a reply gives: the joined `output_text` parts, the
    /// reply's status as the finish reason and its usage (zero where absent).
    /// Its time is the reply's `created_at` where chrono can represent it,
    /// else `now`. A reply without text fails.
    pub fn response_from(
        &self,
        model: ModelRef,
        reply: OpenAiResponseReply,
        response_id: u128,
        now: Timestamp,
    ) -> (r: Result<GenerationResponse, ProviderError>)
        ensures
            ({
                let text = output_text(all_parts(reply.output@));
                &&& r is Ok <==> text.len() > 0
                &&& r matches Ok(g) ==> {
                    &&& g.response_id == response_id
                    &&& g.model == model
                    &&& g.text@ == text
                    &&& g.usage == match reply.usage {
                        Some(u) => u,
                        None => TokenUsage { input_tokens: 0, output_tokens: 0 },
                    }
                    &&& g.finish_reason == Some(reply.status)
                    &&& (g.created_at == now || g.created_at == reply.created_at * 1000)
                }
                &&& r matches Err(e) ==> e matches ProviderError::Failed(t) && t@
                    == "OpenAI response contained no text output"@
            }),
    {
        let mut text = String::new();
        let mut i: usize = 0;
        while i < reply.output.len()
            invariant
                i <= reply.output.len(),
                text@ == output_text(all_parts(reply.output@.take(i as int))),
            decreases reply.output.len() - i,
        {
            let item = &reply.output[i];
            let mut k: usize = 0;
            assert(reply.output@.take(i + 1).drop_last() =~= reply.output@.take(i as int));
            while k < item.len()
                invariant
                    i < reply.output.len(),
                    *item == reply.output@[i as int],
                    k <= item.len(),
                    text@ == output_text(all_parts(reply.output@.take(i as int)) + item@.take(k as int)),
                decreases item.len() - k,
            {
                let part = &item[k];
                assert((all_parts(reply.output@.take(i as int)) + item@.take(k + 1)).drop_last()
                    =~= all_parts(reply.output@.take(i as int)) + item@.take(k as int));
                if crate::text::str_eq(part.kind.as_str(), "output_text") {
                    match &part.text {
                        Some(t) => text.append(t.as_str()),
                        None => {},
                    }
                }
                k += 1;
            }
            assert(item@.take(k as int) =~= item@);
            i += 1;
        }
        assert(reply.output@.take(reply.output.len() as int) =~= reply.output@);
        if text.as_str().unicode_len() == 0 {
            return Err(ProviderError::Failed(owned("OpenAI response contained no text output")));
        }
        let created_at = match timestamp_from_secs(reply.created_at) {
            Some(ms) => ms,
            None => now,
        };
        let usage = match reply.usage {
            Some(u) => u,
            None => TokenUsage { input_tokens: 0, output_tokens: 0 },
        };
        Ok(
            GenerationResponse {
                response_id,
                model,
                text,
                usage,
                finish_reason: Some(reply.status),
                created_at,
            },
        )
    }
}

/// The key the adapter authenticates with: a failing store makes it
/// unavailable, and so does a missing key.
pub fn api_key_from(lookup: Result<Option<SecretValue>, SecretStoreError>) -> (r: Result<SecretValue, ProviderError>)
    ensures
        match lookup {
            Err(_) => r matches Err(e) && e matches ProviderError::Unavailable(t) && t@
                == "OpenAI credential store unavailable"@,
            Ok(None) => r matches Err(e) && e matches ProviderError::Unavailable(t) && t@
                == "OpenAI API key is not configured"@,
            Ok(Some(v)) => r == Ok::<SecretValue, ProviderError>(v),
        },
{
    match lookup {
        Err(_) => Err(ProviderError::Unavailable(owned("OpenAI credential store unavailable"))),
        Ok(None) => Err(ProviderError::Unavailable(owned("OpenAI API key is not configured"))),
        Ok(Some(v)) => Ok(v),
    }
}

/// The message for a refused reply: its status and OpenAI's error code.
pub open spec fn refusal_message(code: u16, error_code: Option<String>) -> Seq<char> {
    "OpenAI returned HTTP "@ + dec(code as nat) + " ("@ + match error_code {
        Some(c) => c@,
        None => "unknown_error"@,
    } + ")"@
}

/// How a reply's status ends a request: success goes on, a server error or
/// 429 makes the provider unavailable, anything else is a refused request.
pub fn check_reply(code: u16, error_code: Option<String>) -> (r: Result<(), ProviderError>)
    ensures
        is_success_status(code) <==> r is Ok,
        !is_success_status(code) && is_transient_status(code) ==> (r matches Err(e)
            && e matches ProviderError::Unavailable(t) && t@ == refusal_message(code, error_code)),
        !is_success_status(code) && !is_transient_status(code) ==> (r matches Err(e)
            && e matches ProviderError::InvalidRequest(t) && t@ == refusal_message(code, error_code)),
{
    if 200 <= code && code <= 299 {
        return Ok(());
    }
    let number = u64_text(code as u64);
    let mut message = concat3("OpenAI returned HTTP ", number.as_str(), " (");
    match &error_code {
        Some(c) => message.append(c.as_str()),
        None => message.append("unknown_error"),
    }
    message.append(")");
    if (500 <= code && code <= 599) || code == 429 {
        Err(ProviderError::Unavailable(message))
    } else {
        Err(ProviderError::InvalidRequest(message))
    }
}

/// The health a model listing shows: healthy when it succeeded, else
/// unavailable with the listing's error message.
pub fn health_from_listing(listing: &Result<Vec<ModelDescriptor>, ProviderError>) -> (r: ProviderHealth)
    ensures
        match listing {
            Ok(_) => r == ProviderHealth::Healthy,
            Err(e) => r matches ProviderHealth::Unavailable(t) && t@ == provider_error_text(*e),
        },
{
    match listing {
        Ok(_) => ProviderHealth::Healthy,
        Err(e) => ProviderHealth::Unavailable(e.to_text()),
    }
}

} // verus!
