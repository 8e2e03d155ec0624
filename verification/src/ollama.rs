//! The local Ollama adapter's decisions. Requests go to the loopback
//! interface only and never fall back to a cloud provider; the HTTP
//! exchange itself belongs to the application, which hands the replies to
//! these functions.

use crate::agent_run::opt_view;
use crate::desktop::ollama_provider_id;
use crate::net::{is_success_status, is_transient_status, parse_url, parsed_url};
use crate::numtext::{dec, u64_text};
use crate::provider::{ProviderCapabilities, ProviderError, ProviderHealth};
use crate::runtime::{RuntimeError, RuntimeModelState, RuntimeModelStateKind, RuntimeOperationControl};
use crate::text::{concat2, concat3, owned, str_eq, strip_prefixes, strip_suffixes, trim_end_matches, trim_start_matches};
use crate::agent::pair_views;
use crate::developer::Timestamp;
use crate::platform::{host_is_windows, json_string, json_string_text};
use crate::postgres_runtime::{join_path, path_joined};
use crate::relay::copy_opt_string;
use crate::text::{chars_of, find_char, first_index_of, is_blank, is_blank_seq, string_from_chars, trim, trim_seq};
use crate::relay::clone_strings;
use crate::types::{
    GenerationRequest, GenerationResponse, HealthState, Message, MessageRole, ModelDownloadProgress, TokenUsage, InstalledLocalModel, LoadedLocalModel, LocalRuntimeSnapshot,
    ModelCapabilities, ModelDescriptor, ModelId, ModelRef, ProviderId,
};
use vstd::prelude::*;

verus! {

/// Where the adapter expects Ollama when nothing else is configured.
pub open spec fn default_ollama_url() -> Seq<char> {
    "http://127.0.0.1:11434"@
}

/// The adapter's endpoint and its two timeouts, in milliseconds.
#[derive(Debug, Clone, PartialEq, Eq)]
pub struct OllamaProviderConfig {
    pub base_url: String,
    pub request_timeout_ms: u64,
    pub health_timeout_ms: u64,
}

impl Default for OllamaProviderConfig {
    fn default() -> (c: Self)
        ensures
            c.base_url@ == default_ollama_url(),
            c.request_timeout_ms == 180_000,
            c.health_timeout_ms == 3_000,
    {
        OllamaProviderConfig {
            base_url: owned("http://127.0.0.1:11434"),
            request_timeout_ms: 180_000,
            health_timeout_ms: 3_000,
        }
    }
}

/// A host name that names this machine.
pub open spec fn is_loopback_host(h: Seq<char>) -> bool {
    h == "127.0.0.1"@ || h == "localhost"@ || h == "::1"@
}

/// A parsed endpoint the adapter accepts: plain HTTP to a loopback host.
pub open spec fn endpoint_accepted(p: Option<(Seq<char>, Option<Seq<char>>)>) -> bool {
    match p {
        Some((scheme, Some(host))) => scheme == "http"@ && is_loopback_host(host),
        _ => false,
    }
}

/// The error `check_endpoint` gives for a parsed endpoint.
pub open spec fn endpoint_error(p: Option<(Seq<char>, Option<Seq<char>>)>) -> Seq<char> {
    if p is None {
        "invalid Ollama base URL"@
    } else {
        "Ollama endpoint must use HTTP on the loopback interface"@
    }
}

/// Judges a parsed endpoint: `None` (no URL) and anything but HTTP to
/// `127.0.0.1`, `localhost` or `::1` are refused.
pub fn check_endpoint(parsed: &Option<(String, Option<String>)>) -> (r: Result<(), ProviderError>)
    ensures
        ({
            let p = match parsed {
                Some(t) => Some((t.0@, opt_view(t.1))),
                None => None,
            };
            &&& r is Ok <==> endpoint_accepted(p)
            &&& r matches Err(e) ==> e == ProviderError::InvalidRequest(e->InvalidRequest_0)
                && e->InvalidRequest_0@ == endpoint_error(p)
        }),
{
    match parsed {
        None => Err(ProviderError::InvalidRequest(owned("invalid Ollama base URL"))),
        Some((scheme, host)) => {
            let loopback = match host {
                Some(h) => str_eq(h.as_str(), "127.0.0.1") || str_eq(h.as_str(), "localhost")
                    || str_eq(h.as_str(), "::1"),
                None => false,
            };
            if !loopback || !str_eq(scheme.as_str(), "http") {
                Err(
                    ProviderError::InvalidRequest(
                        owned("Ollama endpoint must use HTTP on the loopback interface"),
                    ),
                )
            } else {
                Ok(())
            }
        },
    }
}

/// The Ollama adapter: its provider id and its loopback endpoint.
#[derive(Debug)]
pub struct OllamaProvider {
    id: ProviderId,
    config: OllamaProviderConfig,
}

impl crate::provider::Registrable for OllamaProvider {
    open spec fn registered_id(&self) -> ProviderId {
        self.provider_id()
    }

    fn registration_id(&self) -> (r: ProviderId) {
        self.id().clone()
    }
}

impl OllamaProvider {
    /// The endpoint without its trailing slashes.
    pub closed spec fn base(&self) -> Seq<char> {
        self.config.base_url@
    }

    /// The configuration the adapter was made with (the endpoint trimmed).
    pub closed spec fn settings(&self) -> OllamaProviderConfig {
        self.config
    }

    pub closed spec fn provider_id(&self) -> ProviderId {
        self.id
    }

    /// Accepts the configuration exactly when its endpoint, trailing slashes
    /// removed, parses as plain HTTP to a loopback host.
    pub fn new(config: OllamaProviderConfig) -> (r: Result<OllamaProvider, ProviderError>)
        ensures
            ({
                let base = strip_suffixes(config.base_url@, "/"@);
                let p = parsed_url(base);
                &&& r is Ok <==> endpoint_accepted(p)
                &&& r matches Ok(o) ==> o.base() == base && o.provider_id()@ == "ollama"@
                    && o.settings().request_timeout_ms == config.request_timeout_ms
                    && o.settings().health_timeout_ms == config.health_timeout_ms
                &&& r matches Err(e) ==> e == ProviderError::InvalidRequest(e->InvalidRequest_0)
                    && e->InvalidRequest_0@ == endpoint_error(p)
            }),
    {
        proof {
            reveal_strlit("/");
        }
        let base = trim_end_matches(config.base_url.as_str(), "/");
        let parsed = parse_url(base.as_str());
        check_endpoint(&parsed)?;
        Ok(
            OllamaProvider {
                id: ollama_provider_id(),
                config: OllamaProviderConfig {
                    base_url: base,
                    request_timeout_ms: config.request_timeout_ms,
                    health_timeout_ms: config.health_timeout_ms,
                },
            },
        )
    }

    pub fn id(&self) -> (r: &ProviderId)
        ensures
            *r == self.provider_id(),
    {
        &self.id
    }

    /// Model discovery and cost estimates, no streaming.
    pub fn capabilities(&self) -> (r: ProviderCapabilities)
        ensures
            r == (ProviderCapabilities { model_discovery: true, streaming: false, cost_estimation: true }),
    {
        ProviderCapabilities { model_discovery: true, streaming: false, cost_estimation: true }
    }

    /// The URL of an API path: the endpoint, one slash, and the path
    /// without its leading slashes.
    pub fn endpoint(&self, path: &str) -> (r: String)
        ensures
            r@ == self.base() + "/"@ + strip_prefixes(path@, "/"@),
    {
        proof {
            reveal_strlit("/");
        }
        let rest = trim_start_matches(path, "/");
        concat3(self.config.base_url.as_str(), "/", rest.as_str())
    }

    /// A request is served only for this provider's models and only with a
    /// local-only context that forbids cloud processing.
    pub fn validate_request(&self, request: &GenerationRequest) -> (r: Result<(), ProviderError>)
        ensures
            ({
                let own = request.model.provider_id@ == self.provider_id()@;
                let local = request.context.privacy_policy.local_only
                    && !request.context.privacy_policy.cloud_allowed;
                &&& r is Ok <==> own && local
                &&& !own ==> r == Err::<(), ProviderError>(
                    ProviderError::InvalidRequest(r->Err_0->InvalidRequest_0),
                ) && r->Err_0->InvalidRequest_0@ == "request model belongs to a different provider"@
                &&& own && !local ==> r == Err::<(), ProviderError>(
                    ProviderError::InvalidRequest(r->Err_0->InvalidRequest_0),
                ) && r->Err_0->InvalidRequest_0@ == "Ollama requests require a local-only context"@
            }),
    {
        if !str_eq(request.model.provider_id.as_str(), self.id.as_str()) {
            return Err(
                ProviderError::InvalidRequest(owned("request model belongs to a different provider")),
            );
        }
        if !request.context.privacy_policy.local_only || request.context.privacy_policy.cloud_allowed {
            return Err(
                ProviderError::InvalidRequest(owned("Ollama requests require a local-only context")),
            );
        }
        Ok(())
    }
}

/// The message for an HTTP status that ended an operation.
pub open spec fn status_message(operation: Seq<char>, code: u16) -> Seq<char> {
    "Ollama "@ + operation + " returned HTTP "@ + dec(code as nat)
}

/// How a reply's status ends a provider operation: success goes on, a
/// server error or 429 makes the provider unavailable, and any other status
/// is a refused request.
pub fn check_status(operation: &str, code: u16) -> (r: Result<(), ProviderError>)
    ensures
        is_success_status(code) <==> r is Ok,
        !is_success_status(code) && is_transient_status(code) ==> r == Err::<(), ProviderError>(
            ProviderError::Unavailable(r->Err_0->Unavailable_0),
        ) && r->Err_0->Unavailable_0@ == status_message(operation@, code),
        !is_success_status(code) && !is_transient_status(code) ==> r == Err::<(), ProviderError>(
            ProviderError::InvalidRequest(r->Err_0->InvalidRequest_0),
        ) && r->Err_0->InvalidRequest_0@ == status_message(operation@, code),
{
    if 200 <= code && code <= 299 {
        return Ok(());
    }
    let mut message = concat3("Ollama ", operation, " returned HTTP ");
    let number = u64_text(code as u64);
    message.append(number.as_str());
    if (500 <= code && code <= 599) || code == 429 {
        Err(ProviderError::Unavailable(message))
    } else {
        Err(ProviderError::InvalidRequest(message))
    }
}

/// The health a version probe shows: `None` where Ollama could not be
/// reached, else the reply's status.
pub fn health_from_probe(status: Option<u16>) -> (r: ProviderHealth)
    ensures
        match status {
            None => r matches ProviderHealth::Unavailable(m) && m@ == "Ollama is not reachable"@,
            Some(code) => if is_success_status(code) {
                r == ProviderHealth::Healthy
            } else {
                r matches ProviderHealth::Degraded(m) && m@ == "Ollama returned HTTP "@ + dec(
                    code as nat,
                )
            },
        },
{
    match status {
        None => ProviderHealth::Unavailable(owned("Ollama is not reachable")),
        Some(code) => {
            if 200 <= code && code <= 299 {
                ProviderHealth::Healthy
            } else {
                let number = u64_text(code as u64);
                ProviderHealth::Degraded(concat2("Ollama returned HTTP ", number.as_str()))
            }
        },
    }
}

/// A long runtime operation goes on only while it is told to continue; a
/// pause or a cancel ends it as cancelled.
pub fn ensure_runtime_operation_continues(control: RuntimeOperationControl) -> (r: Result<
    (),
    RuntimeError,
>)
    ensures
        r is Ok <==> control == RuntimeOperationControl::Continue,
        r is Err ==> r == Err::<(), RuntimeError>(RuntimeError::Cancelled),
{
    match control {
        RuntimeOperationControl::Continue => Ok(()),
        RuntimeOperationControl::Pause | RuntimeOperationControl::Cancel => Err(
            RuntimeError::Cancelled,
        ),
    }
}


/// The details Ollama reports of an installed model.
#[derive(Debug, Clone, PartialEq, Eq, Default)]
pub struct OllamaModelDetails {
    pub format: Option<String>,
    pub family: Option<String>,
    pub parameter_size: Option<String>,
    pub quantization_level: Option<String>,
    pub context_length: Option<u64>,
}

/// One entry of Ollama's installed-model list (`/api/tags`).
#[derive(Debug, Clone, PartialEq, Eq)]
pub struct OllamaModelEntry {
    pub name: String,
    pub size: u64,
    pub digest: String,
    pub modified_at: Option<Timestamp>,
    pub details: Option<OllamaModelDetails>,
}

/// One entry of Ollama's running-model list (`/api/ps`).
#[derive(Debug, Clone, PartialEq, Eq)]
pub struct OllamaRunningEntry {
    pub name: String,
    pub size: u64,
    pub size_vram: u64,
    pub context_length: Option<u64>,
    pub expires_at: Option<Timestamp>,
}

/// The details of an entry, all absent where Ollama sent none.
pub open spec fn details_of(d: Option<OllamaModelDetails>) -> OllamaModelDetails {
    match d {
        Some(x) => x,
        None => OllamaModelDetails {
            format: None,
            family: None,
            parameter_size: None,
            quantization_level: None,
            context_length: None,
        },
    }
}

fn copy_details(d: &Option<OllamaModelDetails>) -> (r: OllamaModelDetails)
    ensures
        r == details_of(*d),
{
    match d {
        Some(x) => OllamaModelDetails {
            format: copy_opt_string(&x.format),
            family: copy_opt_string(&x.family),
            parameter_size: copy_opt_string(&x.parameter_size),
            quantization_level: copy_opt_string(&x.quantization_level),
            context_length: x.context_length,
        },
        None => OllamaModelDetails {
            format: None,
            family: None,
            parameter_size: None,
            quantization_level: None,
            context_length: None,
        },
    }
}

/// The JSON text of an optional string: `null`, or the quoted string.
pub open spec fn json_opt_text(o: Option<String>) -> Seq<char> {
    match o {
        Some(s) => json_string_text(s@),
        None => "null"@,
    }
}

fn json_opt(o: &Option<String>) -> (r: String)
    ensures
        r@ == json_opt_text(*o),
{
    match o {
        Some(s) => json_string(s.as_str()),
        None => owned("null"),
    }
}

/// The metadata of a listed model, keyed in order: the digest, then the
/// details where a format or family was reported, then the size.
pub open spec fn entry_metadata(m: OllamaModelEntry) -> Seq<(Seq<char>, Seq<char>)> {
    let d = details_of(m.details);
    let size = ("size_bytes"@, dec(m.size as nat));
    let digest = ("digest"@, json_string_text(m.digest@));
    if d.format is Some || d.family is Some {
        seq![
            digest,
            ("family"@, json_opt_text(d.family)),
            ("format"@, json_opt_text(d.format)),
            ("parameter_size"@, json_opt_text(d.parameter_size)),
            ("quantization_level"@, json_opt_text(d.quantization_level)),
            size,
        ]
    } else {
        seq![digest, size]
    }
}

/// A context length that fits in 32 bits.
pub open spec fn context_size_of(n: Option<u64>) -> Option<u32> {
    match n {
        Some(v) => if v <= u32::MAX {
            Some(v as u32)
        } else {
            None
        },
        None => None,
    }
}

/// How the adapter lists an installed model: a free local model that
/// offers structured output, under this provider.
pub open spec fn descriptor_matches(r: ModelDescriptor, id: ProviderId, m: OllamaModelEntry) -> bool {
    &&& r.reference.provider_id == id
    &&& r.reference.model_id@ == m.name@
    &&& r.display_name@ == m.name@
    &&& r.capabilities == (ModelCapabilities {
        tools: false,
        vision: false,
        structured_output: true,
        streaming: false,
    })
    &&& r.context_size == context_size_of(details_of(m.details).context_length)
    &&& r.local
    &&& r.input_cost_per_million == Some(0u64)
    &&& r.output_cost_per_million == Some(0u64)
    &&& r.available
    &&& pair_views(r.metadata@) == entry_metadata(m)
}

/// Some entry has a blank name.
pub open spec fn some_blank_name(names: Seq<Seq<char>>) -> bool {
    exists|i: int| 0 <= i < names.len() && is_blank_seq(#[trigger] names[i])
}

pub open spec fn entry_names(v: Seq<OllamaModelEntry>) -> Seq<Seq<char>> {
    Seq::new(v.len(), |i: int| v[i].name@)
}

pub open spec fn running_names(v: Seq<OllamaRunningEntry>) -> Seq<Seq<char>> {
    Seq::new(v.len(), |i: int| v[i].name@)
}

/// How an installed model enters a runtime snapshot.
pub open spec fn installed_matches(r: InstalledLocalModel, id: ProviderId, m: OllamaModelEntry) -> bool {
    let d = details_of(m.details);
    &&& r.reference.provider_id == id
    &&& r.reference.model_id@ == m.name@
    &&& r.display_name@ == m.name@
    &&& r.size_bytes == m.size
    &&& r.digest == (if is_blank_seq(m.digest@) {
        None
    } else {
        Some(m.digest)
    })
    &&& r.format == d.format
    &&& r.family == d.family
    &&& r.parameter_size == d.parameter_size
    &&& r.quantization_level == d.quantization_level
    &&& r.context_length == d.context_length
    &&& r.modified_at == m.modified_at
}

/// How a running model enters a runtime snapshot.
pub open spec fn loaded_matches(r: LoadedLocalModel, id: ProviderId, m: OllamaRunningEntry) -> bool {
    &&& r.reference.provider_id == id
    &&& r.reference.model_id@ == m.name@
    &&& r.size_bytes == m.size
    &&& r.size_vram_bytes == m.size_vram
    &&& r.context_length == m.context_length
    &&& r.expires_at == m.expires_at
}

/// What the application observed of the machine around the runtime: where
/// its executable and its model store are, and the store's disk space.
#[derive(Debug, Clone, PartialEq, Eq)]
pub struct RuntimeHostFacts {
    pub executable_path: Option<String>,
    pub model_storage_path: Option<String>,
    pub storage_total_bytes: Option<u64>,
    pub storage_available_bytes: Option<u64>,
}

/// A snapshot carries the host facts, this provider and its endpoint.
pub open spec fn snapshot_frame(
    s: LocalRuntimeSnapshot,
    id: ProviderId,
    endpoint: Seq<char>,
    facts: RuntimeHostFacts,
    checked_at: Timestamp,
) -> bool {
    &&& s.provider_id == id
    &&& s.display_name@ == "Ollama"@
    &&& s.endpoint@ == endpoint
    &&& s.executable_path == facts.executable_path
    &&& s.model_storage_path == facts.model_storage_path
    &&& s.storage_total_bytes == facts.storage_total_bytes
    &&& s.storage_available_bytes == facts.storage_available_bytes
    &&& s.checked_at == checked_at
}

impl OllamaProvider {
    /// The descriptor of one listed model; a blank name is Ollama's fault.
    pub fn descriptor_of(&self, m: &OllamaModelEntry) -> (r: Result<ModelDescriptor, ProviderError>)
        ensures
            r is Ok <==> !is_blank_seq(m.name@),
            r matches Ok(d) ==> descriptor_matches(d, self.provider_id(), *m),
            r matches Err(e) ==> e matches ProviderError::Failed(t) && t@
                == "Ollama returned an empty model name"@,
    {
        let model_id = match ModelId::new(m.name.as_str()) {
            Ok(id) => id,
            Err(_) => {
                return Err(ProviderError::Failed(owned("Ollama returned an empty model name")));
            },
        };
        let d = copy_details(&m.details);
        let mut metadata: Vec<(String, String)> = Vec::new();
        metadata.push((owned("digest"), json_string(m.digest.as_str())));
        if d.format.is_some() || d.family.is_some() {
            metadata.push((owned("family"), json_opt(&d.family)));
            metadata.push((owned("format"), json_opt(&d.format)));
            metadata.push((owned("parameter_size"), json_opt(&d.parameter_size)));
            metadata.push((owned("quantization_level"), json_opt(&d.quantization_level)));
        }
        metadata.push((owned("size_bytes"), u64_text(m.size)));
        let context_size = match d.context_length {
            Some(v) => if v <= 0xffff_ffffu64 {
                Some(v as u32)
            } else {
                None
            },
            None => None,
        };
        let r = ModelDescriptor {
            display_name: owned(m.name.as_str()),
            reference: ModelRef::new(self.id.clone(), model_id),
            capabilities: ModelCapabilities {
                tools: false,
                vision: false,
                structured_output: true,
                streaming: false,
            },
            context_size,
            local: true,
            input_cost_per_million: Some(0u64),
            output_cost_per_million: Some(0u64),
            available: true,
            metadata,
        };
        proof {
            assert(pair_views(r.metadata@) =~= entry_metadata(*m));
        }
        Ok(r)
    }

    /// The descriptors of Ollama's installed-model list, in its order; one
    /// blank name fails the whole list.
    pub fn descriptors_of(&self, models: &Vec<OllamaModelEntry>) -> (r: Result<
        Vec<ModelDescriptor>,
        ProviderError,
    >)
        ensures
            r is Ok <==> !some_blank_name(entry_names(models@)),
            r matches Ok(v) ==> v@.len() == models@.len() && forall|i: int|
                0 <= i < v@.len() ==> descriptor_matches(#[trigger] v@[i], self.provider_id(), models@[i]),
            r matches Err(e) ==> e matches ProviderError::Failed(t) && t@
                == "Ollama returned an empty model name"@,
    {
        let mut out: Vec<ModelDescriptor> = Vec::new();
        let mut i: usize = 0;
        while i < models.len()
            invariant
                i <= models.len(),
                out@.len() == i,
                forall|j: int| 0 <= j < i ==> !is_blank_seq(#[trigger] entry_names(models@)[j]),
                forall|j: int|
                    0 <= j < i ==> descriptor_matches(#[trigger] out@[j], self.provider_id(), models@[j]),
            decreases models.len() - i,
        {
            let d = match self.descriptor_of(&models[i]) {
                Ok(d) => d,
                Err(e) => {
                    assert(is_blank_seq(entry_names(models@)[i as int]));
                    return Err(e);
                },
            };
            out.push(d);
            i += 1;
        }
        Ok(out)
    }

    /// The installed models of a runtime snapshot, in Ollama's order.
    pub fn installed_of(&self, models: &Vec<OllamaModelEntry>) -> (r: Result<
        Vec<InstalledLocalModel>,
        RuntimeError,
    >)
        ensures
            r is Ok <==> !some_blank_name(entry_names(models@)),
            r matches Ok(v) ==> v@.len() == models@.len() && forall|i: int|
                0 <= i < v@.len() ==> installed_matches(#[trigger] v@[i], self.provider_id(), models@[i]),
            r matches Err(e) ==> e matches RuntimeError::Failed(t) && t@
                == "Ollama returned an empty model name"@,
    {
        let mut out: Vec<InstalledLocalModel> = Vec::new();
        let mut i: usize = 0;
        while i < models.len()
            invariant
                i <= models.len(),
                out@.len() == i,
                forall|j: int| 0 <= j < i ==> !is_blank_seq(#[trigger] entry_names(models@)[j]),
                forall|j: int|
                    0 <= j < i ==> installed_matches(#[trigger] out@[j], self.provider_id(), models@[j]),
            decreases models.len() - i,
        {
            let m = &models[i];
            let model_id = match ModelId::new(m.name.as_str()) {
                Ok(id) => id,
                Err(_) => {
                    assert(is_blank_seq(entry_names(models@)[i as int]));
                    return Err(RuntimeError::Failed(owned("Ollama returned an empty model name")));
                },
            };
            let d = copy_details(&m.details);
            let digest = if is_blank(m.digest.as_str()) {
                None
            } else {
                Some(m.digest.clone())
            };
            out.push(
                InstalledLocalModel {
                    reference: ModelRef::new(self.id.clone(), model_id),
                    display_name: m.name.clone(),
                    size_bytes: m.size,
                    digest,
                    format: d.format,
                    family: d.family,
                    parameter_size: d.parameter_size,
                    quantization_level: d.quantization_level,
                    context_length: d.context_length,
                    modified_at: m.modified_at,
                },
            );
            i += 1;
        }
        Ok(out)
    }

    /// The loaded models of a runtime snapshot, in Ollama's order.
    pub fn loaded_of(&self, models: &Vec<OllamaRunningEntry>) -> (r: Result<
        Vec<LoadedLocalModel>,
        RuntimeError,
    >)
        ensures
            r is Ok <==> !some_blank_name(running_names(models@)),
            r matches Ok(v) ==> v@.len() == models@.len() && forall|i: int|
                0 <= i < v@.len() ==> loaded_matches(#[trigger] v@[i], self.provider_id(), models@[i]),
            r matches Err(e) ==> e matches RuntimeError::Failed(t) && t@
                == "Ollama returned an empty running model name"@,
    {
        let mut out: Vec<LoadedLocalModel> = Vec::new();
        let mut i: usize = 0;
        while i < models.len()
            invariant
                i <= models.len(),
                out@.len() == i,
                forall|j: int| 0 <= j < i ==> !is_blank_seq(#[trigger] running_names(models@)[j]),
                forall|j: int|
                    0 <= j < i ==> loaded_matches(#[trigger] out@[j], self.provider_id(), models@[j]),
            decreases models.len() - i,
        {
            let m = &models[i];
            let model_id = match ModelId::new(m.name.as_str()) {
                Ok(id) => id,
                Err(_) => {
                    assert(is_blank_seq(running_names(models@)[i as int]));
                    return Err(
                        RuntimeError::Failed(owned("Ollama returned an empty running model name")),
                    );
                },
            };
            out.push(
                LoadedLocalModel {
                    reference: ModelRef::new(self.id.clone(), model_id),
                    size_bytes: m.size,
                    size_vram_bytes: m.size_vram,
                    context_length: m.context_length,
                    expires_at: m.expires_at,
                },
            );
            i += 1;
        }
        Ok(out)
    }

    /// The snapshot of a runtime whose version probe failed: offline, with
    /// no version and no models.
    pub fn offline_snapshot(&self, facts: RuntimeHostFacts, checked_at: Timestamp) -> (r:
        LocalRuntimeSnapshot)
        ensures
            snapshot_frame(r, self.provider_id(), self.base(), facts, checked_at),
            r.health == HealthState::Offline,
            r.version is None,
            r.installed_models@.len() == 0,
            r.loaded_models@.len() == 0,
    {
        LocalRuntimeSnapshot {
            provider_id: self.id.clone(),
            display_name: owned("Ollama"),
            endpoint: self.config.base_url.clone(),
            health: HealthState::Offline,
            version: None,
            executable_path: facts.executable_path,
            model_storage_path: facts.model_storage_path,
            storage_total_bytes: facts.storage_total_bytes,
            storage_available_bytes: facts.storage_available_bytes,
            installed_models: Vec::new(),
            loaded_models: Vec::new(),
            checked_at,
        }
    }

    /// The snapshot of a runtime that answered its version probe, from its
    /// installed and running lists; a blank name in either fails it.
    pub fn ready_snapshot(
        &self,
        facts: RuntimeHostFacts,
        version: String,
        tags: &Vec<OllamaModelEntry>,
        running: &Vec<OllamaRunningEntry>,
        checked_at: Timestamp,
    ) -> (r: Result<LocalRuntimeSnapshot, RuntimeError>)
        ensures
            r is Ok <==> !some_blank_name(entry_names(tags@)) && !some_blank_name(
                running_names(running@),
            ),
            r matches Ok(s) ==> {
                &&& snapshot_frame(s, self.provider_id(), self.base(), facts, checked_at)
                &&& s.health == HealthState::Ready
                &&& s.version == Some(version)
                &&& s.installed_models@.len() == tags@.len()
                &&& forall|i: int|
                    0 <= i < tags@.len() ==> installed_matches(
                        #[trigger] s.installed_models@[i],
                        self.provider_id(),
                        tags@[i],
                    )
                &&& s.loaded_models@.len() == running@.len()
                &&& forall|i: int|
                    0 <= i < running@.len() ==> loaded_matches(
                        #[trigger] s.loaded_models@[i],
                        self.provider_id(),
                        running@[i],
                    )
            },
            r matches Err(e) ==> e matches RuntimeError::Failed(t) && (if some_blank_name(
                entry_names(tags@),
            ) {
                t@ == "Ollama returned an empty model name"@
            } else {
                t@ == "Ollama returned an empty running model name"@
            }),
    {
        let installed_models = self.installed_of(tags)?;
        let loaded_models = self.loaded_of(running)?;
        Ok(
            LocalRuntimeSnapshot {
                provider_id: self.id.clone(),
                display_name: owned("Ollama"),
                endpoint: self.config.base_url.clone(),
                health: HealthState::Ready,
                version: Some(version),
                executable_path: facts.executable_path,
                model_storage_path: facts.model_storage_path,
                storage_total_bytes: facts.storage_total_bytes,
                storage_available_bytes: facts.storage_available_bytes,
                installed_models,
                loaded_models,
                checked_at,
            },
        )
    }
}


/// Whether a model reference names `m` in some entry.
pub open spec fn installed_has(v: Seq<InstalledLocalModel>, m: Seq<char>) -> bool {
    exists|i: int| 0 <= i < v.len() && (#[trigger] v[i]).reference.model_id@ == m
}

pub open spec fn loaded_has(v: Seq<LoadedLocalModel>, m: Seq<char>) -> bool {
    exists|i: int| 0 <= i < v.len() && (#[trigger] v[i]).reference.model_id@ == m
}

/// The state Ollama shows of a model: unavailable while the runtime is not
/// ready, loaded when `/api/ps` lists it, unloaded when it is only
/// installed, and unavailable when it is not installed.
pub open spec fn observed_state(s: LocalRuntimeSnapshot, m: Seq<char>) -> (RuntimeModelStateKind, Seq<char>) {
    if s.health != HealthState::Ready {
        (RuntimeModelStateKind::Unavailable, "Ollama runtime is unavailable"@)
    } else if loaded_has(s.loaded_models@, m) {
        (RuntimeModelStateKind::Loaded, "Ollama /api/ps reports the model as loaded"@)
    } else if installed_has(s.installed_models@, m) {
        (RuntimeModelStateKind::Unloaded, "Model is installed but absent from Ollama /api/ps"@)
    } else {
        (RuntimeModelStateKind::Unavailable, "Model is not installed in Ollama"@)
    }
}

/// A wait for `expected` ends at `observed`; a wait for an unload also ends
/// when the model is no longer available at all.
pub open spec fn state_reached_spec(expected: RuntimeModelStateKind, observed: RuntimeModelStateKind) -> bool {
    observed == expected || (expected == RuntimeModelStateKind::Unloaded && observed
        == RuntimeModelStateKind::Unavailable)
}

pub fn state_reached(expected: RuntimeModelStateKind, observed: RuntimeModelStateKind) -> (r: bool)
    ensures
        r == state_reached_spec(expected, observed),
{
    observed == expected || (expected == RuntimeModelStateKind::Unloaded && observed
        == RuntimeModelStateKind::Unavailable)
}

/// How many times a wait for a model state looks before it gives up.
pub const STATE_WAIT_ATTEMPTS: u32 = 20;

/// The name of a state as its `Debug` form writes it.
pub open spec fn state_kind_name(k: RuntimeModelStateKind) -> Seq<char> {
    match k {
        RuntimeModelStateKind::Loaded => "Loaded"@,
        RuntimeModelStateKind::Loading => "Loading"@,
        RuntimeModelStateKind::Unloading => "Unloading"@,
        RuntimeModelStateKind::Unloaded => "Unloaded"@,
        RuntimeModelStateKind::Unavailable => "Unavailable"@,
        RuntimeModelStateKind::Error => "Error"@,
    }
}

/// The error of a wait that ran out of attempts.
pub fn state_not_reached(expected: RuntimeModelStateKind) -> (r: RuntimeError)
    ensures
        r matches RuntimeError::Failed(m) && m@ == "Ollama model state did not reach "@
            + state_kind_name(expected),
{
    let name = match expected {
        RuntimeModelStateKind::Loaded => "Loaded",
        RuntimeModelStateKind::Loading => "Loading",
        RuntimeModelStateKind::Unloading => "Unloading",
        RuntimeModelStateKind::Unloaded => "Unloaded",
        RuntimeModelStateKind::Unavailable => "Unavailable",
        RuntimeModelStateKind::Error => "Error",
    };
    RuntimeError::Failed(concat2("Ollama model state did not reach ", name))
}

/// How a runtime operation's reply status ends it (`unload`, `preload`,
/// `pull`): success goes on, anything else fails the operation.
pub fn runtime_status_outcome(operation: &str, code: u16) -> (r: Result<(), RuntimeError>)
    ensures
        is_success_status(code) <==> r is Ok,
        r matches Err(e) ==> e matches RuntimeError::Failed(m) && m@ == status_message(
            operation@,
            code,
        ),
{
    if 200 <= code && code <= 299 {
        Ok(())
    } else {
        let mut message = concat3("Ollama ", operation, " returned HTTP ");
        let number = u64_text(code as u64);
        message.append(number.as_str());
        Err(RuntimeError::Failed(message))
    }
}

/// How a status read from a runtime inventory request ends it: anything
/// but success makes the runtime unavailable.
pub fn inventory_status_outcome(operation: &str, code: u16) -> (r: Result<(), RuntimeError>)
    ensures
        is_success_status(code) <==> r is Ok,
        r matches Err(e) ==> e matches RuntimeError::Unavailable(m) && m@ == status_message(
            operation@,
            code,
        ),
{
    if 200 <= code && code <= 299 {
        Ok(())
    } else {
        let mut message = concat3("Ollama ", operation, " returned HTTP ");
        let number = u64_text(code as u64);
        message.append(number.as_str());
        Err(RuntimeError::Unavailable(message))
    }
}

/// The error of a request that never got a reply.
pub fn request_failed(operation: &str) -> (r: ProviderError)
    ensures
        r matches ProviderError::Unavailable(m) && m@ == "Ollama "@ + operation@ + " failed"@,
{
    ProviderError::Unavailable(concat3("Ollama ", operation, " failed"))
}

/// A residency request: keep the model loaded indefinitely, or release it
/// now.
#[derive(Debug, Clone, PartialEq, Eq)]
pub struct OllamaResidencyRequest {
    pub model: String,
    pub prompt: String,
    pub keep_alive: i8,
    pub stream: bool,
}

impl OllamaProvider {
    /// The state of `model_id` in a fresh snapshot, as observed at
    /// `observed_at`.
    pub fn model_state_in(
        &self,
        snapshot: &LocalRuntimeSnapshot,
        model_id: &ModelId,
        observed_at: Timestamp,
    ) -> (r: RuntimeModelState)
        ensures
            r.runtime_id == self.provider_id(),
            r.model_id == *model_id,
            (r.state, r.detail@) == observed_state(*snapshot, model_id@),
            r.observed,
            r.observed_at == observed_at,
    {
        let mut installed = false;
        let mut i: usize = 0;
        while i < snapshot.installed_models.len()
            invariant
                i <= snapshot.installed_models.len(),
                installed == exists|j: int|
                    0 <= j < i && (#[trigger] snapshot.installed_models@[j]).reference.model_id@
                        == model_id@,
            decreases snapshot.installed_models.len() - i,
        {
            if str_eq(snapshot.installed_models[i].reference.model_id.as_str(), model_id.as_str()) {
                installed = true;
            }
            i += 1;
        }
        let mut loaded = false;
        let mut k: usize = 0;
        while k < snapshot.loaded_models.len()
            invariant
                k <= snapshot.loaded_models.len(),
                loaded == exists|j: int|
                    0 <= j < k && (#[trigger] snapshot.loaded_models@[j]).reference.model_id@
                        == model_id@,
            decreases snapshot.loaded_models.len() - k,
        {
            if str_eq(snapshot.loaded_models[k].reference.model_id.as_str(), model_id.as_str()) {
                loaded = true;
            }
            k += 1;
        }
        let (state, detail) = if snapshot.health != HealthState::Ready {
            (RuntimeModelStateKind::Unavailable, "Ollama runtime is unavailable")
        } else if loaded {
            (RuntimeModelStateKind::Loaded, "Ollama /api/ps reports the model as loaded")
        } else if installed {
            (RuntimeModelStateKind::Unloaded, "Model is installed but absent from Ollama /api/ps")
        } else {
            (RuntimeModelStateKind::Unavailable, "Model is not installed in Ollama")
        };
        RuntimeModelState {
            runtime_id: self.id.clone(),
            model_id: model_id.clone(),
            state,
            observed: true,
            detail: owned(detail),
            observed_at,
        }
    }

    /// The request that keeps `model_id` loaded (`load`) or releases it.
    pub fn residency_request(&self, model_id: &ModelId, load: bool) -> (r: OllamaResidencyRequest)
        ensures
            r.model@ == model_id@,
            r.prompt@ == Seq::<char>::empty(),
            r.keep_alive == (if load {
                -1i8
            } else {
                0i8
            }),
            !r.stream,
    {
        proof {
            reveal_strlit("");
        }
        OllamaResidencyRequest {
            model: owned(model_id.as_str()),
            prompt: owned(""),
            keep_alive: if load {
                -1
            } else {
                0
            },
            stream: false,
        }
    }
}


/// One message of a chat request.
#[derive(Debug, Clone, PartialEq, Eq)]
pub struct OllamaChatMessage {
    pub role: &'static str,
    pub content: String,
}

/// The sampling options of a chat request; the temperature is an `f32`
/// bit pattern.
#[derive(Debug, Clone, PartialEq, Eq)]
pub struct OllamaChatOptions {
    pub temperature: Option<u32>,
    pub num_predict: Option<u32>,
    pub stop: Vec<String>,
}

/// A non-streaming chat request without reasoning output; the format is
/// the JSON schema text of a structured answer.
#[derive(Debug, Clone, PartialEq, Eq)]
pub struct OllamaChatRequest {
    pub model: String,
    pub messages: Vec<OllamaChatMessage>,
    pub stream: bool,
    pub think: bool,
    pub format: Option<String>,
    pub options: OllamaChatOptions,
}

/// What the application read of a chat reply.
#[derive(Debug, Clone, PartialEq, Eq)]
pub struct OllamaChatReply {
    pub content: String,
    pub done_reason: Option<String>,
    pub prompt_eval_count: Option<u64>,
    pub eval_count: Option<u64>,
}

/// The wire role of a message that the adapter sends.
pub open spec fn chat_role(r: MessageRole) -> Seq<char> {
    match r {
        MessageRole::System => "system"@,
        MessageRole::User => "user"@,
        MessageRole::Assistant => "assistant"@,
        MessageRole::Tool => "tool"@,
    }
}

/// Some message is a tool message, which the adapter cannot send.
pub open spec fn has_tool_message(m: Seq<Message>) -> bool {
    exists|i: int| 0 <= i < m.len() && (#[trigger] m[i]).role == MessageRole::Tool
}

/// The system message that carries the context ahead of the conversation.
pub open spec fn context_preamble(context_json: Seq<char>) -> Seq<char> {
    "Vertex Context Protocol JSON:\n"@ + context_json
}

/// What a chat request for `request` holds.
pub open spec fn chat_request_matches(w: OllamaChatRequest, request: GenerationRequest, context_json: Seq<char>) -> bool {
    let m = request.messages@;
    &&& w.model@ == request.model.model_id@
    &&& w.messages@.len() == m.len() + 1
    &&& w.messages@[0].role@ == "system"@
    &&& w.messages@[0].content@ == context_preamble(context_json)
    &&& forall|i: int|
        0 <= i < m.len() ==> (#[trigger] w.messages@[i + 1]).role@ == chat_role(m[i].role)
            && w.messages@[i + 1].content == m[i].content
    &&& !w.stream
    &&& !w.think
    &&& w.format == request.parameters.structured_output_schema
    &&& w.options.temperature == request.parameters.temperature
    &&& w.options.num_predict == request.parameters.max_output_tokens
    &&& w.options.stop@ == request.parameters.stop@
}

impl OllamaProvider {
    /// The chat request for a generation, with the context's JSON text as
    /// the leading system message. A request `validate_request` refuses is
    /// refused the same way; a tool message is unsupported.
    pub fn chat_request(&self, request: &GenerationRequest, context_json: &str) -> (r: Result<
        OllamaChatRequest,
        ProviderError,
    >)
        ensures
            ({
                let own = request.model.provider_id@ == self.provider_id()@;
                let local = request.context.privacy_policy.local_only
                    && !request.context.privacy_policy.cloud_allowed;
                let tool = has_tool_message(request.messages@);
                &&& r is Ok <==> own && local && !tool
                &&& r matches Ok(w) ==> chat_request_matches(w, *request, context_json@)
                &&& !own ==> (r matches Err(e) && e matches ProviderError::InvalidRequest(t) && t@
                    == "request model belongs to a different provider"@)
                &&& own && !local ==> (r matches Err(e) && e matches ProviderError::InvalidRequest(t)
                    && t@ == "Ollama requests require a local-only context"@)
                &&& own && local && tool ==> (r matches Err(e) && e matches ProviderError::Unsupported(
                    t,
                ) && t@ == "tool messages are not implemented by the Ollama adapter yet"@)
            }),
    {
        self.validate_request(request)?;
        let mut messages: Vec<OllamaChatMessage> = Vec::new();
        messages.push(
            OllamaChatMessage {
                role: "system",
                content: concat2("Vertex Context Protocol JSON:\n", context_json),
            },
        );
        let mut i: usize = 0;
        while i < request.messages.len()
            invariant
                i <= request.messages.len(),
                request.model.provider_id@ == self.provider_id()@,
                request.context.privacy_policy.local_only,
                !request.context.privacy_policy.cloud_allowed,
                messages@.len() == i + 1,
                messages@[0].role@ == "system"@,
                messages@[0].content@ == context_preamble(context_json@),
                forall|j: int| 0 <= j < i ==> (#[trigger] request.messages@[j]).role != MessageRole::Tool,
                forall|j: int|
                    0 <= j < i ==> (#[trigger] messages@[j + 1]).role@ == chat_role(
                        request.messages@[j].role,
                    ) && messages@[j + 1].content == request.messages@[j].content,
            decreases request.messages.len() - i,
        {
            let message = &request.messages[i];
            let role = match message.role {
                MessageRole::System => "system",
                MessageRole::User => "user",
                MessageRole::Assistant => "assistant",
                MessageRole::Tool => {
                    assert(request.messages@[i as int].role == MessageRole::Tool);
                    return Err(
                        ProviderError::Unsupported(
                            owned("tool messages are not implemented by the Ollama adapter yet"),
                        ),
                    );
                },
            };
            messages.push(OllamaChatMessage { role, content: message.content.clone() });
            i += 1;
        }
        Ok(
            OllamaChatRequest {
                model: owned(request.model.model_id.as_str()),
                messages,
                stream: false,
                think: false,
                format: copy_opt_string(&request.parameters.structured_output_schema),
                options: OllamaChatOptions {
                    temperature: request.parameters.temperature,
                    num_predict: request.parameters.max_output_tokens,
                    stop: clone_strings(&request.parameters.stop),
                },
            },
        )
    }

    /// The response a chat reply gives: its text and token counts (absent
    /// counts are zero), or a failure where the text is blank.
    pub fn chat_response(
        &self,
        model: ModelRef,
        reply: OllamaChatReply,
        response_id: u128,
        created_at: Timestamp,
    ) -> (r: Result<GenerationResponse, ProviderError>)
        ensures
            r is Ok <==> !is_blank_seq(reply.content@),
            r matches Ok(g) ==> {
                &&& g.response_id == response_id
                &&& g.model == model
                &&& g.text == reply.content
                &&& g.usage == (TokenUsage {
                    input_tokens: match reply.prompt_eval_count {
                        Some(n) => n,
                        None => 0,
                    },
                    output_tokens: match reply.eval_count {
                        Some(n) => n,
                        None => 0,
                    },
                })
                &&& g.finish_reason == reply.done_reason
                &&& g.created_at == created_at
            },
            r matches Err(e) ==> e matches ProviderError::Failed(t) && t@
                == "Ollama response contained no text output"@,
    {
        if is_blank(reply.content.as_str()) {
            return Err(ProviderError::Failed(owned("Ollama response contained no text output")));
        }
        Ok(
            GenerationResponse {
                response_id,
                model,
                text: reply.content,
                usage: TokenUsage {
                    input_tokens: match reply.prompt_eval_count {
                        Some(n) => n,
                        None => 0,
                    },
                    output_tokens: match reply.eval_count {
                        Some(n) => n,
                        None => 0,
                    },
                },
                finish_reason: reply.done_reason,
                created_at,
            },
        )
    }
}

/// One progress line of a model pull, as Ollama streams it.
#[derive(Debug, Clone, PartialEq, Eq)]
pub struct OllamaPullUpdate {
    pub status: String,
    pub completed: Option<u64>,
    pub total: Option<u64>,
    pub error: Option<String>,
}

/// What one progress line does to a pull: report progress, finishing the
/// pull on `success`, or end it with Ollama's error. `None` is a line that
/// did not parse.
pub fn pull_step(update: Option<OllamaPullUpdate>) -> (r: Result<(ModelDownloadProgress, bool), RuntimeError>)
    ensures
        match update {
            None => r matches Err(e) && e matches RuntimeError::Failed(t) && t@
                == "invalid Ollama pull progress"@,
            Some(u) => match u.error {
                Some(m) => r == Err::<(ModelDownloadProgress, bool), RuntimeError>(
                    RuntimeError::Failed(m),
                ),
                None => r matches Ok((p, done)) && p.status == u.status && p.completed_bytes == (
                match u.completed {
                    Some(n) => n,
                    None => 0,
                }) && p.total_bytes == u.total && done == (u.status@ == "success"@),
            },
        },
{
    match update {
        None => Err(RuntimeError::Failed(owned("invalid Ollama pull progress"))),
        Some(u) => match u.error {
            Some(m) => Err(RuntimeError::Failed(m)),
            None => {
                let done = str_eq(u.status.as_str(), "success");
                let completed = match u.completed {
                    Some(n) => n,
                    None => 0,
                };
                Ok((ModelDownloadProgress { status: u.status, completed_bytes: completed, total_bytes: u.total }, done))
            },
        },
    }
}

/// The error of a pull whose stream ended without `success`.
pub fn pull_ended_early() -> (r: RuntimeError)
    ensures
        r matches RuntimeError::Failed(t) && t@ == "Ollama pull stream ended before success"@,
{
    RuntimeError::Failed(owned("Ollama pull stream ended before success"))
}

/// Takes the first complete line out of a stream buffer: the text before
/// the first newline, trimmed, leaving what follows the newline. `None`
/// while no newline has arrived.
pub fn take_line(buffer: &mut String) -> (r: Option<String>)
    ensures
        ({
            let b = old(buffer)@;
            let nl = first_index_of(b, '\n');
            &&& nl < 0 ==> r is None && final(buffer)@ == b
            &&& nl >= 0 ==> (r matches Some(line) && line@ == trim_seq(b.subrange(0, nl))
                && final(buffer)@ == b.subrange(nl + 1, b.len() as int))
        }),
{
    let v = chars_of(buffer.as_str());
    match find_char(&v, '\n') {
        None => None,
        Some(nl) => {
            let head = string_from_chars(&v, 0, nl);
            let rest = string_from_chars(&v, nl + 1, v.len());
            *buffer = rest;
            Some(trim(head.as_str()))
        },
    }
}


/// The name of the Ollama executable on this platform.
pub fn executable_name() -> (r: &'static str)
    ensures
        r@ == "ollama.exe"@ || r@ == "ollama"@,
{
    if host_is_windows() {
        "ollama.exe"
    } else {
        "ollama"
    }
}

/// Where Ollama keeps its models: `OLLAMA_MODELS` when it is set, else
/// `.ollama/models` under the home directory, else unknown.
pub fn model_storage_path(ollama_models: Option<String>, home: Option<String>) -> (r: Option<String>)
    ensures
        ollama_models is Some ==> r == ollama_models,
        ollama_models is None ==> match home {
            Some(h) => r matches Some(p) && p@ == path_joined(path_joined(h@, ".ollama"@), "models"@),
            None => r is None,
        },
{
    match ollama_models {
        Some(p) => Some(p),
        None => match home {
            Some(h) => {
                let base = join_path(h.as_str(), ".ollama");
                Some(join_path(base.as_str(), "models"))
            },
            None => None,
        },
    }
}

} // verus!
