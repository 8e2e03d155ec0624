//! The desktop shell's own rules: how failures cross to the user interface,
//! what a local generation request may hold, and how memory requests from
//! the user are shaped before they reach the core.

use crate::developer::{DeveloperError, Timestamp};
use crate::memory::{CreateMemory, MemoryCategory, MemoryPrivacy, MemoryProposal, MemoryQuery, MemoryScope, MemoryWritePermit};
use crate::text::{is_blank_seq, owned, str_eq, trim_seq};
use crate::types::{AuditEvent, AuditEventId, AuditOutcome, ErrorEnvelope, ErrorId, ProviderId, Severity};
use vstd::prelude::*;

verus! {

/// The longest prompt or memory the desktop accepts, in characters.
pub const MAX_PROMPT_CHARS: usize = 100_000;

/// The largest output budget a local generation may ask for.
pub const MAX_OUTPUT_TOKENS: u32 = 32_768;

/// The message shown to people when an operation fails.
pub open spec fn human_message(operation: Seq<char>) -> Seq<char> {
    if operation == "generate_local"@ {
        "ローカルAIの実行に失敗しました。"@
    } else if operation == "get_local_provider_status"@ {
        "ローカルAIの状態を取得できませんでした。"@
    } else if operation == "get_ai_environment"@ {
        "AI環境の状態を取得できませんでした。"@
    } else if operation == "unload_local_model"@ {
        "モデルをメモリから解放できませんでした。"@
    } else if operation == "start_model_download"@ {
        "モデルのダウンロードを開始できませんでした。"@
    } else if operation == "list_model_downloads"@ {
        "ダウンロード状況を取得できませんでした。"@
    } else if operation == "cancel_model_download"@ {
        "モデルのダウンロードを中止できませんでした。"@
    } else if operation == "get_audit_events"@ {
        "監査ログを取得できませんでした。"@
    } else if operation == "get_memory_core_status"@ {
        "Vertex Memory Coreの状態を取得できませんでした。"@
    } else if operation == "start_memory_core"@ {
        "Vertex Memory Coreを起動できませんでした。"@
    } else if operation == "stop_memory_core"@ {
        "Vertex Memory Coreを停止できませんでした。"@
    } else if operation == "restart_memory_core"@ {
        "Vertex Memory Coreを再起動できませんでした。"@
    } else if operation == "diagnose_memory_core"@ {
        "Vertex Memory Coreを診断できませんでした。"@
    } else if operation == "search_system_memories"@ {
        "AI Memoryを検索できませんでした。"@
    } else if operation == "store_system_memory"@ {
        "AI Memoryを保存できませんでした。"@
    } else if operation == "register_developer_workspace"@ {
        "Workspaceを登録できませんでした。"@
    } else if operation == "list_developer_workspaces"@ {
        "Workspace一覧を取得できませんでした。"@
    } else if operation == "start_developer_task"@ {
        "Developer Agentを開始できませんでした。"@
    } else if operation == "get_developer_task"@ || operation == "list_developer_tasks"@ {
        "Developer Agentの実行状況を取得できませんでした。"@
    } else if operation == "cancel_developer_task"@ {
        "Developer Agentをキャンセルできませんでした。"@
    } else if operation == "rollback_developer_task"@ {
        "Developer Agentの変更を戻せませんでした。"@
    } else {
        "環境情報を取得できませんでした。"@
    }
}

fn human_text(operation: &str) -> (r: &'static str)
    ensures
        r@ == human_message(operation@),
{
    if str_eq(operation, "generate_local") {
        "ローカルAIの実行に失敗しました。"
    } else if str_eq(operation, "get_local_provider_status") {
        "ローカルAIの状態を取得できませんでした。"
    } else if str_eq(operation, "get_ai_environment") {
        "AI環境の状態を取得できませんでした。"
    } else if str_eq(operation, "unload_local_model") {
        "モデルをメモリから解放できませんでした。"
    } else if str_eq(operation, "start_model_download") {
        "モデルのダウンロードを開始できませんでした。"
    } else if str_eq(operation, "list_model_downloads") {
        "ダウンロード状況を取得できませんでした。"
    } else if str_eq(operation, "cancel_model_download") {
        "モデルのダウンロードを中止できませんでした。"
    } else if str_eq(operation, "get_audit_events") {
        "監査ログを取得できませんでした。"
    } else if str_eq(operation, "get_memory_core_status") {
        "Vertex Memory Coreの状態を取得できませんでした。"
    } else if str_eq(operation, "start_memory_core") {
        "Vertex Memory Coreを起動できませんでした。"
    } else if str_eq(operation, "stop_memory_core") {
        "Vertex Memory Coreを停止できませんでした。"
    } else if str_eq(operation, "restart_memory_core") {
        "Vertex Memory Coreを再起動できませんでした。"
    } else if str_eq(operation, "diagnose_memory_core") {
        "Vertex Memory Coreを診断できませんでした。"
    } else if str_eq(operation, "search_system_memories") {
        "AI Memoryを検索できませんでした。"
    } else if str_eq(operation, "store_system_memory") {
        "AI Memoryを保存できませんでした。"
    } else if str_eq(operation, "register_developer_workspace") {
        "Workspaceを登録できませんでした。"
    } else if str_eq(operation, "list_developer_workspaces") {
        "Workspace一覧を取得できませんでした。"
    } else if str_eq(operation, "start_developer_task") {
        "Developer Agentを開始できませんでした。"
    } else if str_eq(operation, "get_developer_task") || str_eq(operation, "list_developer_tasks") {
        "Developer Agentの実行状況を取得できませんでした。"
    } else if str_eq(operation, "cancel_developer_task") {
        "Developer Agentをキャンセルできませんでした。"
    } else if str_eq(operation, "rollback_developer_task") {
        "Developer Agentの変更を戻せませんでした。"
    } else {
        "環境情報を取得できませんでした。"
    }
}

/// `e` carries a failure of `operation` with machine code `code` and the
/// technical message, as error `id` at `now`.
pub open spec fn envelope_of(
    e: ErrorEnvelope,
    operation: Seq<char>,
    code: Seq<char>,
    technical: Seq<char>,
    retryable: bool,
    id: u128,
    now: Timestamp,
) -> bool {
    &&& e.error_id@ == "error:"@ + crate::platform::uuid_hyphenated(id)
    &&& e.timestamp == now
    &&& e.component@ == "vertex-ai-desktop"@
    &&& e.operation@ == operation
    &&& e.severity == Severity::Error
    &&& e.machine_readable_code@ == code
    &&& e.human_fallback_message@ == human_message(operation)
    &&& e.technical_message@ == technical
    &&& e.causes@.len() == 0 && e.evidence_refs@.len() == 0 && e.suggested_check_ids@.len() == 0
    &&& e.recoverable
    &&& e.retryable == retryable
}

/// The envelope a failure crosses to the user interface in, as error `id`
/// at `now`.
pub fn error_envelope_at(
    operation: &str,
    code: &str,
    technical_message: String,
    retryable: bool,
    id: u128,
    now: Timestamp,
) -> (e: ErrorEnvelope)
    ensures
        envelope_of(e, operation@, code@, technical_message@, retryable, id, now),
{
    let id_text = crate::text::concat2("error:", crate::platform::uuid_text(id).as_str());
    proof {
        reveal_strlit("error:");
        assert(id_text@[0] == 'e');
    }
    proof {
        assert(!crate::text::is_ws(id_text@[0]));
    }
    let error_id = ErrorId::new(id_text.as_str()).unwrap();
    ErrorEnvelope {
        error_id,
        timestamp: now,
        component: owned("vertex-ai-desktop"),
        operation: owned(operation),
        severity: Severity::Error,
        machine_readable_code: owned(code),
        human_fallback_message: owned(human_text(operation)),
        technical_message,
        causes: Vec::new(),
        evidence_refs: Vec::new(),
        suggested_check_ids: Vec::new(),
        recoverable: true,
        retryable,
    }
}

/// The envelope of a failure, with a fresh identifier at the current time.
/// Reporting a failure must not fail in turn: when the random source cannot
/// be read the identifier is the nil UUID, and when the clock cannot be read
/// the timestamp is the epoch.
pub fn error_envelope(operation: &str, code: &str, technical_message: String, retryable: bool) -> (e:
    ErrorEnvelope)
    ensures
        e.operation@ == operation@,
        e.machine_readable_code@ == code@,
        e.technical_message@ == technical_message@,
        e.human_fallback_message@ == human_message(operation@),
        e.retryable == retryable,
        e.recoverable,
{
    let id = match crate::platform::fresh_id() {
        Some(v) => v,
        None => 0,
    };
    let now = match crate::platform::now_millis() {
        Some(t) => t,
        None => 0,
    };
    error_envelope_at(operation, code, technical_message, retryable, id, now)
}

/// Developer failures of the terminal, the model or the store may pass when
/// tried again.
pub open spec fn developer_retryable(e: DeveloperError) -> bool {
    e is Terminal || e is Model || e is Store
}

/// The envelope of a developer-agent failure.
pub fn developer_error(operation: &str, error: DeveloperError) -> (e: ErrorEnvelope)
    ensures
        e.operation@ == operation@,
        e.machine_readable_code@ == "developer_agent_failed"@,
        e.technical_message@ == crate::developer::error_text(error),
        e.retryable == developer_retryable(error),
{
    let retryable = match &error {
        DeveloperError::Terminal(_) | DeveloperError::Model(_) | DeveloperError::Store(_) => true,
        _ => false,
    };
    error_envelope(operation, "developer_agent_failed", error.to_text(), retryable)
}

/// The local model runtime's provider identifier.
pub fn ollama_provider_id() -> (p: ProviderId)
    ensures
        p@ == "ollama"@,
{
    proof {
        reveal_strlit("ollama");
        assert(!crate::text::is_ws("ollama"@[0]));
    }
    ProviderId::new("ollama").unwrap()
}

/// A local generation request. The temperature is an `f32` bit pattern.
#[derive(Debug, Clone, PartialEq, Eq)]
pub struct LocalGenerationInput {
    pub model_id: String,
    pub prompt: String,
    pub temperature: Option<u32>,
    pub max_output_tokens: Option<u32>,
}

/// A finite `f32` between 0 and 2 inclusive (negative zero included), by its
/// bit pattern: non-negative values order as their bits do, and NaN and
/// infinity lie above the bits of 2.0.
pub open spec fn temperature_ok(bits: u32) -> bool {
    bits <= 0x4000_0000 || bits == 0x8000_0000
}

/// Why a local generation request is refused, if it is: its machine code
/// and message, checked in this order.
pub open spec fn generation_refusal(input: LocalGenerationInput) -> Option<(Seq<char>, Seq<char>)> {
    let prompt = trim_seq(input.prompt@);
    if prompt.len() == 0 || prompt.len() > MAX_PROMPT_CHARS {
        Some(("invalid_prompt"@, "prompt must contain 1 to 100000 characters"@))
    } else if input.temperature matches Some(t) && !temperature_ok(t) {
        Some(("invalid_temperature"@, "temperature must be between 0 and 2"@))
    } else if input.max_output_tokens matches Some(n) && !(1 <= n <= MAX_OUTPUT_TOKENS) {
        Some(("invalid_output_budget"@, "max output tokens must be between 1 and 32768"@))
    } else {
        None
    }
}

/// Checks a local generation request: the prompt and model trimmed, the
/// prompt not blank nor too long, the temperature and output budget in range.
pub fn validate_generation_input(input: LocalGenerationInput) -> (r: Result<LocalGenerationInput, ErrorEnvelope>)
    ensures
        match generation_refusal(input) {
            Some((code, message)) => r matches Err(e) && e.operation@ == "generate_local"@
                && e.machine_readable_code@ == code && e.technical_message@ == message && !e.retryable,
            None => r matches Ok(v) && v.prompt@ == trim_seq(input.prompt@) && v.model_id@ == trim_seq(
                input.model_id@,
            ) && v.temperature == input.temperature && v.max_output_tokens == input.max_output_tokens,
        },
{
    let prompt = crate::text::trim(input.prompt.as_str());
    let model_id = crate::text::trim(input.model_id.as_str());
    let n = prompt.as_str().unicode_len();
    if n == 0 || n > MAX_PROMPT_CHARS {
        return Err(
            error_envelope(
                "generate_local",
                "invalid_prompt",
                owned("prompt must contain 1 to 100000 characters"),
                false,
            ),
        );
    }
    match input.temperature {
        Some(t) => {
            if !(t <= 0x4000_0000 || t == 0x8000_0000) {
                return Err(
                    error_envelope(
                        "generate_local",
                        "invalid_temperature",
                        owned("temperature must be between 0 and 2"),
                        false,
                    ),
                );
            }
        },
        None => {},
    }
    match input.max_output_tokens {
        Some(tokens) => {
            if !(1 <= tokens && tokens <= MAX_OUTPUT_TOKENS) {
                return Err(
                    error_envelope(
                        "generate_local",
                        "invalid_output_budget",
                        owned("max output tokens must be between 1 and 32768"),
                        false,
                    ),
                );
            }
        },
        None => {},
    }
    Ok(
        LocalGenerationInput {
            model_id,
            prompt,
            temperature: input.temperature,
            max_output_tokens: input.max_output_tokens,
        },
    )
}

/// The memory category a request names ("knowledge" when it names none).
pub fn parse_memory_category(value: Option<&str>) -> (r: Result<MemoryCategory, ErrorEnvelope>)
    ensures
        ({
            let name = match value {
                Some(v) => v@,
                None => "knowledge"@,
            };
            &&& (exists|c: MemoryCategory| crate::memory::category_text(c) == name) ==> (r matches Ok(c)
                && crate::memory::category_text(c) == name)
            &&& (forall|c: MemoryCategory| crate::memory::category_text(c) != name) ==> (r matches Err(e)
                && e.operation@ == "store_system_memory"@ && e.machine_readable_code@
                == "invalid_memory_category"@ && e.technical_message@ == "unsupported memory category"@
                && !e.retryable)
        }),
{
    let name = match value {
        Some(v) => v,
        None => "knowledge",
    };
    match MemoryCategory::parse(name) {
        Ok(c) => Ok(c),
        Err(_) => Err(
            error_envelope(
                "store_system_memory",
                "invalid_memory_category",
                owned("unsupported memory category"),
                false,
            ),
        ),
    }
}

/// The query a memory search from the desktop makes: system scope, the text
/// trimmed (none when blank), unexpired memories, and the limit (50 when
/// none is given) brought into 1 to 100.
pub fn system_memory_query(query: Option<String>, limit: Option<u32>) -> (q: MemoryQuery)
    ensures
        q.scope == crate::memory::system_scope_value(),
        match query {
            Some(t) => if is_blank_seq(t@) {
                q.text is None
            } else {
                q.text matches Some(x) && x@ == trim_seq(t@)
            },
            None => q.text is None,
        },
        q.category is None,
        !q.include_expired,
        q.limit == match limit {
            Some(l) => if l < 1 {
                1u32
            } else if l > 100 {
                100u32
            } else {
                l
            },
            None => 50u32,
        },
{
    let text = match query {
        Some(t) => {
            let v = crate::text::trim(t.as_str());
            proof {
                crate::text::lemma_trim_empty_iff_blank(t@);
            }
            if v.as_str().unicode_len() == 0 {
                None
            } else {
                Some(v)
            }
        },
        None => None,
    };
    let l: u32 = match limit {
        Some(l) => l,
        None => 50,
    };
    let clamped = if l < 1 {
        1
    } else if l > 100 {
        100
    } else {
        l
    };
    MemoryQuery { scope: MemoryScope::system(), text, category: None, include_expired: false, limit: clamped }
}

/// Some category has this name.
pub open spec fn category_named(n: Seq<char>) -> bool {
    exists|c: MemoryCategory| crate::memory::category_text(c) == n
}

/// The category a desktop memory asks for: "knowledge" unless named.
pub open spec fn requested_category(input: StoreSystemMemoryInput) -> Seq<char> {
    match input.category {
        Some(n) => n@,
        None => "knowledge"@,
    }
}

/// A memory the user stores from the desktop. Priority and confidence are
/// `f32` bit patterns.
#[derive(Debug, Clone, PartialEq, Eq)]
pub struct StoreSystemMemoryInput {
    pub content: String,
    pub category: Option<String>,
    pub priority: Option<u32>,
    pub confidence: Option<u32>,
}

/// The proposal and permit a desktop memory becomes: trimmed content (not
/// blank nor longer than the prompt limit), the named category, system
/// scope, priority 0.5 and confidence 1.0 unless given, local only, and
/// managed by the memory core.
pub fn system_memory_proposal(input: StoreSystemMemoryInput) -> (r: Result<(MemoryProposal, MemoryWritePermit), ErrorEnvelope>)
    ensures
        ({
            let content = trim_seq(input.content@);
            if content.len() == 0 || content.len() > MAX_PROMPT_CHARS {
                r matches Err(e) && e.machine_readable_code@ == "invalid_memory_content"@
                    && e.technical_message@ == "memory content must not be blank or oversized"@
                    && !e.retryable
            } else if !category_named(requested_category(input)) {
                r matches Err(e) && e.machine_readable_code@ == "invalid_memory_category"@
            } else {
                r matches Ok((p, w)) && {
                    &&& p.candidate.content@ == content
                    &&& crate::memory::category_text(p.candidate.category) == requested_category(input)
                    &&& p.candidate.scope == crate::memory::system_scope_value()
                    &&& p.candidate.owner_id is None
                    &&& p.candidate.structured_content@ == "{}"@
                    &&& p.candidate.priority == match input.priority {
                        Some(b) => b,
                        None => 0x3F00_0000u32,
                    }
                    &&& p.candidate.confidence == match input.confidence {
                        Some(b) => b,
                        None => 0x3F80_0000u32,
                    }
                    &&& p.candidate.source@ == "desktop-user"@
                    &&& p.candidate.expires_at is None
                    &&& p.candidate.privacy.local_only && !p.candidate.privacy.cloud_allowed
                    &&& !p.candidate.privacy.sensitive && p.candidate.privacy.share_scope is None
                    &&& p.candidate.metadata@ == "{\"managed_by\":\"vertex-memory-core\"}"@
                    &&& w.actor_id is None && w.scope == crate::memory::system_scope_value() && !w.allow_sensitive
                }
            }
        }),
{
    let content = crate::text::trim(input.content.as_str());
    let n = content.as_str().unicode_len();
    if n == 0 || n > MAX_PROMPT_CHARS {
        return Err(
            error_envelope(
                "store_system_memory",
                "invalid_memory_content",
                owned("memory content must not be blank or oversized"),
                false,
            ),
        );
    }
    let category = match &input.category {
        Some(c) => parse_memory_category(Some(c.as_str())),
        None => parse_memory_category(None),
    };
    let category = match category {
        Ok(c) => c,
        Err(e) => {
            return Err(e);
        },
    };
    let scope = MemoryScope::system();
    let candidate = CreateMemory {
        category,
        scope,
        owner_id: None,
        content,
        structured_content: owned("{}"),
        priority: match input.priority {
            Some(b) => b,
            None => 0x3F00_0000,
        },
        confidence: match input.confidence {
            Some(b) => b,
            None => 0x3F80_0000,
        },
        source: owned("desktop-user"),
        expires_at: None,
        privacy: MemoryPrivacy { local_only: true, cloud_allowed: false, sensitive: false, share_scope: None },
        metadata: owned("{\"managed_by\":\"vertex-memory-core\"}"),
    };
    Ok((MemoryProposal { candidate }, MemoryWritePermit { actor_id: None, scope, allow_sensitive: false }))
}

/// The audit record of a desktop operation at `now` as event `id`: it
/// succeeded or failed, and a failure adds its machine code to the details.
pub fn audit_event_at(
    operation: &str,
    target_ids: Vec<String>,
    error_code: Option<String>,
    details: Vec<(String, String)>,
    id: u128,
    now: Timestamp,
) -> (e: AuditEvent)
    ensures
        e.id@ == "audit:"@ + crate::platform::uuid_hyphenated(id),
        e.occurred_at == now,
        e.actor@ == "local-user"@,
        e.operation@ == operation@,
        e.target_ids@ == target_ids@,
        e.outcome == if error_code is Some {
            AuditOutcome::Failed
        } else {
            AuditOutcome::Succeeded
        },
        !e.elevated,
        error_code is None ==> e.details@ == details@,
        error_code matches Some(c) ==> e.details@.len() == details@.len() + 1 && e.details@.take(
            details@.len() as int,
        ) == details@ && e.details@.last().0@ == "error_code"@ && e.details@.last().1@
            == crate::platform::json_string_text(c@),
{
    let id_text = crate::text::concat2("audit:", crate::platform::uuid_text(id).as_str());
    proof {
        reveal_strlit("audit:");
        assert(id_text@[0] == 'a');
        assert(!crate::text::is_ws(id_text@[0]));
    }
    let event_id = AuditEventId::new(id_text.as_str()).unwrap();
    let outcome = if error_code.is_some() {
        AuditOutcome::Failed
    } else {
        AuditOutcome::Succeeded
    };
    let mut details = details;
    match error_code {
        Some(c) => {
            details.push((owned("error_code"), crate::platform::json_string(c.as_str())));
        },
        None => {},
    }
    AuditEvent {
        id: event_id,
        occurred_at: now,
        actor: owned("local-user"),
        operation: owned(operation),
        target_ids,
        outcome,
        elevated: false,
        details,
    }
}

} // verus!
