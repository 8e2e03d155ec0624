//! Building a model context from a base context and remembered knowledge,
//! within a token budget and the privacy each memory allows.
//!
//! Token counts are estimated here from the JSON texts of the base context
//! and of each remembered item; the floating-point scores of a memory are
//! rendered by the caller.

use crate::memory::{
    scope_valid, MemoryCategory, MemoryPrivacy, MemoryRecord, MemoryScope,
};
use crate::platform::{json_string, json_string_text, uuid_text, uuid_hyphenated, datetime_json_text};
use crate::text::{is_blank, is_blank_seq, join_seq, owned, str_eq, views_of};
use crate::types::{PrivacyPolicy, VertexContext};
use vstd::prelude::*;

verus! {

#[derive(Debug, Clone, Copy, PartialEq, Eq, Structural)]
pub enum TargetLocation {
    Local,
    Cloud,
}

#[derive(Debug, Clone, PartialEq, Eq)]
pub enum ContextError {
    Invalid(String),
    MemoryUnavailable,
    BudgetExceeded,
}

pub open spec fn context_error_text(e: ContextError) -> Seq<char> {
    match e {
        ContextError::Invalid(m) => "invalid context request: "@ + m@,
        ContextError::MemoryUnavailable => "memory retrieval failed"@,
        ContextError::BudgetExceeded => "base context exceeds the available token budget"@,
    }
}

impl ContextError {
    /// The message this error displays.
    pub fn to_text(&self) -> (r: String)
        ensures
            r@ == context_error_text(*self),
    {
        match self {
            ContextError::Invalid(m) => crate::text::concat2("invalid context request: ", m.as_str()),
            ContextError::MemoryUnavailable => owned("memory retrieval failed"),
            ContextError::BudgetExceeded => owned("base context exceeds the available token budget"),
        }
    }
}

/// What to build: a base context, the memory scope and query, where the
/// model runs, and the budgets.
#[derive(Debug, Clone, PartialEq, Eq)]
pub struct ContextBuildRequest {
    pub base: VertexContext,
    pub scope: MemoryScope,
    pub query: String,
    pub target_location: TargetLocation,
    pub allow_sensitive: bool,
    pub max_context_tokens: u32,
    pub reserved_output_tokens: u32,
    pub memory_candidate_limit: u32,
}

pub open spec fn ctx_invalid(e: ContextError, d: Seq<char>) -> bool {
    e matches ContextError::Invalid(m) && m@ == d
}

/// The four whitespace characters of JSON.
pub open spec fn json_ws(c: char) -> bool {
    c == ' ' || c == '\t' || c == '\n' || c == '\r'
}

/// A part of the base context that holds something: anything but an empty
/// JSON object, whatever whitespace it is written with.
pub open spec fn json_holds_payload(t: Seq<char>) -> bool {
    t.filter(|c: char| !json_ws(c)) != "{}"@
}

/// The base context carries anything besides its version and policy.
pub open spec fn has_payload(c: VertexContext) -> bool {
    json_holds_payload(c.task@) || json_holds_payload(c.application@) || json_holds_payload(
        c.project@,
    ) || json_holds_payload(c.user_context@) || c.memories@.len() > 0 || c.decisions@.len() > 0
        || c.constraints@.len() > 0 || json_holds_payload(c.schema@) || c.tools@.len() > 0
        || json_holds_payload(c.permissions@) || json_holds_payload(c.runtime@)
}

/// Why a request is refused before any memory is read, if it is, checked in
/// this order: the scope, the query, the budgets, and a cloud target for a
/// base context that must stay local.
pub open spec fn request_refusal(r: ContextBuildRequest) -> Option<Seq<char>> {
    if basic_refusal(r) is Some {
        basic_refusal(r)
    } else if r.target_location == TargetLocation::Cloud && has_payload(r.base) && (
    r.base.privacy_policy.local_only || !r.base.privacy_policy.cloud_allowed) {
        Some("base context privacy policy forbids cloud processing"@)
    } else {
        None
    }
}

/// The scope, query and budget checks of a request.
pub open spec fn basic_refusal(r: ContextBuildRequest) -> Option<Seq<char>> {
    if !scope_valid(r.scope) {
        Some("invalid memory scope"@)
    } else if is_blank_seq(r.query@) {
        Some("query cannot be empty"@)
    } else if r.max_context_tokens == 0 || r.reserved_output_tokens >= r.max_context_tokens
        || r.memory_candidate_limit == 0 || r.memory_candidate_limit > 100 {
        Some("invalid context or candidate budget"@)
    } else {
        None
    }
}

fn json_payload(t: &String) -> (b: bool)
    ensures
        b == json_holds_payload(t@),
{
    let ghost keep = |c: char| !json_ws(c);
    let text = t.as_str();
    let n = text.unicode_len();
    let mut kept = String::new();
    let mut i: usize = 0;
    while i < n
        invariant
            i <= n == t@.len(),
            text@ == t@,
            keep == (|c: char| !json_ws(c)),
            kept@ == t@.take(i as int).filter(keep),
        decreases n - i,
    {
        let c = text.get_char(i);
        proof {
            assert(t@.take(i + 1).drop_last() =~= t@.take(i as int));
            assert(t@.take(i + 1).last() == c);
            reveal(Seq::filter);
        }
        if !(c == ' ' || c == '\t' || c == '\n' || c == '\r') {
            crate::text::push_char(&mut kept, c);
        }
        i += 1;
    }
    assert(t@.take(n as int) =~= t@);
    !str_eq(kept.as_str(), "{}")
}

pub fn base_contains_payload(c: &VertexContext) -> (b: bool)
    ensures
        b == has_payload(*c),
{
    json_payload(&c.task) || json_payload(&c.application) || json_payload(&c.project)
        || json_payload(&c.user_context) || c.memories.len() > 0 || c.decisions.len() > 0
        || c.constraints.len() > 0 || json_payload(&c.schema) || c.tools.len() > 0 || json_payload(
        &c.permissions,
    ) || json_payload(&c.runtime)
}

impl ContextBuildRequest {
    /// Checks the scope, the query and the budgets.
    pub fn validate(&self) -> (r: Result<(), ContextError>)
        ensures
            match basic_refusal(*self) {
                Some(d) => r matches Err(e) && ctx_invalid(e, d),
                None => r is Ok,
            },
    {
        match self.scope.validate() {
            Err(_) => {
                return Err(ContextError::Invalid(owned("invalid memory scope")));
            },
            Ok(()) => {},
        }
        if is_blank(self.query.as_str()) {
            return Err(ContextError::Invalid(owned("query cannot be empty")));
        }
        if self.max_context_tokens == 0 || self.reserved_output_tokens >= self.max_context_tokens
            || self.memory_candidate_limit == 0 || self.memory_candidate_limit > 100 {
            return Err(ContextError::Invalid(owned("invalid context or candidate budget")));
        }
        Ok(())
    }

    /// Everything checked before memories are read (see `request_refusal`).
    pub fn check(&self) -> (r: Result<(), ContextError>)
        ensures
            match request_refusal(*self) {
                Some(d) => r matches Err(e) && ctx_invalid(e, d),
                None => r is Ok,
            },
    {
        match self.validate() {
            Err(e) => {
                return Err(e);
            },
            Ok(()) => {},
        }
        if self.target_location == TargetLocation::Cloud && base_contains_payload(&self.base) && (
        self.base.privacy_policy.local_only || !self.base.privacy_policy.cloud_allowed) {
            return Err(
                ContextError::Invalid(owned("base context privacy policy forbids cloud processing")),
            );
        }
        Ok(())
    }
}

/// A memory may go into a context when it is not sensitive (or sensitive
/// memories are allowed) and, for a cloud model, is neither local-only nor
/// barred from the cloud.
pub open spec fn privacy_permits(p: MemoryPrivacy, target: TargetLocation, allow_sensitive: bool) -> bool {
    (!p.sensitive || allow_sensitive) && match target {
        TargetLocation::Local => true,
        TargetLocation::Cloud => !p.local_only && p.cloud_allowed,
    }
}

pub fn privacy_allows(p: &MemoryPrivacy, target: TargetLocation, allow_sensitive: bool) -> (b: bool)
    ensures
        b == privacy_permits(*p, target, allow_sensitive),
{
    if p.sensitive && !allow_sensitive {
        return false;
    }
    match target {
        TargetLocation::Local => true,
        TargetLocation::Cloud => !p.local_only && p.cloud_allowed,
    }
}

/// The conservative token estimate of a JSON rendering of `bytes` bytes: a
/// quarter of the bytes, rounded up, at most `u32::MAX`.
pub open spec fn tokens_for(bytes: nat) -> u32 {
    let t = (bytes + 3) / 4;
    if t > u32::MAX {
        u32::MAX
    } else {
        t as u32
    }
}

pub fn estimate_tokens(bytes: usize) -> (t: u32)
    ensures
        t == tokens_for(bytes as nat),
{
    let q: u128 = ((bytes as u128) + 3) / 4;
    if q > 4_294_967_295u128 {
        4_294_967_295u32
    } else {
        q as u32
    }
}

/// The policy of a prepared context: local-only for a local model, allowed in
/// the cloud for a cloud model, sensitive as the request allows.
pub open spec fn target_policy(target: TargetLocation, allow_sensitive: bool, p: PrivacyPolicy) -> bool {
    &&& p.local_only == (target == TargetLocation::Local)
    &&& p.cloud_allowed == (target == TargetLocation::Cloud)
    &&& p.sensitive == allow_sensitive
    &&& p.share_scope is None
}

/// A context that may be handed to a model at its target location.
#[derive(Debug, Clone, PartialEq, Eq)]
pub struct PreparedContext {
    context: VertexContext,
    target_location: TargetLocation,
}

impl PreparedContext {
    pub closed spec fn inner(&self) -> VertexContext {
        self.context
    }

    pub closed spec fn target(&self) -> TargetLocation {
        self.target_location
    }

    /// A context that stays on the local machine: whatever policy it had, it
    /// becomes local-only and barred from the cloud, keeping its sensitivity.
    pub fn local(context: VertexContext) -> (p: PreparedContext)
        ensures
            p.target() == TargetLocation::Local,
            p.inner() == (VertexContext { privacy_policy: p.inner().privacy_policy, ..context }),
            p.inner().privacy_policy.local_only && !p.inner().privacy_policy.cloud_allowed,
            p.inner().privacy_policy.sensitive == context.privacy_policy.sensitive,
            p.inner().privacy_policy.share_scope is None,
    {
        let mut context = context;
        let sensitive = context.privacy_policy.sensitive;
        context.privacy_policy = PrivacyPolicy {
            local_only: true,
            cloud_allowed: false,
            sensitive,
            share_scope: None,
        };
        PreparedContext { context, target_location: TargetLocation::Local }
    }

    pub fn context(&self) -> (c: &VertexContext)
        ensures
            *c == self.inner(),
    {
        &self.context
    }

    pub fn target_location(&self) -> (t: TargetLocation)
        ensures
            t == self.target(),
    {
        self.target_location
    }

    pub fn into_context(self) -> (c: VertexContext)
        ensures
            c == self.inner(),
    {
        self.context
    }
}

/// How a context was built.
#[derive(Debug, Clone, Copy, PartialEq, Eq, Structural)]
pub struct ContextBuildReport {
    pub candidate_count: usize,
    pub included_count: usize,
    pub excluded_privacy_count: usize,
    pub excluded_budget_count: usize,
    pub estimated_context_tokens: u32,
    pub available_context_tokens: u32,
}

#[derive(Debug, Clone, PartialEq, Eq)]
pub struct BuiltContext {
    pub prepared: PreparedContext,
    pub report: ContextBuildReport,
}

/// A remembered item offered for a context: the record, its JSON rendering
/// and the token estimate of that rendering.
#[derive(Debug, Clone, PartialEq, Eq)]
pub struct MemoryCandidate {
    pub record: MemoryRecord,
    pub item: String,
    pub tokens: u32,
}

/// The running choice over candidates: tokens used, the positions of the
/// memories and decisions taken, and the two exclusion counts.
pub struct Selection {
    pub used: u32,
    pub memories: Seq<int>,
    pub decisions: Seq<int>,
    pub excluded_privacy: nat,
    pub excluded_budget: nat,
}

/// Candidates are taken in order; a candidate the privacy forbids, or one
/// that would overrun the available tokens, is skipped and counted.
pub open spec fn selection(
    c: Seq<MemoryCandidate>,
    target: TargetLocation,
    allow_sensitive: bool,
    base_tokens: u32,
    available: u32,
) -> Selection
    decreases c.len(),
{
    if c.len() == 0 {
        Selection {
            used: base_tokens,
            memories: Seq::empty(),
            decisions: Seq::empty(),
            excluded_privacy: 0,
            excluded_budget: 0,
        }
    } else {
        let s = selection(c.drop_last(), target, allow_sensitive, base_tokens, available);
        let x = c.last();
        let k = c.len() - 1;
        if !privacy_permits(x.record.privacy, target, allow_sensitive) {
            Selection { excluded_privacy: s.excluded_privacy + 1, ..s }
        } else if s.used + x.tokens > available {
            Selection { excluded_budget: s.excluded_budget + 1, ..s }
        } else if x.record.category == MemoryCategory::Decision {
            Selection { used: (s.used + x.tokens) as u32, decisions: s.decisions.push(k), ..s }
        } else {
            Selection { used: (s.used + x.tokens) as u32, memories: s.memories.push(k), ..s }
        }
    }
}

/// The items at the given candidate positions.
pub open spec fn items_at(c: Seq<MemoryCandidate>, idx: Seq<int>) -> Seq<Seq<char>> {
    Seq::new(idx.len(), |i: int| c[idx[i]].item@)
}

/// The JSON text of a boolean.
pub open spec fn json_bool(b: bool) -> Seq<char> {
    if b {
        "true"@
    } else {
        "false"@
    }
}

/// The JSON array of the given JSON texts.
pub open spec fn json_list(items: Seq<Seq<char>>) -> Seq<char> {
    "["@ + join_seq(items, ","@) + "]"@
}

/// The JSON text of a privacy policy, its fields in declaration order.
pub open spec fn policy_json(p: PrivacyPolicy) -> Seq<char> {
    "{\"local_only\":"@ + json_bool(p.local_only) + ",\"cloud_allowed\":"@ + json_bool(p.cloud_allowed)
        + ",\"sensitive\":"@ + json_bool(p.sensitive) + ",\"share_scope\":"@ + match p.share_scope {
        Some(x) => json_string_text(x@),
        None => "null"@,
    } + "}"@
}

/// The JSON text of a context whose memories and decisions are the given
/// JSON texts: its fields in declaration order, the JSON-valued fields
/// written as they are held.
pub open spec fn context_json_with(
    c: VertexContext,
    memories: Seq<Seq<char>>,
    decisions: Seq<Seq<char>>,
) -> Seq<char> {
    "{\"vertex_context\":"@ + json_string_text(c.vertex_context@) + ",\"task\":"@ + c.task@
        + ",\"application\":"@ + c.application@ + ",\"project\":"@ + c.project@ + ",\"user_context\":"@
        + c.user_context@ + ",\"memories\":"@ + json_list(memories) + ",\"decisions\":"@ + json_list(
        decisions,
    ) + ",\"constraints\":"@ + json_list(views_of(c.constraints@)) + ",\"schema\":"@ + c.schema@
        + ",\"tools\":"@ + json_list(views_of(c.tools@)) + ",\"permissions\":"@ + c.permissions@
        + ",\"runtime\":"@ + c.runtime@ + ",\"privacy_policy\":"@ + policy_json(c.privacy_policy) + "}"@
}

/// The token estimate of a text: that of its UTF-8 byte count (as `str::len`
/// reports it in a `usize`).
pub open spec fn json_tokens(t: Seq<char>) -> u32 {
    tokens_for((vstd::utf8::encode_utf8(t).len() as usize) as nat)
}

/// The token estimate of the base context with its memories and decisions
/// left out, as the context is measured before any memory is added.
pub open spec fn base_tokens_of(base: VertexContext) -> u32 {
    json_tokens(context_json_with(base, Seq::empty(), Seq::empty()))
}

fn push_json_bool(s: &mut String, b: bool)
    ensures
        final(s)@ == old(s)@ + json_bool(b),
{
    if b {
        s.append("true");
    } else {
        s.append("false");
    }
}

fn push_json_list(s: &mut String, items: &Vec<String>)
    ensures
        final(s)@ == old(s)@ + json_list(views_of(items@)),
{
    s.append("[");
    let joined = crate::text::join(items, ",");
    s.append(joined.as_str());
    s.append("]");
}

/// The token estimate of the base context with its memories and decisions
/// left out.
#[verifier::spinoff_prover]
pub fn base_context_tokens(base: &VertexContext) -> (t: u32)
    ensures
        t == base_tokens_of(*base),
{
    let none: Vec<String> = Vec::new();
    proof {
        assert(views_of(none@) =~= Seq::<Seq<char>>::empty());
    }
    let mut s = owned("{\"vertex_context\":");
    s.append(json_string(base.vertex_context.as_str()).as_str());
    s.append(",\"task\":");
    s.append(base.task.as_str());
    s.append(",\"application\":");
    s.append(base.application.as_str());
    s.append(",\"project\":");
    s.append(base.project.as_str());
    s.append(",\"user_context\":");
    s.append(base.user_context.as_str());
    s.append(",\"memories\":");
    push_json_list(&mut s, &none);
    s.append(",\"decisions\":");
    push_json_list(&mut s, &none);
    s.append(",\"constraints\":");
    push_json_list(&mut s, &base.constraints);
    s.append(",\"schema\":");
    s.append(base.schema.as_str());
    s.append(",\"tools\":");
    push_json_list(&mut s, &base.tools);
    s.append(",\"permissions\":");
    s.append(base.permissions.as_str());
    s.append(",\"runtime\":");
    s.append(base.runtime.as_str());
    s.append(",\"privacy_policy\":");
    s.append("{\"local_only\":");
    push_json_bool(&mut s, base.privacy_policy.local_only);
    s.append(",\"cloud_allowed\":");
    push_json_bool(&mut s, base.privacy_policy.cloud_allowed);
    s.append(",\"sensitive\":");
    push_json_bool(&mut s, base.privacy_policy.sensitive);
    s.append(",\"share_scope\":");
    match &base.privacy_policy.share_scope {
        Some(x) => s.append(json_string(x.as_str()).as_str()),
        None => s.append("null"),
    }
    s.append("}");
    s.append("}");
    assert(s@ =~= context_json_with(*base, Seq::empty(), Seq::empty()));
    let bytes = s.as_str().len();
    estimate_tokens(bytes)
}

/// A retrieved memory with the JSON texts of its two floating-point
/// scores, which the caller renders.
#[derive(Debug, Clone, PartialEq, Eq)]
pub struct RetrievedMemory {
    pub record: MemoryRecord,
    pub priority_json: String,
    pub confidence_json: String,
}

/// The JSON object a memory enters the context as, with its update time
/// written `updated`: its keys in the order `serde_json` keeps them.
pub open spec fn memory_item_json(
    r: MemoryRecord,
    priority: Seq<char>,
    confidence: Seq<char>,
    updated: Seq<char>,
) -> Seq<char> {
    "{\"confidence\":"@ + confidence + ",\"content\":"@ + json_string_text(r.content@)
        + ",\"memory_id\":"@ + json_string_text(uuid_hyphenated(r.memory_id.0)) + ",\"metadata\":"@
        + r.metadata@ + ",\"priority\":"@ + priority + ",\"source\":"@ + json_string_text(r.source@)
        + ",\"structured_content\":"@ + r.structured_content@ + ",\"type\":"@ + json_string_text(
        crate::memory::category_text(r.category),
    ) + ",\"updated_at\":"@ + updated + "}"@
}

/// The update time of a retrieved memory can be written.
pub open spec fn time_renders(m: RetrievedMemory) -> bool {
    datetime_json_text(m.record.updated_at) is Some
}

/// `c` is the candidate a retrieved memory becomes.
pub open spec fn rendered(m: RetrievedMemory, c: MemoryCandidate) -> bool {
    &&& c.record == m.record
    &&& c.item@ == memory_item_json(
        m.record,
        m.priority_json@,
        m.confidence_json@,
        datetime_json_text(m.record.updated_at)->Some_0,
    )
    &&& c.tokens == json_tokens(c.item@)
}

/// The candidate a retrieved memory becomes: its JSON object and that
/// object's token estimate; nothing when its update time cannot be written.
pub fn memory_candidate(m: RetrievedMemory) -> (r: Option<MemoryCandidate>)
    ensures
        match r {
            Some(c) => time_renders(m) && rendered(m, c),
            None => !time_renders(m),
        },
{
    let updated = match crate::platform::datetime_json(m.record.updated_at) {
        Some(t) => t,
        None => {
            return None;
        },
    };
    let mut item = owned("{\"confidence\":");
    item.append(m.confidence_json.as_str());
    item.append(",\"content\":");
    item.append(json_string(m.record.content.as_str()).as_str());
    item.append(",\"memory_id\":");
    item.append(json_string(uuid_text(m.record.memory_id.0).as_str()).as_str());
    item.append(",\"metadata\":");
    item.append(m.record.metadata.as_str());
    item.append(",\"priority\":");
    item.append(m.priority_json.as_str());
    item.append(",\"source\":");
    item.append(json_string(m.record.source.as_str()).as_str());
    item.append(",\"structured_content\":");
    item.append(m.record.structured_content.as_str());
    item.append(",\"type\":");
    item.append(json_string(m.record.category.as_str()).as_str());
    item.append(",\"updated_at\":");
    item.append(updated.as_str());
    item.append("}");
    assert(item@ =~= memory_item_json(
        m.record,
        m.priority_json@,
        m.confidence_json@,
        datetime_json_text(m.record.updated_at)->Some_0,
    ));
    let bytes = item.as_str().len();
    let tokens = estimate_tokens(bytes);
    Some(MemoryCandidate { record: m.record, item, tokens })
}

/// The tokens available for the context: the maximum less the reserved output.
pub open spec fn available_tokens(r: ContextBuildRequest) -> u32 {
    if r.reserved_output_tokens <= r.max_context_tokens {
        (r.max_context_tokens - r.reserved_output_tokens) as u32
    } else {
        0
    }
}

/// The outcome of a build from the base context's token estimate and the
/// candidates retrieved for the query.
pub open spec fn build_post(
    r: ContextBuildRequest,
    base_tokens: u32,
    c: Seq<MemoryCandidate>,
    out: Result<BuiltContext, ContextError>,
) -> bool {
    let available = available_tokens(r);
    let s = selection(c, r.target_location, r.allow_sensitive, base_tokens, available);
    if request_refusal(r) is Some {
        out matches Err(e) && ctx_invalid(e, request_refusal(r)->Some_0)
    } else if base_tokens > available {
        out == Err::<BuiltContext, ContextError>(ContextError::BudgetExceeded)
    } else {
        out matches Ok(b) && {
            let ctx = b.prepared.inner();
            &&& b.prepared.target() == r.target_location
            &&& ctx == VertexContext {
                memories: ctx.memories,
                decisions: ctx.decisions,
                privacy_policy: ctx.privacy_policy,
                ..r.base
            }
            &&& crate::text::views_of(ctx.memories@) == items_at(c, s.memories)
            &&& crate::text::views_of(ctx.decisions@) == items_at(c, s.decisions)
            &&& target_policy(r.target_location, r.allow_sensitive, ctx.privacy_policy)
            &&& b.report.candidate_count == c.len()
            &&& b.report.included_count == s.memories.len() + s.decisions.len()
            &&& b.report.excluded_privacy_count == s.excluded_privacy
            &&& b.report.excluded_budget_count == s.excluded_budget
            &&& b.report.estimated_context_tokens == s.used
            &&& b.report.available_context_tokens == available
        }
    }
}

proof fn lemma_selection_bounds(
    c: Seq<MemoryCandidate>,
    target: TargetLocation,
    allow_sensitive: bool,
    base_tokens: u32,
    available: u32,
)
    requires
        base_tokens <= available,
    ensures
        ({
            let s = selection(c, target, allow_sensitive, base_tokens, available);
            &&& s.used <= available
            &&& s.memories.len() + s.decisions.len() + s.excluded_privacy + s.excluded_budget
                == c.len()
            &&& forall|i: int|
                0 <= i < s.memories.len() ==> 0 <= #[trigger] s.memories[i] < c.len()
                    && privacy_permits(c[s.memories[i]].record.privacy, target, allow_sensitive)
                    && c[s.memories[i]].record.category != MemoryCategory::Decision
            &&& forall|i: int|
                0 <= i < s.decisions.len() ==> 0 <= #[trigger] s.decisions[i] < c.len()
                    && privacy_permits(c[s.decisions[i]].record.privacy, target, allow_sensitive)
                    && c[s.decisions[i]].record.category == MemoryCategory::Decision
        }),
    decreases c.len(),
{
    if c.len() > 0 {
        let t = c.drop_last();
        lemma_selection_bounds(t, target, allow_sensitive, base_tokens, available);
        let s = selection(c, target, allow_sensitive, base_tokens, available);
        let s0 = selection(t, target, allow_sensitive, base_tokens, available);
        assert forall|i: int| 0 <= i < s.memories.len() implies 0 <= #[trigger] s.memories[i]
            < c.len() && privacy_permits(c[s.memories[i]].record.privacy, target, allow_sensitive)
            && c[s.memories[i]].record.category != MemoryCategory::Decision by {
            if i < s0.memories.len() {
                assert(s.memories[i] == s0.memories[i]);
                assert(c[s0.memories[i]] == t[s0.memories[i]]);
            }
        }
        assert forall|i: int| 0 <= i < s.decisions.len() implies 0 <= #[trigger] s.decisions[i]
            < c.len() && privacy_permits(c[s.decisions[i]].record.privacy, target, allow_sensitive)
            && c[s.decisions[i]].record.category == MemoryCategory::Decision by {
            if i < s0.decisions.len() {
                assert(s.decisions[i] == s0.decisions[i]);
                assert(c[s0.decisions[i]] == t[s0.decisions[i]]);
            }
        }
    }
}

/// Chooses the context from the base context's token estimate (the base
/// without memories and decisions) and the candidates retrieved for the
/// query, in retrieval order; see `build_post`.
#[verifier::loop_isolation(false)]
#[verifier::spinoff_prover]
pub fn select_context(
    request: ContextBuildRequest,
    base_tokens: u32,
    candidates: Vec<MemoryCandidate>,
) -> (out: Result<BuiltContext, ContextError>)
    ensures
        build_post(request, base_tokens, candidates@, out),
{
    match request.check() {
        Err(e) => {
            return Err(e);
        },
        Ok(()) => {},
    }
    let available: u32 = if request.reserved_output_tokens <= request.max_context_tokens {
        request.max_context_tokens - request.reserved_output_tokens
    } else {
        0
    };
    if base_tokens > available {
        return Err(ContextError::BudgetExceeded);
    }
    let ghost c = candidates@;
    let target = request.target_location;
    let allow = request.allow_sensitive;
    let mut context = request.base;
    context.memories = Vec::new();
    context.decisions = Vec::new();
    let mut used = base_tokens;
    let mut excluded_privacy: usize = 0;
    let mut excluded_budget: usize = 0;
    let mut included: usize = 0;
    let n = candidates.len();
    let mut rest = candidates;
    let mut i: usize = 0;
    while i < n
        invariant
            i <= n == c.len(),
            rest@ == c.subrange(i as int, n as int),
            ({
                let s = selection(c.take(i as int), target, allow, base_tokens, available);
                &&& used == s.used
                &&& crate::text::views_of(context.memories@) == items_at(c, s.memories)
                &&& crate::text::views_of(context.decisions@) == items_at(c, s.decisions)
                &&& excluded_privacy == s.excluded_privacy
                &&& excluded_budget == s.excluded_budget
                &&& included == s.memories.len() + s.decisions.len()
                &&& used <= available
            }),
            context == (VertexContext {
                memories: context.memories,
                decisions: context.decisions,
                ..request.base
            }),
        decreases n - i,
    {
        let ghost prev = c.take(i as int);
        proof {
            assert(c.take(i + 1).drop_last() =~= prev);
            assert(c.take(i + 1).last() == c[i as int]);
            lemma_selection_bounds(prev, target, allow, base_tokens, available);
            lemma_selection_bounds(c.take(i + 1), target, allow, base_tokens, available);
        }
        let ghost s0 = selection(prev, target, allow, base_tokens, available);
        let x = rest.remove(0);
        assert(x == c[i as int]);
        assert(rest@ =~= c.subrange(i + 1, n as int));
        if !privacy_allows(&x.record.privacy, target, allow) {
            excluded_privacy = excluded_privacy + 1;
        } else if (used as u64) + (x.tokens as u64) > (available as u64) {
            excluded_budget = excluded_budget + 1;
        } else {
            used = used + x.tokens;
            let ghost before_m = context.memories@;
            let ghost before_d = context.decisions@;
            if x.record.category == MemoryCategory::Decision {
                context.decisions.push(x.item);
                proof {
                    crate::text::lemma_views_push(before_d, context.decisions@.last());
                    assert(items_at(c, s0.decisions.push(i as int)) =~= items_at(c, s0.decisions).push(
                        c[i as int].item@,
                    ));
                }
            } else {
                context.memories.push(x.item);
                proof {
                    crate::text::lemma_views_push(before_m, context.memories@.last());
                    assert(items_at(c, s0.memories.push(i as int)) =~= items_at(c, s0.memories).push(
                        c[i as int].item@,
                    ));
                }
            }
            included = included + 1;
        }
        i += 1;
    }
    assert(c.take(n as int) =~= c);
    context.privacy_policy = match target {
        TargetLocation::Cloud => PrivacyPolicy {
            local_only: false,
            cloud_allowed: true,
            sensitive: allow,
            share_scope: None,
        },
        TargetLocation::Local => PrivacyPolicy {
            local_only: true,
            cloud_allowed: false,
            sensitive: allow,
            share_scope: None,
        },
    };
    Ok(
        BuiltContext {
            prepared: PreparedContext { context, target_location: target },
            report: ContextBuildReport {
                candidate_count: n,
                included_count: included,
                excluded_privacy_count: excluded_privacy,
                excluded_budget_count: excluded_budget,
                estimated_context_tokens: used,
                available_context_tokens: available,
            },
        },
    )
}

/// The outcome of building a context from a request and the memories
/// retrieved for its query, in retrieval order: the checks of `build_post`,
/// a memory whose update time cannot be written, and else the choice among
/// the candidates the memories become.
pub open spec fn build_from_post(
    r: ContextBuildRequest,
    m: Seq<RetrievedMemory>,
    out: Result<BuiltContext, ContextError>,
) -> bool {
    let base = base_tokens_of(r.base);
    if request_refusal(r) is Some {
        out matches Err(e) && ctx_invalid(e, request_refusal(r)->Some_0)
    } else if base > available_tokens(r) {
        out == Err::<BuiltContext, ContextError>(ContextError::BudgetExceeded)
    } else if exists|i: int| 0 <= i < m.len() && !time_renders(#[trigger] m[i]) {
        out == Err::<BuiltContext, ContextError>(ContextError::MemoryUnavailable)
    } else {
        exists|c: Seq<MemoryCandidate>|
            c.len() == m.len() && (forall|i: int| 0 <= i < m.len() ==> rendered(m[i], #[trigger] c[i]))
                && #[trigger] build_post(r, base, c, out)
    }
}

/// Builds a context from a request and the memories retrieved for its
/// query: the base context and each memory are measured here from their
/// JSON texts, then the candidates are chosen; see `build_from_post`.
pub fn build_context(request: ContextBuildRequest, retrieved: Vec<RetrievedMemory>) -> (out: Result<
    BuiltContext,
    ContextError,
>)
    ensures
        build_from_post(request, retrieved@, out),
{
    match request.check() {
        Err(e) => {
            return Err(e);
        },
        Ok(()) => {},
    }
    let available: u32 = if request.reserved_output_tokens <= request.max_context_tokens {
        request.max_context_tokens - request.reserved_output_tokens
    } else {
        0
    };
    let base = base_context_tokens(&request.base);
    if base > available {
        return Err(ContextError::BudgetExceeded);
    }
    let ghost m = retrieved@;
    let n = retrieved.len();
    let mut rest = retrieved;
    let mut candidates: Vec<MemoryCandidate> = Vec::new();
    let mut i: usize = 0;
    while i < n
        invariant
            i <= n == m.len(),
            rest@ == m.subrange(i as int, n as int),
            candidates@.len() == i,
            forall|k: int| 0 <= k < i ==> time_renders(#[trigger] m[k]),
            forall|k: int| 0 <= k < i ==> rendered(m[k], #[trigger] candidates@[k]),
            request_refusal(request) is None,
            m == retrieved@,
            base == base_tokens_of(request.base),
            base <= available_tokens(request),
        decreases n - i,
    {
        let x = rest.remove(0);
        assert(x == m[i as int]);
        assert(rest@ =~= m.subrange(i + 1, n as int));
        match memory_candidate(x) {
            Some(c) => {
                candidates.push(c);
                assert(candidates@[i as int] == c);
            },
            None => {
                assert(!time_renders(m[i as int]));
                return Err(ContextError::MemoryUnavailable);
            },
        }
        i += 1;
    }
    let ghost c = candidates@;
    assert(!(exists|k: int| 0 <= k < m.len() && !time_renders(#[trigger] m[k])));
    let out = select_context(request, base, candidates);
    assert(build_post(request, base, c, out));
    out
}

proof fn lemma_selection_keeps(
    c: Seq<MemoryCandidate>,
    target: TargetLocation,
    allow_sensitive: bool,
    base_tokens: u32,
    available: u32,
    j: int,
    k: int,
)
    requires
        0 <= k < j <= c.len(),
        ({
            let s0 = selection(c.take(j), target, allow_sensitive, base_tokens, available);
            s0.memories.contains(k) || s0.decisions.contains(k)
        }),
    ensures
        ({
            let s = selection(c, target, allow_sensitive, base_tokens, available);
            s.memories.contains(k) || s.decisions.contains(k)
        }),
    decreases c.len() - j,
{
    if j < c.len() {
        let t = c.take(j + 1);
        assert(t.drop_last() =~= c.take(j));
        let s0 = selection(c.take(j), target, allow_sensitive, base_tokens, available);
        let s1 = selection(t, target, allow_sensitive, base_tokens, available);
        if s0.memories.contains(k) {
            let i = choose|i: int| 0 <= i < s0.memories.len() && s0.memories[i] == k;
            assert(s1.memories[i] == k);
            assert(s1.memories.contains(k));
        } else {
            let i = choose|i: int| 0 <= i < s0.decisions.len() && s0.decisions[i] == k;
            assert(s1.decisions[i] == k);
            assert(s1.decisions.contains(k));
        }
        lemma_selection_keeps(c, target, allow_sensitive, base_tokens, available, j + 1, k);
    } else {
        assert(c.take(j) =~= c);
    }
}

/// A memory that may go where the model runs and fits in the tokens left
/// after the memories before it is always in the context: a memory that does
/// not fit is skipped, and the ones after it are still considered.
pub proof fn a_fitting_memory_is_always_included(
    c: Seq<MemoryCandidate>,
    target: TargetLocation,
    allow_sensitive: bool,
    base_tokens: u32,
    available: u32,
    k: int,
)
    requires
        0 <= k < c.len(),
        privacy_permits(c[k].record.privacy, target, allow_sensitive),
        selection(c.take(k), target, allow_sensitive, base_tokens, available).used + c[k].tokens
            <= available,
    ensures
        ({
            let s = selection(c, target, allow_sensitive, base_tokens, available);
            s.memories.contains(k) || s.decisions.contains(k)
        }),
{
    let t = c.take(k + 1);
    assert(t.drop_last() =~= c.take(k));
    assert(t.last() == c[k]);
    let s1 = selection(t, target, allow_sensitive, base_tokens, available);
    if c[k].record.category == MemoryCategory::Decision {
        assert(s1.decisions.last() == k);
        assert(s1.decisions.contains(k));
    } else {
        assert(s1.memories.last() == k);
        assert(s1.memories.contains(k));
    }
    lemma_selection_keeps(c, target, allow_sensitive, base_tokens, available, k + 1, k);
}

/// The tokens of the candidates at the given positions, added up.
pub open spec fn tokens_at(c: Seq<MemoryCandidate>, idx: Seq<int>) -> int
    decreases idx.len(),
{
    if idx.len() == 0 {
        0
    } else {
        tokens_at(c, idx.drop_last()) + c[idx.last()].tokens
    }
}

proof fn lemma_tokens_at_prefix(c: Seq<MemoryCandidate>, n: int, idx: Seq<int>)
    requires
        0 <= n <= c.len(),
        forall|i: int| 0 <= i < idx.len() ==> 0 <= #[trigger] idx[i] < n,
    ensures
        tokens_at(c.take(n), idx) == tokens_at(c, idx),
    decreases idx.len(),
{
    if idx.len() > 0 {
        let d = idx.drop_last();
        assert forall|i: int| 0 <= i < d.len() implies 0 <= #[trigger] d[i] < n by {
            assert(d[i] == idx[i]);
        }
        lemma_tokens_at_prefix(c, n, d);
        assert(idx.last() == idx[idx.len() - 1]);
    }
}

/// The tokens a selection uses are the base context's tokens and the tokens
/// of the candidates it includes, no more and no less; and every candidate
/// it includes is one the privacy rule lets go where the model runs.
pub proof fn context_tokens_are_the_base_and_the_included_memories(
    c: Seq<MemoryCandidate>,
    target: TargetLocation,
    allow_sensitive: bool,
    base_tokens: u32,
    available: u32,
)
    requires
        base_tokens <= available,
    ensures
        ({
            let s = selection(c, target, allow_sensitive, base_tokens, available);
            &&& s.used == base_tokens + tokens_at(c, s.memories) + tokens_at(c, s.decisions)
            &&& forall|i: int|
                0 <= i < s.memories.len() ==> privacy_permits(
                    c[#[trigger] s.memories[i]].record.privacy,
                    target,
                    allow_sensitive,
                )
            &&& forall|i: int|
                0 <= i < s.decisions.len() ==> privacy_permits(
                    c[#[trigger] s.decisions[i]].record.privacy,
                    target,
                    allow_sensitive,
                )
        }),
    decreases c.len(),
{
    lemma_selection_bounds(c, target, allow_sensitive, base_tokens, available);
    if c.len() > 0 {
        let t = c.drop_last();
        let n = t.len() as int;
        assert(t =~= c.take(n));
        context_tokens_are_the_base_and_the_included_memories(
            t,
            target,
            allow_sensitive,
            base_tokens,
            available,
        );
        lemma_selection_bounds(t, target, allow_sensitive, base_tokens, available);
        let s0 = selection(t, target, allow_sensitive, base_tokens, available);
        let s = selection(c, target, allow_sensitive, base_tokens, available);
        lemma_tokens_at_prefix(c, n, s0.memories);
        lemma_tokens_at_prefix(c, n, s0.decisions);
        let x = c.last();
        if privacy_permits(x.record.privacy, target, allow_sensitive) && s0.used + x.tokens
            <= available {
            if x.record.category == MemoryCategory::Decision {
                assert(s.decisions.drop_last() =~= s0.decisions);
                assert(s.decisions.last() == n);
            } else {
                assert(s.memories.drop_last() =~= s0.memories);
                assert(s.memories.last() == n);
            }
        }
    }
}

/// The number of candidates the privacy rule keeps from where the model runs.
pub open spec fn forbidden_count(
    c: Seq<MemoryCandidate>,
    target: TargetLocation,
    allow_sensitive: bool,
) -> nat
    decreases c.len(),
{
    if c.len() == 0 {
        0
    } else if privacy_permits(c.last().record.privacy, target, allow_sensitive) {
        forbidden_count(c.drop_last(), target, allow_sensitive)
    } else {
        forbidden_count(c.drop_last(), target, allow_sensitive) + 1
    }
}

/// A selection files decisions under decisions and every other memory under
/// memories, each list in the order the candidates came; and it counts as
/// excluded for privacy exactly the candidates the privacy rule forbids.
pub proof fn selection_keeps_kinds_apart_and_in_order(
    c: Seq<MemoryCandidate>,
    target: TargetLocation,
    allow_sensitive: bool,
    base_tokens: u32,
    available: u32,
)
    requires
        base_tokens <= available,
    ensures
        ({
            let s = selection(c, target, allow_sensitive, base_tokens, available);
            &&& forall|i: int|
                0 <= i < s.memories.len() ==> c[#[trigger] s.memories[i]].record.category
                    != MemoryCategory::Decision
            &&& forall|i: int|
                0 <= i < s.decisions.len() ==> c[#[trigger] s.decisions[i]].record.category
                    == MemoryCategory::Decision
            &&& forall|i: int, j: int|
                0 <= i < j < s.memories.len() ==> #[trigger] s.memories[i] < #[trigger] s.memories[j]
            &&& forall|i: int, j: int|
                0 <= i < j < s.decisions.len() ==> #[trigger] s.decisions[i]
                    < #[trigger] s.decisions[j]
            &&& s.excluded_privacy == forbidden_count(c, target, allow_sensitive)
        }),
    decreases c.len(),
{
    lemma_selection_bounds(c, target, allow_sensitive, base_tokens, available);
    if c.len() > 0 {
        let t = c.drop_last();
        selection_keeps_kinds_apart_and_in_order(t, target, allow_sensitive, base_tokens, available);
        lemma_selection_bounds(t, target, allow_sensitive, base_tokens, available);
        let s0 = selection(t, target, allow_sensitive, base_tokens, available);
        let s = selection(c, target, allow_sensitive, base_tokens, available);
        let n = t.len() as int;
        assert forall|i: int, j: int| 0 <= i < j < s.memories.len() implies #[trigger] s.memories[i]
            < #[trigger] s.memories[j] by {
            if j < s0.memories.len() {
                assert(s.memories[i] == s0.memories[i]);
                assert(s.memories[j] == s0.memories[j]);
            } else {
                assert(s.memories[i] == s0.memories[i]);
                assert(s.memories[j] == n);
            }
        }
        assert forall|i: int, j: int| 0 <= i < j < s.decisions.len() implies #[trigger] s.decisions[i]
            < #[trigger] s.decisions[j] by {
            if j < s0.decisions.len() {
                assert(s.decisions[i] == s0.decisions[i]);
                assert(s.decisions[j] == s0.decisions[j]);
            } else {
                assert(s.decisions[i] == s0.decisions[i]);
                assert(s.decisions[j] == n);
            }
        }
    }
}

/// In a built context, every candidate that the privacy rule lets go where
/// the model runs, and whose tokens fit in what the candidates before it left
/// over, is among the context's memories or decisions, whatever candidates
/// before it were left out for the budget.
pub proof fn built_context_keeps_every_fitting_memory(
    r: ContextBuildRequest,
    base_tokens: u32,
    c: Seq<MemoryCandidate>,
    b: BuiltContext,
    k: int,
)
    requires
        build_post(r, base_tokens, c, Ok(b)),
        0 <= k < c.len(),
        privacy_permits(c[k].record.privacy, r.target_location, r.allow_sensitive),
        selection(
            c.take(k),
            r.target_location,
            r.allow_sensitive,
            base_tokens,
            available_tokens(r),
        ).used + c[k].tokens <= available_tokens(r),
    ensures
        views_of(b.prepared.inner().memories@).contains(c[k].item@) || views_of(
            b.prepared.inner().decisions@,
        ).contains(c[k].item@),
{
    let available = available_tokens(r);
    let s = selection(c, r.target_location, r.allow_sensitive, base_tokens, available);
    a_fitting_memory_is_always_included(
        c,
        r.target_location,
        r.allow_sensitive,
        base_tokens,
        available,
        k,
    );
    let ctx = b.prepared.inner();
    if s.memories.contains(k) {
        let i = choose|i: int| 0 <= i < s.memories.len() && s.memories[i] == k;
        assert(items_at(c, s.memories)[i] == c[k].item@);
        assert(views_of(ctx.memories@)[i] == c[k].item@);
    } else {
        let i = choose|i: int| 0 <= i < s.decisions.len() && s.decisions[i] == k;
        assert(items_at(c, s.decisions)[i] == c[k].item@);
        assert(views_of(ctx.decisions@)[i] == c[k].item@);
    }
}

/// A context built from retrieved memories never exceeds its budget, however
/// large the memories are: a memory that does not fit is left out.
pub proof fn context_built_from_memories_fits_the_budget(
    r: ContextBuildRequest,
    m: Seq<RetrievedMemory>,
    b: BuiltContext,
)
    requires
        build_from_post(r, m, Ok(b)),
    ensures
        b.report.estimated_context_tokens <= b.report.available_context_tokens,
        b.report.available_context_tokens == available_tokens(r),
        b.report.included_count + b.report.excluded_privacy_count + b.report.excluded_budget_count
            == m.len(),
{
    let base = base_tokens_of(r.base);
    let c = choose|c: Seq<MemoryCandidate>|
        c.len() == m.len() && (forall|i: int| 0 <= i < m.len() ==> rendered(m[i], #[trigger] c[i]))
            && #[trigger] build_post(r, base, c, Ok(b));
    built_context_fits_the_budget(r, base, c, b);
}

/// A built context never exceeds its budget: the estimated tokens stay within
/// the available tokens.
pub proof fn built_context_fits_the_budget(
    r: ContextBuildRequest,
    base_tokens: u32,
    c: Seq<MemoryCandidate>,
    b: BuiltContext,
)
    requires
        build_post(r, base_tokens, c, Ok(b)),
    ensures
        b.report.estimated_context_tokens <= b.report.available_context_tokens,
        b.report.included_count + b.report.excluded_privacy_count + b.report.excluded_budget_count
            == b.report.candidate_count,
{
    lemma_selection_bounds(c, r.target_location, r.allow_sensitive, base_tokens, available_tokens(r));
}

/// A context built for a cloud model holds only memories that may leave the
/// machine: none local-only, none barred from the cloud, none sensitive
/// unless sensitive memories were allowed; and its policy allows the cloud.
pub proof fn cloud_context_holds_only_cloud_memories(
    r: ContextBuildRequest,
    base_tokens: u32,
    c: Seq<MemoryCandidate>,
    b: BuiltContext,
    i: int,
)
    requires
        build_post(r, base_tokens, c, Ok(b)),
        r.target_location == TargetLocation::Cloud,
        0 <= i < c.len(),
        ({
            let s = selection(
                c,
                r.target_location,
                r.allow_sensitive,
                base_tokens,
                available_tokens(r),
            );
            s.memories.contains(i) || s.decisions.contains(i)
        }),
    ensures
        !c[i].record.privacy.local_only,
        c[i].record.privacy.cloud_allowed,
        c[i].record.privacy.sensitive ==> r.allow_sensitive,
        b.prepared.inner().privacy_policy.cloud_allowed,
        !b.prepared.inner().privacy_policy.local_only,
{
    lemma_selection_bounds(c, r.target_location, r.allow_sensitive, base_tokens, available_tokens(r));
}

} // verus!
