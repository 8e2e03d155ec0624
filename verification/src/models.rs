//! The model inventory: capabilities, storage locations, records read from
//! runtimes and from model files, and the rules that judge, rank and move
//! models. Scanning folders and measuring disks is the application's part;
//! it hands this module what it found.

use crate::developer::Timestamp;
use crate::text::{is_blank, is_blank_seq, owned, seq_contains, str_eq, trim, trim_seq};
use vstd::prelude::*;

verus! {

#[derive(Debug, Clone, Copy, PartialEq, Eq, PartialOrd, Ord, Hash, Structural)]
pub enum ModelCapability {
    Coding,
    Reasoning,
    Review,
    General,
    ToolUse,
    StructuredOutput,
    LongContext,
}

/// A set of capabilities, one flag per capability.
#[derive(Debug, Clone, Copy, PartialEq, Eq, Structural)]
pub struct CapabilitySet {
    pub coding: bool,
    pub reasoning: bool,
    pub review: bool,
    pub general: bool,
    pub tool_use: bool,
    pub structured_output: bool,
    pub long_context: bool,
}

impl CapabilitySet {
    pub open spec fn has(self, c: ModelCapability) -> bool {
        match c {
            ModelCapability::Coding => self.coding,
            ModelCapability::Reasoning => self.reasoning,
            ModelCapability::Review => self.review,
            ModelCapability::General => self.general,
            ModelCapability::ToolUse => self.tool_use,
            ModelCapability::StructuredOutput => self.structured_output,
            ModelCapability::LongContext => self.long_context,
        }
    }

    /// How many capabilities the set holds.
    pub open spec fn count(self) -> nat {
        (if self.coding { 1nat } else { 0nat }) + (if self.reasoning { 1nat } else { 0nat }) + (
        if self.review { 1nat } else { 0nat }) + (if self.general { 1nat } else { 0nat }) + (
        if self.tool_use { 1nat } else { 0nat }) + (if self.structured_output { 1nat } else { 0nat })
            + (if self.long_context { 1nat } else { 0nat })
    }

    pub fn empty() -> (s: CapabilitySet)
        ensures
            forall|c: ModelCapability| !s.has(c),
    {
        CapabilitySet {
            coding: false,
            reasoning: false,
            review: false,
            general: false,
            tool_use: false,
            structured_output: false,
            long_context: false,
        }
    }

    pub fn contains(&self, c: ModelCapability) -> (b: bool)
        ensures
            b == self.has(c),
    {
        match c {
            ModelCapability::Coding => self.coding,
            ModelCapability::Reasoning => self.reasoning,
            ModelCapability::Review => self.review,
            ModelCapability::General => self.general,
            ModelCapability::ToolUse => self.tool_use,
            ModelCapability::StructuredOutput => self.structured_output,
            ModelCapability::LongContext => self.long_context,
        }
    }

    pub fn insert(&mut self, c: ModelCapability)
        ensures
            forall|d: ModelCapability| final(self).has(d) == (old(self).has(d) || d == c),
    {
        match c {
            ModelCapability::Coding => self.coding = true,
            ModelCapability::Reasoning => self.reasoning = true,
            ModelCapability::Review => self.review = true,
            ModelCapability::General => self.general = true,
            ModelCapability::ToolUse => self.tool_use = true,
            ModelCapability::StructuredOutput => self.structured_output = true,
            ModelCapability::LongContext => self.long_context = true,
        }
    }

    pub fn len(&self) -> (n: u32)
        ensures
            n == self.count(),
    {
        let mut n: u32 = 0;
        if self.coding {
            n += 1;
        }
        if self.reasoning {
            n += 1;
        }
        if self.review {
            n += 1;
        }
        if self.general {
            n += 1;
        }
        if self.tool_use {
            n += 1;
        }
        if self.structured_output {
            n += 1;
        }
        if self.long_context {
            n += 1;
        }
        n
    }

    /// Every capability of this set is in `other`.
    pub fn is_subset(&self, other: &CapabilitySet) -> (b: bool)
        ensures
            b <==> forall|c: ModelCapability| self.has(c) ==> other.has(c),
    {
        let b = (!self.coding || other.coding) && (!self.reasoning || other.reasoning) && (
        !self.review || other.review) && (!self.general || other.general) && (!self.tool_use
            || other.tool_use) && (!self.structured_output || other.structured_output) && (
        !self.long_context || other.long_context);
        proof {
            if !b {
                if self.coding && !other.coding {
                    assert(self.has(ModelCapability::Coding));
                } else if self.reasoning && !other.reasoning {
                    assert(self.has(ModelCapability::Reasoning));
                } else if self.review && !other.review {
                    assert(self.has(ModelCapability::Review));
                } else if self.general && !other.general {
                    assert(self.has(ModelCapability::General));
                } else if self.tool_use && !other.tool_use {
                    assert(self.has(ModelCapability::ToolUse));
                } else if self.structured_output && !other.structured_output {
                    assert(self.has(ModelCapability::StructuredOutput));
                } else {
                    assert(self.has(ModelCapability::LongContext));
                }
            }
        }
        b
    }

    /// The members in the order of `ModelCapability`.
    pub open spec fn member_seq(self) -> Seq<ModelCapability> {
        Self::one(self.coding, ModelCapability::Coding) + Self::one(
            self.reasoning,
            ModelCapability::Reasoning,
        ) + Self::one(self.review, ModelCapability::Review) + Self::one(
            self.general,
            ModelCapability::General,
        ) + Self::one(self.tool_use, ModelCapability::ToolUse) + Self::one(
            self.structured_output,
            ModelCapability::StructuredOutput,
        ) + Self::one(self.long_context, ModelCapability::LongContext)
    }

    pub open spec fn one(b: bool, c: ModelCapability) -> Seq<ModelCapability> {
        if b {
            seq![c]
        } else {
            Seq::empty()
        }
    }

    fn push_if(v: &mut Vec<ModelCapability>, b: bool, c: ModelCapability)
        ensures
            final(v)@ == old(v)@ + Self::one(b, c),
    {
        if b {
            v.push(c);
        } else {
            assert(old(v)@ + Self::one(b, c) =~= old(v)@);
        }
    }

    pub fn members(&self) -> (v: Vec<ModelCapability>)
        ensures
            v@ == self.member_seq(),
    {
        let mut v: Vec<ModelCapability> = Vec::new();
        Self::push_if(&mut v, self.coding, ModelCapability::Coding);
        Self::push_if(&mut v, self.reasoning, ModelCapability::Reasoning);
        Self::push_if(&mut v, self.review, ModelCapability::Review);
        Self::push_if(&mut v, self.general, ModelCapability::General);
        Self::push_if(&mut v, self.tool_use, ModelCapability::ToolUse);
        Self::push_if(&mut v, self.structured_output, ModelCapability::StructuredOutput);
        Self::push_if(&mut v, self.long_context, ModelCapability::LongContext);
        assert(v@ =~= self.member_seq());
        v
    }
}

/// The path in the registry's normal form: forward slashes as backslashes,
/// no trailing backslash, and lowercase on Windows.
pub open spec fn normal_path(path: Seq<char>, windows: bool) -> Seq<char> {
    let t = crate::text::strip_suffixes(crate::text::replace_char_seq(path, '/', '\\'), "\\"@);
    if windows {
        crate::platform::unicode_lowercase(t)
    } else {
        t
    }
}

/// `normalized_path` for a platform that is (`windows`) or is not Windows.
pub fn normalized_path_on(path: &str, windows: bool) -> (r: String)
    ensures
        r@ == normal_path(path@, windows),
{
    let swapped = crate::text::replace_char(path, '/', '\\');
    proof {
        reveal_strlit("\\");
    }
    let t = crate::text::trim_end_matches(swapped.as_str(), "\\");
    if windows {
        crate::platform::lowercase(t.as_str())
    } else {
        t
    }
}

/// The registry's normal form of a path on this platform.
pub fn normalized_path(path: &str) -> (r: String)
    ensures
        r@ == normal_path(path@, false) || r@ == normal_path(path@, true),
{
    normalized_path_on(path, crate::platform::host_is_windows())
}

/// One path lies inside the other: in normal form (where every separator is
/// a backslash, on every platform) one is the other followed by a backslash
/// and more.
pub open spec fn overlapping(left: Seq<char>, right: Seq<char>, windows: bool) -> bool {
    let l = normal_path(left, windows);
    let r = normal_path(right, windows);
    crate::text::starts_with_seq(l, r.push('\\')) || crate::text::starts_with_seq(r, l.push('\\'))
}

/// A folder named below another folder overlaps it, whichever way round the
/// two are given: `parent` followed by `/` and one more name on a platform
/// other than Windows (on Windows the lowercase mapping is only named).
pub proof fn nested_folder_overlaps(parent: Seq<char>, name: Seq<char>)
    requires
        parent.len() > 0 ==> parent.last() != '/' && parent.last() != '\\',
        name.len() > 0,
        !name.contains('/') && !name.contains('\\'),
    ensures
        overlapping(parent, parent + "/"@ + name, false),
        overlapping(parent + "/"@ + name, parent, false),
{
    reveal_strlit("/");
    reveal_strlit("\\");
    let child = parent + "/"@ + name;
    let l = crate::text::replace_char_seq(parent, '/', '\\');
    let r = crate::text::replace_char_seq(child, '/', '\\');
    assert(r =~= l.push('\\') + crate::text::replace_char_seq(name, '/', '\\'));
    assert(name.contains(name.last()) && name[name.len() - 1] == name.last());
    assert(r.last() == name.last());
    assert(r.last() != '\\');
    if crate::text::ends_with_seq(r, "\\"@) {
        assert(r.subrange(r.len() - 1, r.len() as int)[0] == r.last());
    }
    if l.len() > 0 {
        assert(l.last() == parent.last());
        if crate::text::ends_with_seq(l, "\\"@) {
            assert(l.subrange(l.len() - 1, l.len() as int)[0] == l.last());
        }
    }
    assert(normal_path(parent, false) == l);
    assert(normal_path(child, false) == r);
    assert(r.subrange(0, l.len() as int + 1) =~= l.push('\\'));
}

pub fn paths_overlap_on(left: &str, right: &str, windows: bool) -> (b: bool)
    ensures
        b == overlapping(left@, right@, windows),
{
    let l = normalized_path_on(left, windows);
    let r = normalized_path_on(right, windows);
    let sep = '\\';
    let mut r_sep = r.clone();
    crate::text::push_char(&mut r_sep, sep);
    let mut l_sep = l.clone();
    crate::text::push_char(&mut l_sep, sep);
    crate::text::starts_with(l.as_str(), r_sep.as_str()) || crate::text::starts_with(
        r.as_str(),
        l_sep.as_str(),
    )
}

/// The value trimmed, or the fallback when the value is blank.
pub fn non_blank_or(value: &str, fallback: &str) -> (r: String)
    ensures
        r@ == if is_blank_seq(value@) {
            fallback@
        } else {
            trim_seq(value@)
        },
{
    let t = trim(value);
    if t.as_str().unicode_len() == 0 {
        proof {
            crate::text::lemma_trim_empty_iff_blank(value@);
        }
        owned(fallback)
    } else {
        proof {
            crate::text::lemma_trim_empty_iff_blank(value@);
        }
        t
    }
}

} // verus!

verus! {

/// The schema of the registry document.
pub const SCHEMA_VERSION: u32 = 1;

/// How deep the application looks for model files below a storage location.
pub const MAX_DISCOVERY_DEPTH: usize = 12;

#[derive(Debug, Clone, PartialEq, Eq)]
pub enum ModelManagementError {
    Io(String),
    Serialization(String),
    UnsupportedSchema(u32),
    InvalidStorage(String),
    StorageNotFound(String),
    ModelNotFound(String),
}

pub open spec fn model_error_text(e: ModelManagementError) -> Seq<char> {
    match e {
        ModelManagementError::Io(m) => "model management I/O failed: "@ + m@,
        ModelManagementError::Serialization(m) => "model management serialization failed: "@ + m@,
        ModelManagementError::UnsupportedSchema(v) => "unsupported model registry schema version "@
            + crate::numtext::dec(v as nat),
        ModelManagementError::InvalidStorage(m) => "invalid storage location: "@ + m@,
        ModelManagementError::StorageNotFound(m) => "storage location was not found: "@ + m@,
        ModelManagementError::ModelNotFound(m) => "model was not found: "@ + m@,
    }
}

impl ModelManagementError {
    /// The message this error displays.
    pub fn to_text(&self) -> (r: String)
        ensures
            r@ == model_error_text(*self),
    {
        match self {
            ModelManagementError::Io(m) => crate::text::concat2(
                "model management I/O failed: ",
                m.as_str(),
            ),
            ModelManagementError::Serialization(m) => crate::text::concat2(
                "model management serialization failed: ",
                m.as_str(),
            ),
            ModelManagementError::UnsupportedSchema(v) => crate::text::concat2(
                "unsupported model registry schema version ",
                crate::numtext::u64_text(*v as u64).as_str(),
            ),
            ModelManagementError::InvalidStorage(m) => crate::text::concat2(
                "invalid storage location: ",
                m.as_str(),
            ),
            ModelManagementError::StorageNotFound(m) => crate::text::concat2(
                "storage location was not found: ",
                m.as_str(),
            ),
            ModelManagementError::ModelNotFound(m) => crate::text::concat2(
                "model was not found: ",
                m.as_str(),
            ),
        }
    }
}

#[derive(Debug, Clone, Copy, PartialEq, Eq, Structural)]
pub enum ModelHealth {
    Ready,
    Unavailable,
    Missing,
    Invalid,
    Unknown,
}

#[derive(Debug, Clone, Copy, PartialEq, Eq, Structural)]
pub enum ModelTrust {
    Discovered,
    Registered,
    Verified,
    Trusted,
}

#[derive(Debug, Clone, Copy, PartialEq, Eq, Structural)]
pub enum ModelSource {
    LocalStorage,
    Ollama,
    LmStudio,
    Remote,
}

#[derive(Debug, Clone, Copy, PartialEq, Eq, Structural)]
pub enum RuntimeCompatibilityState {
    Available,
    Compatible,
    Planned,
    Unsupported,
    Unknown,
}

#[derive(Debug, Clone, PartialEq, Eq)]
pub struct RuntimeCompatibility {
    pub runtime_id: String,
    pub state: RuntimeCompatibilityState,
    pub reason: String,
}

/// A model known to the registry.
#[derive(Debug, Clone, PartialEq, Eq)]
pub struct ModelRecord {
    pub id: String,
    pub display_name: String,
    pub family: Option<String>,
    pub format: Option<String>,
    pub quantization: Option<String>,
    pub parameter_size: Option<String>,
    pub file_size: Option<u64>,
    pub storage_location_id: Option<String>,
    pub storage_path: Option<String>,
    pub runtime_compatibility: Vec<RuntimeCompatibility>,
    pub capabilities: CapabilitySet,
    pub context_length: Option<u64>,
    pub local: bool,
    pub installed: bool,
    pub health: ModelHealth,
    pub trust: ModelTrust,
    pub source: ModelSource,
    pub source_key: String,
    pub created_at: Timestamp,
    pub updated_at: Timestamp,
}

#[derive(Debug, Clone, Copy, PartialEq, Eq, Structural)]
pub enum StorageAvailability {
    Available,
    Unavailable,
    Missing,
}

/// A folder that holds model files.
#[derive(Debug, Clone, PartialEq, Eq)]
pub struct ModelStorageLocation {
    pub id: String,
    pub display_name: String,
    pub path: String,
    pub is_default: bool,
    pub availability: StorageAvailability,
    pub writable: bool,
    pub total_space: Option<u64>,
    pub free_space: Option<u64>,
    pub created_at: Timestamp,
    pub updated_at: Timestamp,
}

#[derive(Debug, Clone, PartialEq, Eq)]
pub struct DuplicateModelCandidate {
    pub model_ids: Vec<String>,
    pub evidence: Vec<String>,
}

#[derive(Debug, Clone, Copy, PartialEq, Eq, Structural)]
pub enum CompatibilityState {
    Compatible,
    CompatibleWithOffload,
    ResourceConstrained,
    Unsupported,
    Unknown,
}

#[derive(Debug, Clone, PartialEq, Eq)]
pub struct CompatibilityAssessment {
    pub model_id: String,
    pub state: CompatibilityState,
    pub reasons: Vec<String>,
}

/// The memory and storage a model could use.
#[derive(Debug, Clone, PartialEq, Eq)]
pub struct HardwareSnapshot {
    pub system_ram_total: Option<u64>,
    pub system_ram_available: Option<u64>,
    pub gpu_vram_total: Option<u64>,
    pub gpu_vram_available: Option<u64>,
    pub gpu_vram_in_use: u64,
    pub storage_locations: Vec<ModelStorageLocation>,
    pub observed_at: Timestamp,
}

/// What an automatic choice of model asks for. The allowed runtimes form a
/// set; when it is empty every runtime is allowed.
#[derive(Debug, Clone, PartialEq, Eq)]
pub struct ModelSelectionRequest {
    pub required_capabilities: CapabilitySet,
    pub allowed_runtime_ids: Vec<String>,
    pub local_only: bool,
}

#[derive(Debug, Clone, PartialEq, Eq)]
pub struct ModelCandidate {
    pub model: ModelRecord,
    pub compatibility: CompatibilityAssessment,
    pub score: u32,
    pub reasons: Vec<String>,
}

/// How a model file would be moved, checked before anything is touched.
#[derive(Debug, Clone, PartialEq, Eq)]
pub struct ModelMovePlan {
    pub model_id: String,
    pub source_path: String,
    pub destination_path: String,
    pub required_bytes: u64,
    pub verification: Vec<String>,
}

#[derive(Debug, Clone, PartialEq, Eq)]
pub struct ModelManagementSnapshot {
    pub models: Vec<ModelRecord>,
    pub storage_locations: Vec<ModelStorageLocation>,
    pub duplicates: Vec<DuplicateModelCandidate>,
    pub hardware: HardwareSnapshot,
    pub compatibility: Vec<CompatibilityAssessment>,
    pub observed_at: Timestamp,
}

/// `a` is a copy of `b`: equal fields, lists with equal contents.
pub open spec fn model_copied(a: ModelRecord, b: ModelRecord) -> bool {
    &&& a == ModelRecord { runtime_compatibility: a.runtime_compatibility, ..b }
    &&& a.runtime_compatibility@ == b.runtime_compatibility@
}

fn copy_compat(c: &RuntimeCompatibility) -> (r: RuntimeCompatibility)
    ensures
        r == *c,
{
    RuntimeCompatibility {
        runtime_id: c.runtime_id.clone(),
        state: c.state,
        reason: c.reason.clone(),
    }
}

fn copy_compats(v: &Vec<RuntimeCompatibility>) -> (r: Vec<RuntimeCompatibility>)
    ensures
        r@ == v@,
{
    let mut r: Vec<RuntimeCompatibility> = Vec::new();
    let mut i: usize = 0;
    while i < v.len()
        invariant
            i <= v.len(),
            r@ == v@.take(i as int),
        decreases v.len() - i,
    {
        r.push(copy_compat(&v[i]));
        assert(v@.take(i + 1) =~= v@.take(i as int).push(v@[i as int]));
        i += 1;
    }
    assert(v@.take(v.len() as int) =~= v@);
    r
}

pub fn copy_model(m: &ModelRecord) -> (r: ModelRecord)
    ensures
        model_copied(r, *m),
{
    ModelRecord {
        id: m.id.clone(),
        display_name: m.display_name.clone(),
        family: crate::relay::copy_opt_string(&m.family),
        format: crate::relay::copy_opt_string(&m.format),
        quantization: crate::relay::copy_opt_string(&m.quantization),
        parameter_size: crate::relay::copy_opt_string(&m.parameter_size),
        file_size: m.file_size,
        storage_location_id: crate::relay::copy_opt_string(&m.storage_location_id),
        storage_path: crate::relay::copy_opt_string(&m.storage_path),
        runtime_compatibility: copy_compats(&m.runtime_compatibility),
        capabilities: m.capabilities,
        context_length: m.context_length,
        local: m.local,
        installed: m.installed,
        health: m.health,
        trust: m.trust,
        source: m.source,
        source_key: m.source_key.clone(),
        created_at: m.created_at,
        updated_at: m.updated_at,
    }
}

pub fn copy_location(l: &ModelStorageLocation) -> (r: ModelStorageLocation)
    ensures
        r == *l,
{
    ModelStorageLocation {
        id: l.id.clone(),
        display_name: l.display_name.clone(),
        path: l.path.clone(),
        is_default: l.is_default,
        availability: l.availability,
        writable: l.writable,
        total_space: l.total_space,
        free_space: l.free_space,
        created_at: l.created_at,
        updated_at: l.updated_at,
    }
}

/// The identifiers of the models, in order.
pub open spec fn model_ids(s: Seq<ModelRecord>) -> Seq<Seq<char>> {
    Seq::new(s.len(), |i: int| s[i].id@)
}

/// The identifiers of the storage locations, in order.
pub open spec fn location_ids(s: Seq<ModelStorageLocation>) -> Seq<Seq<char>> {
    Seq::new(s.len(), |i: int| s[i].id@)
}

pub open spec fn key_is(k: Seq<char>) -> spec_fn(Seq<char>) -> bool {
    |x: Seq<char>| x == k
}

/// The position of key `k`, or -1.
pub open spec fn key_pos(keys: Seq<Seq<char>>, k: Seq<char>) -> int {
    crate::seqs::first_pos(keys, key_is(k))
}

/// The number of keys that sort before `k`: where `k` belongs.
pub open spec fn key_slot(keys: Seq<Seq<char>>, k: Seq<char>) -> int
    decreases keys.len(),
{
    if keys.len() == 0 {
        0
    } else if crate::order::text_lt(keys[0], k) {
        1 + key_slot(keys.drop_first(), k)
    } else {
        0
    }
}

/// `s` with `x` stored under key `k`: replacing the element with that key,
/// or inserted where the key belongs.
pub open spec fn stored_at<T>(s: Seq<T>, keys: Seq<Seq<char>>, k: Seq<char>, x: T) -> Seq<T> {
    if key_pos(keys, k) >= 0 {
        s.update(key_pos(keys, k), x)
    } else {
        s.insert(key_slot(keys, k), x)
    }
}

proof fn lemma_slot(keys: Seq<Seq<char>>, k: Seq<char>, i: int)
    requires
        0 <= i <= keys.len(),
        forall|j: int| 0 <= j < i ==> crate::order::text_lt(#[trigger] keys[j], k),
        i < keys.len() ==> !crate::order::text_lt(keys[i], k),
    ensures
        key_slot(keys, k) == i,
    decreases i,
{
    if i > 0 {
        let t = keys.drop_first();
        assert(crate::order::text_lt(keys[0], k));
        assert forall|j: int| 0 <= j < i - 1 implies crate::order::text_lt(#[trigger] t[j], k) by {
            assert(t[j] == keys[j + 1]);
        }
        lemma_slot(t, k, i - 1);
    } else if keys.len() > 0 {
    }
}

/// Where key `k` is or belongs in sorted keys, and whether it is there.
pub proof fn lemma_sorted_lookup(keys: Seq<Seq<char>>, k: Seq<char>, i: int)
    requires
        crate::order::keys_sorted(keys),
        0 <= i <= keys.len(),
        forall|j: int| 0 <= j < i ==> crate::order::text_lt(#[trigger] keys[j], k),
        i < keys.len() ==> !crate::order::text_lt(keys[i], k),
    ensures
        key_slot(keys, k) == i,
        i < keys.len() && keys[i] == k ==> key_pos(keys, k) == i,
        !(i < keys.len() && keys[i] == k) ==> key_pos(keys, k) < 0,
        !(i < keys.len() && keys[i] == k) ==> forall|j: int|
            i <= j < keys.len() ==> crate::order::text_lt(k, #[trigger] keys[j]),
{
    lemma_slot(keys, k, i);
    assert forall|j: int| 0 <= j < i implies #[trigger] keys[j] != k by {
        if keys[j] == k {
            crate::order::lemma_text_lt_irreflexive(k);
        }
    }
    if i < keys.len() && keys[i] == k {
        assert forall|j: int| 0 <= j < i implies !key_is(k)(#[trigger] keys[j]) by {}
        crate::seqs::lemma_first_pos_is(keys, key_is(k), i);
    } else {
        if i < keys.len() {
            crate::order::lemma_text_lt_total(keys[i], k);
        }
        assert forall|j: int| i <= j < keys.len() implies crate::order::text_lt(k, #[trigger] keys[j]) by {
            if j > i {
                assert(crate::order::text_lt(keys[i], keys[j]));
                crate::order::lemma_text_lt_transitive(k, keys[i], keys[j]);
            }
        }
        assert forall|j: int| 0 <= j < keys.len() implies !key_is(k)(#[trigger] keys[j]) by {
            if j >= i {
                if keys[j] == k {
                    crate::order::lemma_text_lt_irreflexive(k);
                }
            }
        }
        crate::seqs::lemma_first_pos_is(keys, key_is(k), -1);
    }
}

/// Sorted keys stay sorted when a key is placed where it belongs.
pub proof fn lemma_sorted_insert(keys: Seq<Seq<char>>, k: Seq<char>, i: int)
    requires
        crate::order::keys_sorted(keys),
        0 <= i <= keys.len(),
        forall|j: int| 0 <= j < i ==> crate::order::text_lt(#[trigger] keys[j], k),
        forall|j: int| i <= j < keys.len() ==> crate::order::text_lt(k, #[trigger] keys[j]),
    ensures
        crate::order::keys_sorted(keys.insert(i, k)),
{
    let n = keys.insert(i, k);
    assert forall|a: int, b: int| 0 <= a < b < n.len() implies crate::order::text_lt(
        #[trigger] n[a],
        #[trigger] n[b],
    ) by {
        if a < i && b < i {
            assert(n[a] == keys[a] && n[b] == keys[b]);
        } else if a < i && b == i {
        } else if a < i {
            assert(n[a] == keys[a] && n[b] == keys[b - 1]);
            crate::order::lemma_text_lt_transitive(keys[a], k, keys[b - 1]);
        } else if a == i {
            assert(n[b] == keys[b - 1]);
        } else {
            assert(n[a] == keys[a - 1] && n[b] == keys[b - 1]);
        }
    }
}

/// Sorted keys stay sorted when one is removed.
pub proof fn lemma_sorted_remove(keys: Seq<Seq<char>>, i: int)
    requires
        crate::order::keys_sorted(keys),
        0 <= i < keys.len(),
    ensures
        crate::order::keys_sorted(keys.remove(i)),
{
    let n = keys.remove(i);
    assert forall|a: int, b: int| 0 <= a < b < n.len() implies crate::order::text_lt(
        #[trigger] n[a],
        #[trigger] n[b],
    ) by {
        let a2 = if a < i { a } else { a + 1 };
        let b2 = if b < i { b } else { b + 1 };
        assert(n[a] == keys[a2] && n[b] == keys[b2]);
    }
}

} // verus!

verus! {

/// `base` with the records of `s` stored one after another under their
/// identifiers.
pub open spec fn store_models(base: Seq<ModelRecord>, s: Seq<ModelRecord>) -> Seq<ModelRecord>
    decreases s.len(),
{
    if s.len() == 0 {
        base
    } else {
        let before = store_models(base, s.drop_last());
        stored_at(before, model_ids(before), s.last().id@, s.last())
    }
}

/// Records stored one after another under their identifiers.
pub open spec fn stored_models(s: Seq<ModelRecord>) -> Seq<ModelRecord> {
    store_models(Seq::empty(), s)
}

/// Storage locations stored one after another under their identifiers.
pub open spec fn stored_locations(s: Seq<ModelStorageLocation>) -> Seq<ModelStorageLocation>
    decreases s.len(),
{
    if s.len() == 0 {
        Seq::empty()
    } else {
        let before = stored_locations(s.drop_last());
        stored_at(before, location_ids(before), s.last().id@, s.last())
    }
}

/// The model registry: models and storage locations, each kept in the
/// order of their identifiers, each identifier once.
pub struct ModelManager {
    models: Vec<ModelRecord>,
    storage: Vec<ModelStorageLocation>,
}

impl ModelManager {
    #[verifier::type_invariant]
    spec fn sorted(&self) -> bool {
        crate::order::keys_sorted(model_ids(self.models@)) && crate::order::keys_sorted(
            location_ids(self.storage@),
        )
    }

    /// The models, in the order of their identifiers.
    pub closed spec fn models(&self) -> Seq<ModelRecord> {
        self.models@
    }

    /// The storage locations, in the order of their identifiers.
    pub closed spec fn locations(&self) -> Seq<ModelStorageLocation> {
        self.storage@
    }

    /// An empty registry.
    pub fn new() -> (m: ModelManager)
        ensures
            m.models().len() == 0,
            m.locations().len() == 0,
    {
        ModelManager { models: Vec::new(), storage: Vec::new() }
    }

    fn model_slot(&self, id: &str) -> (r: (usize, bool))
        ensures
            r.0 <= self.models().len(),
            r.0 == key_slot(model_ids(self.models()), id@),
            r.1 == (key_pos(model_ids(self.models()), id@) >= 0),
            r.1 ==> key_pos(model_ids(self.models()), id@) == r.0 && r.0 < self.models().len(),
            forall|j: int| 0 <= j < r.0 ==> crate::order::text_lt(#[trigger] model_ids(self.models())[j], id@),
            !r.1 ==> forall|j: int|
                r.0 <= j < self.models().len() ==> crate::order::text_lt(id@, #[trigger] model_ids(self.models())[j]),
    {
        proof {
            use_type_invariant(self);
        }
        let ghost keys = model_ids(self.models@);
        let mut i: usize = 0;
        while i < self.models.len() && crate::order::text_less(self.models[i].id.as_str(), id)
            invariant
                i <= self.models@.len(),
                keys == model_ids(self.models@),
                forall|j: int| 0 <= j < i ==> crate::order::text_lt(#[trigger] keys[j], id@),
            decreases self.models.len() - i,
        {
            i += 1;
        }
        let found = i < self.models.len() && str_eq(self.models[i].id.as_str(), id);
        proof {
            lemma_sorted_lookup(keys, id@, i as int);
        }
        (i, found)
    }

    fn location_slot(&self, id: &str) -> (r: (usize, bool))
        ensures
            r.0 <= self.locations().len(),
            r.0 == key_slot(location_ids(self.locations()), id@),
            r.1 == (key_pos(location_ids(self.locations()), id@) >= 0),
            r.1 ==> key_pos(location_ids(self.locations()), id@) == r.0 && r.0 < self.locations().len(),
            forall|j: int| 0 <= j < r.0 ==> crate::order::text_lt(#[trigger] location_ids(self.locations())[j], id@),
            !r.1 ==> forall|j: int|
                r.0 <= j < self.locations().len() ==> crate::order::text_lt(id@, #[trigger] location_ids(self.locations())[j]),
    {
        proof {
            use_type_invariant(self);
        }
        let ghost keys = location_ids(self.storage@);
        let mut i: usize = 0;
        while i < self.storage.len() && crate::order::text_less(self.storage[i].id.as_str(), id)
            invariant
                i <= self.storage@.len(),
                keys == location_ids(self.storage@),
                forall|j: int| 0 <= j < i ==> crate::order::text_lt(#[trigger] keys[j], id@),
            decreases self.storage.len() - i,
        {
            i += 1;
        }
        let found = i < self.storage.len() && str_eq(self.storage[i].id.as_str(), id);
        proof {
            lemma_sorted_lookup(keys, id@, i as int);
        }
        (i, found)
    }

    /// Stores `m` under its identifier.
    fn put_model(&mut self, m: ModelRecord)
        ensures
            final(self).models() == stored_at(old(self).models(), model_ids(old(self).models()), m.id@, m),
            final(self).locations() == old(self).locations(),
    {
        proof {
            use_type_invariant(&*self);
        }
        let (i, found) = self.model_slot(m.id.as_str());
        let ghost keys = model_ids(self.models@);
        let mut models: Vec<ModelRecord> = Vec::new();
        std::mem::swap(&mut models, &mut self.models);
        if found {
            proof {
                crate::seqs::lemma_first_pos(keys, key_is(m.id@));
            }
            models.set(i, m);
            proof {
                assert(model_ids(models@) =~= keys);
            }
        } else {
            let ghost id = m.id@;
            models.insert(i, m);
            proof {
                lemma_sorted_insert(keys, id, i as int);
                assert(model_ids(models@) =~= keys.insert(i as int, id));
            }
        }
        self.models = models;
    }

    /// Stores `l` under its identifier.
    fn put_location(&mut self, l: ModelStorageLocation)
        ensures
            final(self).locations() == stored_at(
                old(self).locations(),
                location_ids(old(self).locations()),
                l.id@,
                l,
            ),
            final(self).models() == old(self).models(),
    {
        proof {
            use_type_invariant(&*self);
        }
        let (i, found) = self.location_slot(l.id.as_str());
        let ghost keys = location_ids(self.storage@);
        let mut storage: Vec<ModelStorageLocation> = Vec::new();
        std::mem::swap(&mut storage, &mut self.storage);
        if found {
            proof {
                crate::seqs::lemma_first_pos(keys, key_is(l.id@));
            }
            storage.set(i, l);
            proof {
                assert(location_ids(storage@) =~= keys);
            }
        } else {
            let ghost id = l.id@;
            storage.insert(i, l);
            proof {
                lemma_sorted_insert(keys, id, i as int);
                assert(location_ids(storage@) =~= keys.insert(i as int, id));
            }
        }
        self.storage = storage;
    }

    /// The registry a persisted document describes: its models and storage
    /// locations stored in document order (a later duplicate replaces an
    /// earlier one). A document of another schema is refused.
    pub fn from_document(
        schema_version: u32,
        models: Vec<ModelRecord>,
        storage_locations: Vec<ModelStorageLocation>,
    ) -> (r: Result<ModelManager, ModelManagementError>)
        ensures
            schema_version != SCHEMA_VERSION ==> r == Err::<ModelManager, ModelManagementError>(
                ModelManagementError::UnsupportedSchema(schema_version),
            ),
            schema_version == SCHEMA_VERSION ==> (r matches Ok(m) && m.models() == stored_models(
                models@,
            ) && m.locations() == stored_locations(storage_locations@)),
    {
        if schema_version != SCHEMA_VERSION {
            return Err(ModelManagementError::UnsupportedSchema(schema_version));
        }
        let mut manager = ModelManager::new();
        let ghost all = models@;
        let n = models.len();
        let mut rest = models;
        let mut i: usize = 0;
        while i < n
            invariant
                i <= n == all.len(),
                rest@ == all.subrange(i as int, n as int),
                manager.models() == stored_models(all.take(i as int)),
                manager.locations().len() == 0,
            decreases n - i,
        {
            let m = rest.remove(0);
            assert(m == all[i as int]);
            assert(rest@ =~= all.subrange(i + 1, n as int));
            assert(all.take(i + 1).drop_last() =~= all.take(i as int));
            manager.put_model(m);
            i += 1;
        }
        assert(all.take(n as int) =~= all);
        let ghost places = storage_locations@;
        let k = storage_locations.len();
        let mut rest2 = storage_locations;
        let mut j: usize = 0;
        while j < k
            invariant
                j <= k == places.len(),
                rest2@ == places.subrange(j as int, k as int),
                manager.models() == stored_models(all),
                manager.locations() == stored_locations(places.take(j as int)),
            decreases k - j,
        {
            let l = rest2.remove(0);
            assert(l == places[j as int]);
            assert(rest2@ =~= places.subrange(j + 1, k as int));
            assert(places.take(j + 1).drop_last() =~= places.take(j as int));
            manager.put_location(l);
            j += 1;
        }
        assert(places.take(k as int) =~= places);
        Ok(manager)
    }

    /// Copies of the models, in the order of their identifiers.
    pub fn list_models(&self) -> (r: Vec<ModelRecord>)
        ensures
            r@.len() == self.models().len(),
            forall|i: int| 0 <= i < r@.len() ==> model_copied(#[trigger] r@[i], self.models()[i]),
            crate::order::keys_sorted(model_ids(self.models())),
    {
        proof {
            use_type_invariant(self);
        }
        let mut r: Vec<ModelRecord> = Vec::new();
        let mut i: usize = 0;
        while i < self.models.len()
            invariant
                i <= self.models@.len(),
                r@.len() == i,
                forall|k: int| 0 <= k < i ==> model_copied(#[trigger] r@[k], self.models@[k]),
            decreases self.models.len() - i,
        {
            r.push(copy_model(&self.models[i]));
            i += 1;
        }
        r
    }

    /// A copy of the model with this identifier.
    pub fn get_model(&self, id: &str) -> (r: Result<ModelRecord, ModelManagementError>)
        ensures
            ({
                let p = key_pos(model_ids(self.models()), id@);
                &&& p >= 0 ==> (r matches Ok(m) && model_copied(m, self.models()[p]))
                &&& p < 0 ==> (r matches Err(e) && e matches ModelManagementError::ModelNotFound(x)
                    && x@ == id@)
            }),
    {
        let (i, found) = self.model_slot(id);
        if found {
            Ok(copy_model(&self.models[i]))
        } else {
            Err(ModelManagementError::ModelNotFound(owned(id)))
        }
    }

    /// Stores a model at time `now`: a model already known keeps its
    /// creation time; the update time is `now`. Returns a copy of what was
    /// stored.
    pub fn upsert_model_at(&mut self, model: ModelRecord, now: Timestamp) -> (r: ModelRecord)
        ensures
            upsert_post(*old(self), *final(self), model, now, r),
    {
        let mut model = model;
        let (i, found) = self.model_slot(model.id.as_str());
        if found {
            model.created_at = self.models[i].created_at;
        }
        model.updated_at = now;
        let copy = copy_model(&model);
        self.put_model(model);
        copy
    }

    /// `upsert_model_at` at the current time (the update time of the result).
    pub fn upsert_model(&mut self, model: ModelRecord) -> (r: Result<ModelRecord, ModelManagementError>)
        ensures
            (r matches Err(e) && platform_unreadable(e) && *final(self) == *old(self)) || (r matches Ok(m) && exists|now: Timestamp|
                #[trigger] upsert_post(*old(self), *final(self), model, now, m)),
    {
        let now = match crate::platform::now_millis() {
            Some(v) => v,
            None => {
                return Err(clock_error());
            },
        };
        Ok(self.upsert_model_at(model, now))
    }

    /// Removes the model with this identifier and returns it.
    pub fn remove_model(&mut self, id: &str) -> (r: Result<ModelRecord, ModelManagementError>)
        ensures
            ({
                let p = key_pos(model_ids(old(self).models()), id@);
                &&& p >= 0 ==> r == Ok::<ModelRecord, ModelManagementError>(old(self).models()[p])
                    && final(self).models() == old(self).models().remove(p)
                &&& p < 0 ==> (r matches Err(e) && e matches ModelManagementError::ModelNotFound(x)
                    && x@ == id@) && final(self).models() == old(self).models()
                &&& final(self).locations() == old(self).locations()
            }),
    {
        proof {
            use_type_invariant(&*self);
        }
        let (i, found) = self.model_slot(id);
        if !found {
            return Err(ModelManagementError::ModelNotFound(owned(id)));
        }
        let ghost keys = model_ids(self.models@);
        let mut models: Vec<ModelRecord> = Vec::new();
        std::mem::swap(&mut models, &mut self.models);
        let m = models.remove(i);
        proof {
            lemma_sorted_remove(keys, i as int);
            assert(model_ids(models@) =~= keys.remove(i as int));
        }
        self.models = models;
        Ok(m)
    }

    /// The storage locations, in the order of their identifiers.
    pub fn storage_locations(&self) -> (r: Vec<ModelStorageLocation>)
        ensures
            r@ == self.locations(),
            crate::order::keys_sorted(location_ids(self.locations())),
    {
        proof {
            use_type_invariant(self);
        }
        let mut r: Vec<ModelStorageLocation> = Vec::new();
        let mut i: usize = 0;
        while i < self.storage.len()
            invariant
                i <= self.storage@.len(),
                r@ == self.storage@.take(i as int),
            decreases self.storage.len() - i,
        {
            r.push(copy_location(&self.storage[i]));
            assert(self.storage@.take(i + 1) =~= self.storage@.take(i as int).push(
                self.storage@[i as int],
            ));
            i += 1;
        }
        assert(self.storage@.take(self.storage@.len() as int) =~= self.storage@);
        r
    }
}

} // verus!

verus! {

fn compat(runtime_id: &str, state: RuntimeCompatibilityState, reason: &str) -> (c: RuntimeCompatibility)
    ensures
        c.runtime_id@ == runtime_id@,
        c.state == state,
        c.reason@ == reason@,
{
    RuntimeCompatibility { runtime_id: owned(runtime_id), state, reason: owned(reason) }
}

/// The name shown for a model file: its stem with '_' and '-' read as spaces.
pub open spec fn shown_name(stem: Seq<char>) -> Seq<char> {
    crate::text::replace_char_seq(crate::text::replace_char_seq(stem, '_', ' '), '-', ' ')
}

/// The stem a model file is known by: its file stem, or "GGUF Model".
pub open spec fn model_stem(path: Seq<char>) -> Seq<char> {
    match crate::paths::path_file_stem(path) {
        Some(s) => s,
        None => "GGUF Model"@,
    }
}

/// `r` is the record of the model file at `path` of `size` bytes found in
/// `location` at time `now`.
pub open spec fn local_record(
    location: ModelStorageLocation,
    path: Seq<char>,
    size: u64,
    now: Timestamp,
    windows: bool,
    r: ModelRecord,
) -> bool {
    let stem = model_stem(path);
    let normal = normal_path(path, windows);
    let lower = crate::platform::unicode_lowercase(stem);
    &&& r.id@ == "local:"@ + normal
    &&& r.display_name@ == shown_name(stem)
    &&& match crate::model_names::family_of(lower) {
        Some(f) => r.family matches Some(t) && t@ == f,
        None => r.family is None,
    }
    &&& r.format matches Some(t) && t@ == "GGUF"@
    &&& match crate::model_names::quantization_of(lower) {
        Some(q) => r.quantization matches Some(t) && t@ == q,
        None => r.quantization is None,
    }
    &&& match crate::model_names::parameter_size_of(lower) {
        Some(p) => r.parameter_size matches Some(t) && t@ == p,
        None => r.parameter_size is None,
    }
    &&& r.file_size == Some(size)
    &&& r.storage_location_id matches Some(t) && t@ == location.id@
    &&& r.storage_path matches Some(t) && t@ == path
    &&& r.runtime_compatibility@.len() == 2
    &&& r.runtime_compatibility@[0].runtime_id@ == "vertex-built-in"@
    &&& r.runtime_compatibility@[0].state == RuntimeCompatibilityState::Planned
    &&& r.runtime_compatibility@[0].reason@ == "Built-in Runtimeは次工程で実装予定"@
    &&& r.runtime_compatibility@[1].runtime_id@ == "lm-studio"@
    &&& r.runtime_compatibility@[1].state == RuntimeCompatibilityState::Unknown
    &&& r.runtime_compatibility@[1].reason@ == "GGUF互換性はRuntime側確認が必要"@
    &&& r.capabilities == crate::model_names::inferred_capabilities(
        crate::model_names::capability_text(stem, None),
    )
    &&& r.context_length is None
    &&& r.local && r.installed
    &&& r.health == ModelHealth::Ready
    &&& r.trust == ModelTrust::Discovered
    &&& r.source == ModelSource::LocalStorage
    &&& r.source_key@ == normal
    &&& r.created_at == now && r.updated_at == now
}

/// The record of a model file found in a storage location.
pub fn local_model_record(
    location: &ModelStorageLocation,
    path: &str,
    size: u64,
    now: Timestamp,
    windows: bool,
) -> (r: ModelRecord)
    ensures
        local_record(*location, path@, size, now, windows, r),
{
    let stem = match crate::paths::file_stem(path) {
        Some(s) => s,
        None => owned("GGUF Model"),
    };
    let normalized = normalized_path_on(path, windows);
    let (family, parameter_size, quantization) = crate::model_names::infer_filename_metadata(
        stem.as_str(),
    );
    let underscores = crate::text::replace_char(stem.as_str(), '_', ' ');
    let display_name = crate::text::replace_char(underscores.as_str(), '-', ' ');
    let mut runtime_compatibility: Vec<RuntimeCompatibility> = Vec::new();
    runtime_compatibility.push(
        compat(
            "vertex-built-in",
            RuntimeCompatibilityState::Planned,
            "Built-in Runtimeは次工程で実装予定",
        ),
    );
    runtime_compatibility.push(
        compat("lm-studio", RuntimeCompatibilityState::Unknown, "GGUF互換性はRuntime側確認が必要"),
    );
    let capabilities = crate::model_names::infer_capabilities(stem.as_str(), None);
    ModelRecord {
        id: crate::text::concat2("local:", normalized.as_str()),
        display_name,
        family,
        format: Some(owned("GGUF")),
        quantization,
        parameter_size,
        file_size: Some(size),
        storage_location_id: Some(location.id.clone()),
        storage_path: Some(owned(path)),
        runtime_compatibility,
        capabilities,
        context_length: None,
        local: true,
        installed: true,
        health: ModelHealth::Ready,
        trust: ModelTrust::Discovered,
        source: ModelSource::LocalStorage,
        source_key: normalized,
        created_at: now,
        updated_at: now,
    }
}

/// The capabilities of a runtime's model: read from its name and family,
/// with long context for a context of at least 32768 tokens.
pub open spec fn runtime_capabilities(model: crate::types::InstalledLocalModel) -> CapabilitySet {
    let base = crate::model_names::inferred_capabilities(
        crate::model_names::capability_text(
            model.display_name@,
            match model.family {
                Some(f) => Some(f@),
                None => None,
            },
        ),
    );
    CapabilitySet {
        long_context: model.context_length matches Some(c) && c >= 32768,
        ..base
    }
}

/// `r` is the record of model `model` of `runtime`, from `source`, seen at `now`.
pub open spec fn runtime_record(
    runtime: crate::types::LocalRuntimeSnapshot,
    model: crate::types::InstalledLocalModel,
    source: ModelSource,
    now: Timestamp,
    r: ModelRecord,
) -> bool {
    let key = runtime.provider_id@ + ":"@ + model.reference.model_id@;
    let ready = runtime.health == crate::types::HealthState::Ready;
    &&& r.id@ == key
    &&& r.display_name == model.display_name
    &&& r.family == model.family
    &&& r.format == model.format
    &&& r.quantization == model.quantization_level
    &&& r.parameter_size == model.parameter_size
    &&& r.file_size == Some(model.size_bytes)
    &&& r.storage_location_id is None
    &&& r.storage_path == runtime.model_storage_path
    &&& r.runtime_compatibility@.len() == 2
    &&& r.runtime_compatibility@[0].runtime_id@ == runtime.provider_id@
    &&& r.runtime_compatibility@[0].state == if ready {
        RuntimeCompatibilityState::Available
    } else {
        RuntimeCompatibilityState::Unknown
    }
    &&& r.runtime_compatibility@[0].reason@ == runtime.display_name@ + " Discovery Adapterで確認"@
    &&& r.runtime_compatibility@[1].runtime_id@ == "vertex-built-in"@
    &&& r.runtime_compatibility@[1].state == RuntimeCompatibilityState::Planned
    &&& r.runtime_compatibility@[1].reason@ == "Built-in Runtimeは未実装"@
    &&& r.capabilities == runtime_capabilities(model)
    &&& r.context_length == model.context_length
    &&& r.local && r.installed
    &&& r.health == if ready {
        ModelHealth::Ready
    } else {
        ModelHealth::Unavailable
    }
    &&& r.trust == if model.digest is Some {
        ModelTrust::Verified
    } else {
        ModelTrust::Registered
    }
    &&& r.source == source
    &&& r.source_key@ == key
    &&& r.created_at == now && r.updated_at == now
}

/// The record of a model a runtime reported.
pub fn runtime_model_record(
    runtime: &crate::types::LocalRuntimeSnapshot,
    model: &crate::types::InstalledLocalModel,
    source: ModelSource,
    now: Timestamp,
) -> (r: ModelRecord)
    ensures
        runtime_record(*runtime, *model, source, now, r),
{
    let runtime_id = runtime.provider_id.as_str();
    let source_key = crate::text::concat3(runtime_id, ":", model.reference.model_id.as_str());
    let family: Option<&str> = match &model.family {
        Some(f) => Some(f.as_str()),
        None => None,
    };
    let mut capabilities = crate::model_names::infer_capabilities(
        model.display_name.as_str(),
        family,
    );
    let long = match model.context_length {
        Some(c) => c >= 32768,
        None => false,
    };
    if long {
        capabilities.insert(ModelCapability::LongContext);
    }
    proof {
        let want = runtime_capabilities(*model);
        assert forall|c: ModelCapability| capabilities.has(c) == want.has(c) by {}
        assert(capabilities == want) by {
            assert(capabilities.has(ModelCapability::Coding) == want.has(ModelCapability::Coding));
            assert(capabilities.has(ModelCapability::Reasoning) == want.has(ModelCapability::Reasoning));
            assert(capabilities.has(ModelCapability::Review) == want.has(ModelCapability::Review));
            assert(capabilities.has(ModelCapability::General) == want.has(ModelCapability::General));
            assert(capabilities.has(ModelCapability::ToolUse) == want.has(ModelCapability::ToolUse));
            assert(capabilities.has(ModelCapability::StructuredOutput) == want.has(
                ModelCapability::StructuredOutput,
            ));
            assert(capabilities.has(ModelCapability::LongContext) == want.has(
                ModelCapability::LongContext,
            ));
        }
    }
    let ready = runtime.health == crate::types::HealthState::Ready;
    let mut runtime_compatibility: Vec<RuntimeCompatibility> = Vec::new();
    let reason = crate::text::concat2(runtime.display_name.as_str(), " Discovery Adapterで確認");
    runtime_compatibility.push(
        compat(
            runtime_id,
            if ready {
                RuntimeCompatibilityState::Available
            } else {
                RuntimeCompatibilityState::Unknown
            },
            reason.as_str(),
        ),
    );
    runtime_compatibility.push(
        compat("vertex-built-in", RuntimeCompatibilityState::Planned, "Built-in Runtimeは未実装"),
    );
    ModelRecord {
        id: source_key.clone(),
        display_name: model.display_name.clone(),
        family: crate::relay::copy_opt_string(&model.family),
        format: crate::relay::copy_opt_string(&model.format),
        quantization: crate::relay::copy_opt_string(&model.quantization_level),
        parameter_size: crate::relay::copy_opt_string(&model.parameter_size),
        file_size: Some(model.size_bytes),
        storage_location_id: None,
        storage_path: crate::relay::copy_opt_string(&runtime.model_storage_path),
        runtime_compatibility,
        capabilities,
        context_length: model.context_length,
        local: true,
        installed: true,
        health: if ready {
            ModelHealth::Ready
        } else {
            ModelHealth::Unavailable
        },
        trust: if model.digest.is_some() {
            ModelTrust::Verified
        } else {
            ModelTrust::Registered
        },
        source,
        source_key,
        created_at: now,
        updated_at: now,
    }
}

} // verus!

verus! {

/// What the application found when it looked at a storage location's folder.
#[derive(Debug, Clone, Copy, PartialEq, Eq, Structural)]
pub struct StorageProbe {
    pub exists: bool,
    pub is_dir: bool,
    pub total_space: Option<u64>,
    pub free_space: Option<u64>,
}

/// A location that conflicts with a new folder: the same folder, or one
/// inside the other.
pub open spec fn conflicts_with(l: ModelStorageLocation, path: Seq<char>, windows: bool) -> bool {
    normal_path(l.path@, windows) == normal_path(path, windows) || overlapping(l.path@, path, windows)
}

pub open spec fn conflict_pred(path: Seq<char>, windows: bool) -> spec_fn(ModelStorageLocation) -> bool {
    |l: ModelStorageLocation| conflicts_with(l, path, windows)
}

/// The error for a folder that conflicts with location `l`.
pub open spec fn conflict_error(l: ModelStorageLocation, path: Seq<char>, windows: bool) -> Seq<char> {
    if normal_path(l.path@, windows) == normal_path(path, windows) {
        "同じ保存先は既に登録されています"@
    } else {
        "親子関係にある保存先は重複登録できません: "@ + l.path@
    }
}

/// Location `l` after `id` became the default at `now`.
pub open spec fn defaulted(l: ModelStorageLocation, id: Seq<char>, now: Timestamp) -> ModelStorageLocation {
    ModelStorageLocation { is_default: l.id@ == id, updated_at: now, ..l }
}

/// The location state after a look at its folder at `now`.
pub open spec fn probed(l: ModelStorageLocation, p: StorageProbe, now: Timestamp) -> ModelStorageLocation {
    if !p.exists {
        ModelStorageLocation {
            availability: StorageAvailability::Missing,
            writable: false,
            total_space: None,
            free_space: None,
            updated_at: now,
            ..l
        }
    } else if !p.is_dir {
        ModelStorageLocation {
            availability: StorageAvailability::Unavailable,
            writable: false,
            total_space: None,
            free_space: None,
            updated_at: now,
            ..l
        }
    } else {
        ModelStorageLocation {
            availability: StorageAvailability::Available,
            writable: true,
            total_space: p.total_space,
            free_space: p.free_space,
            updated_at: now,
            ..l
        }
    }
}

/// The location with this identifier is available.
pub open spec fn location_available(locs: Seq<ModelStorageLocation>, id: Seq<char>) -> bool {
    let p = key_pos(location_ids(locs), id);
    p >= 0 && locs[p].availability == StorageAvailability::Available
}

/// A model stored in a location that is not available goes missing at `now`.
pub open spec fn model_after_refresh(m: ModelRecord, locs: Seq<ModelStorageLocation>, now: Timestamp) -> ModelRecord {
    match m.storage_location_id {
        Some(sid) => if location_available(locs, sid@) {
            m
        } else {
            ModelRecord { health: ModelHealth::Missing, updated_at: now, ..m }
        },
        None => m,
    }
}

/// Adding a location under the path rules of `windows`: a conflicting
/// folder is refused before anything is drawn; otherwise the location is
/// added, or the clock or random source fails and nothing changes.
pub open spec fn storage_add_or_failure(
    d: ModelManager,
    e: ModelManager,
    display_name: Seq<char>,
    path: Seq<char>,
    total_space: Option<u64>,
    free_space: Option<u64>,
    windows: bool,
    r: Result<ModelStorageLocation, ModelManagementError>,
) -> bool {
    ||| storage_add_outcome(d.locations(), e.locations(), display_name, path, total_space, free_space, windows, r)
    ||| crate::seqs::first_pos(d.locations(), conflict_pred(path, windows)) < 0 && (r matches Err(x)
        && platform_unreadable(x)) && e == d
}

/// The I/O failure reported when the clock or the random source cannot be read.
pub open spec fn platform_unreadable(e: ModelManagementError) -> bool {
    e matches ModelManagementError::Io(m) && (m@ == crate::platform::CLOCK_UNAVAILABLE@ || m@
        == crate::platform::RANDOM_UNAVAILABLE@)
}

fn clock_error() -> (e: ModelManagementError)
    ensures
        platform_unreadable(e),
{
    ModelManagementError::Io(owned(crate::platform::CLOCK_UNAVAILABLE))
}

fn random_error() -> (e: ModelManagementError)
    ensures
        platform_unreadable(e),
{
    ModelManagementError::Io(owned(crate::platform::RANDOM_UNAVAILABLE))
}

/// What registering a folder does under one platform's path rules: a
/// folder that is registered already, or lies inside or around a registered
/// one, is refused with the first such conflict and changes nothing; any
/// other folder is stored under "storage:" and some UUID, named by the given
/// name (or the default name when it is blank), available and writable,
/// created and updated at one instant, and the default exactly when it is
/// the first location.
pub open spec fn storage_add_outcome(
    old_locs: Seq<ModelStorageLocation>,
    new_locs: Seq<ModelStorageLocation>,
    display_name: Seq<char>,
    path: Seq<char>,
    total_space: Option<u64>,
    free_space: Option<u64>,
    windows: bool,
    r: Result<ModelStorageLocation, ModelManagementError>,
) -> bool {
    let c = crate::seqs::first_pos(old_locs, conflict_pred(path, windows));
    &&& c >= 0 ==> (r matches Err(e) && e matches ModelManagementError::InvalidStorage(m) && m@
        == conflict_error(old_locs[c], path, windows)) && new_locs == old_locs
    &&& c < 0 ==> (r matches Ok(l) && {
        &&& exists|v: u128| l.id@ == "storage:"@ + crate::platform::uuid_hyphenated(v)
        &&& l.display_name@ == if is_blank_seq(display_name) {
            "モデル保存先"@
        } else {
            trim_seq(display_name)
        }
        &&& l.path@ == path
        &&& l.is_default == (old_locs.len() == 0)
        &&& l.availability == StorageAvailability::Available
        &&& l.writable
        &&& l.total_space == total_space && l.free_space == free_space
        &&& l.created_at == l.updated_at
        &&& new_locs == stored_at(old_locs, location_ids(old_locs), l.id@, l)
    })
}

impl ModelManager {
    /// Whether a folder conflicts with a registered location under the path
    /// rules of `windows` (the same folder, or one inside the other).
    pub fn has_conflict(&self, canonical_path: &str, windows: bool) -> (b: bool)
        ensures
            b == (crate::seqs::first_pos(self.locations(), conflict_pred(canonical_path@, windows)) >= 0),
    {
        let ghost p = conflict_pred(canonical_path@, windows);
        let normalized = normalized_path_on(canonical_path, windows);
        let mut i: usize = 0;
        while i < self.storage.len()
            invariant
                i <= self.storage@.len(),
                p == conflict_pred(canonical_path@, windows),
                normalized@ == normal_path(canonical_path@, windows),
                forall|j: int| 0 <= j < i ==> !p(#[trigger] self.storage@[j]),
            decreases self.storage.len() - i,
        {
            let existing = &self.storage[i];
            let same = str_eq(
                normalized_path_on(existing.path.as_str(), windows).as_str(),
                normalized.as_str(),
            );
            if same || paths_overlap_on(existing.path.as_str(), canonical_path, windows) {
                proof {
                    crate::seqs::lemma_first_pos_is(self.storage@, p, i as int);
                }
                return true;
            }
            i += 1;
        }
        proof {
            crate::seqs::lemma_first_pos_is(self.storage@, p, -1);
        }
        false
    }

    /// Registers the folder at `canonical_path` (checked and made canonical
    /// by the application) under identifier "storage:<uuid of id>" at `now`,
    /// unless it is already registered or lies inside or around a registered
    /// folder. The first location becomes the default.
    pub fn add_storage_location_at(
        &mut self,
        display_name: &str,
        canonical_path: &str,
        id: u128,
        total_space: Option<u64>,
        free_space: Option<u64>,
        now: Timestamp,
        windows: bool,
    ) -> (r: Result<ModelStorageLocation, ModelManagementError>)
        ensures
            ({
                let old_locs = old(self).locations();
                let c = crate::seqs::first_pos(old_locs, conflict_pred(canonical_path@, windows));
                &&& c >= 0 ==> (r matches Err(e) && e matches ModelManagementError::InvalidStorage(m)
                    && m@ == conflict_error(old_locs[c], canonical_path@, windows))
                    && final(self).locations() == old_locs
                &&& c < 0 ==> (r matches Ok(l) && {
                    &&& l.id@ == "storage:"@ + crate::platform::uuid_hyphenated(id)
                    &&& l.display_name@ == if is_blank_seq(display_name@) {
                        "モデル保存先"@
                    } else {
                        trim_seq(display_name@)
                    }
                    &&& l.path@ == canonical_path@
                    &&& l.is_default == (old_locs.len() == 0)
                    &&& l.availability == StorageAvailability::Available
                    &&& l.writable
                    &&& l.total_space == total_space && l.free_space == free_space
                    &&& l.created_at == now && l.updated_at == now
                    &&& final(self).locations() == stored_at(old_locs, location_ids(old_locs), l.id@, l)
                })
                &&& final(self).models() == old(self).models()
            }),
    {
        let ghost p = conflict_pred(canonical_path@, windows);
        let normalized = normalized_path_on(canonical_path, windows);
        let mut i: usize = 0;
        while i < self.storage.len()
            invariant
                i <= self.storage@.len(),
                p == conflict_pred(canonical_path@, windows),
                normalized@ == normal_path(canonical_path@, windows),
                forall|j: int| 0 <= j < i ==> !p(#[trigger] self.storage@[j]),
            decreases self.storage.len() - i,
        {
            let existing = &self.storage[i];
            let same = str_eq(
                normalized_path_on(existing.path.as_str(), windows).as_str(),
                normalized.as_str(),
            );
            if same || paths_overlap_on(existing.path.as_str(), canonical_path, windows) {
                proof {
                    crate::seqs::lemma_first_pos_is(self.storage@, p, i as int);
                }
                if same {
                    return Err(
                        ModelManagementError::InvalidStorage(owned("同じ保存先は既に登録されています")),
                    );
                }
                return Err(
                    ModelManagementError::InvalidStorage(
                        crate::text::concat2(
                            "親子関係にある保存先は重複登録できません: ",
                            existing.path.as_str(),
                        ),
                    ),
                );
            }
            i += 1;
        }
        proof {
            crate::seqs::lemma_first_pos_is(self.storage@, p, -1);
        }
        let is_default = self.storage.len() == 0;
        let location = ModelStorageLocation {
            id: crate::text::concat2("storage:", crate::platform::uuid_text(id).as_str()),
            display_name: non_blank_or(display_name, "モデル保存先"),
            path: owned(canonical_path),
            is_default,
            availability: StorageAvailability::Available,
            writable: true,
            total_space,
            free_space,
            created_at: now,
            updated_at: now,
        };
        let copy = copy_location(&location);
        self.put_location(location);
        Ok(copy)
    }

    /// `add_storage_location_at` with a fresh identifier, the current time
    /// and this platform's path rules.
    pub fn add_storage_location(
        &mut self,
        display_name: &str,
        canonical_path: &str,
        total_space: Option<u64>,
        free_space: Option<u64>,
    ) -> (r: Result<ModelStorageLocation, ModelManagementError>)
        ensures
            final(self).models() == old(self).models(),
            exists|windows: bool|
                #[trigger] storage_add_or_failure(
                    *old(self),
                    *final(self),
                    display_name@,
                    canonical_path@,
                    total_space,
                    free_space,
                    windows,
                    r,
                ),
            r is Err ==> final(self).locations() == old(self).locations(),
            r matches Ok(l) ==> l.path@ == canonical_path@ && l.is_default == (old(self).locations().len()
                == 0) && final(self).locations() == stored_at(
                old(self).locations(),
                location_ids(old(self).locations()),
                l.id@,
                l,
            ),
    {
        let windows = crate::platform::host_is_windows();
        if self.has_conflict(canonical_path, windows) {
            let r = self.add_storage_location_at(display_name, canonical_path, 0, total_space, free_space, 0, windows);
            assert(storage_add_or_failure(
                *old(self),
                *self,
                display_name@,
                canonical_path@,
                total_space,
                free_space,
                windows,
                r,
            ));
            return r;
        }
        let id = match crate::platform::fresh_id() {
            Some(v) => v,
            None => {
                let r = Err(random_error());
                assert(storage_add_or_failure(
                    *old(self),
                    *self,
                    display_name@,
                    canonical_path@,
                    total_space,
                    free_space,
                    windows,
                    r,
                ));
                return r;
            },
        };
        let now = match crate::platform::now_millis() {
            Some(v) => v,
            None => {
                let r = Err(clock_error());
                assert(storage_add_or_failure(
                    *old(self),
                    *self,
                    display_name@,
                    canonical_path@,
                    total_space,
                    free_space,
                    windows,
                    r,
                ));
                return r;
            },
        };
        let r = self.add_storage_location_at(display_name, canonical_path, id, total_space, free_space, now, windows);
        proof {
            if r is Ok {
                assert(r->Ok_0.id@ == "storage:"@ + crate::platform::uuid_hyphenated(id));
            }
            assert(storage_add_outcome(
                old(self).locations(),
                self.locations(),
                display_name@,
                canonical_path@,
                total_space,
                free_space,
                windows,
                r,
            ));
            assert(storage_add_or_failure(
                *old(self),
                *self,
                display_name@,
                canonical_path@,
                total_space,
                free_space,
                windows,
                r,
            ));
        }
        r
    }

    /// Makes the location with this identifier the only default one; every
    /// location is marked updated at `now`.
    pub fn set_default_storage_at(&mut self, id: &str, now: Timestamp) -> (r: Result<
        ModelStorageLocation,
        ModelManagementError,
    >)
        ensures
            set_default_post(*old(self), *final(self), id@, now, r),
    {
        proof {
            use_type_invariant(&*self);
        }
        let (slot, found) = self.location_slot(id);
        if !found {
            return Err(ModelManagementError::StorageNotFound(owned(id)));
        }
        let ghost old_locs = self.storage@;
        let ghost keys = location_ids(self.storage@);
        let mut storage: Vec<ModelStorageLocation> = Vec::new();
        std::mem::swap(&mut storage, &mut self.storage);
        let n = storage.len();
        let mut i: usize = 0;
        while i < n
            invariant
                i <= n == storage@.len() == old_locs.len(),
                forall|k: int|
                    0 <= k < i ==> #[trigger] storage@[k] == defaulted(old_locs[k], id@, now),
                forall|k: int| i <= k < n ==> #[trigger] storage@[k] == old_locs[k],
            decreases n - i,
        {
            let mut l = copy_location(&storage[i]);
            l.is_default = str_eq(l.id.as_str(), id);
            l.updated_at = now;
            storage.set(i, l);
            i += 1;
        }
        proof {
            assert(location_ids(storage@) =~= keys);
        }
        self.storage = storage;
        let selected = copy_location(&self.storage[slot]);
        proof {
            crate::seqs::lemma_first_pos(keys, key_is(id@));
        }
        Ok(selected)
    }

    /// `set_default_storage_at` at the current time.
    pub fn set_default_storage(&mut self, id: &str) -> (r: Result<
        ModelStorageLocation,
        ModelManagementError,
    >)
        ensures
            key_pos(location_ids(old(self).locations()), id@) < 0 ==> forall|now: Timestamp|
                #[trigger] set_default_post(*old(self), *final(self), id@, now, r),
            key_pos(location_ids(old(self).locations()), id@) >= 0 ==> (r matches Err(e) && platform_unreadable(e) && *final(self) == *old(self)) || exists|
                now: Timestamp,
            | #[trigger] set_default_post(*old(self), *final(self), id@, now, r),
    {
        let (_, found) = self.location_slot(id);
        if !found {
            return self.set_default_storage_at(id, 0);
        }
        let now = match crate::platform::now_millis() {
            Some(v) => v,
            None => {
                return Err(clock_error());
            },
        };
        self.set_default_storage_at(id, now)
    }
}

} // verus!

verus! {

/// Discovering below storage `id` is refused before the clock is read: no
/// such location, or one that is not available.
pub open spec fn discovery_refused(d: ModelManager, id: Seq<char>) -> bool {
    let p = key_pos(location_ids(d.locations()), id);
    p < 0 || d.locations()[p].availability != StorageAvailability::Available
}

/// A file the application found below a storage location, with its size.
#[derive(Debug, Clone, PartialEq, Eq)]
pub struct FoundFile {
    pub path: String,
    pub size: u64,
}

/// A GGUF model file: its extension is "gguf" in any ASCII case.
pub open spec fn is_gguf(path: Seq<char>) -> bool {
    crate::paths::path_extension(path) matches Some(e) && crate::text::lower_seq(e) == "gguf"@
}

/// The GGUF files among those found, in order.
pub open spec fn gguf_files(f: Seq<FoundFile>) -> Seq<FoundFile>
    decreases f.len(),
{
    if f.len() == 0 {
        Seq::empty()
    } else if is_gguf(f.last().path@) {
        gguf_files(f.drop_last()).push(f.last())
    } else {
        gguf_files(f.drop_last())
    }
}

/// The models a discovery of storage `sid` replaces: those found there
/// before.
pub open spec fn found_in(m: ModelRecord, sid: Seq<char>) -> bool {
    m.source == ModelSource::LocalStorage && (m.storage_location_id matches Some(x) && x@ == sid)
}

pub open spec fn keep_models(s: Seq<ModelRecord>, drop: spec_fn(ModelRecord) -> bool) -> Seq<ModelRecord>
    decreases s.len(),
{
    if s.len() == 0 {
        Seq::empty()
    } else if drop(s.last()) {
        keep_models(s.drop_last(), drop)
    } else {
        keep_models(s.drop_last(), drop).push(s.last())
    }
}

pub open spec fn found_pred(sid: Seq<char>) -> spec_fn(ModelRecord) -> bool {
    |m: ModelRecord| found_in(m, sid)
}

/// A model of runtime `prefix` (its source key starts with it) from `source`.
pub open spec fn of_runtime(m: ModelRecord, source: ModelSource, prefix: Seq<char>) -> bool {
    m.source == source && crate::text::starts_with_seq(m.source_key@, prefix)
}

pub open spec fn runtime_pred(source: ModelSource, prefix: Seq<char>) -> spec_fn(ModelRecord) -> bool {
    |m: ModelRecord| of_runtime(m, source, prefix)
}

/// The source a runtime's identifier names ("ollama" or "lm-studio" in any
/// ASCII case, or a remote runtime).
pub open spec fn runtime_source(id: Seq<char>) -> ModelSource {
    if crate::text::lower_seq(id) == "ollama"@ {
        ModelSource::Ollama
    } else if crate::text::lower_seq(id) == "lm-studio"@ {
        ModelSource::LmStudio
    } else {
        ModelSource::Remote
    }
}

proof fn lemma_push_sorted(keys: Seq<Seq<char>>, k: Seq<char>)
    requires
        crate::order::keys_sorted(keys),
        forall|a: int| 0 <= a < keys.len() ==> crate::order::text_lt(#[trigger] keys[a], k),
    ensures
        crate::order::keys_sorted(keys.push(k)),
{
    let n = keys.push(k);
    assert forall|a: int, b: int| 0 <= a < b < n.len() implies crate::order::text_lt(
        #[trigger] n[a],
        #[trigger] n[b],
    ) by {
        assert(n[a] == keys[a]);
        if b < keys.len() {
            assert(n[b] == keys[b]);
        }
    }
}

fn ignore_case_eq(s: &str, lower: &str) -> (b: bool)
    ensures
        b == (crate::text::lower_seq(s@) == lower@),
{
    let l = crate::text::ascii_lowercase(s);
    str_eq(l.as_str(), lower)
}

impl ModelManager {
    /// Keeps the models `drop` does not select, in order.
    fn retain_models(&mut self, Ghost(drop): Ghost<spec_fn(ModelRecord) -> bool>, sid: &str, source: ModelSource, prefix: &str, by_storage: bool)
        requires
            by_storage ==> drop == found_pred(sid@),
            !by_storage ==> drop == runtime_pred(source, prefix@),
        ensures
            final(self).models() == keep_models(old(self).models(), drop),
            final(self).locations() == old(self).locations(),
    {
        proof {
            use_type_invariant(&*self);
        }
        let ghost all = self.models@;
        let ghost keys = model_ids(all);
        let mut rest: Vec<ModelRecord> = Vec::new();
        std::mem::swap(&mut rest, &mut self.models);
        let n = rest.len();
        let mut kept: Vec<ModelRecord> = Vec::new();
        let mut i: usize = 0;
        while i < n
            invariant
                i <= n == all.len(),
                keys == model_ids(all),
                crate::order::keys_sorted(keys),
                rest@ == all.subrange(i as int, n as int),
                kept@ == keep_models(all.take(i as int), drop),
                crate::order::keys_sorted(model_ids(kept@)),
                by_storage ==> drop == found_pred(sid@),
                !by_storage ==> drop == runtime_pred(source, prefix@),
                forall|a: int, k: int|
                    0 <= a < kept@.len() && i <= k < n ==> crate::order::text_lt(
                        #[trigger] model_ids(kept@)[a],
                        #[trigger] keys[k],
                    ),
            decreases n - i,
        {
            let m = rest.remove(0);
            assert(m == all[i as int]);
            assert(rest@ =~= all.subrange(i + 1, n as int));
            assert(all.take(i + 1).drop_last() =~= all.take(i as int));
            let dropped = if by_storage {
                m.source == ModelSource::LocalStorage && match &m.storage_location_id {
                    Some(x) => str_eq(x.as_str(), sid),
                    None => false,
                }
            } else {
                m.source == source && crate::text::starts_with(m.source_key.as_str(), prefix)
            };
            assert(dropped == drop(m));
            if !dropped {
                proof {
                    assert forall|a: int| 0 <= a < model_ids(kept@).len() implies crate::order::text_lt(
                        #[trigger] model_ids(kept@)[a],
                        m.id@,
                    ) by {
                        assert(keys[i as int] == m.id@);
                    }
                    lemma_push_sorted(model_ids(kept@), m.id@);
                    assert(model_ids(kept@.push(m)) =~= model_ids(kept@).push(m.id@));
                }
                kept.push(m);
            }
            proof {
                assert forall|a: int, k: int|
                    0 <= a < kept@.len() && i + 1 <= k < n implies crate::order::text_lt(
                    #[trigger] model_ids(kept@)[a],
                    #[trigger] keys[k],
                ) by {
                    if a == kept@.len() - 1 && !dropped {
                        assert(model_ids(kept@)[a] == keys[i as int]);
                    }
                }
            }
            i += 1;
        }
        assert(all.take(n as int) =~= all);
        self.models = kept;
    }

    /// Stores the records of `found` one after another; returns copies.
    fn store_all(&mut self, found: Vec<ModelRecord>) -> (r: Vec<ModelRecord>)
        ensures
            final(self).models() == store_models(old(self).models(), found@),
            final(self).locations() == old(self).locations(),
            r@.len() == found@.len(),
            forall|i: int| 0 <= i < found@.len() ==> model_copied(#[trigger] r@[i], found@[i]),
    {
        let ghost base = self.models();
        let ghost all = found@;
        let n = found.len();
        let mut rest = found;
        let mut copies: Vec<ModelRecord> = Vec::new();
        let mut i: usize = 0;
        while i < n
            invariant
                i <= n == all.len(),
                rest@ == all.subrange(i as int, n as int),
                self.models() == store_models(base, all.take(i as int)),
                self.locations() == old(self).locations(),
                copies@.len() == i,
                forall|k: int| 0 <= k < i ==> model_copied(#[trigger] copies@[k], all[k]),
            decreases n - i,
        {
            let m = rest.remove(0);
            assert(m == all[i as int]);
            assert(rest@ =~= all.subrange(i + 1, n as int));
            assert(all.take(i + 1).drop_last() =~= all.take(i as int));
            copies.push(copy_model(&m));
            self.put_model(m);
            i += 1;
        }
        assert(all.take(n as int) =~= all);
        copies
    }

    /// Records what the application found when it looked at every storage
    /// location's folder (one probe per location, in order) at `now`; then
    /// every model stored in a location that is not available goes missing.
    pub fn refresh_storage_at(&mut self, probes: &Vec<StorageProbe>, now: Timestamp) -> (r: Vec<
        ModelStorageLocation,
    >)
        requires
            probes@.len() == old(self).locations().len(),
        ensures
            refresh_post(*old(self), *final(self), probes@, now, r@),
    {
        proof {
            use_type_invariant(&*self);
        }
        let ghost old_locs = self.storage@;
        let ghost keys = location_ids(old_locs);
        let mut storage: Vec<ModelStorageLocation> = Vec::new();
        std::mem::swap(&mut storage, &mut self.storage);
        let n = storage.len();
        let mut i: usize = 0;
        while i < n
            invariant
                i <= n == storage@.len() == old_locs.len() == probes@.len(),
                forall|k: int| 0 <= k < i ==> #[trigger] storage@[k] == probed(old_locs[k], probes@[k], now),
                forall|k: int| i <= k < n ==> #[trigger] storage@[k] == old_locs[k],
            decreases n - i,
        {
            let mut l = copy_location(&storage[i]);
            let p = probes[i];
            if !p.exists {
                l.availability = StorageAvailability::Missing;
                l.writable = false;
                l.total_space = None;
                l.free_space = None;
            } else if !p.is_dir {
                l.availability = StorageAvailability::Unavailable;
                l.writable = false;
                l.total_space = None;
                l.free_space = None;
            } else {
                l.availability = StorageAvailability::Available;
                l.writable = true;
                l.total_space = p.total_space;
                l.free_space = p.free_space;
            }
            l.updated_at = now;
            storage.set(i, l);
            i += 1;
        }
        proof {
            assert(location_ids(storage@) =~= keys);
        }
        self.storage = storage;
        let ghost locs = self.storage@;
        let ghost all = self.models@;
        let ghost mkeys = model_ids(all);
        let mut rest: Vec<ModelRecord> = Vec::new();
        std::mem::swap(&mut rest, &mut self.models);
        let m_n = rest.len();
        let mut out: Vec<ModelRecord> = Vec::new();
        let mut j: usize = 0;
        while j < m_n
            invariant
                j <= m_n == all.len(),
                rest@ == all.subrange(j as int, m_n as int),
                self.storage@ == locs,
                self.models@.len() == 0,
                out@.len() == j,
                forall|k: int| 0 <= k < j ==> #[trigger] out@[k] == model_after_refresh(all[k], locs, now),
            decreases m_n - j,
        {
            let mut m = rest.remove(0);
            assert(m == all[j as int]);
            assert(rest@ =~= all.subrange(j + 1, m_n as int));
            let missing = match &m.storage_location_id {
                Some(sid) => {
                    let (slot, found) = self.location_slot(sid.as_str());
                    proof {
                        if found {
                            crate::seqs::lemma_first_pos(location_ids(locs), key_is(sid@));
                        }
                    }
                    !(found && self.storage[slot].availability == StorageAvailability::Available)
                },
                None => false,
            };
            if missing {
                m.health = ModelHealth::Missing;
                m.updated_at = now;
            }
            out.push(m);
            j += 1;
        }
        proof {
            assert(model_ids(out@) =~= mkeys);
        }
        self.models = out;
        self.storage_locations()
    }

    /// `refresh_storage_at` at the current time.
    pub fn refresh_storage_locations(&mut self, probes: &Vec<StorageProbe>) -> (r: Result<
        Vec<ModelStorageLocation>,
        ModelManagementError,
    >)
        requires
            probes@.len() == old(self).locations().len(),
        ensures
            (r matches Err(e) && platform_unreadable(e) && *final(self) == *old(self)) || (r is Ok && exists|now: Timestamp|
                #[trigger] refresh_post(*old(self), *final(self), probes@, now, r->Ok_0@)),
    {
        let now = match crate::platform::now_millis() {
            Some(v) => v,
            None => {
                return Err(clock_error());
            },
        };
        let v = self.refresh_storage_at(probes, now);
        let r: Result<Vec<ModelStorageLocation>, ModelManagementError> = Ok(v);
        assert(refresh_post(*old(self), *self, probes@, now, r->Ok_0@));
        r
    }
}

} // verus!

verus! {

impl ModelManager {
    /// Reads the GGUF files the application found below storage `storage_id`
    /// at `now`: they replace the models found there before. The location
    /// must exist and be available.
    pub fn discover_storage_at(
        &mut self,
        storage_id: &str,
        files: &Vec<FoundFile>,
        now: Timestamp,
        windows: bool,
    ) -> (r: Result<Vec<ModelRecord>, ModelManagementError>)
        ensures
            discover_post(*old(self), *final(self), storage_id@, files@, now, windows, r),
    {
        let (slot, exists) = self.location_slot(storage_id);
        if !exists {
            return Err(ModelManagementError::StorageNotFound(owned(storage_id)));
        }
        proof {
            crate::seqs::lemma_first_pos(location_ids(self.locations()), key_is(storage_id@));
        }
        if self.storage[slot].availability != StorageAvailability::Available {
            return Err(ModelManagementError::InvalidStorage(owned("保存先は現在利用できません")));
        }
        let location = copy_location(&self.storage[slot]);
        let mut discovered: Vec<ModelRecord> = Vec::new();
        let mut i: usize = 0;
        while i < files.len()
            invariant
                i <= files@.len(),
                discovered@.len() == gguf_files(files@.take(i as int)).len(),
                forall|k: int|
                    0 <= k < discovered@.len() ==> local_record(
                        location,
                        (#[trigger] gguf_files(files@.take(i as int))[k]).path@,
                        gguf_files(files@.take(i as int))[k].size,
                        now,
                        windows,
                        discovered@[k],
                    ),
            decreases files.len() - i,
        {
            let f = &files[i];
            let ext = crate::paths::extension(f.path.as_str());
            let gguf = match &ext {
                Some(e) => ignore_case_eq(e.as_str(), "gguf"),
                None => false,
            };
            proof {
                assert(files@.take(i + 1).drop_last() =~= files@.take(i as int));
                reveal_strlit("gguf");
            }
            if gguf {
                discovered.push(local_model_record(&location, f.path.as_str(), f.size, now, windows));
            }
            i += 1;
        }
        assert(files@.take(files@.len() as int) =~= files@);
        let ghost stored = discovered@;
        self.retain_models(Ghost(found_pred(storage_id@)), storage_id, ModelSource::LocalStorage, "", true);
        let copies = self.store_all(discovered);
        Ok(copies)
    }

    /// `discover_storage_at` at the current time, with this platform's path rules.
    pub fn discover_storage(&mut self, storage_id: &str, files: &Vec<FoundFile>) -> (r: Result<
        Vec<ModelRecord>,
        ModelManagementError,
    >)
        ensures
            discovery_refused(*old(self), storage_id@) ==> forall|now: Timestamp, windows: bool|
                #[trigger] discover_post(
                    *old(self),
                    *final(self),
                    storage_id@,
                    files@,
                    now,
                    windows,
                    r,
                ),
            !discovery_refused(*old(self), storage_id@) ==> (r matches Err(e) && platform_unreadable(e) && *final(self) == *old(self)) || exists|now: Timestamp, windows: bool|
                #[trigger] discover_post(
                    *old(self),
                    *final(self),
                    storage_id@,
                    files@,
                    now,
                    windows,
                    r,
                ),
    {
        let windows = crate::platform::host_is_windows();
        let (slot, found) = self.location_slot(storage_id);
        if !found || self.storage[slot].availability != StorageAvailability::Available {
            return self.discover_storage_at(storage_id, files, 0, windows);
        }
        let now = match crate::platform::now_millis() {
            Some(v) => v,
            None => {
                return Err(clock_error());
            },
        };
        self.discover_storage_at(storage_id, files, now, windows)
    }

    /// Takes in what a runtime reported at `now`. A runtime that is not ready
    /// marks its known models unavailable and returns them; a ready runtime's
    /// models replace those it reported before and are returned.
    pub fn ingest_runtime_snapshot_at(
        &mut self,
        snapshot: &crate::types::LocalRuntimeSnapshot,
        now: Timestamp,
    ) -> (r: Vec<ModelRecord>)
        ensures
            ingest_post(*old(self), *final(self), *snapshot, now, r@),
    {
        let runtime_id = snapshot.provider_id.as_str();
        let source = if ignore_case_eq(runtime_id, "ollama") {
            ModelSource::Ollama
        } else if ignore_case_eq(runtime_id, "lm-studio") {
            ModelSource::LmStudio
        } else {
            ModelSource::Remote
        };
        let prefix = crate::text::concat2(runtime_id, ":");
        let mut models: Vec<ModelRecord> = Vec::new();
        let mut i: usize = 0;
        while i < snapshot.installed_models.len()
            invariant
                i <= snapshot.installed_models@.len(),
                source == runtime_source(snapshot.provider_id@),
                models@.len() == i,
                forall|k: int|
                    0 <= k < i ==> runtime_record(
                        *snapshot,
                        snapshot.installed_models@[k],
                        source,
                        now,
                        #[trigger] models@[k],
                    ),
            decreases snapshot.installed_models.len() - i,
        {
            models.push(runtime_model_record(snapshot, &snapshot.installed_models[i], source, now));
            i += 1;
        }
        if snapshot.health != crate::types::HealthState::Ready {
            self.mark_unavailable(source, prefix.as_str(), now);
            return self.models_of_runtime(source, prefix.as_str());
        }
        self.retain_models(Ghost(runtime_pred(source, prefix@)), "", source, prefix.as_str(), false);
        self.store_all(models)
    }

    /// `ingest_runtime_snapshot_at` at the current time.
    pub fn ingest_runtime_snapshot(&mut self, snapshot: &crate::types::LocalRuntimeSnapshot) -> (r:
        Result<Vec<ModelRecord>, ModelManagementError>)
        ensures
            (r matches Err(e) && platform_unreadable(e) && *final(self) == *old(self)) || (r is Ok && exists|now: Timestamp|
                #[trigger] ingest_post(*old(self), *final(self), *snapshot, now, r->Ok_0@)),
    {
        let now = match crate::platform::now_millis() {
            Some(v) => v,
            None => {
                return Err(clock_error());
            },
        };
        let v = self.ingest_runtime_snapshot_at(snapshot, now);
        let r: Result<Vec<ModelRecord>, ModelManagementError> = Ok(v);
        assert(ingest_post(*old(self), *self, *snapshot, now, r->Ok_0@));
        r
    }

    fn mark_unavailable(&mut self, source: ModelSource, prefix: &str, now: Timestamp)
        ensures
            final(self).locations() == old(self).locations(),
            final(self).models().len() == old(self).models().len(),
            forall|i: int|
                0 <= i < old(self).models().len() ==> #[trigger] final(self).models()[i] == if of_runtime(
                    old(self).models()[i],
                    source,
                    prefix@,
                ) {
                    ModelRecord { health: ModelHealth::Unavailable, updated_at: now, ..old(self).models()[i] }
                } else {
                    old(self).models()[i]
                },
    {
        proof {
            use_type_invariant(&*self);
        }
        let ghost all = self.models@;
        let ghost mkeys = model_ids(all);
        let mut rest: Vec<ModelRecord> = Vec::new();
        std::mem::swap(&mut rest, &mut self.models);
        let n = rest.len();
        let mut out: Vec<ModelRecord> = Vec::new();
        let mut j: usize = 0;
        while j < n
            invariant
                j <= n == all.len(),
                rest@ == all.subrange(j as int, n as int),
                out@.len() == j,
                forall|k: int|
                    0 <= k < j ==> #[trigger] out@[k] == if of_runtime(all[k], source, prefix@) {
                        ModelRecord { health: ModelHealth::Unavailable, updated_at: now, ..all[k] }
                    } else {
                        all[k]
                    },
            decreases n - j,
        {
            let mut m = rest.remove(0);
            assert(m == all[j as int]);
            assert(rest@ =~= all.subrange(j + 1, n as int));
            if m.source == source && crate::text::starts_with(m.source_key.as_str(), prefix) {
                m.health = ModelHealth::Unavailable;
                m.updated_at = now;
            }
            out.push(m);
            j += 1;
        }
        proof {
            assert(model_ids(out@) =~= mkeys);
        }
        self.models = out;
    }

    /// Copies of the models of one runtime, in order.
    fn models_of_runtime(&self, source: ModelSource, prefix: &str) -> (r: Vec<ModelRecord>)
        ensures
            r@.len() == keep_models(self.models(), not_of_runtime(source, prefix@)).len(),
            forall|i: int|
                0 <= i < r@.len() ==> model_copied(
                    #[trigger] r@[i],
                    keep_models(self.models(), not_of_runtime(source, prefix@))[i],
                ),
    {
        let ghost drop = not_of_runtime(source, prefix@);
        let mut r: Vec<ModelRecord> = Vec::new();
        let mut i: usize = 0;
        while i < self.models.len()
            invariant
                i <= self.models@.len(),
                drop == not_of_runtime(source, prefix@),
                r@.len() == keep_models(self.models@.take(i as int), drop).len(),
                forall|k: int|
                    0 <= k < r@.len() ==> model_copied(
                        #[trigger] r@[k],
                        keep_models(self.models@.take(i as int), drop)[k],
                    ),
            decreases self.models.len() - i,
        {
            let m = &self.models[i];
            proof {
                assert(self.models@.take(i + 1).drop_last() =~= self.models@.take(i as int));
            }
            if m.source == source && crate::text::starts_with(m.source_key.as_str(), prefix) {
                r.push(copy_model(m));
            }
            i += 1;
        }
        assert(self.models@.take(self.models@.len() as int) =~= self.models@);
        r
    }
}

/// Models not of the runtime: the complement of `runtime_pred`.
pub open spec fn not_of_runtime(source: ModelSource, prefix: Seq<char>) -> spec_fn(ModelRecord) -> bool {
    |m: ModelRecord| !of_runtime(m, source, prefix)
}

} // verus!

verus! {

/// How a model fits the hardware, and why.
pub open spec fn assessed(m: ModelRecord, h: HardwareSnapshot) -> (CompatibilityState, Seq<char>) {
    if !m.installed || m.health == ModelHealth::Missing {
        (CompatibilityState::Unsupported, "モデルが利用可能な保存先またはRuntimeに存在しません"@)
    } else if m.health != ModelHealth::Ready {
        (CompatibilityState::Unknown, "モデルの状態がReadyではありません"@)
    } else if m.file_size is Some && h.gpu_vram_available is Some {
        let size = m.file_size->Some_0;
        if size <= h.gpu_vram_available->Some_0 {
            (
                CompatibilityState::Compatible,
                "モデル "@ + crate::numtext::dec(size as nat) + " bytes は利用可能VRAM内です"@,
            )
        } else if h.system_ram_available matches Some(ram) && size <= ram {
            (CompatibilityState::CompatibleWithOffload, "VRAM単独では不足しますがRAM Offload候補です"@)
        } else {
            (CompatibilityState::ResourceConstrained, "推定必要量が利用可能VRAM/RAMを超えます"@)
        }
    } else if m.file_size is Some && h.system_ram_available is Some {
        if m.file_size->Some_0 <= h.system_ram_available->Some_0 {
            (
                CompatibilityState::CompatibleWithOffload,
                "GPU総量は未検出ですがSystem RAMには収まります"@,
            )
        } else {
            (CompatibilityState::ResourceConstrained, "モデルサイズが利用可能System RAMを超えます"@)
        }
    } else {
        (
            CompatibilityState::Unknown,
            "判定に必要なモデルサイズまたはHardware情報が不足しています"@,
        )
    }
}

/// How a ready, installed model of known size fits hardware whose available
/// VRAM is known: it is compatible when it fits in VRAM; a candidate for RAM
/// offload when it does not but fits in the available system RAM; and
/// resource-constrained otherwise. The fit bonus grows with the fit.
pub proof fn assessment_follows_vram_then_ram(m: ModelRecord, h: HardwareSnapshot)
    requires
        m.installed,
        m.health == ModelHealth::Ready,
        m.file_size is Some,
        h.gpu_vram_available is Some,
    ensures
        ({
            let size = m.file_size->Some_0;
            let vram = h.gpu_vram_available->Some_0;
            let state = assessed(m, h).0;
            &&& size <= vram ==> state == CompatibilityState::Compatible
            &&& size > vram && (h.system_ram_available matches Some(ram) && size <= ram) ==> state
                == CompatibilityState::CompatibleWithOffload
            &&& size > vram && !(h.system_ram_available matches Some(ram) && size <= ram) ==> state
                == CompatibilityState::ResourceConstrained
        }),
        fit_bonus(CompatibilityState::Compatible) > fit_bonus(CompatibilityState::CompatibleWithOffload),
        fit_bonus(CompatibilityState::CompatibleWithOffload) > fit_bonus(CompatibilityState::ResourceConstrained),
{
}

/// Without a VRAM figure, a ready, installed model of known size is judged
/// by the available system RAM alone: an offload candidate when it fits,
/// resource-constrained when it does not.
pub proof fn assessment_without_vram_uses_ram(m: ModelRecord, h: HardwareSnapshot)
    requires
        m.installed,
        m.health == ModelHealth::Ready,
        m.file_size is Some,
        h.gpu_vram_available is None,
        h.system_ram_available is Some,
    ensures
        assessed(m, h).0 == if m.file_size->Some_0 <= h.system_ram_available->Some_0 {
            CompatibilityState::CompatibleWithOffload
        } else {
            CompatibilityState::ResourceConstrained
        },
{
}

/// A model that is not installed, or whose files are missing, is unsupported;
/// an installed model that is not ready, or a ready one whose size or whose
/// available memory is unknown, has an unknown fit.
pub proof fn models_that_cannot_be_judged_are_not_compatible(m: ModelRecord, h: HardwareSnapshot)
    ensures
        !m.installed || m.health == ModelHealth::Missing ==> assessed(m, h).0
            == CompatibilityState::Unsupported,
        m.installed && m.health != ModelHealth::Missing && m.health != ModelHealth::Ready
            ==> assessed(m, h).0 == CompatibilityState::Unknown,
        m.installed && m.health == ModelHealth::Ready && (m.file_size is None || (
        h.gpu_vram_available is None && h.system_ram_available is None)) ==> assessed(m, h).0
            == CompatibilityState::Unknown,
{
}

/// More memory never makes a model fit worse: on two machines that know the
/// same kinds of available memory, the one with at least as much available
/// VRAM and system RAM gives the model at least the same fit bonus.
pub proof fn more_memory_never_worsens_the_fit(
    m: ModelRecord,
    h1: HardwareSnapshot,
    h2: HardwareSnapshot,
)
    requires
        h1.gpu_vram_available is Some <==> h2.gpu_vram_available is Some,
        h1.system_ram_available is Some <==> h2.system_ram_available is Some,
        h1.gpu_vram_available is Some ==> h1.gpu_vram_available->Some_0
            <= h2.gpu_vram_available->Some_0,
        h1.system_ram_available is Some ==> h1.system_ram_available->Some_0
            <= h2.system_ram_available->Some_0,
    ensures
        fit_bonus(assessed(m, h1).0) <= fit_bonus(assessed(m, h2).0),
{
}

/// `a` is the assessment of `m` on `h`.
pub open spec fn assessment_of(a: CompatibilityAssessment, m: ModelRecord, h: HardwareSnapshot) -> bool {
    &&& a.model_id == m.id
    &&& a.state == assessed(m, h).0
    &&& a.reasons@.len() == 1
    &&& a.reasons@[0]@ == assessed(m, h).1
}

/// The score of a candidate: ten per capability and a bonus by fit.
pub open spec fn fit_bonus(s: CompatibilityState) -> nat {
    match s {
        CompatibilityState::Compatible => 50,
        CompatibilityState::CompatibleWithOffload => 35,
        CompatibilityState::Unknown => 15,
        CompatibilityState::ResourceConstrained => 5,
        CompatibilityState::Unsupported => 0,
    }
}

fn one_reason(s: &str) -> (v: Vec<String>)
    ensures
        v@.len() == 1,
        v@[0]@ == s@,
{
    let mut v: Vec<String> = Vec::new();
    v.push(owned(s));
    v
}

impl ModelManager {
    /// Judges whether the hardware can run the model.
    pub fn assess(&self, model: &ModelRecord, hardware: &HardwareSnapshot) -> (a: CompatibilityAssessment)
        ensures
            assessment_of(a, *model, *hardware),
    {
        let (state, reasons) = if !model.installed || model.health == ModelHealth::Missing {
            (
                CompatibilityState::Unsupported,
                one_reason("モデルが利用可能な保存先またはRuntimeに存在しません"),
            )
        } else if model.health != ModelHealth::Ready {
            (CompatibilityState::Unknown, one_reason("モデルの状態がReadyではありません"))
        } else if model.file_size.is_some() && hardware.gpu_vram_available.is_some() {
            let size = model.file_size.unwrap();
            let available = hardware.gpu_vram_available.unwrap();
            if size <= available {
                let text = crate::text::concat3(
                    "モデル ",
                    crate::numtext::u64_text(size).as_str(),
                    " bytes は利用可能VRAM内です",
                );
                let mut v: Vec<String> = Vec::new();
                v.push(text);
                (CompatibilityState::Compatible, v)
            } else if match hardware.system_ram_available {
                Some(ram) => size <= ram,
                None => false,
            } {
                (
                    CompatibilityState::CompatibleWithOffload,
                    one_reason("VRAM単独では不足しますがRAM Offload候補です"),
                )
            } else {
                (
                    CompatibilityState::ResourceConstrained,
                    one_reason("推定必要量が利用可能VRAM/RAMを超えます"),
                )
            }
        } else if model.file_size.is_some() && hardware.system_ram_available.is_some() {
            if model.file_size.unwrap() <= hardware.system_ram_available.unwrap() {
                (
                    CompatibilityState::CompatibleWithOffload,
                    one_reason("GPU総量は未検出ですがSystem RAMには収まります"),
                )
            } else {
                (
                    CompatibilityState::ResourceConstrained,
                    one_reason("モデルサイズが利用可能System RAMを超えます"),
                )
            }
        } else {
            (
                CompatibilityState::Unknown,
                one_reason("判定に必要なモデルサイズまたはHardware情報が不足しています"),
            )
        };
        CompatibilityAssessment { model_id: model.id.clone(), state, reasons }
    }
}

} // verus!

verus! {

/// Whether a runtime the request allows can run the model: any, when the
/// request allows every runtime; else one of the model's runtimes that is
/// allowed and available or compatible.
pub open spec fn runtime_allowed(m: ModelRecord, allowed: Seq<Seq<char>>) -> bool {
    allowed.len() == 0 || exists|i: int|
        0 <= i < m.runtime_compatibility@.len() && allowed.contains(
            (#[trigger] m.runtime_compatibility@[i]).runtime_id@,
        ) && (m.runtime_compatibility@[i].state == RuntimeCompatibilityState::Available
            || m.runtime_compatibility@[i].state == RuntimeCompatibilityState::Compatible)
}

/// A model the request may choose: local if asked, with every required
/// capability, on an allowed runtime, and not unsupported by the hardware.
pub open spec fn eligible(m: ModelRecord, req: ModelSelectionRequest, h: HardwareSnapshot) -> bool {
    &&& !req.local_only || m.local
    &&& forall|c: ModelCapability| req.required_capabilities.has(c) ==> m.capabilities.has(c)
    &&& runtime_allowed(m, crate::text::views_of(req.allowed_runtime_ids@))
    &&& assessed(m, h).0 != CompatibilityState::Unsupported
}

/// `c` is the candidate made of model `m` on hardware `h`.
pub open spec fn candidate_of(c: ModelCandidate, m: ModelRecord, h: HardwareSnapshot) -> bool {
    &&& model_copied(c.model, m)
    &&& assessment_of(c.compatibility, m, h)
    &&& c.score == m.capabilities.count() * 10 + fit_bonus(assessed(m, h).0)
    &&& c.reasons@ == c.compatibility.reasons@
}

/// `a` ranks before `b`: a higher score, or an equal score and a smaller
/// identifier.
pub open spec fn ranks_first(a: ModelCandidate, b: ModelCandidate) -> bool {
    a.score > b.score || (a.score == b.score && crate::order::text_lt(a.model.id@, b.model.id@))
}

proof fn lemma_ranks_first_order(a: ModelCandidate, b: ModelCandidate, c: ModelCandidate)
    ensures
        ranks_first(a, b) && ranks_first(b, c) ==> ranks_first(a, c),
        a.model.id@ != b.model.id@ ==> ranks_first(a, b) || ranks_first(b, a),
        !(ranks_first(a, b) && ranks_first(b, a)),
{
    crate::order::lemma_text_lt_total(a.model.id@, b.model.id@);
    if ranks_first(a, b) && ranks_first(b, c) && a.score == b.score && b.score == c.score {
        crate::order::lemma_text_lt_transitive(a.model.id@, b.model.id@, c.model.id@);
    }
}

fn listed(v: &Vec<String>, s: &str) -> (b: bool)
    ensures
        b == crate::text::views_of(v@).contains(s@),
{
    let mut i: usize = 0;
    while i < v.len()
        invariant
            i <= v@.len(),
            forall|k: int| 0 <= k < i ==> v@[k]@ != s@,
        decreases v.len() - i,
    {
        if str_eq(v[i].as_str(), s) {
            assert(crate::text::views_of(v@)[i as int] == s@);
            return true;
        }
        i += 1;
    }
    proof {
        if crate::text::views_of(v@).contains(s@) {
            let k = choose|k: int| 0 <= k < crate::text::views_of(v@).len() && crate::text::views_of(
                v@,
            )[k] == s@;
            assert(v@[k]@ == s@);
        }
    }
    false
}

fn allowed_runtime(m: &ModelRecord, allowed: &Vec<String>) -> (b: bool)
    ensures
        b == runtime_allowed(*m, crate::text::views_of(allowed@)),
{
    if allowed.len() == 0 {
        return true;
    }
    let mut i: usize = 0;
    while i < m.runtime_compatibility.len()
        invariant
            i <= m.runtime_compatibility@.len(),
            allowed@.len() > 0,
            forall|k: int|
                0 <= k < i ==> !(crate::text::views_of(allowed@).contains(
                    (#[trigger] m.runtime_compatibility@[k]).runtime_id@,
                ) && (m.runtime_compatibility@[k].state == RuntimeCompatibilityState::Available
                    || m.runtime_compatibility@[k].state == RuntimeCompatibilityState::Compatible)),
        decreases m.runtime_compatibility.len() - i,
    {
        let rc = &m.runtime_compatibility[i];
        if (rc.state == RuntimeCompatibilityState::Available || rc.state
            == RuntimeCompatibilityState::Compatible) && listed(allowed, rc.runtime_id.as_str()) {
            return true;
        }
        i += 1;
    }
    false
}

fn bonus(s: CompatibilityState) -> (b: u32)
    ensures
        b == fit_bonus(s),
{
    match s {
        CompatibilityState::Compatible => 50,
        CompatibilityState::CompatibleWithOffload => 35,
        CompatibilityState::Unknown => 15,
        CompatibilityState::ResourceConstrained => 5,
        CompatibilityState::Unsupported => 0,
    }
}

fn ranks_before(a: &ModelCandidate, b: &ModelCandidate) -> (r: bool)
    ensures
        r == ranks_first(*a, *b),
{
    a.score > b.score || (a.score == b.score && crate::order::text_less(
        a.model.id.as_str(),
        b.model.id.as_str(),
    ))
}

/// Candidates stay ordered when one is placed before the first it ranks
/// before.
#[verifier::spinoff_prover]
proof fn lemma_ranked_insert(s: Seq<ModelCandidate>, c: ModelCandidate, p: int)
    requires
        0 <= p <= s.len(),
        forall|a: int, b: int| 0 <= a < b < s.len() ==> ranks_first(#[trigger] s[a], #[trigger] s[b]),
        forall|a: int| 0 <= a < s.len() ==> (#[trigger] s[a]).model.id@ != c.model.id@,
        forall|a: int| 0 <= a < p ==> !ranks_first(c, #[trigger] s[a]),
        p < s.len() ==> ranks_first(c, s[p]),
    ensures
        forall|a: int, b: int|
            0 <= a < b < s.insert(p, c).len() ==> ranks_first(
                #[trigger] s.insert(p, c)[a],
                #[trigger] s.insert(p, c)[b],
            ),
{
    let n = s.insert(p, c);
    assert forall|a: int, b: int| 0 <= a < b < n.len() implies ranks_first(#[trigger] n[a], #[trigger] n[b]) by {
        if b < p {
            assert(n[a] == s[a] && n[b] == s[b]);
        } else if b == p {
            assert(n[a] == s[a]);
            lemma_ranks_first_order(s[a], c, c);
        } else if a < p {
            assert(n[a] == s[a] && n[b] == s[b - 1]);
            lemma_ranks_first_order(s[a], c, c);
            lemma_ranks_first_order(c, s[p], s[b - 1]);
            if b - 1 > p {
                lemma_ranks_first_order(s[a], c, s[p]);
                lemma_ranks_first_order(s[a], s[p], s[b - 1]);
            }
            lemma_ranks_first_order(s[a], c, s[b - 1]);
        } else if a == p {
            assert(n[b] == s[b - 1]);
            if b - 1 > p {
                lemma_ranks_first_order(c, s[p], s[b - 1]);
            }
        } else {
            assert(n[a] == s[a - 1] && n[b] == s[b - 1]);
        }
    }
}

/// `c` is made of an eligible model among the first `n`.
pub open spec fn drawn(c: ModelCandidate, models: Seq<ModelRecord>, n: int, req: ModelSelectionRequest, h: HardwareSnapshot) -> bool {
    exists|k: int| #![trigger models[k]] 0 <= k < n && eligible(models[k], req, h) && candidate_of(c, models[k], h)
}

/// Some candidate is made of model `m`.
pub open spec fn has_candidate(out: Seq<ModelCandidate>, m: ModelRecord, h: HardwareSnapshot) -> bool {
    exists|a: int| #![trigger out[a]] 0 <= a < out.len() && candidate_of(out[a], m, h)
}

/// Each candidate is made of an eligible model among the first `n`.
#[verifier::opaque]
pub open spec fn drawn_from(
    out: Seq<ModelCandidate>,
    models: Seq<ModelRecord>,
    n: int,
    req: ModelSelectionRequest,
    h: HardwareSnapshot,
) -> bool {
    forall|a: int| 0 <= a < out.len() ==> drawn(#[trigger] out[a], models, n, req, h)
}

/// Each eligible model among the first `n` has a candidate.
#[verifier::opaque]
pub open spec fn all_drawn(
    out: Seq<ModelCandidate>,
    models: Seq<ModelRecord>,
    n: int,
    req: ModelSelectionRequest,
    h: HardwareSnapshot,
) -> bool {
    forall|k: int| 0 <= k < n && eligible(#[trigger] models[k], req, h) ==> has_candidate(out, models[k], h)
}

/// The candidates are in ranking order.
#[verifier::opaque]
pub open spec fn in_rank_order(out: Seq<ModelCandidate>) -> bool {
    forall|a: int, b: int| 0 <= a < b < out.len() ==> ranks_first(#[trigger] out[a], #[trigger] out[b])
}

proof fn lemma_drawn_grows(c: ModelCandidate, models: Seq<ModelRecord>, n: int, req: ModelSelectionRequest, h: HardwareSnapshot)
    requires
        drawn(c, models, n, req, h),
    ensures
        drawn(c, models, n + 1, req, h),
{
    let k = choose|k: int| #![trigger models[k]] 0 <= k < n && eligible(models[k], req, h) && candidate_of(c, models[k], h);
    assert(0 <= k < n + 1 && eligible(models[k], req, h) && candidate_of(c, models[k], h));
}

proof fn lemma_skip_model(
    out: Seq<ModelCandidate>,
    models: Seq<ModelRecord>,
    i: int,
    req: ModelSelectionRequest,
    h: HardwareSnapshot,
)
    requires
        0 <= i < models.len(),
        drawn_from(out, models, i, req, h),
        all_drawn(out, models, i, req, h),
        !eligible(models[i], req, h),
    ensures
        drawn_from(out, models, i + 1, req, h),
        all_drawn(out, models, i + 1, req, h),
{
    reveal(drawn_from);
    reveal(all_drawn);
    assert forall|a: int| 0 <= a < out.len() implies drawn(#[trigger] out[a], models, i + 1, req, h) by {
        lemma_drawn_grows(out[a], models, i, req, h);
    }
}

/// The candidates made of other models than the new one have other identifiers.
proof fn lemma_new_identifier(
    before: Seq<ModelCandidate>,
    c: ModelCandidate,
    models: Seq<ModelRecord>,
    i: int,
    req: ModelSelectionRequest,
    h: HardwareSnapshot,
)
    requires
        0 <= i < models.len(),
        crate::order::keys_sorted(model_ids(models)),
        drawn_from(before, models, i, req, h),
        candidate_of(c, models[i], h),
    ensures
        forall|a: int| 0 <= a < before.len() ==> (#[trigger] before[a]).model.id@ != c.model.id@,
{
    reveal(drawn_from);
    let keys = model_ids(models);
    assert forall|a: int| 0 <= a < before.len() implies (#[trigger] before[a]).model.id@ != c.model.id@ by {
        assert(drawn(before[a], models, i, req, h));
        let k = choose|k: int| #![trigger models[k]] 0 <= k < i && eligible(models[k], req, h) && candidate_of(before[a], models[k], h);
        assert(keys[k] == models[k].id@);
        assert(keys[i] == models[i].id@);
        assert(crate::order::text_lt(keys[k], keys[i]));
        crate::order::lemma_text_lt_irreflexive(keys[i]);
    }
}

#[verifier::spinoff_prover]
#[verifier::rlimit(40)]
proof fn lemma_add_candidate(
    before: Seq<ModelCandidate>,
    c: ModelCandidate,
    p: int,
    models: Seq<ModelRecord>,
    i: int,
    req: ModelSelectionRequest,
    h: HardwareSnapshot,
)
    requires
        0 <= i < models.len(),
        0 <= p <= before.len(),
        crate::order::keys_sorted(model_ids(models)),
        drawn_from(before, models, i, req, h),
        all_drawn(before, models, i, req, h),
        in_rank_order(before),
        eligible(models[i], req, h),
        candidate_of(c, models[i], h),
        forall|a: int| 0 <= a < p ==> !ranks_first(c, #[trigger] before[a]),
        p < before.len() ==> ranks_first(c, before[p]),
    ensures
        drawn_from(before.insert(p, c), models, i + 1, req, h),
        all_drawn(before.insert(p, c), models, i + 1, req, h),
        in_rank_order(before.insert(p, c)),
{
    lemma_new_identifier(before, c, models, i, req, h);
    reveal(in_rank_order);
    lemma_ranked_insert(before, c, p);
    let out = before.insert(p, c);
    reveal(drawn_from);
    assert forall|a: int| 0 <= a < out.len() implies drawn(#[trigger] out[a], models, i + 1, req, h) by {
        if a == p {
            assert(0 <= i < i + 1 && eligible(models[i], req, h) && candidate_of(out[a], models[i], h));
        } else if a < p {
            assert(out[a] == before[a]);
            lemma_drawn_grows(before[a], models, i, req, h);
        } else {
            assert(out[a] == before[a - 1]);
            lemma_drawn_grows(before[a - 1], models, i, req, h);
        }
    }
    reveal(all_drawn);
    assert forall|k: int| 0 <= k < i + 1 && eligible(#[trigger] models[k], req, h) implies has_candidate(
        out,
        models[k],
        h,
    ) by {
        if k < i {
            assert(has_candidate(before, models[k], h));
            let a = choose|a: int| #![trigger before[a]] 0 <= a < before.len() && candidate_of(before[a], models[k], h);
            if a < p {
                assert(out[a] == before[a]);
            } else {
                assert(out[a + 1] == before[a]);
            }
        } else {
            assert(out[p] == c);
        }
    }
}

impl ModelManager {
    /// The models the request may choose, best first: by score, then by
    /// identifier. Each candidate carries its model, assessment and score.
    pub fn rank_candidates(&self, request: &ModelSelectionRequest, hardware: &HardwareSnapshot) -> (r: Vec<
        ModelCandidate,
    >)
        ensures
            forall|a: int, b: int| 0 <= a < b < r@.len() ==> ranks_first(#[trigger] r@[a], #[trigger] r@[b]),
            forall|a: int|
                0 <= a < r@.len() ==> drawn(
                    #[trigger] r@[a],
                    self.models(),
                    self.models().len() as int,
                    *request,
                    *hardware,
                ),
            forall|k: int|
                0 <= k < self.models().len() && eligible(#[trigger] self.models()[k], *request, *hardware)
                    ==> has_candidate(r@, self.models()[k], *hardware),
    {
        proof {
            use_type_invariant(self);
        }
        let ghost models = self.models@;
        let mut out: Vec<ModelCandidate> = Vec::new();
        proof {
            reveal(drawn_from);
            reveal(all_drawn);
            reveal(in_rank_order);
        }
        let mut i: usize = 0;
        while i < self.models.len()
            invariant
                i <= models.len(),
                models == self.models@,
                crate::order::keys_sorted(model_ids(models)),
                in_rank_order(out@),
                drawn_from(out@, models, i as int, *request, *hardware),
                all_drawn(out@, models, i as int, *request, *hardware),
            decreases self.models.len() - i,
        {
            let m = &self.models[i];
            let fits = (!request.local_only || m.local) && request.required_capabilities.is_subset(
                &m.capabilities,
            ) && allowed_runtime(m, &request.allowed_runtime_ids);
            let compatibility = self.assess(m, hardware);
            if fits && compatibility.state != CompatibilityState::Unsupported {
                let score = m.capabilities.len() * 10 + bonus(compatibility.state);
                let reasons = crate::relay::clone_strings(&compatibility.reasons);
                let c = ModelCandidate { model: copy_model(m), compatibility, score, reasons };
                let mut p: usize = 0;
                while p < out.len() && !ranks_before(&c, &out[p])
                    invariant
                        p <= out@.len(),
                        forall|a: int| 0 <= a < p ==> !ranks_first(c, #[trigger] out@[a]),
                    decreases out.len() - p,
                {
                    p += 1;
                }
                proof {
                    lemma_add_candidate(out@, c, p as int, models, i as int, *request, *hardware);
                }
                out.insert(p, c);
            } else {
                proof {
                    lemma_skip_model(out@, models, i as int, *request, *hardware);
                }
            }
            i += 1;
        }
        proof {
            reveal(drawn_from);
            reveal(all_drawn);
            reveal(in_rank_order);
        }
        out
    }
}

} // verus!

verus! {

/// The steps that check a move.
pub open spec fn move_checks() -> Seq<Seq<char>> {
    seq![
        "コピー完了後にFile Sizeを照合"@,
        "Registry更新後に旧ファイルを削除"@,
        "失敗時はRegistryを変更しない"@,
    ]
}

/// The destination cannot take `required` bytes: unavailable, or with less
/// free space than that when its free space is known.
pub open spec fn cannot_take(d: ModelStorageLocation, required: u64) -> bool {
    d.availability != StorageAvailability::Available || (d.free_space matches Some(f) && f < required)
}

pub open spec fn invalid_storage(r: Result<ModelMovePlan, ModelManagementError>, m: Seq<char>) -> bool {
    r matches Err(e) && e matches ModelManagementError::InvalidStorage(x) && x@ == m
}

impl ModelManager {
    /// Plans moving a model's file to another storage location, checking
    /// everything first and touching nothing.
    pub fn plan_move(&self, model_id: &str, destination_storage_id: &str) -> (r: Result<
        ModelMovePlan,
        ModelManagementError,
    >)
        ensures
            ({
                let mp = key_pos(model_ids(self.models()), model_id@);
                let m = self.models()[mp];
                let dp = key_pos(location_ids(self.locations()), destination_storage_id@);
                let d = self.locations()[dp];
                let required: u64 = match m.file_size {
                    Some(s) => s,
                    None => 0,
                };
                if mp < 0 {
                    r matches Err(e) && e matches ModelManagementError::ModelNotFound(x) && x@ == model_id@
                } else if m.storage_path is None {
                    invalid_storage(r, "モデルの実ファイル位置が不明です"@)
                } else if dp < 0 {
                    r matches Err(e) && e matches ModelManagementError::StorageNotFound(x) && x@
                        == destination_storage_id@
                } else if cannot_take(d, required) {
                    invalid_storage(r, "移動先が利用不能または空き容量不足です"@)
                } else if crate::paths::path_file_name(m.storage_path->Some_0@) is None {
                    invalid_storage(r, "モデル名が無効です"@)
                } else {
                    r matches Ok(plan) && {
                        &&& plan.model_id@ == model_id@
                        &&& plan.source_path == m.storage_path->Some_0
                        &&& plan.destination_path@ == crate::postgres_runtime::path_joined(
                            d.path@,
                            crate::paths::path_file_name(m.storage_path->Some_0@)->Some_0,
                        )
                        &&& plan.required_bytes == required
                        &&& crate::text::views_of(plan.verification@) == move_checks()
                    }
                }
            }),
    {
        let model = match self.get_model(model_id) {
            Ok(m) => m,
            Err(e) => {
                return Err(e);
            },
        };
        let source_path = match model.storage_path {
            Some(p) => p,
            None => {
                return Err(ModelManagementError::InvalidStorage(owned("モデルの実ファイル位置が不明です")));
            },
        };
        let (slot, found) = self.location_slot(destination_storage_id);
        if !found {
            return Err(ModelManagementError::StorageNotFound(owned(destination_storage_id)));
        }
        proof {
            crate::seqs::lemma_first_pos(location_ids(self.locations()), key_is(destination_storage_id@));
        }
        let destination = &self.storage[slot];
        let required_bytes: u64 = match model.file_size {
            Some(s) => s,
            None => 0,
        };
        let short = match destination.free_space {
            Some(space) => space < required_bytes,
            None => false,
        };
        if destination.availability != StorageAvailability::Available || short {
            return Err(ModelManagementError::InvalidStorage(owned("移動先が利用不能または空き容量不足です")));
        }
        let file_name = match crate::paths::file_name(source_path.as_str()) {
            Some(n) => n,
            None => {
                return Err(ModelManagementError::InvalidStorage(owned("モデル名が無効です")));
            },
        };
        let mut verification: Vec<String> = Vec::new();
        verification.push(owned("コピー完了後にFile Sizeを照合"));
        verification.push(owned("Registry更新後に旧ファイルを削除"));
        verification.push(owned("失敗時はRegistryを変更しない"));
        assert(crate::text::views_of(verification@) =~= move_checks());
        Ok(
            ModelMovePlan {
                model_id: owned(model_id),
                source_path,
                destination_path: crate::postgres_runtime::join_path(
                    destination.path.as_str(),
                    file_name.as_str(),
                ),
                required_bytes,
                verification,
            },
        )
    }

    /// The memory and storage models could use at `now`: the system memory
    /// the application measured, no GPU totals, the video memory the
    /// runtimes' loaded models take, and the storage locations.
    pub fn hardware_snapshot_at(
        &self,
        runtimes: &Vec<crate::types::LocalRuntimeSnapshot>,
        system_ram_total: Option<u64>,
        system_ram_available: Option<u64>,
        now: Timestamp,
    ) -> (h: HardwareSnapshot)
        requires
            crate::types::vram_bytes(runtimes@) <= u64::MAX,
        ensures
            h.system_ram_total == system_ram_total,
            h.system_ram_available == system_ram_available,
            h.gpu_vram_total is None && h.gpu_vram_available is None,
            h.gpu_vram_in_use == crate::types::vram_bytes(runtimes@),
            h.storage_locations@ == self.locations(),
            h.observed_at == now,
    {
        HardwareSnapshot {
            system_ram_total,
            system_ram_available,
            gpu_vram_total: None,
            gpu_vram_available: None,
            gpu_vram_in_use: crate::types::total_vram(runtimes),
            storage_locations: self.storage_locations(),
            observed_at: now,
        }
    }
}

} // verus!

verus! {

/// The key models are grouped by for duplicates: the lowercase name of the
/// model's file (its display name when no file name is known), and its size.
pub open spec fn dup_key(m: ModelRecord) -> (Seq<char>, Option<u64>) {
    let name = match m.storage_path {
        Some(p) => match crate::paths::path_file_name(p@) {
            Some(n) => n,
            None => m.display_name@,
        },
        None => m.display_name@,
    };
    (crate::platform::unicode_lowercase(name), m.file_size)
}

/// The order of keys: by name, then by size with an unknown size first.
pub open spec fn key_lt(a: (Seq<char>, Option<u64>), b: (Seq<char>, Option<u64>)) -> bool {
    crate::order::text_lt(a.0, b.0) || (a.0 == b.0 && match (a.1, b.1) {
        (None, Some(_)) => true,
        (Some(x), Some(y)) => x < y,
        _ => false,
    })
}

proof fn lemma_key_order(a: (Seq<char>, Option<u64>), b: (Seq<char>, Option<u64>), c: (Seq<char>, Option<u64>))
    ensures
        !key_lt(a, a),
        a != b ==> key_lt(a, b) || key_lt(b, a),
        key_lt(a, b) && key_lt(b, c) ==> key_lt(a, c),
{
    crate::order::lemma_text_lt_irreflexive(a.0);
    crate::order::lemma_text_lt_total(a.0, b.0);
    crate::order::lemma_text_lt_total(b.0, c.0);
    crate::order::lemma_text_lt_total(a.0, c.0);
    if crate::order::text_lt(a.0, b.0) && crate::order::text_lt(b.0, c.0) {
        crate::order::lemma_text_lt_transitive(a.0, b.0, c.0);
    }
}

/// The identifiers of the models with key `k`, in order.
pub open spec fn ids_with_key(s: Seq<ModelRecord>, k: (Seq<char>, Option<u64>)) -> Seq<Seq<char>>
    decreases s.len(),
{
    if s.len() == 0 {
        Seq::empty()
    } else if dup_key(s.last()) == k {
        ids_with_key(s.drop_last(), k).push(s.last().id@)
    } else {
        ids_with_key(s.drop_last(), k)
    }
}

/// How a group of duplicates shows its evidence.
pub open spec fn dup_evidence(k: (Seq<char>, Option<u64>)) -> Seq<Seq<char>> {
    seq![
        "filename="@ + k.0,
        "file_size="@ + match k.1 {
            Some(v) => crate::numtext::dec(v as nat),
            None => "unknown"@,
        },
    ]
}

/// `r` lists, in key order, one candidate for each key that more than one
/// model has: the identifiers of those models, in order, and the evidence.
pub open spec fn duplicates_of(s: Seq<ModelRecord>, r: Seq<DuplicateModelCandidate>) -> bool {
    exists|ks: Seq<(Seq<char>, Option<u64>)>|
        {
            &&& ks.len() == r.len()
            &&& forall|a: int, b: int| 0 <= a < b < ks.len() ==> key_lt(#[trigger] ks[a], #[trigger] ks[b])
            &&& forall|a: int|
                0 <= a < ks.len() ==> ids_with_key(s, #[trigger] ks[a]).len() > 1
                    && crate::text::views_of(r[a].model_ids@) == ids_with_key(s, ks[a])
                    && crate::text::views_of(r[a].evidence@) == dup_evidence(ks[a])
            &&& forall|k: int|
                0 <= k < s.len() && ids_with_key(s, dup_key(#[trigger] s[k])).len() > 1 ==> ks.contains(
                    dup_key(s[k]),
                )
        }
}

struct Group {
    name: String,
    size: Option<u64>,
    ids: Vec<String>,
}

spec fn group_key(g: Group) -> (Seq<char>, Option<u64>) {
    (g.name@, g.size)
}

spec fn group_keys(g: Seq<Group>) -> Seq<(Seq<char>, Option<u64>)> {
    Seq::new(g.len(), |i: int| group_key(g[i]))
}

/// The groups over the first models: sorted by key, each holding exactly
/// the identifiers of its key, and every key of a model has a group.
spec fn groups_ok(g: Seq<Group>, s: Seq<ModelRecord>) -> bool {
    &&& forall|a: int, b: int| 0 <= a < b < g.len() ==> key_lt(group_key(#[trigger] g[a]), group_key(#[trigger] g[b]))
    &&& forall|a: int|
        0 <= a < g.len() ==> crate::text::views_of((#[trigger] g[a]).ids@) == ids_with_key(s, group_key(g[a]))
    &&& forall|k: (Seq<char>, Option<u64>)|
        !group_keys(g).contains(k) ==> (#[trigger] ids_with_key(s, k)).len() == 0
}

proof fn lemma_ids_push(s: Seq<ModelRecord>, m: ModelRecord, k: (Seq<char>, Option<u64>))
    ensures
        ids_with_key(s.push(m), k) == if dup_key(m) == k {
            ids_with_key(s, k).push(m.id@)
        } else {
            ids_with_key(s, k)
        },
{
    assert(s.push(m).drop_last() =~= s);
}

fn key_less(an: &str, asz: Option<u64>, bn: &str, bsz: Option<u64>) -> (r: bool)
    ensures
        r == key_lt((an@, asz), (bn@, bsz)),
{
    if crate::order::text_less(an, bn) {
        return true;
    }
    if !str_eq(an, bn) {
        return false;
    }
    match (asz, bsz) {
        (None, Some(_)) => true,
        (Some(x), Some(y)) => x < y,
        _ => false,
    }
}

fn size_text(size: Option<u64>) -> (r: String)
    ensures
        r@ == match size {
            Some(v) => crate::numtext::dec(v as nat),
            None => "unknown"@,
        },
{
    match size {
        Some(v) => crate::numtext::u64_text(v),
        None => owned("unknown"),
    }
}

proof fn lemma_group_added(g: Seq<Group>, s: Seq<ModelRecord>, m: ModelRecord, p: int, ng: Seq<Group>)
    requires
        groups_ok(g, s),
        0 <= p <= g.len(),
        forall|a: int| 0 <= a < p ==> key_lt(group_key(#[trigger] g[a]), dup_key(m)),
        p < g.len() ==> !key_lt(group_key(g[p]), dup_key(m)),
        p < g.len() && group_key(g[p]) == dup_key(m) ==> ng == g.update(
            p,
            Group { ids: ng[p].ids, ..g[p] },
        ) && ng[p].ids@ == g[p].ids@.push(ng[p].ids@.last()) && ng[p].ids@.last()@ == m.id@,
        !(p < g.len() && group_key(g[p]) == dup_key(m)) ==> ng == g.insert(p, ng[p]) && group_key(
            ng[p],
        ) == dup_key(m) && ng[p].ids@.len() == 1 && ng[p].ids@[0]@ == m.id@,
    ensures
        groups_ok(ng, s.push(m)),
{
    let k = dup_key(m);
    let s2 = s.push(m);
    assert forall|x: (Seq<char>, Option<u64>)| #![trigger ids_with_key(s2, x)] true implies ids_with_key(s2, x) == if k == x {
        ids_with_key(s, x).push(m.id@)
    } else {
        ids_with_key(s, x)
    } by {
        lemma_ids_push(s, m, x);
    }
    if p < g.len() && group_key(g[p]) == k {
        assert forall|a: int| 0 <= a < ng.len() implies crate::text::views_of((#[trigger] ng[a]).ids@)
            == ids_with_key(s2, group_key(ng[a])) by {
            if a == p {
                crate::text::lemma_views_push(g[p].ids@, ng[p].ids@.last());
                assert(ng[p].ids@ =~= g[p].ids@.push(ng[p].ids@.last()));
            } else {
                assert(ng[a] == g[a]);
                lemma_key_order(group_key(g[a]), k, k);
                if a < p {
                } else {
                    assert(key_lt(group_key(g[p]), group_key(g[a])));
                }
            }
        }
        assert(group_keys(ng) =~= group_keys(g));
        assert forall|a: int, b: int| 0 <= a < b < ng.len() implies key_lt(group_key(#[trigger] ng[a]), group_key(#[trigger] ng[b])) by {
            assert(group_key(ng[a]) == group_key(g[a]));
            assert(group_key(ng[b]) == group_key(g[b]));
        }
        assert forall|x: (Seq<char>, Option<u64>)| !group_keys(ng).contains(x) implies (#[trigger] ids_with_key(s2, x)).len() == 0 by {
            if x == k {
                assert(group_keys(g)[p] == k);
            }
        }
    } else {
        if p < g.len() {
            lemma_key_order(group_key(g[p]), k, k);
        }
        assert forall|a: int| p <= a < g.len() implies key_lt(k, group_key(#[trigger] g[a])) by {
            if a > p {
                lemma_key_order(k, group_key(g[p]), group_key(g[a]));
            }
        }
        assert(!group_keys(g).contains(k)) by {
            if group_keys(g).contains(k) {
                let a = choose|a: int| 0 <= a < group_keys(g).len() && group_keys(g)[a] == k;
                lemma_key_order(k, k, k);
                if a < p {
                    assert(key_lt(group_key(g[a]), k));
                } else {
                    assert(key_lt(k, group_key(g[a])));
                }
            }
        }
        assert(ids_with_key(s, k).len() == 0);
        assert forall|a: int, b: int| 0 <= a < b < ng.len() implies key_lt(group_key(#[trigger] ng[a]), group_key(#[trigger] ng[b])) by {
            if b < p {
                assert(ng[a] == g[a] && ng[b] == g[b]);
            } else if b == p {
                assert(ng[a] == g[a]);
            } else if a < p {
                assert(ng[a] == g[a] && ng[b] == g[b - 1]);
                lemma_key_order(group_key(g[a]), k, group_key(g[b - 1]));
            } else if a == p {
                assert(ng[b] == g[b - 1]);
            } else {
                assert(ng[a] == g[a - 1] && ng[b] == g[b - 1]);
            }
        }
        assert forall|a: int| 0 <= a < ng.len() implies crate::text::views_of((#[trigger] ng[a]).ids@)
            == ids_with_key(s2, group_key(ng[a])) by {
            if a == p {
                assert(ids_with_key(s, k) =~= Seq::<Seq<char>>::empty());
                assert(crate::text::views_of(ng[p].ids@) =~= seq![m.id@]);
                assert(Seq::<Seq<char>>::empty().push(m.id@) =~= seq![m.id@]);
            } else {
                let b = if a < p { a } else { a - 1 };
                assert(ng[a] == g[b]);
                if b < p {
                    lemma_key_order(group_key(g[b]), k, k);
                } else {
                    lemma_key_order(k, k, group_key(g[b]));
                }
            }
        }
        assert forall|x: (Seq<char>, Option<u64>)| !group_keys(ng).contains(x) implies (#[trigger] ids_with_key(s2, x)).len() == 0 by {
            if x == k {
                assert(group_keys(ng)[p] == k);
            } else {
                if group_keys(g).contains(x) {
                    let a = choose|a: int| 0 <= a < group_keys(g).len() && group_keys(g)[a] == x;
                    let b = if a < p { a } else { a + 1 };
                    assert(ng[b] == g[a]);
                    assert(group_keys(ng)[b] == x);
                }
            }
        }
    }
}

impl ModelManager {
    /// Models that look like copies of one another: the same lowercase file
    /// name and the same size. See `duplicates_of`.
    pub fn duplicates(&self) -> (r: Vec<DuplicateModelCandidate>)
        ensures
            duplicates_of(self.models(), r@),
    {
        let ghost models = self.models@;
        let mut groups: Vec<Group> = Vec::new();
        let mut i: usize = 0;
        while i < self.models.len()
            invariant
                i <= models.len(),
                models == self.models@,
                groups_ok(groups@, models.take(i as int)),
            decreases self.models.len() - i,
        {
            let m = &self.models[i];
            let shown = match &m.storage_path {
                Some(p) => match crate::paths::file_name(p.as_str()) {
                    Some(n) => n,
                    None => m.display_name.clone(),
                },
                None => m.display_name.clone(),
            };
            let name = crate::platform::lowercase(shown.as_str());
            let size = m.file_size;
            assert((name@, size) == dup_key(*m));
            let mut p: usize = 0;
            while p < groups.len() && key_less(groups[p].name.as_str(), groups[p].size, name.as_str(), size)
                invariant
                    p <= groups@.len(),
                    forall|a: int| 0 <= a < p ==> key_lt(group_key(#[trigger] groups@[a]), (name@, size)),
                decreases groups.len() - p,
            {
                p += 1;
            }
            let ghost before = groups@;
            let same = p < groups.len() && str_eq(groups[p].name.as_str(), name.as_str()) && groups[p].size == size;
            if same {
                let mut g = groups.remove(p);
                g.ids.push(m.id.clone());
                groups.insert(p, g);
                assert(groups@ =~= before.update(p as int, Group { ids: groups@[p as int].ids, ..before[p as int] }));
            } else {
                let mut ids: Vec<String> = Vec::new();
                ids.push(m.id.clone());
                groups.insert(p, Group { name, size, ids });
            }
            proof {
                lemma_group_added(before, models.take(i as int), models[i as int], p as int, groups@);
                assert(models.take(i as int).push(models[i as int]) =~= models.take(i + 1));
            }
            i += 1;
        }
        assert(models.take(models.len() as int) =~= models);
        let mut out: Vec<DuplicateModelCandidate> = Vec::new();
        let ghost mut ks: Seq<(Seq<char>, Option<u64>)> = Seq::empty();
        let ghost all = groups@;
        let mut j: usize = 0;
        while j < groups.len()
            invariant
                j <= all.len(),
                groups@ == all,
                groups_ok(all, models),
                ks.len() == out@.len(),
                forall|a: int, b: int| 0 <= a < b < ks.len() ==> key_lt(#[trigger] ks[a], #[trigger] ks[b]),
                forall|a: int| 0 <= a < ks.len() ==> exists|c: int| 0 <= c < j && #[trigger] ks[a] == group_key(all[c]),
                forall|a: int|
                    0 <= a < ks.len() ==> ids_with_key(models, #[trigger] ks[a]).len() > 1
                        && crate::text::views_of(out@[a].model_ids@) == ids_with_key(models, ks[a])
                        && crate::text::views_of(out@[a].evidence@) == dup_evidence(ks[a]),
                forall|c: int| 0 <= c < j && (#[trigger] all[c]).ids@.len() > 1 ==> ks.contains(group_key(all[c])),
            decreases groups.len() - j,
        {
            let g = &groups[j];
            if g.ids.len() > 1 {
                let mut evidence: Vec<String> = Vec::new();
                evidence.push(crate::text::concat2("filename=", g.name.as_str()));
                evidence.push(crate::text::concat2("file_size=", size_text(g.size).as_str()));
                proof {
                    assert(crate::text::views_of(evidence@) =~= dup_evidence(group_key(*g)));
                    assert forall|a: int| 0 <= a < ks.len() implies key_lt(#[trigger] ks[a], group_key(all[j as int])) by {
                        let c = choose|c: int| 0 <= c < j && ks[a] == group_key(all[c]);
                    }
                    let old_ks = ks;
                    ks = ks.push(group_key(*g));
                    assert forall|a: int, b: int| 0 <= a < b < ks.len() implies key_lt(#[trigger] ks[a], #[trigger] ks[b]) by {
                        if b < old_ks.len() {
                            assert(ks[a] == old_ks[a] && ks[b] == old_ks[b]);
                        } else {
                            assert(ks[a] == old_ks[a]);
                        }
                    }
                    assert forall|a: int| 0 <= a < ks.len() implies exists|c: int| 0 <= c < j + 1 && #[trigger] ks[a] == group_key(all[c]) by {
                        if a < old_ks.len() {
                            let c = choose|c: int| 0 <= c < j && old_ks[a] == group_key(all[c]);
                            assert(ks[a] == group_key(all[c]));
                        } else {
                            assert(ks[a] == group_key(all[j as int]));
                        }
                    }
                    assert forall|c: int| 0 <= c < j + 1 && (#[trigger] all[c]).ids@.len() > 1 implies ks.contains(group_key(all[c])) by {
                        if c < j {
                            let a = choose|a: int| 0 <= a < old_ks.len() && old_ks[a] == group_key(all[c]);
                            assert(ks[a] == group_key(all[c]));
                        } else {
                            assert(ks[ks.len() - 1] == group_key(all[c]));
                        }
                    }
                }
                out.push(DuplicateModelCandidate { model_ids: crate::relay::clone_strings(&g.ids), evidence });
            } else {
                proof {
                    assert forall|c: int| 0 <= c < j + 1 && (#[trigger] all[c]).ids@.len() > 1 implies ks.contains(group_key(all[c])) by {}
                    assert forall|a: int| 0 <= a < ks.len() implies exists|c: int| 0 <= c < j + 1 && #[trigger] ks[a] == group_key(all[c]) by {
                        let c = choose|c: int| 0 <= c < j && ks[a] == group_key(all[c]);
                        assert(0 <= c < j + 1);
                    }
                }
            }
            j += 1;
        }
        proof {
            assert forall|k: int| 0 <= k < models.len() && ids_with_key(models, dup_key(#[trigger] models[k])).len() > 1 implies ks.contains(dup_key(models[k])) by {
                let key = dup_key(models[k]);
                if !group_keys(all).contains(key) {
                    assert(ids_with_key(models, key).len() == 0);
                } else {
                    let c = choose|c: int| 0 <= c < group_keys(all).len() && group_keys(all)[c] == key;
                    assert(group_key(all[c]) == key);
                    assert(crate::text::views_of(all[c].ids@).len() == all[c].ids@.len());
                }
            }
        }
        out
    }
}

} // verus!

verus! {

impl ModelManager {
    /// Everything the registry knows at `now`, with each model judged
    /// against the hardware.
    pub fn snapshot_at(
        &self,
        runtimes: &Vec<crate::types::LocalRuntimeSnapshot>,
        system_ram_total: Option<u64>,
        system_ram_available: Option<u64>,
        now: Timestamp,
    ) -> (s: ModelManagementSnapshot)
        requires
            crate::types::vram_bytes(runtimes@) <= u64::MAX,
        ensures
            s.models@.len() == self.models().len(),
            forall|i: int| 0 <= i < s.models@.len() ==> model_copied(#[trigger] s.models@[i], self.models()[i]),
            s.storage_locations@ == self.locations(),
            duplicates_of(self.models(), s.duplicates@),
            s.hardware.gpu_vram_in_use == crate::types::vram_bytes(runtimes@),
            s.hardware.system_ram_total == system_ram_total,
            s.hardware.system_ram_available == system_ram_available,
            s.hardware.storage_locations@ == self.locations(),
            s.hardware.observed_at == now,
            s.compatibility@.len() == self.models().len(),
            forall|i: int|
                0 <= i < s.compatibility@.len() ==> assessment_of(
                    #[trigger] s.compatibility@[i],
                    self.models()[i],
                    s.hardware,
                ),
            s.observed_at == now,
    {
        let hardware = self.hardware_snapshot_at(runtimes, system_ram_total, system_ram_available, now);
        let models = self.list_models();
        let mut compatibility: Vec<CompatibilityAssessment> = Vec::new();
        let mut i: usize = 0;
        while i < self.models.len()
            invariant
                i <= self.models@.len(),
                compatibility@.len() == i,
                forall|k: int|
                    0 <= k < i ==> assessment_of(#[trigger] compatibility@[k], self.models@[k], hardware),
            decreases self.models.len() - i,
        {
            compatibility.push(self.assess(&self.models[i], &hardware));
            i += 1;
        }
        ModelManagementSnapshot {
            models,
            storage_locations: self.storage_locations(),
            duplicates: self.duplicates(),
            hardware,
            compatibility,
            observed_at: now,
        }
    }
}

} // verus!

verus! {

/// What is stored under an identifier is read back under it, and the order
/// of identifiers is kept.
pub proof fn stored_model_is_read_back(s: Seq<ModelRecord>, x: ModelRecord)
    requires
        crate::order::keys_sorted(model_ids(s)),
    ensures
        ({
            let t = stored_at(s, model_ids(s), x.id@, x);
            let p = key_pos(model_ids(t), x.id@);
            &&& crate::order::keys_sorted(model_ids(t))
            &&& p >= 0 && t[p] == x
        }),
{
    let keys = model_ids(s);
    let k = x.id@;
    let i = key_slot(keys, k);
    lemma_slot_bounds(keys, k);
    lemma_sorted_lookup(keys, k, i);
    let t = stored_at(s, keys, k, x);
    if key_pos(keys, k) >= 0 {
        crate::seqs::lemma_first_pos(keys, key_is(k));
        assert(model_ids(t) =~= keys);
        assert forall|j: int| 0 <= j < i implies !key_is(k)(#[trigger] model_ids(t)[j]) by {
            crate::order::lemma_text_lt_irreflexive(k);
        }
        crate::seqs::lemma_first_pos_is(model_ids(t), key_is(k), i);
    } else {
        lemma_sorted_insert(keys, k, i);
        assert(model_ids(t) =~= keys.insert(i, k));
        assert forall|j: int| 0 <= j < i implies !key_is(k)(#[trigger] model_ids(t)[j]) by {
            assert(model_ids(t)[j] == keys[j]);
            crate::order::lemma_text_lt_irreflexive(k);
        }
        crate::seqs::lemma_first_pos_is(model_ids(t), key_is(k), i);
    }
}

/// The slot of a key lies within the keys, after exactly the smaller ones.
pub proof fn lemma_slot_bounds(keys: Seq<Seq<char>>, k: Seq<char>)
    ensures
        0 <= key_slot(keys, k) <= keys.len(),
        forall|j: int| 0 <= j < key_slot(keys, k) ==> crate::order::text_lt(#[trigger] keys[j], k),
        key_slot(keys, k) < keys.len() ==> !crate::order::text_lt(keys[key_slot(keys, k)], k),
    decreases keys.len(),
{
    if keys.len() > 0 && crate::order::text_lt(keys[0], k) {
        let t = keys.drop_first();
        lemma_slot_bounds(t, k);
        assert forall|j: int| 0 <= j < key_slot(keys, k) implies crate::order::text_lt(#[trigger] keys[j], k) by {
            if j > 0 {
                assert(keys[j] == t[j - 1]);
            }
        }
    }
}

/// A removed model is no longer found, and the order of identifiers is kept.
pub proof fn removed_model_is_gone(s: Seq<ModelRecord>, id: Seq<char>)
    requires
        crate::order::keys_sorted(model_ids(s)),
        key_pos(model_ids(s), id) >= 0,
    ensures
        ({
            let t = s.remove(key_pos(model_ids(s), id));
            key_pos(model_ids(t), id) < 0 && crate::order::keys_sorted(model_ids(t))
        }),
{
    let keys = model_ids(s);
    let p = key_pos(keys, id);
    crate::seqs::lemma_first_pos(keys, key_is(id));
    let t = s.remove(p);
    lemma_sorted_remove(keys, p);
    assert(model_ids(t) =~= keys.remove(p));
    assert forall|j: int| 0 <= j < model_ids(t).len() implies !key_is(id)(#[trigger] model_ids(t)[j]) by {
        if j < p {
            assert(crate::order::text_lt(keys[j], keys[p]));
            crate::order::lemma_text_lt_irreflexive(id);
        } else {
            assert(model_ids(t)[j] == keys[j + 1]);
            assert(crate::order::text_lt(keys[p], keys[j + 1]));
            crate::order::lemma_text_lt_irreflexive(id);
        }
    }
    crate::seqs::lemma_first_pos_is(model_ids(t), key_is(id), -1);
}

} // verus!

verus! {

/// In sorted keys each key is found where it stands.
pub proof fn lemma_sorted_key_pos(keys: Seq<Seq<char>>, i: int)
    requires
        crate::order::keys_sorted(keys),
        0 <= i < keys.len(),
    ensures
        key_pos(keys, keys[i]) == i,
{
    assert forall|j: int| 0 <= j < i implies !key_is(keys[i])(#[trigger] keys[j]) by {
        crate::order::lemma_text_lt_irreflexive(keys[i]);
    }
    crate::seqs::lemma_first_pos_is(keys, key_is(keys[i]), i);
}

} // verus!

verus! {

/// Upserting `model` at `now` into `before` leaves `after` and returns `r`.
pub open spec fn upsert_post(before: ModelManager, after: ModelManager, model: ModelRecord, now: Timestamp, r: ModelRecord) -> bool {
    let keys = model_ids(before.models());
    let p = key_pos(keys, model.id@);
    let stored = ModelRecord {
        created_at: if p >= 0 {
            before.models()[p].created_at
        } else {
            model.created_at
        },
        updated_at: now,
        ..model
    };
    &&& after.models() == stored_at(before.models(), keys, model.id@, stored)
    &&& after.locations() == before.locations()
    &&& model_copied(r, stored)
}

/// Making storage `id` the default at `now` in `before` leaves `after` and returns `r`.
pub open spec fn set_default_post(before: ModelManager, after: ModelManager, id: Seq<char>, now: Timestamp, r: Result<ModelStorageLocation, ModelManagementError>) -> bool {
    let old_locs = before.locations();
    let p = key_pos(location_ids(old_locs), id);
    &&& p < 0 ==> (r matches Err(e) && e matches ModelManagementError::StorageNotFound(x)
        && x@ == id) && after.locations() == old_locs
    &&& p >= 0 ==> {
        &&& after.locations().len() == old_locs.len()
        &&& forall|i: int|
            0 <= i < old_locs.len() ==> #[trigger] after.locations()[i]
                == defaulted(old_locs[i], id, now)
        &&& r == Ok::<ModelStorageLocation, ModelManagementError>(after.locations()[p])
    }
    &&& after.models() == before.models()
}

/// Discovering `files` below storage `storage_id` at `now` in `before` leaves `after` and returns `r`.
pub open spec fn discover_post(before: ModelManager, after: ModelManager, storage_id: Seq<char>, files: Seq<FoundFile>, now: Timestamp, windows: bool, r: Result<Vec<ModelRecord>, ModelManagementError>) -> bool {
    let locs = before.locations();
    let p = key_pos(location_ids(locs), storage_id);
    let g = gguf_files(files);
    &&& p < 0 ==> (r matches Err(e) && e matches ModelManagementError::StorageNotFound(x)
        && x@ == storage_id) && after.models() == before.models()
    &&& p >= 0 && locs[p].availability != StorageAvailability::Available ==> (r matches Err(
        e,
    ) && e matches ModelManagementError::InvalidStorage(x) && x@
        == "保存先は現在利用できません"@) && after.models() == before.models()
    &&& p >= 0 && locs[p].availability == StorageAvailability::Available ==> (r matches Ok(
        found,
    ) && exists|stored: Seq<ModelRecord>|
        {
            &&& stored.len() == g.len() && found@.len() == g.len()
            &&& forall|i: int|
                0 <= i < g.len() ==> local_record(
                    locs[p],
                    (#[trigger] g[i]).path@,
                    g[i].size,
                    now,
                    windows,
                    stored[i],
                ) && model_copied(found@[i], stored[i])
            &&& after.models() == store_models(
                keep_models(before.models(), found_pred(storage_id)),
                stored,
            )
        })
    &&& after.locations() == locs
}

/// Taking in `snapshot` at `now` in `before` leaves `after` and returns `r`.
pub open spec fn ingest_post(before: ModelManager, after: ModelManager, snapshot: crate::types::LocalRuntimeSnapshot, now: Timestamp, r: Seq<ModelRecord>) -> bool {
    let source = runtime_source(snapshot.provider_id@);
    let prefix = snapshot.provider_id@ + ":"@;
    let olds = before.models();
    &&& after.locations() == before.locations()
    &&& snapshot.health != crate::types::HealthState::Ready ==> {
        &&& after.models().len() == olds.len()
        &&& forall|i: int|
            0 <= i < olds.len() ==> #[trigger] after.models()[i] == if of_runtime(
                olds[i],
                source,
                prefix,
            ) {
                ModelRecord { health: ModelHealth::Unavailable, updated_at: now, ..olds[i] }
            } else {
                olds[i]
            }
        &&& r.len() == keep_models(after.models(), not_of_runtime(source, prefix)).len()
        &&& forall|i: int|
            0 <= i < r.len() ==> model_copied(
                #[trigger] r[i],
                keep_models(after.models(), not_of_runtime(source, prefix))[i],
            )
    }
    &&& snapshot.health == crate::types::HealthState::Ready ==> exists|
        stored: Seq<ModelRecord>,
    |
        {
            &&& stored.len() == snapshot.installed_models@.len() && r.len() == stored.len()
            &&& forall|i: int|
                0 <= i < stored.len() ==> runtime_record(
                    snapshot,
                    #[trigger] snapshot.installed_models@[i],
                    source,
                    now,
                    stored[i],
                ) && model_copied(r[i], stored[i])
            &&& after.models() == store_models(
                keep_models(olds, runtime_pred(source, prefix)),
                stored,
            )
        }
}

/// Refreshing `before` with one probe per location at `now` leaves `after` and returns `r`.
pub open spec fn refresh_post(before: ModelManager, after: ModelManager, probes: Seq<StorageProbe>, now: Timestamp, r: Seq<ModelStorageLocation>) -> bool {
    &&& after.locations().len() == before.locations().len()
    &&& forall|i: int|
        0 <= i < before.locations().len() ==> #[trigger] after.locations()[i]
            == probed(before.locations()[i], probes[i], now)
    &&& after.models().len() == before.models().len()
    &&& forall|i: int|
        0 <= i < before.models().len() ==> #[trigger] after.models()[i]
            == model_after_refresh(before.models()[i], after.locations(), now)
    &&& r == after.locations()
}

} // verus!
