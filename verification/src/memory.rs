//! The memory domain: categories and scopes, validated write requests, and
//! the content normal form that makes duplicate memories meet.

use crate::developer::{in_unit_interval, ConfidenceBits, Timestamp};
use crate::text::{is_blank, is_blank_seq, is_ws, owned, str_eq};
use vstd::prelude::*;

verus! {

/// A memory's identifier (a UUID value).
#[derive(Debug, Clone, Copy, PartialEq, Eq, Hash, Structural)]
pub struct MemoryId(pub u128);

impl MemoryId {
    /// A fresh random identifier; `None` when the random source fails.
    pub fn new() -> (r: Option<MemoryId>) {
        match crate::platform::fresh_id() {
            Some(v) => Some(MemoryId(v)),
            None => None,
        }
    }
}

#[derive(Debug, Clone, Copy, PartialEq, Eq, Structural)]
pub enum MemoryCategory {
    Working,
    Conversation,
    LongTerm,
    Project,
    Knowledge,
    Decision,
    Preference,
    Experience,
    Success,
    Failure,
    System,
    VxnKnowledge,
}

pub open spec fn category_text(c: MemoryCategory) -> Seq<char> {
    match c {
        MemoryCategory::Working => "working"@,
        MemoryCategory::Conversation => "conversation"@,
        MemoryCategory::LongTerm => "long_term"@,
        MemoryCategory::Project => "project"@,
        MemoryCategory::Knowledge => "knowledge"@,
        MemoryCategory::Decision => "decision"@,
        MemoryCategory::Preference => "preference"@,
        MemoryCategory::Experience => "experience"@,
        MemoryCategory::Success => "success"@,
        MemoryCategory::Failure => "failure"@,
        MemoryCategory::System => "system"@,
        MemoryCategory::VxnKnowledge => "vxn_knowledge"@,
    }
}

/// The failures of the memory store.
#[derive(Debug, Clone, PartialEq, Eq)]
pub enum MemoryError {
    Invalid(String),
    NotFound,
    Conflict,
    Unavailable,
}

pub open spec fn memory_error_text(e: MemoryError) -> Seq<char> {
    match e {
        MemoryError::Invalid(m) => "invalid memory request: "@ + m@,
        MemoryError::NotFound => "memory record not found"@,
        MemoryError::Conflict => "memory record version conflict"@,
        MemoryError::Unavailable => "memory store is unavailable"@,
    }
}

impl MemoryError {
    /// The message this error displays.
    pub fn to_text(&self) -> (r: String)
        ensures
            r@ == memory_error_text(*self),
    {
        match self {
            MemoryError::Invalid(m) => crate::text::concat2("invalid memory request: ", m.as_str()),
            MemoryError::NotFound => owned("memory record not found"),
            MemoryError::Conflict => owned("memory record version conflict"),
            MemoryError::Unavailable => owned("memory store is unavailable"),
        }
    }
}

impl MemoryCategory {
    /// The stored name of the category.
    pub fn as_str(self) -> (r: &'static str)
        ensures
            r@ == category_text(self),
    {
        match self {
            MemoryCategory::Working => "working",
            MemoryCategory::Conversation => "conversation",
            MemoryCategory::LongTerm => "long_term",
            MemoryCategory::Project => "project",
            MemoryCategory::Knowledge => "knowledge",
            MemoryCategory::Decision => "decision",
            MemoryCategory::Preference => "preference",
            MemoryCategory::Experience => "experience",
            MemoryCategory::Success => "success",
            MemoryCategory::Failure => "failure",
            MemoryCategory::System => "system",
            MemoryCategory::VxnKnowledge => "vxn_knowledge",
        }
    }

    /// The category with this stored name; any other name means the store
    /// holds something it cannot read.
    pub fn parse(value: &str) -> (r: Result<MemoryCategory, MemoryError>)
        ensures
            category_parsed(value@, r),
    {
        let all = [
            MemoryCategory::Working,
            MemoryCategory::Conversation,
            MemoryCategory::LongTerm,
            MemoryCategory::Project,
            MemoryCategory::Knowledge,
            MemoryCategory::Decision,
            MemoryCategory::Preference,
            MemoryCategory::Experience,
            MemoryCategory::Success,
            MemoryCategory::Failure,
            MemoryCategory::System,
            MemoryCategory::VxnKnowledge,
        ];
        let mut i: usize = 0;
        while i < 12
            invariant
                i <= 12,
                all@ == seq![
                    MemoryCategory::Working,
                    MemoryCategory::Conversation,
                    MemoryCategory::LongTerm,
                    MemoryCategory::Project,
                    MemoryCategory::Knowledge,
                    MemoryCategory::Decision,
                    MemoryCategory::Preference,
                    MemoryCategory::Experience,
                    MemoryCategory::Success,
                    MemoryCategory::Failure,
                    MemoryCategory::System,
                    MemoryCategory::VxnKnowledge,
                ],
                forall|j: int| 0 <= j < i ==> category_text(#[trigger] all@[j]) != value@,
            decreases 12 - i,
        {
            if str_eq(all[i].as_str(), value) {
                return Ok(all[i]);
            }
            i += 1;
        }
        assert forall|c: MemoryCategory| category_text(c) != value@ by {
            match c {
                MemoryCategory::Working => assert(category_text(all@[0]) != value@),
                MemoryCategory::Conversation => assert(category_text(all@[1]) != value@),
                MemoryCategory::LongTerm => assert(category_text(all@[2]) != value@),
                MemoryCategory::Project => assert(category_text(all@[3]) != value@),
                MemoryCategory::Knowledge => assert(category_text(all@[4]) != value@),
                MemoryCategory::Decision => assert(category_text(all@[5]) != value@),
                MemoryCategory::Preference => assert(category_text(all@[6]) != value@),
                MemoryCategory::Experience => assert(category_text(all@[7]) != value@),
                MemoryCategory::Success => assert(category_text(all@[8]) != value@),
                MemoryCategory::Failure => assert(category_text(all@[9]) != value@),
                MemoryCategory::System => assert(category_text(all@[10]) != value@),
                MemoryCategory::VxnKnowledge => assert(category_text(all@[11]) != value@),
            }
        }
        Err(MemoryError::Unavailable)
    }
}

#[derive(Debug, Clone, Copy, PartialEq, Eq, Structural)]
pub enum ScopeType {
    System,
    Organization,
    User,
    Application,
    Project,
    Session,
}

pub open spec fn scope_type_text(s: ScopeType) -> Seq<char> {
    match s {
        ScopeType::System => "system"@,
        ScopeType::Organization => "organization"@,
        ScopeType::User => "user"@,
        ScopeType::Application => "application"@,
        ScopeType::Project => "project"@,
        ScopeType::Session => "session"@,
    }
}

impl ScopeType {
    /// The stored name of the scope type.
    pub fn as_str(self) -> (r: &'static str)
        ensures
            r@ == scope_type_text(self),
    {
        match self {
            ScopeType::System => "system",
            ScopeType::Organization => "organization",
            ScopeType::User => "user",
            ScopeType::Application => "application",
            ScopeType::Project => "project",
            ScopeType::Session => "session",
        }
    }

    /// The scope type with this stored name.
    pub fn parse(value: &str) -> (r: Result<ScopeType, MemoryError>)
        ensures
            match r {
                Ok(s) => scope_type_text(s) == value@,
                Err(e) => e == MemoryError::Unavailable && forall|s: ScopeType|
                    scope_type_text(s) != value@,
            },
    {
        let all = [
            ScopeType::System,
            ScopeType::Organization,
            ScopeType::User,
            ScopeType::Application,
            ScopeType::Project,
            ScopeType::Session,
        ];
        let mut i: usize = 0;
        while i < 6
            invariant
                i <= 6,
                all@ == seq![
                    ScopeType::System,
                    ScopeType::Organization,
                    ScopeType::User,
                    ScopeType::Application,
                    ScopeType::Project,
                    ScopeType::Session,
                ],
                forall|j: int| 0 <= j < i ==> scope_type_text(#[trigger] all@[j]) != value@,
            decreases 6 - i,
        {
            if str_eq(all[i].as_str(), value) {
                return Ok(all[i]);
            }
            i += 1;
        }
        assert forall|s: ScopeType| scope_type_text(s) != value@ by {
            match s {
                ScopeType::System => assert(scope_type_text(all@[0]) != value@),
                ScopeType::Organization => assert(scope_type_text(all@[1]) != value@),
                ScopeType::User => assert(scope_type_text(all@[2]) != value@),
                ScopeType::Application => assert(scope_type_text(all@[3]) != value@),
                ScopeType::Project => assert(scope_type_text(all@[4]) != value@),
                ScopeType::Session => assert(scope_type_text(all@[5]) != value@),
            }
        }
        Err(MemoryError::Unavailable)
    }
}

/// What reading a stored category name gives: the category with that
/// name, or `Unavailable` when no category has it.
pub open spec fn category_parsed(value: Seq<char>, r: Result<MemoryCategory, MemoryError>) -> bool {
    match r {
        Ok(c) => category_text(c) == value,
        Err(e) => e == MemoryError::Unavailable && forall|c: MemoryCategory| category_text(c) != value,
    }
}

/// A category's stored name reads back as that category, and a name that
/// reads back as a category is that category's name.
pub proof fn category_name_round_trip(c: MemoryCategory, s: Seq<char>, r: Result<MemoryCategory, MemoryError>)
    requires
        category_parsed(s, r),
    ensures
        s == category_text(c) ==> r == Ok::<MemoryCategory, MemoryError>(c),
        r == Ok::<MemoryCategory, MemoryError>(c) ==> category_text(c) == s,
{
    if s == category_text(c) {
        if let Ok(d) = r {
            category_names_round_trip(c, d);
        }
    }
}

/// Different categories have different stored names, so a category read
/// back from its name is the category written.
pub proof fn category_names_round_trip(a: MemoryCategory, b: MemoryCategory)
    ensures
        category_text(a) == category_text(b) ==> a == b,
{
    reveal_strlit("working");
    reveal_strlit("conversation");
    reveal_strlit("long_term");
    reveal_strlit("project");
    reveal_strlit("knowledge");
    reveal_strlit("decision");
    reveal_strlit("preference");
    reveal_strlit("experience");
    reveal_strlit("success");
    reveal_strlit("failure");
    reveal_strlit("system");
    reveal_strlit("vxn_knowledge");
    if category_text(a) == category_text(b) && a != b {
        let x = category_text(a);
        let y = category_text(b);
        assert(x.len() != y.len() || x[0] != y[0] || x[1] != y[1] || x[2] != y[2] || x[3] != y[3]
            || x[4] != y[4] || x[5] != y[5] || x[6] != y[6]);
    }
}

/// Different scope types have different stored names.
pub proof fn scope_type_names_round_trip(a: ScopeType, b: ScopeType)
    ensures
        scope_type_text(a) == scope_type_text(b) ==> a == b,
{
    reveal_strlit("system");
    reveal_strlit("organization");
    reveal_strlit("user");
    reveal_strlit("application");
    reveal_strlit("project");
    reveal_strlit("session");
    if scope_type_text(a) == scope_type_text(b) && a != b {
        let x = scope_type_text(a);
        let y = scope_type_text(b);
        assert(x.len() != y.len() || x[0] != y[0] || x[1] != y[1]);
    }
}

/// Where a memory belongs; which identifiers are set depends on the scope type.
#[derive(Debug, Clone, Copy, PartialEq, Eq, Structural)]
pub struct MemoryScope {
    pub scope_type: ScopeType,
    pub organization_id: Option<u128>,
    pub user_id: Option<u128>,
    pub application_id: Option<u128>,
    pub project_id: Option<u128>,
    pub session_id: Option<u128>,
}

/// The identifiers a scope type requires and forbids.
pub open spec fn scope_valid(s: MemoryScope) -> bool {
    match s.scope_type {
        ScopeType::System => s.organization_id is None && s.user_id is None && s.application_id
            is None && s.project_id is None && s.session_id is None,
        ScopeType::Organization => s.organization_id is Some && s.user_id is None
            && s.application_id is None && s.project_id is None && s.session_id is None,
        ScopeType::User => s.user_id is Some && s.application_id is None && s.project_id is None
            && s.session_id is None,
        ScopeType::Application => s.application_id is Some && s.project_id is None && s.session_id
            is None,
        ScopeType::Project => s.application_id is Some && s.project_id is Some && s.session_id
            is None,
        ScopeType::Session => s.application_id is Some && s.session_id is Some,
    }
}

pub open spec fn invalid(e: MemoryError, detail: Seq<char>) -> bool {
    e matches MemoryError::Invalid(m) && m@ == detail
}

/// The system scope: no identifiers at all.
pub open spec fn system_scope_value() -> MemoryScope {
    MemoryScope {
        scope_type: ScopeType::System,
        organization_id: None,
        user_id: None,
        application_id: None,
        project_id: None,
        session_id: None,
    }
}

impl MemoryScope {
    pub fn system() -> (s: MemoryScope)
        ensures
            s == system_scope_value(),
            s.scope_type == ScopeType::System && s.organization_id is None && s.user_id is None
                && s.application_id is None && s.project_id is None && s.session_id is None,
    {
        MemoryScope {
            scope_type: ScopeType::System,
            organization_id: None,
            user_id: None,
            application_id: None,
            project_id: None,
            session_id: None,
        }
    }

    pub fn project(application_id: u128, project_id: u128) -> (s: MemoryScope)
        ensures
            s.scope_type == ScopeType::Project && s.organization_id is None && s.user_id is None
                && s.application_id == Some(application_id) && s.project_id == Some(project_id)
                && s.session_id is None,
    {
        MemoryScope {
            scope_type: ScopeType::Project,
            organization_id: None,
            user_id: None,
            application_id: Some(application_id),
            project_id: Some(project_id),
            session_id: None,
        }
    }

    pub fn validate(&self) -> (r: Result<(), MemoryError>)
        ensures
            r is Ok <==> scope_valid(*self),
            r matches Err(e) ==> invalid(e, "scope identifiers do not match scope type"@),
    {
        let valid = match self.scope_type {
            ScopeType::System => self.organization_id.is_none() && self.user_id.is_none()
                && self.application_id.is_none() && self.project_id.is_none()
                && self.session_id.is_none(),
            ScopeType::Organization => self.organization_id.is_some() && self.user_id.is_none()
                && self.application_id.is_none() && self.project_id.is_none()
                && self.session_id.is_none(),
            ScopeType::User => self.user_id.is_some() && self.application_id.is_none()
                && self.project_id.is_none() && self.session_id.is_none(),
            ScopeType::Application => self.application_id.is_some() && self.project_id.is_none()
                && self.session_id.is_none(),
            ScopeType::Project => self.application_id.is_some() && self.project_id.is_some()
                && self.session_id.is_none(),
            ScopeType::Session => self.application_id.is_some() && self.session_id.is_some(),
        };
        if valid {
            Ok(())
        } else {
            Err(MemoryError::Invalid(owned("scope identifiers do not match scope type")))
        }
    }
}

/// Where a memory may be processed.
#[derive(Debug, Clone, PartialEq, Eq, Default)]
pub struct MemoryPrivacy {
    pub local_only: bool,
    pub cloud_allowed: bool,
    pub sensitive: bool,
    pub share_scope: Option<String>,
}

/// A memory to store. Priority and confidence are `f32` bit patterns;
/// structured content and metadata are JSON text.
#[derive(Debug, Clone, PartialEq, Eq)]
pub struct CreateMemory {
    pub category: MemoryCategory,
    pub scope: MemoryScope,
    pub owner_id: Option<u128>,
    pub content: String,
    pub structured_content: String,
    pub priority: ConfidenceBits,
    pub confidence: ConfidenceBits,
    pub source: String,
    pub expires_at: Option<Timestamp>,
    pub privacy: MemoryPrivacy,
    pub metadata: String,
}

/// Why a memory to store is refused, if it is, checked in this order.
pub open spec fn create_refusal(m: CreateMemory) -> Option<Seq<char>> {
    if !scope_valid(m.scope) {
        Some("scope identifiers do not match scope type"@)
    } else if is_blank_seq(m.content@) {
        Some("content cannot be empty"@)
    } else if is_blank_seq(m.source@) {
        Some("source cannot be empty"@)
    } else if !in_unit_interval(m.priority) || !in_unit_interval(m.confidence) {
        Some("priority and confidence must be between 0 and 1"@)
    } else if m.privacy.local_only && m.privacy.cloud_allowed {
        Some("local-only memory cannot allow cloud processing"@)
    } else {
        None
    }
}

impl CreateMemory {
    pub fn validate(&self) -> (r: Result<(), MemoryError>)
        ensures
            match create_refusal(*self) {
                Some(d) => r matches Err(e) && invalid(e, d),
                None => r is Ok,
            },
    {
        match self.scope.validate() {
            Err(e) => {
                return Err(e);
            },
            Ok(()) => {},
        }
        if is_blank(self.content.as_str()) {
            return Err(MemoryError::Invalid(owned("content cannot be empty")));
        }
        if is_blank(self.source.as_str()) {
            return Err(MemoryError::Invalid(owned("source cannot be empty")));
        }
        if !crate::developer::confidence_in_unit_interval(self.priority)
            || !crate::developer::confidence_in_unit_interval(self.confidence) {
            return Err(
                MemoryError::Invalid(owned("priority and confidence must be between 0 and 1")),
            );
        }
        if self.privacy.local_only && self.privacy.cloud_allowed {
            return Err(
                MemoryError::Invalid(owned("local-only memory cannot allow cloud processing")),
            );
        }
        Ok(())
    }
}

/// A new version of a memory, accepted only against the version it expects.
#[derive(Debug, Clone, PartialEq, Eq)]
pub struct UpdateMemory {
    pub expected_version: i64,
    pub content: String,
    pub structured_content: String,
    pub priority: ConfidenceBits,
    pub confidence: ConfidenceBits,
    pub expires_at: Option<Timestamp>,
    pub privacy: MemoryPrivacy,
    pub metadata: String,
}

pub open spec fn update_refusal(u: UpdateMemory) -> Option<Seq<char>> {
    if u.expected_version < 1 || is_blank_seq(u.content@) {
        Some("invalid memory update"@)
    } else if !in_unit_interval(u.priority) || !in_unit_interval(u.confidence) {
        Some("priority and confidence must be between 0 and 1"@)
    } else if u.privacy.local_only && u.privacy.cloud_allowed {
        Some("local-only memory cannot allow cloud processing"@)
    } else {
        None
    }
}

impl UpdateMemory {
    pub fn validate(&self) -> (r: Result<(), MemoryError>)
        ensures
            match update_refusal(*self) {
                Some(d) => r matches Err(e) && invalid(e, d),
                None => r is Ok,
            },
    {
        if self.expected_version < 1 || is_blank(self.content.as_str()) {
            return Err(MemoryError::Invalid(owned("invalid memory update")));
        }
        if !crate::developer::confidence_in_unit_interval(self.priority)
            || !crate::developer::confidence_in_unit_interval(self.confidence) {
            return Err(
                MemoryError::Invalid(owned("priority and confidence must be between 0 and 1")),
            );
        }
        if self.privacy.local_only && self.privacy.cloud_allowed {
            return Err(
                MemoryError::Invalid(owned("local-only memory cannot allow cloud processing")),
            );
        }
        Ok(())
    }
}

/// A stored memory.
#[derive(Debug, Clone, PartialEq, Eq)]
pub struct MemoryRecord {
    pub memory_id: MemoryId,
    pub category: MemoryCategory,
    pub scope: MemoryScope,
    pub owner_id: Option<u128>,
    pub content: String,
    pub structured_content: String,
    pub priority: ConfidenceBits,
    pub confidence: ConfidenceBits,
    pub source: String,
    pub created_at: Timestamp,
    pub updated_at: Timestamp,
    pub expires_at: Option<Timestamp>,
    pub privacy: MemoryPrivacy,
    pub metadata: String,
    pub version: i64,
}

/// A search of one scope.
#[derive(Debug, Clone, PartialEq, Eq)]
pub struct MemoryQuery {
    pub scope: MemoryScope,
    pub text: Option<String>,
    pub category: Option<MemoryCategory>,
    pub include_expired: bool,
    pub limit: u32,
}

pub open spec fn query_refusal(q: MemoryQuery) -> Option<Seq<char>> {
    if !scope_valid(q.scope) {
        Some("scope identifiers do not match scope type"@)
    } else if q.limit == 0 || q.limit > 100 {
        Some("memory query limit must be between 1 and 100"@)
    } else {
        None
    }
}

impl MemoryQuery {
    pub fn validate(&self) -> (r: Result<(), MemoryError>)
        ensures
            match query_refusal(*self) {
                Some(d) => r matches Err(e) && invalid(e, d),
                None => r is Ok,
            },
    {
        match self.scope.validate() {
            Err(e) => {
                return Err(e);
            },
            Ok(()) => {},
        }
        if self.limit == 0 || self.limit > 100 {
            return Err(MemoryError::Invalid(owned("memory query limit must be between 1 and 100")));
        }
        Ok(())
    }
}

/// Whitespace runs collapsed to one space, with none at either end
/// (`split_whitespace().collect::<Vec<_>>().join(" ")`), computed left to
/// right: the text so far, and whether a gap follows a word.
pub open spec fn collapse_state(s: Seq<char>) -> (Seq<char>, bool)
    decreases s.len(),
{
    if s.len() == 0 {
        (Seq::empty(), false)
    } else {
        let (out, gap) = collapse_state(s.drop_last());
        let c = s.last();
        if is_ws(c) {
            (out, out.len() > 0)
        } else if gap {
            (out.push(' ').push(c), false)
        } else {
            (out.push(c), false)
        }
    }
}

pub open spec fn collapse_ws(s: Seq<char>) -> Seq<char> {
    collapse_state(s).0
}

/// The normal form two contents are compared in: whitespace collapsed, then
/// lowercased.
pub open spec fn normal_form(s: Seq<char>) -> Seq<char> {
    crate::platform::unicode_lowercase(collapse_ws(s))
}

pub fn collapse_whitespace(s: &str) -> (r: String)
    ensures
        r@ == collapse_ws(s@),
{
    let v = crate::text::chars_of(s);
    let mut out = String::new();
    let mut gap = false;
    let mut i: usize = 0;
    while i < v.len()
        invariant
            i <= v.len(),
            v@ == s@,
            (out@, gap) == collapse_state(s@.take(i as int)),
        decreases v.len() - i,
    {
        assert(s@.take(i + 1).drop_last() =~= s@.take(i as int));
        let c = v[i];
        if crate::text::is_ws_char(c) {
            gap = crate::text::char_count(out.as_str()) > 0;
        } else {
            if gap {
                crate::text::push_char(&mut out, ' ');
            }
            crate::text::push_char(&mut out, c);
            gap = false;
        }
        i += 1;
    }
    assert(s@.take(v.len() as int) =~= s@);
    out
}

proof fn lemma_collapse_state_gap(x: Seq<char>)
    ensures
        collapse_state(x).1 ==> collapse_state(x).0.len() > 0,
        collapse_state(x).0.len() > 0 ==> !is_ws(collapse_state(x).0.last()),
        collapse_state(collapse_state(x).0) == (collapse_state(x).0, false),
    decreases x.len(),
{
    if x.len() > 0 {
        lemma_collapse_state_gap(x.drop_last());
        let (out, gap) = collapse_state(x.drop_last());
        let c = x.last();
        if !is_ws(c) {
            if gap {
                let o1 = out.push(' ');
                let o2 = o1.push(c);
                assert(o2.drop_last() =~= o1);
                assert(o1.drop_last() =~= out);
                assert(collapse_state(o1) == (out, true));
            } else {
                assert(out.push(c).drop_last() =~= out);
            }
        }
    }
}

proof fn lemma_collapse_lower(x: Seq<char>)
    ensures
        collapse_state(crate::text::lower_seq(x)) == (
            crate::text::lower_seq(collapse_state(x).0),
            collapse_state(x).1,
        ),
    decreases x.len(),
{
    let l = crate::text::lower_seq(x);
    if x.len() > 0 {
        lemma_collapse_lower(x.drop_last());
        assert(l.drop_last() =~= crate::text::lower_seq(x.drop_last()));
        let (out, gap) = collapse_state(x.drop_last());
        let c = x.last();
        assert(l.last() == crate::text::lower_char(c));
        assert(is_ws(crate::text::lower_char(c)) == is_ws(c));
        assert(crate::text::lower_seq(out.push(' ').push(c)) =~= crate::text::lower_seq(out).push(' ').push(
            crate::text::lower_char(c),
        ));
        assert(crate::text::lower_seq(out.push(c)) =~= crate::text::lower_seq(out).push(
            crate::text::lower_char(c),
        ));
    } else {
        assert(l =~= Seq::<char>::empty());
        assert(crate::text::lower_seq(Seq::<char>::empty()) =~= Seq::<char>::empty());
    }
}

proof fn lemma_collapse_ascii(x: Seq<char>)
    requires
        vstd::utf8::is_ascii_chars(x),
    ensures
        vstd::utf8::is_ascii_chars(collapse_state(x).0),
    decreases x.len(),
{
    if x.len() > 0 {
        let t = x.drop_last();
        assert forall|i: int| 0 <= i < t.len() implies '\0' <= #[trigger] t[i] <= '\u{7f}' by {
            assert(t[i] == x[i]);
        }
        lemma_collapse_ascii(t);
        assert('\0' <= x[x.len() - 1] <= '\u{7f}');
    }
}

/// The normal form of ASCII content: whitespace collapsed, then ASCII
/// lowercased (what `normal_form` is on ASCII text, by `lowercase`'s
/// contract).
pub open spec fn ascii_normal_form(s: Seq<char>) -> Seq<char> {
    crate::text::lower_seq(collapse_ws(s))
}

/// Normalizing ASCII content gives ASCII content, and normalizing that
/// again changes nothing.
pub proof fn normalizing_ascii_content_is_idempotent(s: Seq<char>)
    requires
        vstd::utf8::is_ascii_chars(s),
    ensures
        vstd::utf8::is_ascii_chars(ascii_normal_form(s)),
        ascii_normal_form(ascii_normal_form(s)) == ascii_normal_form(s),
{
    let c = collapse_ws(s);
    lemma_collapse_ascii(s);
    let n = crate::text::lower_seq(c);
    lemma_collapse_state_gap(s);
    lemma_collapse_lower(c);
    assert(collapse_ws(n) == crate::text::lower_seq(collapse_ws(c)));
    assert(collapse_ws(c) == c);
    assert forall|i: int| 0 <= i < n.len() implies '\0' <= #[trigger] n[i] <= '\u{7f}' by {
        assert(n[i] == crate::text::lower_char(c[i]));
    }
    assert(crate::text::lower_seq(n) =~= n);
}

/// The content normal form (`normal_form`).
pub fn normalize_content(content: &str) -> (r: String)
    ensures
        r@ == normal_form(content@),
        vstd::utf8::is_ascii_chars(content@) ==> r@ == ascii_normal_form(content@),
{
    let collapsed = collapse_whitespace(content);
    proof {
        if vstd::utf8::is_ascii_chars(content@) {
            lemma_collapse_ascii(content@);
        }
    }
    crate::platform::lowercase(collapsed.as_str())
}

} // verus!

verus! {

/// The position of an `f32` bit pattern in the IEEE total order
/// (`f32::total_cmp`): negative values reversed below the positive ones.
pub open spec fn total_order_key(b: u32) -> u32 {
    if b >= 0x8000_0000 {
        (0xFFFF_FFFF - b) as u32
    } else {
        (b + 0x8000_0000) as u32
    }
}

/// The key orders `f32` bit patterns as `f32::total_cmp` does: non-negative
/// values by their bits, negative values (sign bit set) below every
/// non-negative one and in reverse order of their bits.
pub proof fn total_order_key_follows_the_f32_total_order(a: u32, b: u32)
    ensures
        a < 0x8000_0000 && b < 0x8000_0000 ==> (total_order_key(a) < total_order_key(b) <==> a < b),
        a >= 0x8000_0000 && b >= 0x8000_0000 ==> (total_order_key(a) < total_order_key(b) <==> a > b),
        a >= 0x8000_0000 && b < 0x8000_0000 ==> total_order_key(a) < total_order_key(b),
{
}

pub fn total_key(b: u32) -> (k: u32)
    ensures
        k == total_order_key(b),
{
    if b >= 0x8000_0000 {
        0xFFFF_FFFF - b
    } else {
        b + 0x8000_0000
    }
}

/// `a` ranks below `x`: lower priority, or equal priority and older.
pub open spec fn ranks_below(a: MemoryRecord, x: MemoryRecord) -> bool {
    total_order_key(a.priority) < total_order_key(x.priority) || (total_order_key(a.priority)
        == total_order_key(x.priority) && a.updated_at < x.updated_at)
}

pub open spec fn below(x: MemoryRecord) -> spec_fn(MemoryRecord) -> bool {
    |a: MemoryRecord| ranks_below(a, x)
}

/// `x` placed before the first record that ranks below it.
pub open spec fn ranked_insert(s: Seq<MemoryRecord>, x: MemoryRecord) -> Seq<MemoryRecord>
    decreases s.len(),
{
    if s.len() == 0 {
        seq![x]
    } else if ranks_below(s[0], x) {
        seq![x] + s
    } else {
        seq![s[0]] + ranked_insert(s.drop_first(), x)
    }
}

/// The records by priority, then recency, highest first; records that rank
/// alike keep their order (a stable sort).
pub open spec fn ranked(s: Seq<MemoryRecord>) -> Seq<MemoryRecord>
    decreases s.len(),
{
    if s.len() == 0 {
        Seq::empty()
    } else {
        ranked_insert(ranked(s.drop_last()), s.last())
    }
}

proof fn lemma_ranked_insert_at(s: Seq<MemoryRecord>, x: MemoryRecord)
    ensures
        ({
            let p = crate::seqs::first_pos(s, below(x));
            let q = if p < 0 {
                s.len() as int
            } else {
                p
            };
            ranked_insert(s, x) == s.take(q) + seq![x] + s.skip(q)
        }),
    decreases s.len(),
{
    if s.len() == 0 {
        assert(s.take(0) + seq![x] + s.skip(0) =~= seq![x]);
    } else if ranks_below(s[0], x) {
        assert(below(x)(s[0]));
        assert(s.take(0) + seq![x] + s.skip(0) =~= seq![x] + s);
    } else {
        let t = s.drop_first();
        lemma_ranked_insert_at(t, x);
        crate::seqs::lemma_first_pos(t, below(x));
        assert(!below(x)(s[0]));
        let p = crate::seqs::first_pos(t, below(x));
        let q = if p < 0 {
            t.len() as int
        } else {
            p
        };
        assert(seq![s[0]] + (t.take(q) + seq![x] + t.skip(q)) =~= s.take(q + 1) + seq![x] + s.skip(
            q + 1,
        ));
    }
}

/// A memory a query can see at time `now`: same scope, the asked category,
/// unexpired unless expired ones are asked for, and containing the text in
/// lowercase.
pub open spec fn visible(r: MemoryRecord, q: MemoryQuery, now: Timestamp) -> bool {
    &&& r.scope == q.scope
    &&& (q.category matches Some(c) ==> r.category == c)
    &&& (q.include_expired || (r.expires_at matches Some(t) ==> t > now))
    &&& (q.text matches Some(t) ==> crate::text::seq_contains(
        crate::platform::unicode_lowercase(r.content@),
        crate::platform::unicode_lowercase(t@),
    ))
}

/// The records a query sees, in store order.
pub open spec fn visible_records(s: Seq<MemoryRecord>, q: MemoryQuery, now: Timestamp) -> Seq<MemoryRecord>
    decreases s.len(),
{
    if s.len() == 0 {
        Seq::empty()
    } else if visible(s.last(), q, now) {
        visible_records(s.drop_last(), q, now).push(s.last())
    } else {
        visible_records(s.drop_last(), q, now)
    }
}

/// What a search returns: the visible records, ranked, at most `limit` of them.
pub open spec fn search_result(s: Seq<MemoryRecord>, q: MemoryQuery, now: Timestamp) -> Seq<MemoryRecord> {
    let r = ranked(visible_records(s, q, now));
    if r.len() > q.limit {
        r.take(q.limit as int)
    } else {
        r
    }
}

pub fn copy_record(r: &MemoryRecord) -> (c: MemoryRecord)
    ensures
        c == *r,
{
    MemoryRecord {
        memory_id: r.memory_id,
        category: r.category,
        scope: r.scope,
        owner_id: r.owner_id,
        content: r.content.clone(),
        structured_content: r.structured_content.clone(),
        priority: r.priority,
        confidence: r.confidence,
        source: r.source.clone(),
        created_at: r.created_at,
        updated_at: r.updated_at,
        expires_at: r.expires_at,
        privacy: MemoryPrivacy {
            local_only: r.privacy.local_only,
            cloud_allowed: r.privacy.cloud_allowed,
            sensitive: r.privacy.sensitive,
            share_scope: crate::relay::copy_opt_string(&r.privacy.share_scope),
        },
        metadata: r.metadata.clone(),
        version: r.version,
    }
}

fn ranks_below_exec(a: &MemoryRecord, x: &MemoryRecord) -> (b: bool)
    ensures
        b == ranks_below(*a, *x),
{
    let ka = total_key(a.priority);
    let kx = total_key(x.priority);
    ka < kx || (ka == kx && a.updated_at < x.updated_at)
}

/// Inserts `x` before the first record that ranks below it.
#[verifier::loop_isolation(false)]
fn insert_ranked(out: &mut Vec<MemoryRecord>, x: MemoryRecord)
    ensures
        final(out)@ == ranked_insert(old(out)@, x),
{
    let ghost p = below(x);
    let mut i: usize = 0;
    while i < out.len()
        invariant
            i <= out.len(),
            out@ == old(out)@,
            p == below(x),
            forall|j: int| 0 <= j < i ==> !p(#[trigger] out@[j]),
        decreases out.len() - i,
    {
        if ranks_below_exec(&out[i], &x) {
            break;
        }
        i += 1;
    }
    proof {
        lemma_ranked_insert_at(out@, x);
        if i < out.len() {
            crate::seqs::lemma_first_pos_is(out@, p, i as int);
        } else {
            crate::seqs::lemma_first_pos_is(out@, p, -1);
        }
    }
    let ghost before = out@;
    out.insert(i, x);
    assert(out@ =~= before.take(i as int) + seq![x] + before.skip(i as int));
}

} // verus!

verus! {

/// A stored record that a new memory would duplicate: same scope, same
/// category and the same content in normal form.
pub open spec fn equivalent_to(m: CreateMemory) -> spec_fn(MemoryRecord) -> bool {
    |r: MemoryRecord| r.scope == m.scope && r.category == m.category && normal_form(r.content@)
        == normal_form(m.content@)
}

pub open spec fn with_id(id: MemoryId) -> spec_fn(MemoryRecord) -> bool {
    |r: MemoryRecord| r.memory_id == id
}

/// No two records share an identifier.
pub open spec fn ids_unique(s: Seq<MemoryRecord>) -> bool {
    forall|i: int, j: int|
        0 <= i < s.len() && 0 <= j < s.len() && i != j ==> (#[trigger] s[i]).memory_id
            != (#[trigger] s[j]).memory_id
}

/// The record stored for a new memory.
pub open spec fn new_record(m: CreateMemory, id: MemoryId, now: Timestamp, r: MemoryRecord) -> bool {
    &&& r.memory_id == id
    &&& r.category == m.category
    &&& r.scope == m.scope
    &&& r.owner_id == m.owner_id
    &&& r.content == m.content
    &&& r.structured_content == m.structured_content
    &&& r.priority == m.priority
    &&& r.confidence == m.confidence
    &&& r.source == m.source
    &&& r.created_at == now
    &&& r.updated_at == now
    &&& r.expires_at == m.expires_at
    &&& r.privacy == m.privacy
    &&& r.metadata == m.metadata
    &&& r.version == 1
}

/// The memories of one process, kept in memory.
pub struct InMemoryMemoryRepository {
    records: Vec<MemoryRecord>,
}

impl InMemoryMemoryRepository {
    #[verifier::type_invariant]
    spec fn well_formed(&self) -> bool {
        ids_unique(self.records@)
    }

    /// The stored records, in store order.
    pub closed spec fn stored(&self) -> Seq<MemoryRecord> {
        self.records@
    }

    pub fn new() -> (r: InMemoryMemoryRepository)
        ensures
            r.stored().len() == 0,
    {
        InMemoryMemoryRepository { records: Vec::new() }
    }

    fn position_of(&self, id: MemoryId) -> (r: Option<usize>)
        ensures
            match r {
                Some(i) => i < self.stored().len() && i as int == crate::seqs::first_pos(
                    self.stored(),
                    with_id(id),
                ) && self.stored()[i as int].memory_id == id,
                None => crate::seqs::first_pos(self.stored(), with_id(id)) < 0,
            },
    {
        let ghost p = with_id(id);
        let mut i: usize = 0;
        while i < self.records.len()
            invariant
                i <= self.records@.len(),
                p == with_id(id),
                forall|j: int| 0 <= j < i ==> !p(#[trigger] self.records@[j]),
            decreases self.records.len() - i,
        {
            if self.records[i].memory_id == id {
                proof {
                    crate::seqs::lemma_first_pos_is(self.records@, p, i as int);
                }
                return Some(i);
            }
            i += 1;
        }
        proof {
            crate::seqs::lemma_first_pos_is(self.records@, p, -1);
        }
        None
    }

    fn equivalent_position(&self, m: &CreateMemory) -> (r: Option<usize>)
        ensures
            match r {
                Some(i) => i < self.stored().len() && i as int == crate::seqs::first_pos(
                    self.stored(),
                    equivalent_to(*m),
                ),
                None => crate::seqs::first_pos(self.stored(), equivalent_to(*m)) < 0,
            },
    {
        let ghost p = equivalent_to(*m);
        let normalized = normalize_content(m.content.as_str());
        let mut i: usize = 0;
        while i < self.records.len()
            invariant
                i <= self.records@.len(),
                p == equivalent_to(*m),
                normalized@ == normal_form(m.content@),
                forall|j: int| 0 <= j < i ==> !p(#[trigger] self.records@[j]),
            decreases self.records.len() - i,
        {
            let r = &self.records[i];
            if r.scope == m.scope && r.category == m.category && str_eq(
                normalize_content(r.content.as_str()).as_str(),
                normalized.as_str(),
            ) {
                proof {
                    crate::seqs::lemma_first_pos_is(self.records@, p, i as int);
                }
                return Some(i);
            }
            i += 1;
        }
        proof {
            crate::seqs::lemma_first_pos_is(self.records@, p, -1);
        }
        None
    }

    /// The first stored record a new memory would duplicate.
    pub fn find_equivalent(&self, m: &CreateMemory) -> (r: Result<Option<MemoryRecord>, MemoryError>)
        ensures
            match create_refusal(*m) {
                Some(d) => r matches Err(e) && invalid(e, d),
                None => {
                    let p = crate::seqs::first_pos(self.stored(), equivalent_to(*m));
                    r == Ok::<Option<MemoryRecord>, MemoryError>(
                        if p >= 0 {
                            Some(self.stored()[p])
                        } else {
                            None
                        },
                    )
                },
            },
    {
        match m.validate() {
            Err(e) => {
                return Err(e);
            },
            Ok(()) => {},
        }
        match self.equivalent_position(m) {
            Some(i) => Ok(Some(copy_record(&self.records[i]))),
            None => Ok(None),
        }
    }

    /// Stores a new memory at time `now` under identifier `id`, unless it
    /// duplicates a stored one, which is then returned instead. A record
    /// already stored under `id` is replaced.
    pub fn create_at(&mut self, m: CreateMemory, id: MemoryId, now: Timestamp) -> (r: Result<
        MemoryRecord,
        MemoryError,
    >)
        ensures
            create_post(old(self).stored(), final(self).stored(), m, id, now, r),
    {
        match m.validate() {
            Err(e) => {
                return Err(e);
            },
            Ok(()) => {},
        }
        match self.equivalent_position(&m) {
            Some(i) => {
                return Ok(copy_record(&self.records[i]));
            },
            None => {},
        }
        let record = MemoryRecord {
            memory_id: id,
            category: m.category,
            scope: m.scope,
            owner_id: m.owner_id,
            content: m.content,
            structured_content: m.structured_content,
            priority: m.priority,
            confidence: m.confidence,
            source: m.source,
            created_at: now,
            updated_at: now,
            expires_at: m.expires_at,
            privacy: m.privacy,
            metadata: m.metadata,
            version: 1,
        };
        let result = copy_record(&record);
        proof {
            use_type_invariant(&*self);
            crate::seqs::lemma_first_pos(self.records@, with_id(id));
        }
        match self.position_of(id) {
            Some(q) => {
                let ghost before = self.records@;
                let mut records: Vec<MemoryRecord> = Vec::new();
                std::mem::swap(&mut records, &mut self.records);
                records.set(q, record);
                proof {
                    assert forall|i: int, j: int|
                        0 <= i < records@.len() && 0 <= j < records@.len() && i != j implies (
                        #[trigger] records@[i]).memory_id != (#[trigger] records@[j]).memory_id by {
                        if i != q && j != q {
                            assert(before[i].memory_id != before[j].memory_id);
                        } else if i == q {
                            assert(before[j].memory_id != before[q as int].memory_id);
                        } else {
                            assert(before[i].memory_id != before[q as int].memory_id);
                        }
                    }
                }
                self.records = records;
            },
            None => {
                let ghost before = self.records@;
                let mut records: Vec<MemoryRecord> = Vec::new();
                std::mem::swap(&mut records, &mut self.records);
                records.push(record);
                proof {
                    assert forall|i: int, j: int|
                        0 <= i < records@.len() && 0 <= j < records@.len() && i != j implies (
                        #[trigger] records@[i]).memory_id != (#[trigger] records@[j]).memory_id by {
                        if i < before.len() && j < before.len() {
                            assert(before[i].memory_id != before[j].memory_id);
                        } else if i == before.len() {
                            assert(!with_id(id)(before[j]));
                        } else {
                            assert(!with_id(id)(before[i]));
                        }
                    }
                }
                self.records = records;
            },
        }
        Ok(result)
    }

    /// Stores a new memory now under a fresh identifier (see `create_at`).
    pub fn create(&mut self, m: CreateMemory) -> (r: Result<MemoryRecord, MemoryError>)
        ensures
            ({
                let s = old(self).stored();
                if create_refusal(m) is Some || crate::seqs::first_pos(s, equivalent_to(m)) >= 0 {
                    forall|id: MemoryId, now: Timestamp|
                        #[trigger] create_post(s, final(self).stored(), m, id, now, r)
                } else {
                    (r == Err::<MemoryRecord, MemoryError>(MemoryError::Unavailable)
                        && final(self).stored() == s) || exists|id: MemoryId, now: Timestamp|
                        #[trigger] create_post(s, final(self).stored(), m, id, now, r)
                }
            }),
    {
        match self.find_equivalent(&m) {
            Err(e) => {
                return Err(e);
            },
            Ok(Some(existing)) => {
                return Ok(existing);
            },
            Ok(None) => {},
        }
        let id = match MemoryId::new() {
            Some(v) => v,
            None => {
                return Err(MemoryError::Unavailable);
            },
        };
        let now = match crate::platform::now_millis() {
            Some(v) => v,
            None => {
                return Err(MemoryError::Unavailable);
            },
        };
        self.create_at(m, id, now)
    }

    /// The record with this identifier, if it belongs to `scope`.
    pub fn get(&self, id: MemoryId, scope: &MemoryScope) -> (r: Result<Option<MemoryRecord>, MemoryError>)
        ensures
            if !scope_valid(*scope) {
                r matches Err(e) && invalid(e, "scope identifiers do not match scope type"@)
            } else {
                let p = crate::seqs::first_pos(self.stored(), with_id(id));
                r == Ok::<Option<MemoryRecord>, MemoryError>(
                    if p >= 0 && self.stored()[p].scope == *scope {
                        Some(self.stored()[p])
                    } else {
                        None
                    },
                )
            },
    {
        match scope.validate() {
            Err(e) => {
                return Err(e);
            },
            Ok(()) => {},
        }
        match self.position_of(id) {
            Some(i) => {
                if self.records[i].scope == *scope {
                    Ok(Some(copy_record(&self.records[i])))
                } else {
                    Ok(None)
                }
            },
            None => Ok(None),
        }
    }
}

} // verus!

verus! {

/// `x` is `r` after the update `u` at time `now`.
pub open spec fn record_updated(r: MemoryRecord, u: UpdateMemory, now: Timestamp, x: MemoryRecord) -> bool {
    x == MemoryRecord {
        content: u.content,
        structured_content: u.structured_content,
        priority: u.priority,
        confidence: u.confidence,
        expires_at: u.expires_at,
        privacy: u.privacy,
        metadata: u.metadata,
        updated_at: now,
        version: vstd::wrapping::i64_specs::wrapping_add(r.version, 1),
        ..r
    }
}

/// What storing `m` under `id` at time `now` does to the stored records `s`,
/// leaving `t`, with result `r`: refused when invalid, the equivalent record
/// when one is stored, and else the new record.
pub open spec fn create_post(
    s: Seq<MemoryRecord>,
    t: Seq<MemoryRecord>,
    m: CreateMemory,
    id: MemoryId,
    now: Timestamp,
    r: Result<MemoryRecord, MemoryError>,
) -> bool {
    let p = crate::seqs::first_pos(s, equivalent_to(m));
    let q = crate::seqs::first_pos(s, with_id(id));
    if create_refusal(m) is Some {
        r matches Err(e) && invalid(e, create_refusal(m)->Some_0) && t == s
    } else if p >= 0 {
        r == Ok::<MemoryRecord, MemoryError>(s[p]) && t == s
    } else {
        r matches Ok(x) && new_record(m, id, now, x) && t == if q >= 0 {
            s.update(q, x)
        } else {
            s.push(x)
        }
    }
}

/// Updating record `id` in `scope` with `u` is refused before the clock is
/// read: an invalid scope or update, a missing record or one of another
/// scope, or a version that is not the expected one.
pub open spec fn update_refused(s: Seq<MemoryRecord>, id: MemoryId, scope: MemoryScope, u: UpdateMemory) -> bool {
    let p = crate::seqs::first_pos(s, with_id(id));
    !scope_valid(scope) || update_refusal(u) is Some || p < 0 || s[p].scope != scope || s[p].version
        != u.expected_version
}

/// The effect of an update: only the record under `id` in `scope` changes,
/// and only when the caller read the version stored.
pub open spec fn update_post(
    s: Seq<MemoryRecord>,
    t: Seq<MemoryRecord>,
    id: MemoryId,
    scope: MemoryScope,
    u: UpdateMemory,
    now: Timestamp,
    r: Result<MemoryRecord, MemoryError>,
) -> bool {
    let p = crate::seqs::first_pos(s, with_id(id));
    if !scope_valid(scope) {
        r matches Err(e) && invalid(e, "scope identifiers do not match scope type"@) && t == s
    } else if update_refusal(u) is Some {
        r matches Err(e) && invalid(e, update_refusal(u)->Some_0) && t == s
    } else if p < 0 || s[p].scope != scope {
        r == Err::<MemoryRecord, MemoryError>(MemoryError::NotFound) && t == s
    } else if s[p].version != u.expected_version {
        r == Err::<MemoryRecord, MemoryError>(MemoryError::Conflict) && t == s
    } else {
        r matches Ok(x) && record_updated(s[p], u, now, x) && t == s.update(p, x)
    }
}

/// Storing a valid memory while an equivalent one (same scope and
/// category, same normalized content) is stored returns the first such
/// stored record and adds nothing.
pub proof fn an_equivalent_memory_is_not_stored_twice(
    s: Seq<MemoryRecord>,
    t: Seq<MemoryRecord>,
    m: CreateMemory,
    id: MemoryId,
    now: Timestamp,
    r: Result<MemoryRecord, MemoryError>,
    i: int,
)
    requires
        create_refusal(m) is None,
        0 <= i < s.len(),
        equivalent_to(m)(s[i]),
        create_post(s, t, m, id, now, r),
    ensures
        t == s,
        r matches Ok(x) && equivalent_to(m)(x) && s.contains(x),
        r == Ok::<MemoryRecord, MemoryError>(s[crate::seqs::first_pos(s, equivalent_to(m))]),
{
    crate::seqs::lemma_first_pos(s, equivalent_to(m));
}

/// Updates are versioned optimistically: an update against the stored
/// version replaces the record under the next version, and an update
/// against a version that is no longer stored (for one, the version a
/// successful update replaced) is a conflict that changes nothing.
pub proof fn updates_are_versioned_optimistically(
    s: Seq<MemoryRecord>,
    t: Seq<MemoryRecord>,
    id: MemoryId,
    scope: MemoryScope,
    u: UpdateMemory,
    now: Timestamp,
    r: Result<MemoryRecord, MemoryError>,
    t2: Seq<MemoryRecord>,
    u2: UpdateMemory,
    now2: Timestamp,
    r2: Result<MemoryRecord, MemoryError>,
)
    requires
        update_post(s, t, id, scope, u, now, r),
        r is Ok,
        update_post(t, t2, id, scope, u2, now2, r2),
        update_refusal(u2) is None,
        u2.expected_version == u.expected_version,
    ensures
        ({
            let p = crate::seqs::first_pos(s, with_id(id));
            &&& 0 <= p < s.len() && s[p].version == u.expected_version
            &&& r->Ok_0.version == vstd::wrapping::i64_specs::wrapping_add(u.expected_version, 1)
            &&& r->Ok_0.content == u.content
            &&& t == s.update(p, r->Ok_0)
        }),
        r2 == Err::<MemoryRecord, MemoryError>(MemoryError::Conflict),
        t2 == t,
{
    let p = crate::seqs::first_pos(s, with_id(id));
    crate::seqs::lemma_first_pos(s, with_id(id));
    let x = r->Ok_0;
    let q = crate::seqs::first_pos(t, with_id(id));
    crate::seqs::lemma_first_pos(t, with_id(id));
    assert(t[p] == x);
    assert(x.memory_id == id);
    assert forall|j: int| 0 <= j < p implies !with_id(id)(#[trigger] t[j]) by {
        assert(t[j] == s[j]);
    }
    assert(q == p);
    let v = u.expected_version;
    assert(vstd::wrapping::i64_specs::wrapping_add(v, 1) != v);
}

/// What a query asks of a record: its scope, its category if one is asked
/// for, that it has not expired unless expired records are asked for, and the
/// text, if any, in its content, both in lowercase.
pub open spec fn matches_query(r: MemoryRecord, q: MemoryQuery, now: Timestamp) -> bool {
    &&& r.scope == q.scope
    &&& (q.category matches Some(c) ==> r.category == c)
    &&& (!q.include_expired && r.expires_at is Some ==> r.expires_at->Some_0 > now)
    &&& (q.text is Some ==> crate::text::seq_contains(
        crate::platform::unicode_lowercase(r.content@),
        crate::platform::unicode_lowercase(q.text->Some_0@),
    ))
}

/// Every record a search returns belongs to the query's scope, has the
/// category asked for, has not expired unless expired records were asked
/// for, and holds the query text.
pub proof fn search_stays_in_scope(s: Seq<MemoryRecord>, q: MemoryQuery, now: Timestamp, i: int)
    requires
        0 <= i < search_result(s, q, now).len(),
    ensures
        search_result(s, q, now)[i].scope == q.scope,
        visible(search_result(s, q, now)[i], q, now),
        matches_query(search_result(s, q, now)[i], q, now),
        s.contains(search_result(s, q, now)[i]),
{
    lemma_visible_sub(s, q, now);
    lemma_visible_records(s, q, now);
    lemma_ranked_members(visible_records(s, q, now));
    let r = ranked(visible_records(s, q, now));
    assert(search_result(s, q, now)[i] == r[i]);
}

proof fn lemma_visible_sub(s: Seq<MemoryRecord>, q: MemoryQuery, now: Timestamp)
    ensures
        forall|k: int|
            0 <= k < visible_records(s, q, now).len() ==> s.contains(
                #[trigger] visible_records(s, q, now)[k],
            ),
        forall|k: int|
            0 <= k < s.len() && visible(#[trigger] s[k], q, now) ==> visible_records(
                s,
                q,
                now,
            ).contains(s[k]),
    decreases s.len(),
{
    if s.len() > 0 {
        let t = s.drop_last();
        lemma_visible_sub(t, q, now);
        let vt = visible_records(t, q, now);
        let v = visible_records(s, q, now);
        assert forall|k: int| 0 <= k < v.len() implies s.contains(#[trigger] v[k]) by {
            if k < vt.len() {
                assert(v[k] == vt[k]);
                let j = choose|j: int| 0 <= j < t.len() && t[j] == vt[k];
                assert(s[j] == t[j]);
            } else {
                assert(v[k] == s[s.len() - 1]);
            }
        }
        assert forall|k: int| 0 <= k < s.len() && visible(#[trigger] s[k], q, now) implies v.contains(
            s[k],
        ) by {
            if k < t.len() {
                assert(t[k] == s[k]);
                let j = choose|j: int| 0 <= j < vt.len() && vt[j] == t[k];
                assert(v[j] == vt[j]);
            } else {
                assert(v[v.len() - 1] == s[k]);
            }
        }
    }
}

/// A search finds every stored record the query matches: one that is left
/// out has no higher priority than any record returned, and among equal
/// priorities none more recent; and when fewer records than the limit come
/// back, none that matches is left out.
pub proof fn search_finds_every_matching_record(
    s: Seq<MemoryRecord>,
    q: MemoryQuery,
    now: Timestamp,
    k: int,
    i: int,
)
    requires
        0 <= k < s.len(),
        matches_query(s[k], q, now),
        !search_result(s, q, now).contains(s[k]),
    ensures
        search_result(s, q, now).len() == q.limit,
        0 <= i < search_result(s, q, now).len() ==> ({
            let r = search_result(s, q, now);
            &&& total_order_key(r[i].priority) >= total_order_key(s[k].priority)
            &&& total_order_key(r[i].priority) == total_order_key(s[k].priority) ==> r[i].updated_at
                >= s[k].updated_at
        }),
{
    lemma_visible_sub(s, q, now);
    assert(visible(s[k], q, now));
    let v = visible_records(s, q, now);
    let p = choose|p: int| 0 <= p < v.len() && v[p] == s[k];
    let rk = ranked(v);
    lemma_ranked_keeps(v);
    lemma_ranked_members(v);
    assert(rk.contains(v[p]));
    if rk.len() <= q.limit {
        assert(search_result(s, q, now) == rk);
    }
    if 0 <= i < search_result(s, q, now).len() {
        search_leaves_out_only_lower_ranked_records(s, q, now, p, i);
    }
}

proof fn lemma_visible_records(s: Seq<MemoryRecord>, q: MemoryQuery, now: Timestamp)
    ensures
        forall|k: int|
            0 <= k < visible_records(s, q, now).len() ==> visible(
                #[trigger] visible_records(s, q, now)[k],
                q,
                now,
            ),
    decreases s.len(),
{
    if s.len() > 0 {
        let t = s.drop_last();
        lemma_visible_records(t, q, now);
        assert forall|k: int| 0 <= k < visible_records(s, q, now).len() implies visible(
            #[trigger] visible_records(s, q, now)[k],
            q,
            now,
        ) by {
            if k < visible_records(t, q, now).len() {
                assert(visible_records(s, q, now)[k] == visible_records(t, q, now)[k]);
            }
        }
    }
}

proof fn lemma_ranked_insert_members(s: Seq<MemoryRecord>, x: MemoryRecord)
    ensures
        ranked_insert(s, x).len() == s.len() + 1,
        forall|k: int|
            0 <= k < ranked_insert(s, x).len() ==> #[trigger] ranked_insert(s, x)[k] == x
                || s.contains(ranked_insert(s, x)[k]),
    decreases s.len(),
{
    if s.len() > 0 && !ranks_below(s[0], x) {
        let t = s.drop_first();
        lemma_ranked_insert_members(t, x);
        assert forall|k: int| 0 <= k < ranked_insert(s, x).len() implies #[trigger] ranked_insert(
            s,
            x,
        )[k] == x || s.contains(ranked_insert(s, x)[k]) by {
            if k == 0 {
                assert(s.contains(s[0]));
            } else {
                let y = ranked_insert(t, x)[k - 1];
                assert(ranked_insert(s, x)[k] == y);
                if y != x {
                    let j = choose|j: int| 0 <= j < t.len() && t[j] == y;
                    assert(s[j + 1] == y);
                }
            }
        }
    } else if s.len() > 0 {
        assert forall|k: int| 0 <= k < ranked_insert(s, x).len() implies #[trigger] ranked_insert(
            s,
            x,
        )[k] == x || s.contains(ranked_insert(s, x)[k]) by {
            if k > 0 {
                assert(ranked_insert(s, x)[k] == s[k - 1]);
            }
        }
    }
}

/// Ranking only reorders: every ranked record is one of the records.
proof fn lemma_ranked_members(s: Seq<MemoryRecord>)
    ensures
        ranked(s).len() == s.len(),
        forall|k: int| 0 <= k < ranked(s).len() ==> s.contains(#[trigger] ranked(s)[k]),
    decreases s.len(),
{
    if s.len() > 0 {
        let t = s.drop_last();
        lemma_ranked_members(t);
        lemma_ranked_insert_members(ranked(t), s.last());
        assert forall|k: int| 0 <= k < ranked(s).len() implies s.contains(#[trigger] ranked(s)[k]) by {
            let y = ranked(s)[k];
            if y == s.last() {
                assert(s[s.len() - 1] == y);
            } else {
                assert(ranked(t).contains(y));
                let j = choose|j: int| 0 <= j < ranked(t).len() && ranked(t)[j] == y;
                assert(t.contains(ranked(t)[j]));
                let m = choose|m: int| 0 <= m < t.len() && t[m] == y;
                assert(s[m] == y);
            }
        }
    }
}

impl InMemoryMemoryRepository {
    /// Replaces the record under `id` in `scope` at time `now`, only when the
    /// caller read the version stored; see `update_post`.
    pub fn update_at(
        &mut self,
        id: MemoryId,
        scope: &MemoryScope,
        update: UpdateMemory,
        now: Timestamp,
    ) -> (r: Result<MemoryRecord, MemoryError>)
        ensures
            update_post(old(self).stored(), final(self).stored(), id, *scope, update, now, r),
    {
        match scope.validate() {
            Err(e) => {
                return Err(e);
            },
            Ok(()) => {},
        }
        match update.validate() {
            Err(e) => {
                return Err(e);
            },
            Ok(()) => {},
        }
        let p = match self.position_of(id) {
            Some(p) => p,
            None => {
                return Err(MemoryError::NotFound);
            },
        };
        if self.records[p].scope != *scope {
            return Err(MemoryError::NotFound);
        }
        if self.records[p].version != update.expected_version {
            return Err(MemoryError::Conflict);
        }
        proof {
            use_type_invariant(&*self);
        }
        let mut records: Vec<MemoryRecord> = Vec::new();
        std::mem::swap(&mut records, &mut self.records);
        let ghost before = records@;
        let mut record = records.remove(p);
        record.content = update.content;
        record.structured_content = update.structured_content;
        record.priority = update.priority;
        record.confidence = update.confidence;
        record.expires_at = update.expires_at;
        record.privacy = update.privacy;
        record.metadata = update.metadata;
        record.updated_at = now;
        record.version = record.version.wrapping_add(1);
        let result = copy_record(&record);
        records.insert(p, record);
        assert(records@ =~= before.update(p as int, result));
        proof {
            assert forall|i: int, j: int|
                0 <= i < records@.len() && 0 <= j < records@.len() && i != j implies (
                #[trigger] records@[i]).memory_id != (#[trigger] records@[j]).memory_id by {
                assert(before[i].memory_id != before[j].memory_id);
            }
        }
        self.records = records;
        Ok(result)
    }

    /// Replaces the record under `id` now (see `update_at`).
    pub fn update(&mut self, id: MemoryId, scope: &MemoryScope, update: UpdateMemory) -> (r: Result<
        MemoryRecord,
        MemoryError,
    >)
        ensures
            update_refused(old(self).stored(), id, *scope, update) ==> forall|now: Timestamp|
                #[trigger] update_post(
                    old(self).stored(),
                    final(self).stored(),
                    id,
                    *scope,
                    update,
                    now,
                    r,
                ),
            !update_refused(old(self).stored(), id, *scope, update) ==> (r == Err::<
                MemoryRecord,
                MemoryError,
            >(MemoryError::Unavailable) && final(self).stored() == old(self).stored()) || exists|
                now: Timestamp,
            |
                #[trigger] update_post(
                    old(self).stored(),
                    final(self).stored(),
                    id,
                    *scope,
                    update,
                    now,
                    r,
                ),
    {
        if self.update_is_refused(id, scope, &update) {
            return self.update_at(id, scope, update, 0);
        }
        let now = match crate::platform::now_millis() {
            Some(v) => v,
            None => {
                return Err(MemoryError::Unavailable);
            },
        };
        self.update_at(id, scope, update, now)
    }

    /// Whether an update is refused before the clock is read; see `update_refused`.
    pub fn update_is_refused(&self, id: MemoryId, scope: &MemoryScope, update: &UpdateMemory) -> (b: bool)
        ensures
            b == update_refused(self.stored(), id, *scope, *update),
    {
        if scope.validate().is_err() || update.validate().is_err() {
            return true;
        }
        match self.position_of(id) {
            Some(p) => self.records[p].scope != *scope || self.records[p].version != update.expected_version,
            None => true,
        }
    }

    /// Removes the record under `id` when it belongs to `scope`; tells whether
    /// it did.
    pub fn delete(&mut self, id: MemoryId, scope: &MemoryScope) -> (r: Result<bool, MemoryError>)
        ensures
            ({
                let s = old(self).stored();
                let p = crate::seqs::first_pos(s, with_id(id));
                if !scope_valid(*scope) {
                    r matches Err(e) && invalid(e, "scope identifiers do not match scope type"@)
                        && final(self).stored() == s
                } else if p >= 0 && s[p].scope == *scope {
                    r == Ok::<bool, MemoryError>(true) && final(self).stored() == s.remove(p)
                } else {
                    r == Ok::<bool, MemoryError>(false) && final(self).stored() == s
                }
            }),
    {
        match scope.validate() {
            Err(e) => {
                return Err(e);
            },
            Ok(()) => {},
        }
        match self.position_of(id) {
            Some(p) => {
                if self.records[p].scope == *scope {
                    proof {
                        use_type_invariant(&*self);
                    }
                    let mut records: Vec<MemoryRecord> = Vec::new();
                    std::mem::swap(&mut records, &mut self.records);
                    let ghost before = records@;
                    records.remove(p);
                    proof {
                        assert forall|i: int, j: int|
                            0 <= i < records@.len() && 0 <= j < records@.len() && i != j implies (
                            #[trigger] records@[i]).memory_id != (#[trigger] records@[j]).memory_id by {
                            let a = if i < p { i } else { i + 1 };
                            let b = if j < p { j } else { j + 1 };
                            assert(records@[i] == before[a]);
                            assert(records@[j] == before[b]);
                            assert(before[a].memory_id != before[b].memory_id);
                        }
                    }
                    self.records = records;
                    Ok(true)
                } else {
                    Ok(false)
                }
            },
            None => Ok(false),
        }
    }

    /// The records a query sees at time `now`, ranked, at most `limit`.
    pub fn search_at(&self, query: &MemoryQuery, now: Timestamp) -> (r: Result<Vec<MemoryRecord>, MemoryError>)
        ensures
            match query_refusal(*query) {
                Some(d) => r matches Err(e) && invalid(e, d),
                None => r matches Ok(v) && v@ == search_result(self.stored(), *query, now),
            },
    {
        match query.validate() {
            Err(e) => {
                return Err(e);
            },
            Ok(()) => {},
        }
        let text = match &query.text {
            Some(t) => Some(crate::platform::lowercase(t.as_str())),
            None => None,
        };
        let mut out: Vec<MemoryRecord> = Vec::new();
        let mut i: usize = 0;
        while i < self.records.len()
            invariant
                i <= self.records@.len(),
                out@ == ranked(visible_records(self.records@.take(i as int), *query, now)),
                match query.text {
                    Some(t) => text matches Some(l) && l@ == crate::platform::unicode_lowercase(t@),
                    None => text is None,
                },
            decreases self.records.len() - i,
        {
            let ghost prev = self.records@.take(i as int);
            assert(self.records@.take(i + 1).drop_last() =~= prev);
            assert(self.records@.take(i + 1).last() == self.records@[i as int]);
            let r = &self.records[i];
            let category_ok = match query.category {
                Some(c) => r.category == c,
                None => true,
            };
            let fresh = query.include_expired || match r.expires_at {
                Some(t) => t > now,
                None => true,
            };
            let text_ok = match &text {
                Some(t) => crate::text::contains(
                    crate::platform::lowercase(r.content.as_str()).as_str(),
                    t.as_str(),
                ),
                None => true,
            };
            let ghost vis_prev = visible_records(prev, *query, now);
            if r.scope == query.scope && category_ok && fresh && text_ok {
                assert(visible(*r, *query, now));
                assert(visible_records(self.records@.take(i + 1), *query, now) == vis_prev.push(*r));
                assert(visible_records(self.records@.take(i + 1), *query, now).drop_last() =~= vis_prev);
                insert_ranked(&mut out, copy_record(r));
            } else {
                assert(!visible(*r, *query, now));
                assert(visible_records(self.records@.take(i + 1), *query, now) == vis_prev);
            }
            i += 1;
        }
        assert(self.records@.take(self.records.len() as int) =~= self.records@);
        let limit = query.limit as usize;
        if out.len() > limit {
            out.truncate(limit);
        }
        Ok(out)
    }

    /// The records a query sees now (see `search_at`).
    pub fn search(&self, query: &MemoryQuery) -> (r: Result<Vec<MemoryRecord>, MemoryError>)
        ensures
            match query_refusal(*query) {
                Some(d) => r matches Err(e) && invalid(e, d),
                None => r == Err::<Vec<MemoryRecord>, MemoryError>(MemoryError::Unavailable) || (r matches Ok(
                    v,
                ) && exists|now: Timestamp| v@ == #[trigger] search_result(self.stored(), *query, now)),
            },
    {
        match query.validate() {
            Err(e) => {
                return Err(e);
            },
            Ok(()) => {},
        }
        let now = match crate::platform::now_millis() {
            Some(v) => v,
            None => {
                return Err(MemoryError::Unavailable);
            },
        };
        self.search_at(query, now)
    }
}

} // verus!

verus! {

/// A memory a model proposed; it stays a proposal until approved.
#[derive(Debug, Clone, PartialEq, Eq)]
pub struct MemoryProposal {
    pub candidate: CreateMemory,
}

/// What a trusted boundary lets a writer store.
#[derive(Debug, Clone, PartialEq, Eq)]
pub struct MemoryWritePermit {
    pub actor_id: Option<u128>,
    pub scope: MemoryScope,
    pub allow_sensitive: bool,
}

/// Why a proposal is refused under a permit, if it is, checked in this order.
pub open spec fn proposal_refusal(p: MemoryProposal, permit: MemoryWritePermit) -> Option<Seq<char>> {
    if create_refusal(p.candidate) is Some {
        create_refusal(p.candidate)
    } else if !scope_valid(permit.scope) {
        Some("scope identifiers do not match scope type"@)
    } else if p.candidate.scope != permit.scope {
        Some("memory proposal exceeds permitted scope"@)
    } else if p.candidate.privacy.sensitive && !permit.allow_sensitive {
        Some("memory proposal lacks sensitive-memory permission"@)
    } else {
        None
    }
}

/// What storing an approved proposal under `id` at time `now` does to the
/// stored records `s0`, leaving `t`, with result `r`.
pub open spec fn approve_and_store_post(
    s0: Seq<MemoryRecord>,
    t: Seq<MemoryRecord>,
    proposal: MemoryProposal,
    permit: MemoryWritePermit,
    id: MemoryId,
    now: Timestamp,
    r: Result<MemoryRecord, MemoryError>,
) -> bool {
    match proposal_refusal(proposal, permit) {
        Some(d) => r matches Err(e) && invalid(e, d) && t == s0,
        None => {
            let m = CreateMemory { owner_id: permit.actor_id, ..proposal.candidate };
            let s = s0;
            let p = crate::seqs::first_pos(s, equivalent_to(m));
            let q = crate::seqs::first_pos(s, with_id(id));
            if p >= 0 {
                r == Ok::<MemoryRecord, MemoryError>(s[p]) && t == s
            } else {
                r matches Ok(x) && new_record(m, id, now, x) && t == if q
                    >= 0 {
                    s.update(q, x)
                } else {
                    s.push(x)
                }
            }
        },
    }
}

/// Refuses a proposal that `proposal_refusal` refuses, with that reason.
fn check_proposal(proposal: &MemoryProposal, permit: &MemoryWritePermit) -> (r: Result<(), MemoryError>)
    ensures
        match proposal_refusal(*proposal, *permit) {
            Some(d) => r matches Err(e) && invalid(e, d),
            None => r is Ok,
        },
{
    match proposal.candidate.validate() {
        Err(e) => {
            return Err(e);
        },
        Ok(()) => {},
    }
    match permit.scope.validate() {
        Err(e) => {
            return Err(e);
        },
        Ok(()) => {},
    }
    if proposal.candidate.scope != permit.scope {
        return Err(MemoryError::Invalid(owned("memory proposal exceeds permitted scope")));
    }
    if proposal.candidate.privacy.sensitive && !permit.allow_sensitive {
        return Err(
            MemoryError::Invalid(owned("memory proposal lacks sensitive-memory permission")),
        );
    }
    Ok(())
}

/// Stores an approved proposal owned by the permit's actor at time `now`
/// under `id`: refused outside the permitted scope or, for sensitive
/// memories, without that permission; a duplicate returns the stored memory.
pub fn approve_and_store_at(
    repository: &mut InMemoryMemoryRepository,
    proposal: MemoryProposal,
    permit: &MemoryWritePermit,
    id: MemoryId,
    now: Timestamp,
) -> (r: Result<MemoryRecord, MemoryError>)
    ensures
        approve_and_store_post(old(repository).stored(), final(repository).stored(), proposal, *permit, id, now, r),

{
    match check_proposal(&proposal, permit) {
        Err(e) => {
            return Err(e);
        },
        Ok(()) => {},
    }
    let mut candidate = proposal.candidate;
    candidate.owner_id = permit.actor_id;
    match repository.find_equivalent(&candidate) {
        Err(e) => {
            return Err(e);
        },
        Ok(Some(existing)) => {
            return Ok(existing);
        },
        Ok(None) => {},
    }
    repository.create_at(candidate, id, now)
}

/// Stores an approved proposal now under a fresh identifier.
pub fn approve_and_store(
    repository: &mut InMemoryMemoryRepository,
    proposal: MemoryProposal,
    permit: &MemoryWritePermit,
) -> (r: Result<MemoryRecord, MemoryError>)
    ensures
        match proposal_refusal(proposal, *permit) {
            Some(d) => r matches Err(e) && invalid(e, d) && final(repository).stored() == old(
                repository,
            ).stored(),
            None => (r == Err::<MemoryRecord, MemoryError>(MemoryError::Unavailable)
                && final(repository).stored() == old(repository).stored()) || (r is Ok && exists|id: MemoryId, now: Timestamp|
                #[trigger] approve_and_store_post(
                    old(repository).stored(),
                    final(repository).stored(),
                    proposal,
                    *permit,
                    id,
                    now,
                    r,
                )),
        },
        r matches Ok(x) ==> x.scope == permit.scope,
{
    match check_proposal(&proposal, permit) {
        Err(e) => {
            return Err(e);
        },
        Ok(()) => {},
    }
    let id = match MemoryId::new() {
        Some(v) => v,
        None => {
            return Err(MemoryError::Unavailable);
        },
    };
    let now = match crate::platform::now_millis() {
        Some(t) => t,
        None => {
            return Err(MemoryError::Unavailable);
        },
    };
    let r = approve_and_store_at(repository, proposal, permit, id, now);
    proof {
        let m = CreateMemory { owner_id: permit.actor_id, ..proposal.candidate };
        crate::seqs::lemma_first_pos(old(repository).stored(), equivalent_to(m));
    }
    r
}

/// Storing a memory twice keeps one: after a memory is stored, storing any
/// memory with the same scope, category and normalized content returns the
/// record first stored and changes nothing.
pub proof fn storing_a_duplicate_returns_the_first(
    s: Seq<MemoryRecord>,
    t: Seq<MemoryRecord>,
    m1: CreateMemory,
    id: MemoryId,
    now: Timestamp,
    x: MemoryRecord,
    m2: CreateMemory,
)
    requires
        create_refusal(m1) is None,
        ({
            let p = crate::seqs::first_pos(s, equivalent_to(m1));
            let q = crate::seqs::first_pos(s, with_id(id));
            if p >= 0 {
                x == s[p] && t == s
            } else {
                new_record(m1, id, now, x) && t == if q >= 0 {
                    s.update(q, x)
                } else {
                    s.push(x)
                }
            }
        }),
        m2.scope == m1.scope,
        m2.category == m1.category,
        normal_form(m2.content@) == normal_form(m1.content@),
    ensures
        crate::seqs::first_pos(t, equivalent_to(m2)) >= 0,
        t[crate::seqs::first_pos(t, equivalent_to(m2))] == x,
{
    let e1 = equivalent_to(m1);
    let e2 = equivalent_to(m2);
    assert forall|r: MemoryRecord| #[trigger] e1(r) == e2(r) by {}
    assert(e1 =~= e2);
    assert(e1 == e2);
    let p = crate::seqs::first_pos(s, e1);
    crate::seqs::lemma_first_pos(s, e1);
    if p < 0 {
        let q = crate::seqs::first_pos(s, with_id(id));
        crate::seqs::lemma_first_pos(s, with_id(id));
        assert(e1(x));
        if q >= 0 {
            crate::seqs::lemma_first_pos_is(t, e1, q);
        } else {
            crate::seqs::lemma_first_pos_is(t, e1, s.len() as int);
        }
    }
}

/// A search returns the visible records by priority, highest first in the
/// `f32` total order, and among equal priorities the most recently updated
/// first; it returns only visible records, as many of them as the limit
/// allows.
pub proof fn search_results_come_highest_priority_first(
    s: Seq<MemoryRecord>,
    q: MemoryQuery,
    now: Timestamp,
    i: int,
    j: int,
)
    ensures
        search_result(s, q, now).len() == if visible_records(s, q, now).len() > q.limit {
            q.limit as int
        } else {
            visible_records(s, q, now).len() as int
        },
        0 <= i < j < search_result(s, q, now).len() ==> ({
            let r = search_result(s, q, now);
            &&& total_order_key(r[i].priority) >= total_order_key(r[j].priority)
            &&& total_order_key(r[i].priority) == total_order_key(r[j].priority) ==> r[i].updated_at
                >= r[j].updated_at
        }),
        0 <= i < search_result(s, q, now).len() ==> visible_records(s, q, now).contains(
            search_result(s, q, now)[i],
        ),
{
    let v = visible_records(s, q, now);
    lemma_ranked_members(v);
    lemma_ranked_sorted(v);
    let rk = ranked(v);
    if 0 <= i < search_result(s, q, now).len() {
        assert(search_result(s, q, now)[i] == rk[i]);
    }
    if 0 <= i < j < search_result(s, q, now).len() {
        let r = search_result(s, q, now);
        assert(r[i] == rk[i] && r[j] == rk[j]);
        assert(!ranks_below(rk[i], rk[j]));
    }
}

proof fn lemma_ranked_insert_keeps(s: Seq<MemoryRecord>, x: MemoryRecord)
    ensures
        ranked_insert(s, x).contains(x),
        forall|k: int| 0 <= k < s.len() ==> ranked_insert(s, x).contains(#[trigger] s[k]),
    decreases s.len(),
{
    let r = ranked_insert(s, x);
    if s.len() == 0 {
        assert(r[0] == x);
    } else if ranks_below(s[0], x) {
        assert(r[0] == x);
        assert forall|k: int| 0 <= k < s.len() implies r.contains(#[trigger] s[k]) by {
            assert(r[k + 1] == s[k]);
        }
    } else {
        let t = s.drop_first();
        lemma_ranked_insert_keeps(t, x);
        let rt = ranked_insert(t, x);
        let jx = choose|j: int| 0 <= j < rt.len() && rt[j] == x;
        assert(r[jx + 1] == x);
        assert forall|k: int| 0 <= k < s.len() implies r.contains(#[trigger] s[k]) by {
            if k == 0 {
                assert(r[0] == s[0]);
            } else {
                assert(t[k - 1] == s[k]);
                assert(rt.contains(t[k - 1]));
                let j = choose|j: int| 0 <= j < rt.len() && rt[j] == t[k - 1];
                assert(r[j + 1] == s[k]);
            }
        }
    }
}

proof fn lemma_ranked_keeps(s: Seq<MemoryRecord>)
    ensures
        forall|k: int| 0 <= k < s.len() ==> ranked(s).contains(#[trigger] s[k]),
    decreases s.len(),
{
    if s.len() > 0 {
        let t = s.drop_last();
        lemma_ranked_keeps(t);
        lemma_ranked_insert_keeps(ranked(t), s.last());
        assert forall|k: int| 0 <= k < s.len() implies ranked(s).contains(#[trigger] s[k]) by {
            if k < t.len() {
                assert(t[k] == s[k]);
                assert(ranked(t).contains(t[k]));
                let j = choose|j: int| 0 <= j < ranked(t).len() && ranked(t)[j] == t[k];
                assert(ranked_insert(ranked(t), s.last()).contains(ranked(t)[j]));
            }
        }
    }
}

/// A search returns the best of the visible records: a visible record that
/// is not among the results has no higher priority than any result, and
/// among equal priorities none more recent.
pub proof fn search_leaves_out_only_lower_ranked_records(
    s: Seq<MemoryRecord>,
    q: MemoryQuery,
    now: Timestamp,
    p: int,
    i: int,
)
    requires
        0 <= p < visible_records(s, q, now).len(),
        0 <= i < search_result(s, q, now).len(),
        !search_result(s, q, now).contains(visible_records(s, q, now)[p]),
    ensures
        ({
            let r = search_result(s, q, now);
            let x = visible_records(s, q, now)[p];
            &&& total_order_key(r[i].priority) >= total_order_key(x.priority)
            &&& total_order_key(r[i].priority) == total_order_key(x.priority) ==> r[i].updated_at
                >= x.updated_at
        }),
{
    let v = visible_records(s, q, now);
    let r = search_result(s, q, now);
    let rk = ranked(v);
    lemma_ranked_keeps(v);
    lemma_ranked_members(v);
    lemma_ranked_sorted(v);
    assert(rk.contains(v[p]));
    let m = choose|m: int| 0 <= m < rk.len() && rk[m] == v[p];
    if m < r.len() {
        assert(r[m] == rk[m]);
        assert(r.contains(v[p]));
    }
    assert(r[i] == rk[i]);
    assert(i < m);
    assert(!ranks_below(rk[i], rk[m]));
}

/// A ranked list is ordered: no record ranks below a later one.
pub proof fn ranked_records_are_ordered(s: Seq<MemoryRecord>, i: int, j: int)
    requires
        0 <= i < j < ranked(s).len(),
    ensures
        !ranks_below(ranked(s)[i], ranked(s)[j]),
    decreases s.len(),
{
    lemma_ranked_sorted(s);
}

pub open spec fn rank_sorted(s: Seq<MemoryRecord>) -> bool {
    forall|i: int, j: int| 0 <= i < j < s.len() ==> !ranks_below(#[trigger] s[i], #[trigger] s[j])
}

proof fn lemma_below_trans(a: MemoryRecord, b: MemoryRecord, c: MemoryRecord)
    ensures
        ranks_below(a, b) && ranks_below(b, c) ==> ranks_below(a, c),
        !ranks_below(a, b) && !ranks_below(b, c) ==> !ranks_below(a, c),
        !ranks_below(a, b) && ranks_below(c, b) ==> ranks_below(c, a) || !ranks_below(a, c),
{
}

proof fn lemma_ranked_insert_sorted(s: Seq<MemoryRecord>, x: MemoryRecord)
    requires
        rank_sorted(s),
    ensures
        rank_sorted(ranked_insert(s, x)),
    decreases s.len(),
{
    if s.len() > 0 {
        if ranks_below(s[0], x) {
            let r = ranked_insert(s, x);
            assert forall|i: int, j: int| 0 <= i < j < r.len() implies !ranks_below(
                #[trigger] r[i],
                #[trigger] r[j],
            ) by {
                if i == 0 {
                    assert(!ranks_below(s[0], s[j - 1]) || j == 1);
                    lemma_below_trans(x, s[0], s[j - 1]);
                    if j > 1 {
                        assert(!ranks_below(s[0], s[j - 1]));
                    }
                } else {
                    assert(r[i] == s[i - 1] && r[j] == s[j - 1]);
                }
            }
        } else {
            let t = s.drop_first();
            assert(rank_sorted(t)) by {
                assert forall|i: int, j: int| 0 <= i < j < t.len() implies !ranks_below(
                    #[trigger] t[i],
                    #[trigger] t[j],
                ) by {
                    assert(t[i] == s[i + 1] && t[j] == s[j + 1]);
                }
            }
            lemma_ranked_insert_sorted(t, x);
            lemma_ranked_insert_members(t, x);
            let r = ranked_insert(s, x);
            let u = ranked_insert(t, x);
            assert forall|i: int, j: int| 0 <= i < j < r.len() implies !ranks_below(
                #[trigger] r[i],
                #[trigger] r[j],
            ) by {
                if i == 0 {
                    assert(r[0] == s[0]);
                    assert(r[j] == u[j - 1]);
                    if u[j - 1] != x {
                        let k = choose|k: int| 0 <= k < t.len() && t[k] == u[j - 1];
                        assert(s[k + 1] == u[j - 1]);
                        assert(!ranks_below(s[0], s[k + 1]));
                    }
                } else {
                    assert(r[i] == u[i - 1] && r[j] == u[j - 1]);
                }
            }
        }
    }
}

proof fn lemma_ranked_sorted(s: Seq<MemoryRecord>)
    ensures
        rank_sorted(ranked(s)),
    decreases s.len(),
{
    if s.len() > 0 {
        lemma_ranked_sorted(s.drop_last());
        lemma_ranked_insert_sorted(ranked(s.drop_last()), s.last());
    }
}

} // verus!
