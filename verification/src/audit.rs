//! The bounded audit log: when the log file rotates, which lines are
//! events, and which events a query returns. The file itself is written and
//! read by the application.

use vstd::prelude::*;

verus! {

/// The size at which the log rotates: 5 MiB.
pub const DEFAULT_MAX_BYTES: u64 = 5_242_880;

/// The most events one query returns.
pub const MAX_QUERY_LIMIT: usize = 500;

#[derive(Debug, Clone, PartialEq, Eq)]
pub enum AuditError {
    Io(String),
    Serialization(String),
    LockPoisoned,
}

pub open spec fn audit_error_text(e: AuditError) -> Seq<char> {
    match e {
        AuditError::Io(m) => "audit log I/O failed: "@ + m@,
        AuditError::Serialization(m) => "audit event serialization failed: "@ + m@,
        AuditError::LockPoisoned => "audit log lock is poisoned"@,
    }
}

impl AuditError {
    /// The message this error displays.
    pub fn to_text(&self) -> (r: String)
        ensures
            r@ == audit_error_text(*self),
    {
        match self {
            AuditError::Io(m) => crate::text::concat2("audit log I/O failed: ", m.as_str()),
            AuditError::Serialization(m) => crate::text::concat2(
                "audit event serialization failed: ",
                m.as_str(),
            ),
            AuditError::LockPoisoned => crate::text::owned("audit log lock is poisoned"),
        }
    }
}

/// A query's limit, brought into `1..=500`.
pub fn query_limit(limit: usize) -> (r: usize)
    ensures
        r == if limit < 1 {
            1
        } else if limit > MAX_QUERY_LIMIT {
            MAX_QUERY_LIMIT
        } else {
            limit
        },
{
    if limit < 1 {
        1
    } else if limit > MAX_QUERY_LIMIT {
        MAX_QUERY_LIMIT
    } else {
        limit
    }
}

/// The log rotates before a write that would take it past `max_bytes`
/// (sizes add with saturation at `u64::MAX`).
pub fn needs_rotation(current_bytes: u64, incoming_bytes: u64, max_bytes: u64) -> (b: bool)
    ensures
        b == ((if current_bytes + incoming_bytes > u64::MAX {
            u64::MAX as int
        } else {
            current_bytes + incoming_bytes
        }) > max_bytes),
{
    let total: u128 = (current_bytes as u128) + (incoming_bytes as u128);
    let capped: u64 = if total > 18_446_744_073_709_551_615u128 {
        18_446_744_073_709_551_615u64
    } else {
        total as u64
    };
    capped > max_bytes
}

/// The bytes a serialized event takes in the log: its JSON and a newline.
pub fn line_bytes(json_len: usize) -> (n: u64)
    requires
        json_len < u64::MAX,
    ensures
        n == json_len + 1,
{
    (json_len as u64) + 1
}

/// `path` with its extension replaced, as `std::path::Path::with_extension`
/// computes it.
pub uninterp spec fn path_with_extension(path: Seq<char>, extension: Seq<char>) -> Seq<char>;

/// `Path::with_extension` on text paths; its result is named by
/// `path_with_extension`. Recent std documents a panic for an extension that
/// holds a path separator, so such an extension is not admitted.
#[verifier::external_body]
fn with_extension(path: &str, extension: &str) -> (r: String)
    requires
        !extension@.contains('/') && !extension@.contains('\\'),
    ensures
        r@ == path_with_extension(path@, extension@),
{
    std::path::Path::new(path).with_extension(extension).to_string_lossy().into_owned()
}

/// Where the previous log goes when the log rotates: the same name with the
/// extension "previous.jsonl".
pub fn rotated_path(path: &str) -> (r: String)
    ensures
        r@ == path_with_extension(path@, "previous.jsonl"@),
{
    proof {
        reveal_strlit("previous.jsonl");
        assert(!"previous.jsonl"@.contains('/'));
        assert(!"previous.jsonl"@.contains('\\'));
    }
    with_extension(path, "previous.jsonl")
}

/// The lines of the log that hold events: every line that is not blank.
pub open spec fn event_lines(lines: Seq<String>) -> Seq<String>
    decreases lines.len(),
{
    if lines.len() == 0 {
        Seq::empty()
    } else if crate::text::is_blank_seq(lines.last()@) {
        event_lines(lines.drop_last())
    } else {
        event_lines(lines.drop_last()).push(lines.last())
    }
}

pub fn nonblank_lines(lines: Vec<String>) -> (r: Vec<String>)
    ensures
        r@ == event_lines(lines@),
{
    let ghost all = lines@;
    let n = lines.len();
    let mut rest = lines;
    let mut r: Vec<String> = Vec::new();
    let mut i: usize = 0;
    while i < n
        invariant
            i <= n == all.len(),
            rest@ == all.subrange(i as int, n as int),
            r@ == event_lines(all.take(i as int)),
        decreases n - i,
    {
        assert(all.take(i + 1).drop_last() =~= all.take(i as int));
        let line = rest.remove(0);
        assert(line == all[i as int]);
        assert(rest@ =~= all.subrange(i + 1, n as int));
        if !crate::text::is_blank(line.as_str()) {
            r.push(line);
        }
        i += 1;
    }
    assert(all.take(n as int) =~= all);
    r
}

/// The newest `limit` events, oldest first.
pub open spec fn newest<T>(events: Seq<T>, limit: nat) -> Seq<T> {
    if events.len() > limit {
        events.subrange(events.len() - limit, events.len() as int)
    } else {
        events
    }
}

/// Keeps the newest `limit` events, in order.
pub fn recent_window<T>(events: Vec<T>, limit: usize) -> (r: Vec<T>)
    ensures
        r@ == newest(events@, limit as nat),
{
    let mut events = events;
    let ghost all = events@;
    while events.len() > limit
        invariant
            newest(events@, limit as nat) == newest(all, limit as nat),
        decreases events.len(),
    {
        let ghost before = events@;
        events.remove(0);
        assert(newest(events@, limit as nat) =~= newest(before, limit as nat));
    }
    assert(newest(events@, limit as nat) =~= events@);
    events
}

} // verus!

verus! {

/// A bounded JSON Lines audit log at a path: it rotates to the previous
/// file before a write would take it past its size bound.
#[derive(Debug, Clone, PartialEq, Eq)]
pub struct PersistentAuditLog {
    pub path: String,
    pub max_bytes: u64,
}

impl PersistentAuditLog {
    /// The log at `path` with the default bound of five mebibytes.
    pub fn open(path: String) -> (l: PersistentAuditLog)
        ensures
            l.path == path,
            l.max_bytes == DEFAULT_MAX_BYTES,
    {
        PersistentAuditLog { path, max_bytes: DEFAULT_MAX_BYTES }
    }

    /// Whether appending an event of `json_len` bytes to a log of
    /// `current_bytes` rotates it first.
    pub fn rotates_before_append(&self, current_bytes: u64, json_len: usize) -> (b: bool)
        requires
            json_len < u64::MAX,
        ensures
            b == ((if current_bytes + json_len + 1 > u64::MAX {
                u64::MAX as int
            } else {
                current_bytes + json_len + 1
            }) > self.max_bytes),
    {
        needs_rotation(current_bytes, line_bytes(json_len), self.max_bytes)
    }

    /// Where the log rotates to.
    pub fn rotated(&self) -> (r: String)
        ensures
            r@ == path_with_extension(self.path@, "previous.jsonl"@),
    {
        rotated_path(self.path.as_str())
    }

    /// The newest events among the log's lines, at most `limit` (kept
    /// between one and five hundred), oldest first; blank lines are skipped.
    pub fn recent_lines(&self, lines: Vec<String>, limit: usize) -> (r: Vec<String>)
        ensures
            r@ == newest(event_lines(lines@), (if limit < 1 { 1 } else if limit > MAX_QUERY_LIMIT { MAX_QUERY_LIMIT } else { limit }) as nat),
    {
        let l = query_limit(limit);
        recent_window(nonblank_lines(lines), l)
    }
}

} // verus!
