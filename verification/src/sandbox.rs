//! The developer workspace sandbox: which paths a tool may touch, which
//! files it may read, and the snapshot of originals that makes every change
//! reversible. The file system itself belongs to the application, which
//! asks these functions before each access.

use crate::developer::{DeveloperError, FileChange, FileChangeKind, TextReplacement, Workspace};
use crate::numtext::{dec, u64_text};
use crate::models::{key_pos, key_slot, lemma_sorted_insert, lemma_sorted_lookup};
use crate::order::{keys_sorted, text_less, text_lt};
use crate::paths::{components, extension, file_name, is_absolute, path_absolute, path_components, path_extension, path_file_name, PartKind};
use crate::postgres_runtime::{join_path, path_joined};
use crate::text::{chars_of, occurs_at, occurs_at_vec, push_char, string_from_chars};
use crate::text::{ascii_lowercase, concat2, concat3, lower_seq, owned, replace_char, replace_char_seq, starts_with, starts_with_seq, str_eq};
use crate::agent_run::opt_view;
use crate::developer::Timestamp;
use crate::platform::{fresh_id, uuid_hyphenated, uuid_text};
use crate::relay::copy_opt_string;
use crate::seqs::first_pos;
use crate::platform::{lowercase, unicode_lowercase};
use crate::text::{contains, first_index_of, join, join_seq, seq_contains, strip_prefixes, take_chars, trim, trim_seq, trim_start_matches, truncate_chars, views_of};
use vstd::prelude::*;
use vstd::utf8::encode_utf8;

verus! {

/// The largest file a tool reads, in bytes.
pub const MAX_READ_BYTES: u64 = 2_097_152;

/// How many files a search walks at most.
pub const MAX_SEARCH_FILES: usize = 20_000;

/// How many hits a search reports at most.
pub const MAX_SEARCH_RESULTS: usize = 250;

/// A component that leaves the directory it is read from: a parent step, a
/// root, or a drive prefix.
pub open spec fn is_escaping_part(k: PartKind) -> bool {
    k == PartKind::ParentDir || k == PartKind::RootDir || k == PartKind::Prefix
}

/// Some component of a path escapes.
pub open spec fn escapes_lexically(parts: Seq<(PartKind, Seq<char>)>) -> bool {
    exists|i: int| 0 <= i < parts.len() && is_escaping_part((#[trigger] parts[i]).0)
}

/// `a`'s components begin `b`'s (`Path::starts_with`, which matches whole
/// components only; equal paths count).
pub open spec fn starts_with_parts(b: Seq<(PartKind, Seq<char>)>, a: Seq<(PartKind, Seq<char>)>) -> bool {
    a.len() <= b.len() && b.subrange(0, a.len() as int) == a
}

/// A path lies in a root when the root's components begin the path's.
pub open spec fn contained_in(path: Seq<char>, root: Seq<char>) -> bool {
    starts_with_parts(path_components(path), path_components(root))
}

/// File names that hold credentials.
pub open spec fn secret_name(n: Seq<char>) -> bool {
    n == ".env"@ || starts_with_seq(n, ".env."@) || n == "id_rsa"@ || n == "id_ed25519"@
}

/// A secret-like path: its lowercased file name is a credential name, or
/// its extension is `pem`, `pfx` or `key`.
pub open spec fn secret_path(p: Seq<char>) -> bool {
    let name = match path_file_name(p) {
        Some(n) => lower_seq(n),
        None => Seq::<char>::empty(),
    };
    secret_name(name) || match path_extension(p) {
        Some(e) => e == "pem"@ || e == "pfx"@ || e == "key"@,
        None => false,
    }
}

/// Whether `path` is secret-like; such files are never read.
pub fn is_secret_path(path: &str) -> (r: bool)
    ensures
        r == secret_path(path@),
{
    let name = match file_name(path) {
        Some(n) => ascii_lowercase(n.as_str()),
        None => String::new(),
    };
    let named = str_eq(name.as_str(), ".env") || starts_with(name.as_str(), ".env.") || str_eq(
        name.as_str(),
        "id_rsa",
    ) || str_eq(name.as_str(), "id_ed25519");
    let extended = match extension(path) {
        Some(e) => str_eq(e.as_str(), "pem") || str_eq(e.as_str(), "pfx") || str_eq(e.as_str(), "key"),
        None => false,
    };
    named || extended
}

/// A file may be read when it is not secret-like and is a regular file.
pub fn ensure_safe_read(path: &str, is_file: bool) -> (r: Result<(), DeveloperError>)
    ensures
        r is Ok <==> !secret_path(path@) && is_file,
        secret_path(path@) ==> (r matches Err(e) && e matches DeveloperError::Permission(m) && m@
            == "secret-like file is protected: "@ + path@),
        !secret_path(path@) && !is_file ==> (r matches Err(e) && e matches DeveloperError::Invalid(m)
            && m@ == "path is not a file"@),
{
    if is_secret_path(path) {
        return Err(DeveloperError::Permission(concat2("secret-like file is protected: ", path)));
    }
    if !is_file {
        return Err(DeveloperError::Invalid(owned("path is not a file")));
    }
    Ok(())
}

/// A file larger than the read limit is refused.
pub fn check_read_size(len: u64) -> (r: Result<(), DeveloperError>)
    ensures
        r is Ok <==> len <= MAX_READ_BYTES,
        r matches Err(e) ==> e matches DeveloperError::Invalid(m) && m@
            == "file exceeds 2097152 byte read limit"@,
{
    if len > MAX_READ_BYTES {
        return Err(DeveloperError::Invalid(owned("file exceeds 2097152 byte read limit")));
    }
    Ok(())
}

/// `String::from_utf8`: the text whose UTF-8 encoding the bytes are, and
/// `None` where the bytes are not UTF-8 (so no text encodes to them), as
/// std documents.
#[verifier::external_body]
fn utf8_text(bytes: &Vec<u8>) -> (r: Option<String>)
    ensures
        r matches Some(s) ==> encode_utf8(s@) == bytes@,
        r is None ==> forall|t: Seq<char>| encode_utf8(t) != bytes@,
{
    String::from_utf8(bytes.clone()).ok()
}

/// The text of a file's bytes; a file that is not UTF-8 is refused.
pub fn decode_text(bytes: Vec<u8>) -> (r: Result<String, DeveloperError>)
    ensures
        r matches Ok(s) ==> encode_utf8(s@) == bytes@,
        r is Err ==> forall|t: Seq<char>| encode_utf8(t) != bytes@,
        r matches Err(e) ==> e matches DeveloperError::Invalid(m) && m@ == "file is not UTF-8 text"@,
{
    match utf8_text(&bytes) {
        Some(s) => Ok(s),
        None => Err(DeveloperError::Invalid(owned("file is not UTF-8 text"))),
    }
}

/// The error of a target none of whose ancestors exists.
pub fn missing_ancestor() -> (e: DeveloperError)
    ensures
        e matches DeveloperError::Sandbox(m) && m@ == "target has no workspace ancestor"@,
{
    DeveloperError::Sandbox(owned("target has no workspace ancestor"))
}

/// The tools of one task inside one workspace: the workspace, its
/// canonical root, and the original content of every path the task has
/// touched (`None` where the path did not exist), by path, first capture
/// kept.
pub struct FileToolkit {
    workspace: Workspace,
    root: String,
    originals: Vec<(String, Option<Vec<u8>>)>,
}

pub open spec fn original_keys(v: Seq<(String, Option<Vec<u8>>)>) -> Seq<Seq<char>> {
    Seq::new(v.len(), |i: int| v[i].0@)
}

/// The originals as a map from path to content.
pub open spec fn originals_map(v: Seq<(String, Option<Vec<u8>>)>) -> Map<Seq<char>, Option<Seq<u8>>> {
    Map::new(
        |k: Seq<char>| exists|i: int| 0 <= i < v.len() && v[i].0@ == k,
        |k: Seq<char>| {
            let i = choose|i: int| 0 <= i < v.len() && v[i].0@ == k;
            match v[i].1 {
                Some(b) => Some(b@),
                None => None,
            }
        },
    )
}

impl FileToolkit {
    #[verifier::type_invariant]
    spec fn keys_in_order(&self) -> bool {
        keys_sorted(original_keys(self.originals@))
    }

    pub closed spec fn root_path(&self) -> Seq<char> {
        self.root@
    }

    pub closed spec fn the_workspace(&self) -> Workspace {
        self.workspace
    }

    pub closed spec fn entries(&self) -> Seq<(String, Option<Vec<u8>>)> {
        self.originals@
    }

    /// The originals the task has captured, by path.
    pub open spec fn captured(&self) -> Map<Seq<char>, Option<Seq<u8>>> {
        originals_map(self.entries())
    }

    /// A toolkit for `workspace` whose root the application has
    /// canonicalized to `canonical_root`; nothing is captured yet.
    pub fn new(workspace: Workspace, canonical_root: String) -> (t: FileToolkit)
        ensures
            t.the_workspace() == workspace,
            t.root_path() == canonical_root@,
            t.entries().len() == 0,
    {
        FileToolkit { workspace, root: canonical_root, originals: Vec::new() }
    }

    pub fn workspace(&self) -> (r: &Workspace)
        ensures
            *r == self.the_workspace(),
    {
        &self.workspace
    }

    pub fn root(&self) -> (r: &str)
        ensures
            r@ == self.root_path(),
    {
        self.root.as_str()
    }

    /// The place a relative path names under the root, refused when the
    /// path is absolute or has a parent, root or prefix component.
    pub fn check_relative(&self, relative: &str) -> (r: Result<String, DeveloperError>)
        ensures
            ({
                let bad = path_absolute(relative@) || escapes_lexically(path_components(relative@));
                &&& r is Ok <==> !bad
                &&& r matches Ok(c) ==> c@ == path_joined(self.root_path(), relative@)
                &&& r matches Err(e) ==> e matches DeveloperError::Sandbox(m) && m@
                    == "absolute paths and parent traversal are forbidden"@
            }),
    {
        let parts = components(relative);
        let mut escaping = false;
        let mut i: usize = 0;
        while i < parts.len()
            invariant
                i <= parts@.len(),
                parts@.len() == path_components(relative@).len(),
                forall|j: int|
                    0 <= j < parts@.len() ==> (#[trigger] parts@[j]).0 == path_components(relative@)[j].0,
                escaping == exists|j: int| 0 <= j < i && is_escaping_part(#[trigger] path_components(relative@)[j].0),
            decreases parts.len() - i,
        {
            let k = parts[i].0;
            if k == PartKind::ParentDir || k == PartKind::RootDir || k == PartKind::Prefix {
                escaping = true;
            }
            i += 1;
        }
        if is_absolute(relative) || escaping {
            return Err(DeveloperError::Sandbox(owned("absolute paths and parent traversal are forbidden")));
        }
        Ok(join_path(self.root.as_str(), relative))
    }

    /// A canonical path is in bounds when it is the root or lies under it,
    /// component by component.
    pub fn ensure_contained(&self, candidate: &str) -> (r: Result<(), DeveloperError>)
        ensures
            r is Ok <==> contained_in(candidate@, self.root_path()),
            r matches Err(e) ==> e matches DeveloperError::Sandbox(m) && m@
                == "path escapes workspace root: "@ + candidate@,
    {
        let root = components(self.root.as_str());
        let path = components(candidate);
        let ghost rp = path_components(self.root@);
        let ghost cp = path_components(candidate@);
        if root.len() > path.len() {
            return Err(DeveloperError::Sandbox(concat2("path escapes workspace root: ", candidate)));
        }
        let mut i: usize = 0;
        while i < root.len()
            invariant
                rp == path_components(self.root@),
                cp == path_components(candidate@),
                root@.len() == rp.len() <= path@.len() == cp.len(),
                i <= root@.len(),
                forall|j: int| 0 <= j < root@.len() ==> (#[trigger] root@[j]).0 == rp[j].0 && root@[j].1@ == rp[j].1,
                forall|j: int| 0 <= j < path@.len() ==> (#[trigger] path@[j]).0 == cp[j].0 && path@[j].1@ == cp[j].1,
                forall|j: int| 0 <= j < i ==> cp[j] == rp[j],
            decreases root.len() - i,
        {
            if root[i].0 != path[i].0 || !str_eq(root[i].1.as_str(), path[i].1.as_str()) {
                proof {
                    assert(cp[i as int] != rp[i as int]);
                    if starts_with_parts(cp, rp) {
                        assert(cp.subrange(0, rp.len() as int)[i as int] == cp[i as int]);
                    }
                }
                return Err(DeveloperError::Sandbox(concat2("path escapes workspace root: ", candidate)));
            }
            i += 1;
        }
        assert(cp.subrange(0, rp.len() as int) =~= rp);
        Ok(())
    }
}


/// A path with every backslash turned into a slash, the form paths are
/// recorded and shown in.
pub open spec fn normalized(p: Seq<char>) -> Seq<char> {
    replace_char_seq(p, '\\', '/')
}

pub fn normalize_path(path: &str) -> (r: String)
    ensures
        r@ == normalized(path@),
{
    replace_char(path, '\\', '/')
}

impl FileToolkit {
    /// The captured originals in path order, for diffs, change reports and
    /// rollback.
    pub fn originals(&self) -> (r: &Vec<(String, Option<Vec<u8>>)>)
        ensures
            r@ == self.entries(),
            keys_sorted(original_keys(r@)),
    {
        proof {
            use_type_invariant(self);
        }
        &self.originals
    }

    /// Records what `relative` held before the task first touched it; a
    /// path already captured keeps its first original.
    pub fn capture(&mut self, relative: &str, content: Option<Vec<u8>>)
        ensures
            ({
                let k = normalized(relative@);
                let keys = original_keys(old(self).entries());
                let slot = key_slot(keys, k);
                &&& final(self).the_workspace() == old(self).the_workspace()
                &&& final(self).root_path() == old(self).root_path()
                &&& key_pos(keys, k) >= 0 ==> final(self).entries() == old(self).entries()
                &&& key_pos(keys, k) < 0 ==> {
                    &&& final(self).entries() == old(self).entries().insert(slot, final(self).entries()[slot])
                    &&& final(self).entries()[slot].0@ == k
                    &&& final(self).entries()[slot].1 == content
                }
            }),
    {
        proof {
            use_type_invariant(&*self);
        }
        let key = normalize_path(relative);
        let ghost keys = original_keys(self.originals@);
        let mut p: usize = 0;
        while p < self.originals.len() && text_less(self.originals[p].0.as_str(), key.as_str())
            invariant
                p <= self.originals@.len(),
                keys == original_keys(self.originals@),
                forall|j: int| 0 <= j < p ==> text_lt(#[trigger] keys[j], key@),
            decreases self.originals.len() - p,
        {
            p += 1;
        }
        proof {
            lemma_sorted_lookup(keys, key@, p as int);
        }
        if p < self.originals.len() && str_eq(self.originals[p].0.as_str(), key.as_str()) {
            return;
        }
        let ghost k = key@;
        let mut entries: Vec<(String, Option<Vec<u8>>)> = Vec::new();
        std::mem::swap(&mut entries, &mut self.originals);
        entries.insert(p, (key, content));
        proof {
            lemma_sorted_insert(keys, k, p as int);
            assert(original_keys(entries@) =~= keys.insert(p as int, k));
        }
        self.originals = entries;
    }
}

/// The number of newline bytes.
pub open spec fn newlines(b: Seq<u8>) -> nat
    decreases b.len(),
{
    if b.len() == 0 {
        0
    } else {
        newlines(b.drop_last()) + if b.last() == 10u8 {
            1nat
        } else {
            0nat
        }
    }
}

/// The lines of a file: its newlines, plus one when it is not empty.
pub open spec fn line_total(b: Seq<u8>) -> nat {
    newlines(b) + if b.len() > 0 {
        1nat
    } else {
        0nat
    }
}

pub fn line_count(bytes: &Vec<u8>) -> (n: usize)
    requires
        bytes@.len() < usize::MAX,
    ensures
        n == line_total(bytes@),
{
    let mut count: usize = 0;
    let mut i: usize = 0;
    while i < bytes.len()
        invariant
            i <= bytes@.len(),
            count == newlines(bytes@.take(i as int)),
            count <= i,
        decreases bytes.len() - i,
    {
        assert(bytes@.take(i + 1).drop_last() =~= bytes@.take(i as int));
        if bytes[i] == 10u8 {
            count += 1;
        }
        i += 1;
    }
    assert(bytes@.take(bytes.len() as int) =~= bytes@);
    if bytes.len() > 0 {
        count + 1
    } else {
        count
    }
}

pub open spec fn bytes_view(o: Option<Vec<u8>>) -> Option<Seq<u8>> {
    match o {
        Some(b) => Some(b@),
        None => None,
    }
}

fn same_bytes(a: &Vec<u8>, b: &Vec<u8>) -> (r: bool)
    ensures
        r == (a@ == b@),
{
    if a.len() != b.len() {
        return false;
    }
    let mut i: usize = 0;
    while i < a.len()
        invariant
            a@.len() == b@.len(),
            i <= a@.len(),
            a@.take(i as int) == b@.take(i as int),
        decreases a.len() - i,
    {
        if a[i] != b[i] {
            assert(a@.take(i + 1)[i as int] != b@.take(i + 1)[i as int]);
            return false;
        }
        assert(a@.take(i + 1) =~= a@.take(i as int).push(a@[i as int]));
        assert(b@.take(i + 1) =~= b@.take(i as int).push(b@[i as int]));
        i += 1;
    }
    assert(a@.take(a.len() as int) =~= a@);
    assert(b@.take(b.len() as int) =~= b@);
    true
}

fn same_content(a: &Option<Vec<u8>>, b: &Option<Vec<u8>>) -> (r: bool)
    ensures
        r == (bytes_view(*a) == bytes_view(*b)),
{
    match (a, b) {
        (Some(x), Some(y)) => same_bytes(x, y),
        (None, None) => true,
        _ => false,
    }
}

/// How a captured path changed: created, deleted or modified, with the
/// line counts' difference split into additions and deletions; `None`
/// where the content is unchanged.
pub open spec fn change_of(relative: Seq<char>, original: Option<Seq<u8>>, current: Option<Seq<u8>>) -> Option<(FileChangeKind, nat, nat)> {
    if original == current {
        None
    } else {
        match (original, current) {
            (None, Some(n)) => Some((FileChangeKind::Created, 0nat, line_total(n))),
            (Some(o), None) => Some((FileChangeKind::Deleted, line_total(o), 0nat)),
            (Some(o), Some(n)) => Some((FileChangeKind::Modified, line_total(o), line_total(n))),
            (None, None) => None,
        }
    }
}

/// The change report of one captured path.
pub fn file_change_of(relative: &str, original: &Option<Vec<u8>>, current: &Option<Vec<u8>>, reason: &str) -> (r: Option<FileChange>)
    requires
        original matches Some(o) ==> o@.len() < usize::MAX,
        current matches Some(c) ==> c@.len() < usize::MAX,
    ensures
        match change_of(relative@, bytes_view(*original), bytes_view(*current)) {
            None => r is None,
            Some((kind, old_lines, new_lines)) => r matches Some(c) && c.path@ == relative@ && c.kind == kind
                && c.additions == (if new_lines >= old_lines { new_lines - old_lines } else { 0 })
                && c.deletions == (if old_lines >= new_lines { old_lines - new_lines } else { 0 })
                && c.reason@ == reason@,
        },
{
    if same_content(original, current) {
        return None;
    }
    let (kind, old_lines, new_lines) = match (original, current) {
        (None, Some(n)) => (FileChangeKind::Created, 0, line_count(n)),
        (Some(o), None) => (FileChangeKind::Deleted, line_count(o), 0),
        (Some(o), Some(n)) => (FileChangeKind::Modified, line_count(o), line_count(n)),
        (None, None) => {
            return None;
        },
    };
    Some(
        FileChange {
            path: owned(relative),
            kind,
            additions: new_lines.saturating_sub(old_lines),
            deletions: old_lines.saturating_sub(new_lines),
            reason: owned(reason),
        },
    )
}

/// The unified diff of two texts by lines, with `radius` lines of context
/// and the two header names, as the `similar` crate writes it.
pub uninterp spec fn line_diff_text(old: Seq<char>, new: Seq<char>, radius: usize, header_old: Seq<char>, header_new: Seq<char>) -> Seq<char>;

/// `similar::TextDiff::from_lines(old, new).unified_diff()` with the given
/// context radius and header; named by `line_diff_text`.
#[verifier::external_body]
fn unified_line_diff(old: &str, new: &str, radius: usize, header_old: &str, header_new: &str) -> (r: String)
    ensures
        r@ == line_diff_text(old@, new@, radius, header_old@, header_new@),
{
    similar::TextDiff::from_lines(old, new).unified_diff().context_radius(radius).header(header_old, header_new).to_string()
}

/// The lines of context around each change in a diff.
pub const DIFF_CONTEXT_LINES: usize = 3;

/// The diff section of one captured path: nothing when unchanged (an absent
/// file reads as empty), a line diff between `a/` and `b/` headers when both
/// sides are UTF-8 text, else a note that a binary file changed.
pub fn diff_section(relative: &str, original: &Option<Vec<u8>>, current: &Option<Vec<u8>>) -> (r: String)
    ensures
        ({
            let old = match bytes_view(*original) { Some(b) => b, None => Seq::<u8>::empty() };
            let new = match bytes_view(*current) { Some(b) => b, None => Seq::<u8>::empty() };
            &&& old == new ==> r@ == Seq::<char>::empty()
            &&& old != new && (exists|a: Seq<char>, b: Seq<char>| encode_utf8(a) == old && encode_utf8(b) == new)
                ==> (exists|a: Seq<char>, b: Seq<char>| encode_utf8(a) == old && encode_utf8(b) == new
                    && r@ == line_diff_text(a, b, DIFF_CONTEXT_LINES, "a/"@ + relative@, "b/"@ + relative@))
            &&& old != new && !(exists|a: Seq<char>, b: Seq<char>| encode_utf8(a) == old && encode_utf8(b) == new)
                ==> r@ == "Binary file changed: "@ + relative@ + "\n"@
        }),
{
    let empty: Vec<u8> = Vec::new();
    let old = match original {
        Some(b) => b,
        None => &empty,
    };
    let new = match current {
        Some(b) => b,
        None => &empty,
    };
    if same_bytes(old, new) {
        return String::new();
    }
    match (utf8_text(old), utf8_text(new)) {
        (Some(a), Some(b)) => {
            let header_old = concat2("a/", relative);
            let header_new = concat2("b/", relative);
            unified_line_diff(a.as_str(), b.as_str(), DIFF_CONTEXT_LINES, header_old.as_str(), header_new.as_str())
        },
        _ => concat3("Binary file changed: ", relative, "\n"),
    }
}


/// The non-overlapping occurrences of `p` in `s`, found left to right
/// (`str::matches(..).count()` for a non-empty pattern).
pub open spec fn count_occurrences(s: Seq<char>, p: Seq<char>) -> nat
    decreases s.len(),
{
    if p.len() == 0 || s.len() < p.len() {
        0
    } else if s.subrange(0, p.len() as int) == p {
        1 + count_occurrences(s.subrange(p.len() as int, s.len() as int), p)
    } else {
        count_occurrences(s.drop_first(), p)
    }
}

/// `s` with every such occurrence replaced (`str::replace`).
pub open spec fn replace_all_seq(s: Seq<char>, p: Seq<char>, r: Seq<char>) -> Seq<char>
    decreases s.len(),
{
    if p.len() == 0 || s.len() < p.len() {
        s
    } else if s.subrange(0, p.len() as int) == p {
        r + replace_all_seq(s.subrange(p.len() as int, s.len() as int), p, r)
    } else {
        seq![s[0]] + replace_all_seq(s.drop_first(), p, r)
    }
}

/// `s` with its first occurrence replaced (`str::replacen(.., 1)`).
pub open spec fn replace_first_seq(s: Seq<char>, p: Seq<char>, r: Seq<char>) -> Seq<char>
    decreases s.len(),
{
    if p.len() == 0 || s.len() < p.len() {
        s
    } else if s.subrange(0, p.len() as int) == p {
        r + s.subrange(p.len() as int, s.len() as int)
    } else {
        seq![s[0]] + replace_first_seq(s.drop_first(), p, r)
    }
}

proof fn lemma_step(s: Seq<char>, p: Seq<char>, i: int)
    requires
        0 <= i < s.len(),
        p.len() > 0,
    ensures
        ({
            let t = s.subrange(i, s.len() as int);
            &&& t.len() >= p.len() ==> (t.subrange(0, p.len() as int) == p <==> occurs_at(s, p, i))
            &&& t.len() >= p.len() ==> t.subrange(p.len() as int, t.len() as int) == s.subrange(i + p.len(), s.len() as int)
            &&& t.drop_first() == s.subrange(i + 1, s.len() as int)
            &&& t[0] == s[i]
        }),
{
    let t = s.subrange(i, s.len() as int);
    if t.len() >= p.len() {
        assert(t.subrange(0, p.len() as int) =~= s.subrange(i, i + p.len()));
        assert(t.subrange(p.len() as int, t.len() as int) =~= s.subrange(i + p.len(), s.len() as int));
    }
    assert(t.drop_first() =~= s.subrange(i + 1, s.len() as int));
}

/// The occurrences of a non-empty pattern in a text.
pub fn count_matches(s: &str, p: &str) -> (n: usize)
    requires
        p@.len() > 0,
    ensures
        n == count_occurrences(s@, p@),
{
    let sv = chars_of(s);
    let pv = chars_of(p);
    let mut i: usize = 0;
    let mut n: usize = 0;
    assert(s@.subrange(0, s@.len() as int) =~= s@);
    while i < sv.len()
        invariant
            sv@ == s@,
            pv@ == p@,
            p@.len() > 0,
            i <= sv@.len(),
            n <= i,
            count_occurrences(s@, p@) == n + count_occurrences(s@.subrange(i as int, s@.len() as int), p@),
        decreases sv.len() - i,
    {
        proof {
            lemma_step(s@, p@, i as int);
        }
        if pv.len() <= sv.len() - i && occurs_at_vec(&sv, &pv, i) {
            n += 1;
            i += pv.len();
        } else {
            i += 1;
        }
    }
    assert(s@.subrange(i as int, s@.len() as int).len() == 0);
    n
}

/// A non-empty pattern replaced in a text: every occurrence, or the first.
pub fn replace_matches(s: &str, p: &str, r: &str, all: bool) -> (out: String)
    requires
        p@.len() > 0,
    ensures
        out@ == (if all {
            replace_all_seq(s@, p@, r@)
        } else {
            replace_first_seq(s@, p@, r@)
        }),
{
    let sv = chars_of(s);
    let pv = chars_of(p);
    let ghost target = if all {
        replace_all_seq(s@, p@, r@)
    } else {
        replace_first_seq(s@, p@, r@)
    };
    let mut out = String::new();
    let mut i: usize = 0;
    let mut done = false;
    assert(s@.subrange(0, s@.len() as int) =~= s@);
    while i < sv.len() && !done
        invariant
            sv@ == s@,
            pv@ == p@,
            p@.len() > 0,
            i <= sv@.len(),
            target == (if all {
                replace_all_seq(s@, p@, r@)
            } else {
                replace_first_seq(s@, p@, r@)
            }),
            done ==> !all && target == out@ + s@.subrange(i as int, s@.len() as int),
            !done ==> target == out@ + (if all {
                replace_all_seq(s@.subrange(i as int, s@.len() as int), p@, r@)
            } else {
                replace_first_seq(s@.subrange(i as int, s@.len() as int), p@, r@)
            }),
        decreases sv.len() - i,
    {
        proof {
            lemma_step(s@, p@, i as int);
        }
        if pv.len() <= sv.len() - i && occurs_at_vec(&sv, &pv, i) {
            let ghost before = out@;
            out.append(r);
            i += pv.len();
            if !all {
                done = true;
            }
            proof {
                assert(before + (r@ + s@.subrange(i as int, s@.len() as int)) =~= out@ + s@.subrange(i as int, s@.len() as int));
                assert(before + (r@ + replace_all_seq(s@.subrange(i as int, s@.len() as int), p@, r@)) =~= out@ + replace_all_seq(s@.subrange(i as int, s@.len() as int), p@, r@));
            }
        } else {
            let ghost before = out@;
            let c = sv[i];
            push_char(&mut out, c);
            i += 1;
            proof {
                assert(before + (seq![c] + replace_all_seq(s@.subrange(i as int, s@.len() as int), p@, r@)) =~= out@ + replace_all_seq(s@.subrange(i as int, s@.len() as int), p@, r@));
                assert(before + (seq![c] + replace_first_seq(s@.subrange(i as int, s@.len() as int), p@, r@)) =~= out@ + replace_first_seq(s@.subrange(i as int, s@.len() as int), p@, r@));
            }
        }
    }
    if done {
        let rest = string_from_chars(&sv, i, sv.len());
        out.append(rest.as_str());
    } else {
        assert(s@.subrange(i as int, s@.len() as int).len() == 0);
        assert(out@ + s@.subrange(i as int, s@.len() as int) =~= out@);
    }
    out
}


/// How many replacements one patch may carry.
pub const MAX_PATCH_REPLACEMENTS: usize = 50;

/// The message of a replacement whose expected text occurs the wrong
/// number of times.
pub open spec fn precondition_message(relative: Seq<char>, replace_all: bool, found: nat) -> Seq<char> {
    "patch precondition failed for "@ + relative + ": expected occurrence count "@ + (if replace_all {
        ">=1"@
    } else {
        "1"@
    }) + ", found "@ + dec(found)
}

/// One replacement applied to a file's text: the expected text must not be
/// empty and must occur exactly once, or at least once when every
/// occurrence is replaced. `Err` carries the refusal's message.
pub open spec fn edit_step(relative: Seq<char>, c: Seq<char>, e: TextReplacement) -> Result<Seq<char>, Seq<char>> {
    if e.expected@.len() == 0 {
        Err("patch expected text is blank"@)
    } else {
        let n = count_occurrences(c, e.expected@);
        if n == 0 || (!e.replace_all && n != 1) {
            Err(precondition_message(relative, e.replace_all, n))
        } else if e.replace_all {
            Ok(replace_all_seq(c, e.expected@, e.replacement@))
        } else {
            Ok(replace_first_seq(c, e.expected@, e.replacement@))
        }
    }
}

/// The replacements applied in order; the first refusal ends them.
pub open spec fn edits_result(relative: Seq<char>, content: Seq<char>, edits: Seq<TextReplacement>) -> Result<Seq<char>, Seq<char>>
    decreases edits.len(),
{
    if edits.len() == 0 {
        Ok(content)
    } else {
        match edits_result(relative, content, edits.drop_last()) {
            Err(m) => Err(m),
            Ok(c) => edit_step(relative, c, edits.last()),
        }
    }
}

/// The new text of one file of a patch, from its current text and its
/// replacements in order.
pub fn apply_edits(relative: &str, content: String, edits: &Vec<TextReplacement>) -> (r: Result<String, DeveloperError>)
    ensures
        match edits_result(relative@, content@, edits@) {
            Ok(t) => r matches Ok(s) && s@ == t,
            Err(m) => r matches Err(e) && e matches DeveloperError::Invalid(x) && x@ == m,
        },
{
    let mut text = content;
    let mut i: usize = 0;
    assert(edits@.take(0) =~= Seq::<TextReplacement>::empty());
    while i < edits.len()
        invariant
            i <= edits@.len(),
            edits_result(relative@, content@, edits@.take(i as int)) == Ok::<Seq<char>, Seq<char>>(text@),
        decreases edits.len() - i,
    {
        let e = &edits[i];
        assert(edits@.take(i + 1).drop_last() =~= edits@.take(i as int));
        if e.expected.as_str().unicode_len() == 0 {
            assert(edits_result(relative@, content@, edits@.take(i + 1)) is Err);
            proof {
                lemma_errors_persist(relative@, content@, edits@, i + 1);
            }
            return Err(DeveloperError::Invalid(owned("patch expected text is blank")));
        }
        let n = count_matches(text.as_str(), e.expected.as_str());
        if n == 0 || (!e.replace_all && n != 1) {
            let mut m = concat3("patch precondition failed for ", relative, ": expected occurrence count ");
            m.append(if e.replace_all {
                ">=1"
            } else {
                "1"
            });
            m.append(", found ");
            let found = u64_text(n as u64);
            m.append(found.as_str());
            proof {
                lemma_errors_persist(relative@, content@, edits@, i + 1);
            }
            return Err(DeveloperError::Invalid(m));
        }
        text = replace_matches(text.as_str(), e.expected.as_str(), e.replacement.as_str(), e.replace_all);
        i += 1;
    }
    assert(edits@.take(edits.len() as int) =~= edits@);
    Ok(text)
}

/// Once a prefix of the replacements is refused, all of them are refused
/// with the same message.
proof fn lemma_errors_persist(relative: Seq<char>, content: Seq<char>, edits: Seq<TextReplacement>, k: int)
    requires
        0 <= k <= edits.len(),
        edits_result(relative, content, edits.take(k)) is Err,
    ensures
        edits_result(relative, content, edits) == edits_result(relative, content, edits.take(k)),
    decreases edits.len() - k,
{
    if k < edits.len() {
        assert(edits.take(k + 1).drop_last() =~= edits.take(k));
        lemma_errors_persist(relative, content, edits, k + 1);
    } else {
        assert(edits.take(k) =~= edits);
    }
}

pub open spec fn path_is(p: Seq<char>) -> spec_fn(TextReplacement) -> bool {
    |t: TextReplacement| t.path@ == p
}

pub open spec fn group_keys(g: Seq<(String, Vec<TextReplacement>)>) -> Seq<Seq<char>> {
    Seq::new(g.len(), |i: int| g[i].0@)
}

/// A patch grouped by file: the files in path order, each once, each with
/// its replacements in the patch's order.
pub open spec fn grouped(g: Seq<(String, Vec<TextReplacement>)>, rs: Seq<TextReplacement>) -> bool {
    &&& keys_sorted(group_keys(g))
    &&& forall|k: int| 0 <= k < g.len() ==> (#[trigger] g[k]).1@ == rs.filter(path_is(g[k].0@))
    &&& forall|k: int| 0 <= k < g.len() ==> (#[trigger] g[k]).1@.len() > 0
    &&& forall|j: int| 0 <= j < rs.len() ==> group_keys(g).contains(#[trigger] rs[j].path@)
}

fn copy_replacement(t: &TextReplacement) -> (r: TextReplacement)
    ensures
        r == *t,
{
    TextReplacement {
        path: t.path.clone(),
        expected: t.expected.clone(),
        replacement: t.replacement.clone(),
        replace_all: t.replace_all,
    }
}

/// A patch split by file, refused when it is empty or carries more than
/// fifty replacements.
pub fn plan_patch(replacements: &Vec<TextReplacement>) -> (r: Result<Vec<(String, Vec<TextReplacement>)>, DeveloperError>)
    ensures
        r is Ok <==> 0 < replacements@.len() <= MAX_PATCH_REPLACEMENTS,
        r matches Ok(g) ==> grouped(g@, replacements@),
        r matches Err(e) ==> e matches DeveloperError::Invalid(m) && m@ == "patch replacement count is invalid"@,
{
    if replacements.len() == 0 || replacements.len() > MAX_PATCH_REPLACEMENTS {
        return Err(DeveloperError::Invalid(owned("patch replacement count is invalid")));
    }
    let ghost rs = replacements@;
    let mut groups: Vec<(String, Vec<TextReplacement>)> = Vec::new();
    let mut i: usize = 0;
    proof {
        assert(rs.take(0) =~= Seq::<TextReplacement>::empty());
    }
    while i < replacements.len()
        invariant
            rs == replacements@,
            i <= rs.len(),
            grouped(groups@, rs.take(i as int)),
        decreases replacements.len() - i,
    {
        let t = copy_replacement(&replacements[i]);
        let ghost keys = group_keys(groups@);
        let ghost before = groups@;
        let ghost prefix = rs.take(i as int);
        let ghost next = rs.take(i + 1);
        proof {
            assert(next =~= prefix.push(t));
            assert(next.drop_last() =~= prefix);
            reveal(Seq::filter);
        }
        let mut p: usize = 0;
        while p < groups.len() && text_less(groups[p].0.as_str(), t.path.as_str())
            invariant
                p <= groups@.len(),
                groups@ == before,
                keys == group_keys(before),
                forall|j: int| 0 <= j < p ==> text_lt(#[trigger] keys[j], t.path@),
            decreases groups.len() - p,
        {
            p += 1;
        }
        proof {
            lemma_sorted_lookup(keys, t.path@, p as int);
        }
        if p < groups.len() && str_eq(groups[p].0.as_str(), t.path.as_str()) {
            let mut taken: Vec<(String, Vec<TextReplacement>)> = Vec::new();
            std::mem::swap(&mut taken, &mut groups);
            let (key, mut edits) = taken.remove(p);
            edits.push(t);
            taken.insert(p, (key, edits));
            groups = taken;
            proof {
                assert(group_keys(groups@) =~= keys);
                assert forall|k: int| 0 <= k < groups@.len() implies (#[trigger] groups@[k]).1@ == next.filter(path_is(groups@[k].0@)) by {
                    if k != p {
                        assert(groups@[k] == before[k]);
                        assert(before[k].0@ != t.path@) by {
                            if before[k].0@ == t.path@ {
                                assert(keys[k] == keys[p as int]);
                            }
                        }
                    }
                }
                assert forall|j: int| 0 <= j < next.len() implies group_keys(groups@).contains(#[trigger] next[j].path@) by {
                    if j < i {
                        assert(next[j] == prefix[j]);
                    } else {
                        assert(keys[p as int] == t.path@);
                    }
                }
            }
        } else {
            let ghost k0 = t.path@;
            let key = t.path.clone();
            let mut edits: Vec<TextReplacement> = Vec::new();
            edits.push(t);
            groups.insert(p, (key, edits));
            proof {
                lemma_sorted_insert(keys, k0, p as int);
                assert(group_keys(groups@) =~= keys.insert(p as int, k0));
                assert(prefix.filter(path_is(k0)) =~= Seq::<TextReplacement>::empty()) by {
                    assert forall|j: int| 0 <= j < prefix.len() implies !path_is(k0)(#[trigger] prefix[j]) by {
                        assert(keys.contains(prefix[j].path@));
                        let q = choose|q: int| 0 <= q < keys.len() && keys[q] == prefix[j].path@;
                        if q < p {
                            crate::order::lemma_text_lt_irreflexive(k0);
                        }
                    }
                    prefix.lemma_all_neg_filter_empty(path_is(k0));
                }
                assert forall|k: int| 0 <= k < groups@.len() implies (#[trigger] groups@[k]).1@ == next.filter(path_is(groups@[k].0@)) by {
                    if k < p {
                        assert(groups@[k] == before[k]);
                    } else if k > p {
                        assert(groups@[k] == before[k - 1]);
                    }
                }
                assert forall|j: int| 0 <= j < next.len() implies group_keys(groups@).contains(#[trigger] next[j].path@) by {
                    if j < i {
                        assert(next[j] == prefix[j]);
                        let q = choose|q: int| 0 <= q < keys.len() && keys[q] == prefix[j].path@;
                        if q < p {
                            assert(group_keys(groups@)[q] == keys[q]);
                        } else {
                            assert(group_keys(groups@)[q + 1] == keys[q]);
                        }
                    } else {
                        assert(group_keys(groups@)[p as int] == k0);
                    }
                }
                assert forall|k: int| 0 <= k < groups@.len() implies (#[trigger] groups@[k]).1@.len() > 0 by {
                    if k < p {
                        assert(groups@[k] == before[k]);
                    } else if k > p {
                        assert(groups@[k] == before[k - 1]);
                    }
                }
            }
        }
        i += 1;
    }
    proof {
        assert(rs.take(rs.len() as int) =~= rs);
    }
    Ok(groups)
}


/// The version of the workspace registry document this library reads.
pub const REGISTRY_SCHEMA_VERSION: u32 = 1;

/// The branch a Git `HEAD` file names: its trimmed text after
/// `ref: refs/heads/`, and nothing for a detached head.
pub open spec fn head_branch(head: Seq<char>) -> Option<Seq<char>> {
    let t = trim_seq(head);
    if starts_with_seq(t, "ref: refs/heads/"@) {
        Some(t.subrange("ref: refs/heads/"@.len() as int, t.len() as int))
    } else {
        None
    }
}

pub fn branch_from_head(head: &str) -> (r: Option<String>)
    ensures
        opt_view(r) == head_branch(head@),
{
    proof {
        reveal_strlit("ref: refs/heads/");
    }
    let t = trim(head);
    if !starts_with(t.as_str(), "ref: refs/heads/") {
        return None;
    }
    let v = chars_of(t.as_str());
    Some(string_from_chars(&v, 16, v.len()))
}

/// A registry document of another version is refused.
pub fn check_registry_schema(version: u32) -> (r: Result<(), DeveloperError>)
    ensures
        r is Ok <==> version == REGISTRY_SCHEMA_VERSION,
        r matches Err(e) ==> e matches DeveloperError::Invalid(m) && m@
            == "unsupported workspace registry schema "@ + dec(version as nat),
{
    if version != REGISTRY_SCHEMA_VERSION {
        let number = u64_text(version as u64);
        return Err(DeveloperError::Invalid(concat2("unsupported workspace registry schema ", number.as_str())));
    }
    Ok(())
}

fn copy_workspace(w: &Workspace) -> (r: Workspace)
    ensures
        r == *w,
{
    Workspace {
        id: w.id,
        name: w.name.clone(),
        root: w.root.clone(),
        git_enabled: w.git_enabled,
        branch: copy_opt_string(&w.branch),
        registered_at: w.registered_at,
        last_opened_at: w.last_opened_at,
    }
}

pub open spec fn workspace_ids(s: Seq<Workspace>) -> Seq<u128> {
    Seq::new(s.len(), |i: int| s[i].id)
}

pub open spec fn root_is(root: Seq<char>) -> spec_fn(Workspace) -> bool {
    |w: Workspace| w.root@ == root
}

/// Some workspace has identifier `id`.
pub open spec fn has_id(s: Seq<Workspace>, id: u128) -> bool {
    exists|j: int| 0 <= j < s.len() && (#[trigger] s[j]).id == id
}

/// The registered workspaces, in identifier order, each identifier once.
pub struct WorkspaceBook {
    workspaces: Vec<Workspace>,
}

impl WorkspaceBook {
    #[verifier::type_invariant]
    spec fn ids_in_order(&self) -> bool {
        forall|i: int, j: int| 0 <= i < j < self.workspaces@.len() ==> self.workspaces@[i].id < self.workspaces@[j].id
    }

    pub closed spec fn items(&self) -> Seq<Workspace> {
        self.workspaces@
    }

    pub fn new() -> (b: WorkspaceBook)
        ensures
            b.items().len() == 0,
    {
        WorkspaceBook { workspaces: Vec::new() }
    }

    /// The workspaces read back from a registry document, by identifier (a
    /// later entry replaces an earlier one with the same identifier).
    pub fn from_document(workspaces: Vec<Workspace>) -> (b: WorkspaceBook)
        ensures
            forall|i: int| 0 <= i < workspaces@.len() ==> has_id(b.items(), (#[trigger] workspaces@[i]).id),
            forall|j: int| 0 <= j < b.items().len() ==> workspaces@.contains(#[trigger] b.items()[j]),
    {
        let mut b = WorkspaceBook::new();
        let mut i: usize = 0;
        while i < workspaces.len()
            invariant
                i <= workspaces@.len(),
                forall|k: int| 0 <= k < i ==> has_id(b.items(), (#[trigger] workspaces@[k]).id),
                forall|j: int| 0 <= j < b.items().len() ==> workspaces@.contains(#[trigger] b.items()[j]),
            decreases workspaces.len() - i,
        {
            let w = copy_workspace(&workspaces[i]);
            let ghost before = b.items();
            b.put(w);
            proof {
                assert forall|k: int| 0 <= k < i + 1 implies has_id(b.items(), (#[trigger] workspaces@[k]).id) by {
                    if k < i {
                        let j0 = choose|j: int| 0 <= j < before.len() && before[j].id == workspaces@[k].id;
                        if before[j0].id != workspaces@[i as int].id {
                            let q = choose|q: int| 0 <= q < b.items().len() && b.items()[q] == before[j0];
                            assert(b.items()[q].id == workspaces@[k].id);
                        } else {
                            let q = choose|q: int| 0 <= q < b.items().len() && b.items()[q] == workspaces@[i as int];
                            assert(b.items()[q].id == workspaces@[k].id);
                        }
                    } else {
                        let q = choose|q: int| 0 <= q < b.items().len() && b.items()[q] == workspaces@[i as int];
                        assert(b.items()[q].id == workspaces@[k].id);
                    }
                }
                assert forall|j: int| 0 <= j < b.items().len() implies workspaces@.contains(#[trigger] b.items()[j]) by {
                    if b.items()[j] != workspaces@[i as int] {
                        assert(before.contains(b.items()[j]));
                    }
                }
            }
            i += 1;
        }
        b
    }

    /// Stores `w` under its identifier, replacing a workspace with the same
    /// identifier.
    fn put(&mut self, w: Workspace)
        ensures
            exists|q: int| 0 <= q < final(self).items().len() && final(self).items()[q] == w,
            forall|j: int| 0 <= j < old(self).items().len() && old(self).items()[j].id != w.id ==> exists|q: int| 0 <= q < final(self).items().len() && final(self).items()[q] == old(self).items()[j],
            forall|q: int| 0 <= q < final(self).items().len() ==> (#[trigger] final(self).items()[q] == w || old(self).items().contains(final(self).items()[q])),
    {
        proof {
            use_type_invariant(&*self);
        }
        let ghost wv = w;
        let mut all: Vec<Workspace> = Vec::new();
        std::mem::swap(&mut all, &mut self.workspaces);
        let ghost before = all@;
        let mut p: usize = 0;
        while p < all.len() && all[p].id < w.id
            invariant
                all@ == before,
                p <= before.len(),
                forall|j: int| 0 <= j < p ==> before[j].id < w.id,
            decreases all.len() - p,
        {
            p += 1;
        }
        if p < all.len() && all[p].id == w.id {
            all.set(p, w);
            proof {
                assert(all@[p as int] == wv);
                assert forall|j: int| 0 <= j < before.len() && before[j].id != w.id implies exists|q: int| 0 <= q < all@.len() && all@[q] == before[j] by {
                    assert(all@[j] == before[j]);
                }
                assert forall|q: int| 0 <= q < all@.len() implies (#[trigger] all@[q] == w || before.contains(all@[q])) by {
                    if q != p {
                        assert(all@[q] == before[q]);
                    }
                }
            }
        } else {
            all.insert(p, w);
            proof {
                assert(all@[p as int] == wv);
                assert forall|j: int| 0 <= j < before.len() && before[j].id != w.id implies exists|q: int| 0 <= q < all@.len() && all@[q] == before[j] by {
                    if j < p {
                        assert(all@[j] == before[j]);
                    } else {
                        assert(all@[j + 1] == before[j]);
                    }
                }
                assert forall|q: int| 0 <= q < all@.len() implies (#[trigger] all@[q] == w || before.contains(all@[q])) by {
                    if q < p {
                        assert(all@[q] == before[q]);
                    } else if q > p {
                        assert(all@[q] == before[q - 1]);
                    }
                }
            }
        }
        self.workspaces = all;
    }

    /// Registers the directory `root` (already canonical and normalized)
    /// under `name` at `now`. A blank name is refused. A root already
    /// registered keeps its identifier and takes the new name and opening
    /// time; a new root is stored under `id`, with its branch only when Git
    /// is enabled.
    pub fn register_at(
        &mut self,
        name: &str,
        root: &str,
        git_enabled: bool,
        branch: Option<String>,
        id: u128,
        now: Timestamp,
    ) -> (r: Result<Workspace, DeveloperError>)
        ensures
            ({
                let n = trim_seq(name@);
                let pos = first_pos(old(self).items(), root_is(root@));
                &&& n.len() == 0 ==> (r matches Err(e) && e matches DeveloperError::Invalid(m) && m@
                    == "workspace name is blank"@ && final(self).items() == old(self).items())
                &&& n.len() > 0 && pos >= 0 ==> (r matches Ok(w) && {
                    let prev = old(self).items()[pos];
                    &&& w.id == prev.id && w.name@ == n && w.root == prev.root
                    &&& w.git_enabled == prev.git_enabled && w.branch == prev.branch
                    &&& w.registered_at == prev.registered_at && w.last_opened_at == now
                    &&& final(self).items() == old(self).items().update(pos, w)
                })
                &&& n.len() > 0 && pos < 0 ==> (r matches Ok(w) && {
                    &&& w.id == id && w.name@ == n && w.root@ == root@ && w.git_enabled == git_enabled
                    &&& w.branch == (if git_enabled { branch } else { None })
                    &&& w.registered_at == now && w.last_opened_at == now
                    &&& exists|q: int| 0 <= q < final(self).items().len() && final(self).items()[q] == w
                })
            }),
    {
        proof {
            use_type_invariant(&*self);
        }
        let trimmed = trim(name);
        if trimmed.as_str().unicode_len() == 0 {
            return Err(DeveloperError::Invalid(owned("workspace name is blank")));
        }
        let ghost p = root_is(root@);
        let mut i: usize = 0;
        while i < self.workspaces.len()
            invariant
                i <= self.workspaces@.len(),
                self.workspaces@ == old(self).workspaces@,
                trimmed@ == trim_seq(name@),
                trimmed@.len() > 0,
                forall|a: int, b: int| 0 <= a < b < self.workspaces@.len() ==> self.workspaces@[a].id < self.workspaces@[b].id,
                p == root_is(root@),
                forall|j: int| 0 <= j < i ==> !p(#[trigger] self.workspaces@[j]),
            decreases self.workspaces.len() - i,
        {
            if str_eq(self.workspaces[i].root.as_str(), root) {
                proof {
                    crate::seqs::lemma_first_pos_is(self.workspaces@, p, i as int);
                }
                let ghost before = self.workspaces@;
                let mut all: Vec<Workspace> = Vec::new();
                std::mem::swap(&mut all, &mut self.workspaces);
                let mut w = copy_workspace(&all[i]);
                w.name = trimmed;
                w.last_opened_at = now;
                let result = copy_workspace(&w);
                all.set(i, w);
                proof {
                    assert forall|a: int, b: int| 0 <= a < b < all@.len() implies all@[a].id < all@[b].id by {
                        assert(all@[a].id == before[a].id);
                        assert(all@[b].id == before[b].id);
                    }
                    assert(all@ == before.update(i as int, result));
                }
                self.workspaces = all;
                return Ok(result);
            }
            i += 1;
        }
        proof {
            crate::seqs::lemma_first_pos_is(self.workspaces@, p, -1);
        }
        let w = Workspace {
            id,
            name: trimmed,
            root: owned(root),
            git_enabled,
            branch: if git_enabled {
                branch
            } else {
                None
            },
            registered_at: now,
            last_opened_at: now,
        };
        let result = copy_workspace(&w);
        self.put(w);
        Ok(result)
    }

    /// Registers under a fresh random identifier; see `register_at`.
    pub fn register(&mut self, name: &str, root: &str, git_enabled: bool, branch: Option<String>, now: Timestamp) -> (r: Result<Workspace, DeveloperError>)
        ensures
            (trim_seq(name@).len() > 0 && first_pos(old(self).items(), root_is(root@)) < 0 && (r matches Err(e)
                && crate::developer::platform_failure(e)) && final(self).items() == old(self).items()) || ({
                let n = trim_seq(name@);
                let pos = first_pos(old(self).items(), root_is(root@));
                &&& n.len() == 0 ==> (r matches Err(e) && e matches DeveloperError::Invalid(m) && m@
                    == "workspace name is blank"@)
                &&& n.len() > 0 && pos >= 0 ==> (r matches Ok(w) && w.id == old(self).items()[pos].id && w.name@ == n && w.last_opened_at == now)
                &&& n.len() > 0 && pos < 0 ==> (r matches Ok(w) && w.name@ == n && w.root@ == root@ && w.registered_at == now
                    && w.branch == (if git_enabled { branch } else { None }))
            }),
    {
        if trim(name).as_str().unicode_len() == 0 || self.root_registered(root) {
            return self.register_at(name, root, git_enabled, branch, 0, now);
        }
        let id = match fresh_id() {
            Some(v) => v,
            None => {
                return Err(crate::developer::random_failure());
            },
        };
        self.register_at(name, root, git_enabled, branch, id, now)
    }

    /// Whether a workspace is registered at `root`.
    pub fn root_registered(&self, root: &str) -> (b: bool)
        ensures
            b == (first_pos(self.items(), root_is(root@)) >= 0),
    {
        let ghost p = root_is(root@);
        let mut i: usize = 0;
        while i < self.workspaces.len()
            invariant
                i <= self.workspaces@.len(),
                p == root_is(root@),
                forall|j: int| 0 <= j < i ==> !p(#[trigger] self.workspaces@[j]),
            decreases self.workspaces.len() - i,
        {
            if str_eq(self.workspaces[i].root.as_str(), root) {
                proof {
                    crate::seqs::lemma_first_pos_is(self.workspaces@, p, i as int);
                }
                return true;
            }
            i += 1;
        }
        proof {
            crate::seqs::lemma_first_pos_is(self.workspaces@, p, -1);
        }
        false
    }

    /// The workspace with identifier `id`.
    pub fn get(&self, id: u128) -> (r: Result<Workspace, DeveloperError>)
        ensures
            has_id(self.items(), id) ==> (r matches Ok(w) && w.id == id && self.items().contains(w)),
            !has_id(self.items(), id) ==> (r matches Err(e) && e matches DeveloperError::NotFound(m) && m@ == "workspace "@ + uuid_hyphenated(id)),
    {
        let mut i: usize = 0;
        while i < self.workspaces.len()
            invariant
                i <= self.workspaces@.len(),
                forall|j: int| 0 <= j < i ==> self.workspaces@[j].id != id,
            decreases self.workspaces.len() - i,
        {
            if self.workspaces[i].id == id {
                return Ok(copy_workspace(&self.workspaces[i]));
            }
            i += 1;
        }
        let text = uuid_text(id);
        Err(DeveloperError::NotFound(concat2("workspace ", text.as_str())))
    }

    /// The workspaces in identifier order.
    pub fn list(&self) -> (r: Vec<Workspace>)
        ensures
            r@ == self.items(),
    {
        let mut out: Vec<Workspace> = Vec::new();
        let mut i: usize = 0;
        while i < self.workspaces.len()
            invariant
                i <= self.workspaces@.len(),
                out@ == self.workspaces@.take(i as int),
            decreases self.workspaces.len() - i,
        {
            out.push(copy_workspace(&self.workspaces[i]));
            assert(self.workspaces@.take(i + 1) =~= self.workspaces@.take(i as int).push(self.workspaces@[i as int]));
            i += 1;
        }
        assert(self.workspaces@.take(self.workspaces.len() as int) =~= self.workspaces@);
        out
    }
}


/// A line that ended in a newline, without a carriage return before it.
pub open spec fn strip_cr(l: Seq<char>) -> Seq<char> {
    if l.len() > 0 && l.last() == '\r' {
        l.drop_last()
    } else {
        l
    }
}

/// The lines of a text as `str::lines` yields them: split after each
/// newline, a carriage return before a newline dropped, and no empty line
/// after a final newline.
pub open spec fn text_lines(s: Seq<char>) -> Seq<Seq<char>>
    decreases s.len(),
{
    if s.len() == 0 {
        Seq::empty()
    } else {
        let nl = first_index_of(s, '\n');
        if nl < 0 || nl >= s.len() {
            seq![s]
        } else {
            seq![strip_cr(s.subrange(0, nl))] + text_lines(s.subrange(nl + 1, s.len() as int))
        }
    }
}

/// The lines of `s`.
pub fn lines_of(s: &str) -> (r: Vec<String>)
    ensures
        views_of(r@) == text_lines(s@),
{
    let v = chars_of(s);
    let mut out: Vec<String> = Vec::new();
    let mut start: usize = 0;
    assert(s@.subrange(0, s@.len() as int) =~= s@);
    while start < v.len()
        invariant
            v@ == s@,
            start <= v@.len(),
            text_lines(s@) == views_of(out@) + text_lines(s@.subrange(start as int, s@.len() as int)),
        decreases v.len() - start,
    {
        let ghost rest = s@.subrange(start as int, s@.len() as int);
        let mut j: usize = start;
        while j < v.len() && v[j] != '\n'
            invariant
                v@ == s@,
                start <= j <= v@.len(),
                forall|k: int| start <= k < j ==> v@[k] != '\n',
            decreases v.len() - j,
        {
            j += 1;
        }
        proof {
            let p = crate::text::char_is('\n');
            if j < v.len() {
                assert forall|k: int| 0 <= k < j - start implies !p(#[trigger] rest[k]) by {
                    assert(rest[k] == s@[start + k]);
                }
                assert(rest[j - start] == '\n');
                crate::seqs::lemma_first_pos_is(rest, p, j - start);
            } else {
                assert forall|k: int| 0 <= k < rest.len() implies !p(#[trigger] rest[k]) by {
                    assert(rest[k] == s@[start + k]);
                }
                crate::seqs::lemma_first_pos_is(rest, p, -1);
            }
        }
        if j < v.len() {
            let mut end = j;
            if end > start && v[end - 1] == '\r' {
                end -= 1;
            }
            let line = string_from_chars(&v, start, end);
            proof {
                assert(rest.subrange(0, j - start) =~= s@.subrange(start as int, j as int));
                if j > start && v@[j - 1] == '\r' {
                    assert(strip_cr(rest.subrange(0, j - start)) =~= s@.subrange(start as int, end as int));
                } else {
                    assert(strip_cr(rest.subrange(0, j - start)) =~= s@.subrange(start as int, end as int));
                }
                assert(rest.subrange(j - start + 1, rest.len() as int) =~= s@.subrange(j + 1, s@.len() as int));
                assert(views_of(out@.push(line)) =~= views_of(out@).push(line@));
            }
            out.push(line);
            start = j + 1;
        } else {
            let line = string_from_chars(&v, start, v.len());
            proof {
                assert(views_of(out@.push(line)) =~= views_of(out@).push(line@));
                assert(s@.subrange(v.len() as int, s@.len() as int).len() == 0);
            }
            out.push(line);
            start = v.len();
        }
    }
    assert(s@.subrange(start as int, s@.len() as int).len() == 0);
    assert(views_of(out@) + Seq::<Seq<char>>::empty() =~= views_of(out@));
    out
}

/// A line range asks for at most a thousand and one lines from line one on.
pub fn check_line_range(start_line: usize, end_line: usize) -> (r: Result<(), DeveloperError>)
    ensures
        r is Ok <==> start_line != 0 && end_line >= start_line && end_line - start_line <= 1000,
        r matches Err(e) ==> e matches DeveloperError::Invalid(m) && m@ == "invalid line range"@,
{
    if start_line == 0 || end_line < start_line || end_line - start_line > 1000 {
        return Err(DeveloperError::Invalid(owned("invalid line range")));
    }
    Ok(())
}

/// The lines numbered `start_line` to `end_line` (from one), each as
/// `n: line`, joined by newlines.
pub open spec fn numbered_range(lines: Seq<Seq<char>>, start_line: int, end_line: int) -> Seq<Seq<char>>
    decreases lines.len(),
{
    if lines.len() == 0 {
        Seq::empty()
    } else {
        let n = lines.len() as int;
        numbered_range(lines.drop_last(), start_line, end_line) + if start_line <= n <= end_line {
            seq![dec(n as nat) + ": "@ + lines.last()]
        } else {
            Seq::empty()
        }
    }
}

pub fn numbered_lines(content: &str, start_line: usize, end_line: usize) -> (r: String)
    ensures
        r@ == join_seq(numbered_range(text_lines(content@), start_line as int, end_line as int), "\n"@),
{
    let lines = lines_of(content);
    let ghost all = views_of(lines@);
    let mut picked: Vec<String> = Vec::new();
    let mut i: usize = 0;
    while i < lines.len()
        invariant
            all == views_of(lines@),
            all == text_lines(content@),
            i <= lines@.len(),
            views_of(picked@) == numbered_range(all.take(i as int), start_line as int, end_line as int),
        decreases lines.len() - i,
    {
        assert(all.take(i + 1).drop_last() =~= all.take(i as int));
        let n = i + 1;
        if n >= start_line && n <= end_line {
            let number = u64_text(n as u64);
            let line = concat3(number.as_str(), ": ", lines[i].as_str());
            proof {
                assert(views_of(picked@.push(line)) =~= views_of(picked@).push(line@));
            }
            picked.push(line);
        } else {
            assert(numbered_range(all.take(i + 1), start_line as int, end_line as int) =~= numbered_range(all.take(i as int), start_line as int, end_line as int));
        }
        i += 1;
    }
    assert(all.take(lines.len() as int) =~= all);
    join(&picked, "\n")
}

/// A directory that walks never enter.
pub open spec fn ignored_name(n: Seq<char>) -> bool {
    n == ".git"@ || n == "node_modules"@ || n == "target"@ || n == ".idea"@ || n == ".vs"@
}

pub fn ignored_directory(path: &str) -> (r: bool)
    ensures
        r == (path_file_name(path@) matches Some(n) && ignored_name(n)),
{
    match file_name(path) {
        Some(n) => str_eq(n.as_str(), ".git") || str_eq(n.as_str(), "node_modules") || str_eq(n.as_str(), "target")
            || str_eq(n.as_str(), ".idea") || str_eq(n.as_str(), ".vs"),
        None => false,
    }
}

/// How deep a project tree goes: between one and eight levels.
pub fn tree_depth(depth: usize) -> (r: usize)
    ensures
        r == (if depth < 1 { 1 } else if depth > 8 { 8 } else { depth }),
{
    if depth < 1 {
        1
    } else if depth > 8 {
        8
    } else {
        depth
    }
}

/// Two spaces repeated `n` times.
pub open spec fn indent(n: nat) -> Seq<char>
    decreases n,
{
    if n == 0 {
        Seq::empty()
    } else {
        indent((n - 1) as nat) + "  "@
    }
}

/// One line of a project tree: indented by depth, marked as a directory or
/// a file, with the entry's normalized relative path.
pub fn tree_line(depth: usize, is_dir: bool, relative: &str) -> (r: String)
    requires
        depth >= 1,
    ensures
        r@ == indent((depth - 1) as nat) + (if is_dir { "[D] "@ } else { "[F] "@ }) + normalized(relative@),
{
    let mut out = String::new();
    let mut k: usize = 1;
    while k < depth
        invariant
            1 <= k <= depth,
            out@ == indent((k - 1) as nat),
        decreases depth - k,
    {
        out.append("  ");
        k += 1;
    }
    out.append(if is_dir {
        "[D] "
    } else {
        "[F] "
    });
    let n = normalize_path(relative);
    out.append(n.as_str());
    out
}

/// One entry of a directory listing.
pub open spec fn listing_line(is_dir: bool, name: Seq<char>) -> Seq<char> {
    (if is_dir { "directory"@ } else { "file"@ }) + "\t"@ + name
}

/// A directory listing: one `kind<TAB>name` line per entry, in text order.
pub fn directory_listing(entries: &Vec<(bool, String)>) -> (r: Vec<String>)
    ensures
        views_of(r@).to_multiset() == Seq::new(entries@.len(), |i: int| listing_line(entries@[i].0, entries@[i].1@)).to_multiset(),
        forall|a: int, b: int| 0 <= a < b < r@.len() ==> !text_lt(#[trigger] views_of(r@)[b], #[trigger] views_of(r@)[a]),
{
    let ghost want = Seq::new(entries@.len(), |i: int| listing_line(entries@[i].0, entries@[i].1@));
    let mut out: Vec<String> = Vec::new();
    let mut i: usize = 0;
    assert(views_of(out@) =~= want.take(0));
    while i < entries.len()
        invariant
            i <= entries@.len(),
            want == Seq::new(entries@.len(), |i: int| listing_line(entries@[i].0, entries@[i].1@)),
            views_of(out@).to_multiset() == want.take(i as int).to_multiset(),
            forall|a: int, b: int| 0 <= a < b < out@.len() ==> !text_lt(#[trigger] views_of(out@)[b], #[trigger] views_of(out@)[a]),
        decreases entries.len() - i,
    {
        let line = concat3(if entries[i].0 {
            "directory"
        } else {
            "file"
        }, "\t", entries[i].1.as_str());
        assert(line@ == want[i as int]);
        let mut p: usize = 0;
        while p < out.len() && !text_less(line.as_str(), out[p].as_str())
            invariant
                p <= out@.len(),
                forall|a: int| 0 <= a < p ==> !text_lt(line@, #[trigger] views_of(out@)[a]),
            decreases out.len() - p,
        {
            p += 1;
        }
        proof {
            lemma_insert_text_sorted(views_of(out@), line@, p as int);
            assert(views_of(out@.insert(p as int, line)) =~= views_of(out@).insert(p as int, line@));
            vstd::seq_lib::to_multiset_insert(views_of(out@), p as int, line@);
            vstd::seq_lib::to_multiset_build(want.take(i as int), line@);
            assert(want.take(i + 1) =~= want.take(i as int).push(line@));
        }
        out.insert(p, line);
        i += 1;
    }
    assert(want.take(entries.len() as int) =~= want);
    out
}

proof fn lemma_insert_text_sorted(s: Seq<Seq<char>>, c: Seq<char>, p: int)
    requires
        0 <= p <= s.len(),
        forall|a: int, b: int| 0 <= a < b < s.len() ==> !text_lt(#[trigger] s[b], #[trigger] s[a]),
        forall|a: int| 0 <= a < p ==> !text_lt(c, #[trigger] s[a]),
        p < s.len() ==> text_lt(c, s[p]),
    ensures
        forall|a: int, b: int| 0 <= a < b < s.insert(p, c).len() ==> !text_lt(#[trigger] s.insert(p, c)[b], #[trigger] s.insert(p, c)[a]),
{
    let t = s.insert(p, c);
    assert forall|a: int, b: int| 0 <= a < b < t.len() implies !text_lt(#[trigger] t[b], #[trigger] t[a]) by {
        if b == p {
            assert(t[a] == s[a]);
        } else if a == p {
            assert(t[b] == s[b - 1]);
            crate::order::lemma_text_lt_total(s[b - 1], c);
            if text_lt(s[b - 1], c) {
                crate::order::lemma_text_lt_transitive(s[b - 1], c, s[p]);
                if b - 1 == p {
                    crate::order::lemma_text_lt_irreflexive(s[p]);
                }
            }
        } else {
            let sa = if a < p { a } else { a - 1 };
            let sb = if b < p { b } else { b - 1 };
            assert(t[a] == s[sa]);
            assert(t[b] == s[sb]);
        }
    }
}


/// The first `n` of a list, or all of it.
pub open spec fn cap(s: Seq<Seq<char>>, n: nat) -> Seq<Seq<char>> {
    if s.len() <= n {
        s
    } else {
        s.take(n as int)
    }
}

proof fn lemma_cap_push(s: Seq<Seq<char>>, x: Seq<char>, n: nat)
    ensures
        s.len() < n ==> cap(s.push(x), n) == cap(s, n).push(x),
        s.len() >= n ==> cap(s.push(x), n) == cap(s, n),
{
    if s.len() >= n {
        assert(s.push(x).take(n as int) =~= s.take(n as int));
        if s.len() == n {
            assert(s.take(n as int) =~= s);
        }
    }
}

/// A filename query: trimmed and lowercased (ASCII); a blank one is refused.
pub fn file_query(query: &str) -> (r: Result<String, DeveloperError>)
    ensures
        lower_seq(trim_seq(query@)).len() > 0 ==> (r matches Ok(q) && q@ == lower_seq(trim_seq(query@))),
        lower_seq(trim_seq(query@)).len() == 0 ==> (r matches Err(e) && e matches DeveloperError::Invalid(m) && m@ == "filename query is blank"@),
{
    let t = trim(query);
    let q = ascii_lowercase(t.as_str());
    if q.as_str().unicode_len() == 0 {
        return Err(DeveloperError::Invalid(owned("filename query is blank")));
    }
    Ok(q)
}

/// A text query: trimmed; a blank one is refused.
pub fn text_query(query: &str) -> (r: Result<String, DeveloperError>)
    ensures
        trim_seq(query@).len() > 0 ==> (r matches Ok(q) && q@ == trim_seq(query@)),
        trim_seq(query@).len() == 0 ==> (r matches Err(e) && e matches DeveloperError::Invalid(m) && m@ == "text query is blank"@),
{
    let q = trim(query);
    if q.as_str().unicode_len() == 0 {
        return Err(DeveloperError::Invalid(owned("text query is blank")));
    }
    Ok(q)
}

/// An extension filter: without leading dots, lowercased (ASCII).
pub fn extension_filter(ext: &str) -> (r: String)
    ensures
        r@ == lower_seq(strip_prefixes(ext@, "."@)),
{
    proof {
        reveal_strlit(".");
    }
    let t = trim_start_matches(ext, ".");
    ascii_lowercase(t.as_str())
}

/// A path passes an extension filter when there is none, or when its own
/// extension, lowercased (ASCII), is the filter.
pub open spec fn extension_passes(path: Seq<char>, filter: Option<Seq<char>>) -> bool {
    match filter {
        None => true,
        Some(f) => path_extension(path) matches Some(x) && lower_seq(x) == f,
    }
}

pub fn extension_matches(path: &str, filter: &Option<String>) -> (r: bool)
    ensures
        r == extension_passes(path@, opt_view(*filter)),
{
    match filter {
        None => true,
        Some(f) => match extension(path) {
            Some(x) => {
                let l = ascii_lowercase(x.as_str());
                str_eq(l.as_str(), f.as_str())
            },
            None => false,
        },
    }
}

/// A file found by name: its file name, lowercased (ASCII), contains the
/// query, and its extension passes the filter.
pub open spec fn name_hit(path: Seq<char>, q: Seq<char>, filter: Option<Seq<char>>) -> bool {
    &&& path_file_name(path) matches Some(n) && seq_contains(lower_seq(n), q)
    &&& extension_passes(path, filter)
}

/// The displayed paths of the walked files found by name, in walk order.
pub open spec fn name_hits(entries: Seq<(String, String)>, q: Seq<char>, filter: Option<Seq<char>>) -> Seq<Seq<char>>
    decreases entries.len(),
{
    if entries.len() == 0 {
        Seq::empty()
    } else {
        name_hits(entries.drop_last(), q, filter) + if name_hit(entries.last().1@, q, filter) {
            seq![entries.last().0@]
        } else {
            Seq::<Seq<char>>::empty()
        }
    }
}

/// A filename search over the walked files (each as its displayed path and
/// its path): the first 250 hits, one per line.
pub fn search_files_in(q: &str, filter: &Option<String>, entries: &Vec<(String, String)>) -> (r: String)
    ensures
        r@ == join_seq(cap(name_hits(entries@, q@, opt_view(*filter)), MAX_SEARCH_RESULTS as nat), "\n"@),
{
    let mut out: Vec<String> = Vec::new();
    let mut i: usize = 0;
    while i < entries.len()
        invariant
            i <= entries@.len(),
            views_of(out@) == cap(name_hits(entries@.take(i as int), q@, opt_view(*filter)), MAX_SEARCH_RESULTS as nat),
            out@.len() <= MAX_SEARCH_RESULTS,
        decreases entries.len() - i,
    {
        let ghost before = name_hits(entries@.take(i as int), q@, opt_view(*filter));
        assert(entries@.take(i + 1).drop_last() =~= entries@.take(i as int));
        let path = entries[i].1.as_str();
        let named = match file_name(path) {
            Some(n) => {
                let l = ascii_lowercase(n.as_str());
                contains(l.as_str(), q)
            },
            None => false,
        };
        if named && extension_matches(path, filter) {
            proof {
                lemma_cap_push(before, entries@[i as int].0@, MAX_SEARCH_RESULTS as nat);
            }
            if out.len() < MAX_SEARCH_RESULTS {
                let shown = entries[i].0.clone();
                proof {
                    assert(views_of(out@.push(shown)) =~= views_of(out@).push(shown@));
                }
                out.push(shown);
            }
        } else {
            assert(name_hits(entries@.take(i + 1), q@, opt_view(*filter)) =~= before);
        }
        i += 1;
    }
    assert(entries@.take(entries.len() as int) =~= entries@);
    join(&out, "\n")
}

/// One text hit: the displayed path, the line number and the line cut to
/// 300 characters.
pub open spec fn text_hit(display: Seq<char>, number: nat, line: Seq<char>) -> Seq<char> {
    display + ":"@ + dec(number) + ":"@ + take_chars(line, 300)
}

/// The hits among a file's lines: lines whose Unicode lowercase contains
/// the lowercased query.
pub open spec fn line_hits(display: Seq<char>, lines: Seq<Seq<char>>, ql: Seq<char>) -> Seq<Seq<char>>
    decreases lines.len(),
{
    if lines.len() == 0 {
        Seq::empty()
    } else {
        line_hits(display, lines.drop_last(), ql) + if seq_contains(unicode_lowercase(lines.last()), ql) {
            seq![text_hit(display, lines.len(), lines.last())]
        } else {
            Seq::<Seq<char>>::empty()
        }
    }
}

/// The hits of the readable files, in walk order.
pub open spec fn files_hits(files: Seq<(String, Option<String>)>, ql: Seq<char>) -> Seq<Seq<char>>
    decreases files.len(),
{
    if files.len() == 0 {
        Seq::empty()
    } else {
        files_hits(files.drop_last(), ql) + match files.last().1 {
            Some(c) => line_hits(files.last().0@, text_lines(c@), ql),
            None => Seq::<Seq<char>>::empty(),
        }
    }
}

/// A text search over the walked files (each as its displayed path and its
/// text, `None` where it is not searched): the first 250 hits, one per line.
pub fn search_text_in(query: &str, files: &Vec<(String, Option<String>)>) -> (r: String)
    ensures
        r@ == join_seq(cap(files_hits(files@, unicode_lowercase(query@)), MAX_SEARCH_RESULTS as nat), "\n"@),
{
    let ql = lowercase(query);
    let mut out: Vec<String> = Vec::new();
    let mut i: usize = 0;
    while i < files.len()
        invariant
            i <= files@.len(),
            ql@ == unicode_lowercase(query@),
            views_of(out@) == cap(files_hits(files@.take(i as int), ql@), MAX_SEARCH_RESULTS as nat),
            out@.len() <= MAX_SEARCH_RESULTS,
        decreases files.len() - i,
    {
        let ghost before = files_hits(files@.take(i as int), ql@);
        assert(files@.take(i + 1).drop_last() =~= files@.take(i as int));
        match &files[i].1 {
            None => {
                assert(files_hits(files@.take(i + 1), ql@) =~= before);
            },
            Some(content) => {
                let display = files[i].0.as_str();
                let lines = lines_of(content.as_str());
                let ghost ls = views_of(lines@);
                let mut j: usize = 0;
                assert(line_hits(display@, ls.take(0), ql@) =~= Seq::<Seq<char>>::empty());
                assert(before + Seq::<Seq<char>>::empty() =~= before);
                while j < lines.len()
                    invariant
                        j <= lines@.len(),
                        ls == views_of(lines@),
                        ql@ == unicode_lowercase(query@),
                        out@.len() <= MAX_SEARCH_RESULTS,
                        views_of(out@) == cap(before + line_hits(display@, ls.take(j as int), ql@), MAX_SEARCH_RESULTS as nat),
                    decreases lines.len() - j,
                {
                    let ghost hits_j = line_hits(display@, ls.take(j as int), ql@);
                    assert(ls.take(j + 1).drop_last() =~= ls.take(j as int));
                    assert(ls.take(j + 1).last() == ls[j as int]);
                    let lower = lowercase(lines[j].as_str());
                    if contains(lower.as_str(), ql.as_str()) {
                        let number = u64_text((j + 1) as u64);
                        let mut hit = concat3(display, ":", number.as_str());
                        hit.append(":");
                        let cut = truncate_chars(lines[j].as_str(), 300);
                        hit.append(cut.as_str());
                        proof {
                            assert(hit@ == text_hit(display@, (j + 1) as nat, ls[j as int]));
                            assert(line_hits(display@, ls.take(j + 1), ql@) =~= hits_j.push(hit@));
                            assert(before + hits_j.push(hit@) =~= (before + hits_j).push(hit@));
                            lemma_cap_push(before + hits_j, hit@, MAX_SEARCH_RESULTS as nat);
                        }
                        if out.len() < MAX_SEARCH_RESULTS {
                            proof {
                                assert(views_of(out@.push(hit)) =~= views_of(out@).push(hit@));
                            }
                            out.push(hit);
                        }
                    } else {
                        assert(line_hits(display@, ls.take(j + 1), ql@) =~= hits_j);
                    }
                    j += 1;
                }
                assert(ls.take(lines.len() as int) =~= ls);
                assert(ls == text_lines(content@));
            },
        }
        i += 1;
    }
    assert(files@.take(files.len() as int) =~= files@);
    join(&out, "\n")
}


/// A directory is required: for a listing, or as a command's working
/// directory.
pub fn require_directory(is_dir: bool, working_directory: bool) -> (r: Result<(), DeveloperError>)
    ensures
        r is Ok <==> is_dir,
        r matches Err(e) ==> e matches DeveloperError::Invalid(m) && m@ == (if working_directory {
            "working directory is not a directory"@
        } else {
            "path is not a directory"@
        }),
{
    if is_dir {
        Ok(())
    } else if working_directory {
        Err(DeveloperError::Invalid(owned("working directory is not a directory")))
    } else {
        Err(DeveloperError::Invalid(owned("path is not a directory")))
    }
}

/// A created file must not exist yet.
pub fn require_absent(exists: bool) -> (r: Result<(), DeveloperError>)
    ensures
        r is Ok <==> !exists,
        r matches Err(e) ==> e matches DeveloperError::Invalid(m) && m@ == "target file already exists"@,
{
    if exists {
        Err(DeveloperError::Invalid(owned("target file already exists")))
    } else {
        Ok(())
    }
}

/// Only files are deleted, never directories.
pub fn require_deletable(is_file: bool) -> (r: Result<(), DeveloperError>)
    ensures
        r is Ok <==> is_file,
        r matches Err(e) ==> e matches DeveloperError::Permission(m) && m@ == "directory deletion is not supported"@,
{
    if is_file {
        Ok(())
    } else {
        Err(DeveloperError::Permission(owned("directory deletion is not supported")))
    }
}

} // verus!

verus! {

/// Once a path is captured its original stays: after a first capture the
/// path is present with the content captured then, so every later capture
/// of it leaves the originals unchanged and rollback restores that content.
pub proof fn first_capture_is_kept(entries: Seq<(String, Option<Vec<u8>>)>, e: (String, Option<Vec<u8>>))
    requires
        keys_sorted(original_keys(entries)),
        key_pos(original_keys(entries), e.0@) < 0,
    ensures
        ({
            let after = entries.insert(key_slot(original_keys(entries), e.0@), e);
            &&& key_pos(original_keys(after), e.0@) >= 0
            &&& after[key_pos(original_keys(after), e.0@)] == e
            &&& keys_sorted(original_keys(after))
        }),
{
    let keys = original_keys(entries);
    let k = e.0@;
    let p = key_slot(keys, k);
    crate::models::lemma_slot_bounds(keys, k);
    lemma_sorted_lookup(keys, k, p);
    let after = entries.insert(p, e);
    assert(original_keys(after) =~= keys.insert(p, k));
    lemma_sorted_insert(keys, k, p);
    crate::models::lemma_sorted_key_pos(original_keys(after), p);
}

} // verus!
