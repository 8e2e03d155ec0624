//! The managed PostgreSQL runtime's decisions: its file layout, manifest,
//! version compatibility, credentials, command lines and diagnoses. Running
//! the server, the SQL connection and the file writes belong to the
//! application.

use crate::agent_run::opt_view;
use crate::runtime::{diagnosis, ManagedRuntimeSnapshot, ManagedRuntimeState, RuntimeDiagnosis};
use crate::text::{concat2, concat3, owned, seq_contains, str_eq};
use vstd::prelude::*;
use vstd::string::StringExecFns;

verus! {

pub const MANAGED_POSTGRES_VERSION: &'static str = "18.4";

pub const MANIFEST_SCHEMA_VERSION: u32 = 1;

pub const DATABASE_NAME: &'static str = "vertex_ai";

pub const APPLICATION_ROLE: &'static str = "vertex_ai_app";

pub const BOOTSTRAP_ROLE: &'static str = "vertex_ai_bootstrap";

pub const MAX_START_ATTEMPTS: usize = 2;

#[derive(Debug, Clone, PartialEq, Eq)]
pub enum ManagedPostgresError {
    RuntimeMissing(String),
    Io(String),
    Manifest(String),
    Credential(String),
    Command(String),
    Database(String),
    RepairRequired(String),
}

pub open spec fn postgres_error_text(e: ManagedPostgresError) -> Seq<char> {
    match e {
        ManagedPostgresError::RuntimeMissing(m) => "managed PostgreSQL runtime is missing: "@ + m@,
        ManagedPostgresError::Io(m) => "managed PostgreSQL runtime I/O failed: "@ + m@,
        ManagedPostgresError::Manifest(m) => "managed PostgreSQL manifest is invalid: "@ + m@,
        ManagedPostgresError::Credential(m) => "managed PostgreSQL credential failed: "@ + m@,
        ManagedPostgresError::Command(m) => "managed PostgreSQL command failed: "@ + m@,
        ManagedPostgresError::Database(m) => "managed PostgreSQL database failed: "@ + m@,
        ManagedPostgresError::RepairRequired(m) => "managed PostgreSQL requires repair: "@ + m@,
    }
}

impl ManagedPostgresError {
    /// The message this error displays.
    pub fn to_text(&self) -> (r: String)
        ensures
            r@ == postgres_error_text(*self),
    {
        let (prefix, m) = match self {
            ManagedPostgresError::RuntimeMissing(m) => ("managed PostgreSQL runtime is missing: ", m),
            ManagedPostgresError::Io(m) => ("managed PostgreSQL runtime I/O failed: ", m),
            ManagedPostgresError::Manifest(m) => ("managed PostgreSQL manifest is invalid: ", m),
            ManagedPostgresError::Credential(m) => ("managed PostgreSQL credential failed: ", m),
            ManagedPostgresError::Command(m) => ("managed PostgreSQL command failed: ", m),
            ManagedPostgresError::Database(m) => ("managed PostgreSQL database failed: ", m),
            ManagedPostgresError::RepairRequired(m) => ("managed PostgreSQL requires repair: ", m),
        };
        concat2(prefix, m.as_str())
    }
}

/// `base` joined with `name`, as `std::path::Path::join` computes it.
pub uninterp spec fn path_joined(base: Seq<char>, name: Seq<char>) -> Seq<char>;

/// `Path::join` on text paths; its result is named by `path_joined`.
#[verifier::external_body]
pub fn join_path(base: &str, name: &str) -> (r: String)
    ensures
        r@ == path_joined(base@, name@),
{
    std::path::Path::new(base).join(name).to_string_lossy().into_owned()
}

/// Where the runtime's binaries and its data live.
#[derive(Debug, Clone, PartialEq, Eq)]
pub struct ManagedPostgresPaths {
    pub runtime_root: String,
    pub data_root: String,
}

impl ManagedPostgresPaths {
    pub fn cluster_dir(&self) -> (r: String)
        ensures
            r@ == path_joined(self.data_root@, "Cluster"@),
    {
        join_path(self.data_root.as_str(), "Cluster")
    }

    pub fn manifest_path(&self) -> (r: String)
        ensures
            r@ == path_joined(self.data_root@, "runtime-v1.json"@),
    {
        join_path(self.data_root.as_str(), "runtime-v1.json")
    }

    pub fn logs_dir(&self) -> (r: String)
        ensures
            r@ == path_joined(self.data_root@, "Logs"@),
    {
        join_path(self.data_root.as_str(), "Logs")
    }

    /// The path of a binary of the runtime: `bin/<name>` under its root.
    pub fn binary(&self, name: &str) -> (r: String)
        ensures
            r@ == path_joined(path_joined(self.runtime_root@, "bin"@), name@),
    {
        join_path(join_path(self.runtime_root.as_str(), "bin").as_str(), name)
    }

    pub fn postgres_exe(&self) -> (r: String)
        ensures
            r@ == path_joined(path_joined(self.runtime_root@, "bin"@), "postgres.exe"@),
    {
        self.binary("postgres.exe")
    }

    pub fn initdb_exe(&self) -> (r: String)
        ensures
            r@ == path_joined(path_joined(self.runtime_root@, "bin"@), "initdb.exe"@),
    {
        self.binary("initdb.exe")
    }

    pub fn pg_ctl_exe(&self) -> (r: String)
        ensures
            r@ == path_joined(path_joined(self.runtime_root@, "bin"@), "pg_ctl.exe"@),
    {
        self.binary("pg_ctl.exe")
    }

    /// What must exist for the runtime to be usable, checked in this order.
    pub fn required_runtime_paths(&self) -> (r: Vec<String>)
        ensures
            r@.len() == 4,
            r@[0]@ == path_joined(path_joined(self.runtime_root@, "bin"@), "postgres.exe"@),
            r@[1]@ == path_joined(path_joined(self.runtime_root@, "bin"@), "initdb.exe"@),
            r@[2]@ == path_joined(path_joined(self.runtime_root@, "bin"@), "pg_ctl.exe"@),
            r@[3]@ == path_joined(self.runtime_root@, "share"@),
    {
        let mut r: Vec<String> = Vec::new();
        r.push(self.postgres_exe());
        r.push(self.initdb_exe());
        r.push(self.pg_ctl_exe());
        r.push(join_path(self.runtime_root.as_str(), "share"));
        r
    }
}

/// The persisted state of the managed runtime.
#[derive(Debug, Clone, PartialEq, Eq)]
pub struct RuntimeManifest {
    pub schema_version: u32,
    pub cluster_id: String,
    pub runtime_version: String,
    pub host: String,
    pub port: u16,
    pub database: String,
    pub application_role: String,
    pub cluster_initialized: bool,
    pub database_initialized: bool,
    pub last_successful_start: Option<crate::developer::Timestamp>,
    pub last_error: Option<String>,
    pub backup_state: String,
}

impl RuntimeManifest {
    /// A manifest for a new cluster on `port`, created at `now` (milliseconds).
    pub fn fresh(port: u16, now: crate::developer::Timestamp) -> (m: RuntimeManifest)
        ensures
            m.schema_version == MANIFEST_SCHEMA_VERSION,
            m.cluster_id@ == "vertex-memory-"@ + crate::numtext::dec_signed(now as int),
            m.runtime_version@ == MANAGED_POSTGRES_VERSION@,
            m.host@ == "127.0.0.1"@,
            m.port == port,
            m.database@ == DATABASE_NAME@,
            m.application_role@ == APPLICATION_ROLE@,
            !m.cluster_initialized && !m.database_initialized,
            m.last_successful_start is None && m.last_error is None,
            m.backup_state@ == "not_configured"@,
    {
        RuntimeManifest {
            schema_version: MANIFEST_SCHEMA_VERSION,
            cluster_id: concat2("vertex-memory-", crate::numtext::i64_text(now).as_str()),
            runtime_version: owned(MANAGED_POSTGRES_VERSION),
            host: owned("127.0.0.1"),
            port,
            database: owned(DATABASE_NAME),
            application_role: owned(APPLICATION_ROLE),
            cluster_initialized: false,
            database_initialized: false,
            last_successful_start: None,
            last_error: None,
            backup_state: owned("not_configured"),
        }
    }
}

/// A manifest written by another schema version needs repair.
pub fn check_manifest_schema(version: u32) -> (r: Result<(), ManagedPostgresError>)
    ensures
        r is Ok <==> version == MANIFEST_SCHEMA_VERSION,
        r matches Err(e) ==> e matches ManagedPostgresError::RepairRequired(m) && m@
            == "unsupported runtime manifest schema "@ + crate::numtext::dec(version as nat),
{
    if version != MANIFEST_SCHEMA_VERSION {
        return Err(
            ManagedPostgresError::RepairRequired(
                concat2(
                    "unsupported runtime manifest schema ",
                    crate::numtext::u64_text(version as u64).as_str(),
                ),
            ),
        );
    }
    Ok(())
}

/// The text before the first '.' (all of it when there is none).
pub open spec fn before_dot(s: Seq<char>) -> Seq<char> {
    let p = crate::text::first_index_of(s, '.');
    if p < 0 {
        s
    } else {
        s.take(p)
    }
}

pub fn major_version(s: &str) -> (r: String)
    ensures
        r@ == before_dot(s@),
{
    let v = crate::text::chars_of(s);
    match crate::text::find_char(&v, '.') {
        Some(p) => crate::text::string_from_chars(&v, 0, p),
        None => owned(s),
    }
}

/// A cluster written by another major version needs a backup and an upgrade.
pub fn check_cluster_version(cluster_version: &str) -> (r: Result<(), ManagedPostgresError>)
    ensures
        ({
            let cluster = before_dot(crate::text::trim_seq(cluster_version@));
            let runtime = before_dot(MANAGED_POSTGRES_VERSION@);
            &&& r is Ok <==> cluster == runtime
            &&& r matches Err(e) ==> e matches ManagedPostgresError::RepairRequired(m) && m@
                == "cluster major version "@ + cluster + " is incompatible with runtime major version "@
                + runtime + "; backup and pg_upgrade are required"@
        }),
{
    let cluster = major_version(crate::text::trim(cluster_version).as_str());
    let runtime = major_version(MANAGED_POSTGRES_VERSION);
    if !str_eq(cluster.as_str(), runtime.as_str()) {
        let mut m = owned("cluster major version ");
        m.append(cluster.as_str());
        m.append(" is incompatible with runtime major version ");
        m.append(runtime.as_str());
        m.append("; backup and pg_upgrade are required");
        return Err(ManagedPostgresError::RepairRequired(m));
    }
    Ok(())
}

/// The lines appended to `postgresql.conf`: loopback only, the managed port,
/// SCRAM passwords and a small connection limit.
pub fn private_configuration(port: u16) -> (r: String)
    ensures
        r@ == "\n# Vertex AI managed configuration\nlisten_addresses = '127.0.0.1'\nport = "@
            + crate::numtext::dec(port as nat)
            + "\npassword_encryption = 'scram-sha-256'\nmax_connections = 24\n"@,
{
    let mut r = owned("\n# Vertex AI managed configuration\nlisten_addresses = '127.0.0.1'\nport = ");
    r.append(crate::numtext::u64_text(port as u64).as_str());
    r.append("\npassword_encryption = 'scram-sha-256'\nmax_connections = 24\n");
    r
}

/// The lowercase hexadecimal text of bytes, two digits each.
pub open spec fn hex_text(b: Seq<u8>) -> Seq<char>
    decreases b.len(),
{
    if b.len() == 0 {
        Seq::empty()
    } else {
        hex_text(b.drop_last()).push(crate::ids::hex_char((b.last() / 16) as nat)).push(
            crate::ids::hex_char((b.last() % 16) as nat),
        )
    }
}

pub open spec fn is_hex_digit(c: char) -> bool {
    ('0' <= c && c <= '9') || ('a' <= c && c <= 'f')
}

proof fn lemma_hex_text(b: Seq<u8>)
    ensures
        hex_text(b).len() == 2 * b.len(),
        forall|i: int| 0 <= i < hex_text(b).len() ==> is_hex_digit(#[trigger] hex_text(b)[i]),
    decreases b.len(),
{
    if b.len() > 0 {
        lemma_hex_text(b.drop_last());
        let t = hex_text(b.drop_last());
        assert forall|i: int| 0 <= i < hex_text(b).len() implies is_hex_digit(
            #[trigger] hex_text(b)[i],
        ) by {
            if i < t.len() {
                assert(hex_text(b)[i] == t[i]);
            }
        }
    }
}

fn hex_digit(d: u8) -> (c: char)
    requires
        d < 16,
    ensures
        c == crate::ids::hex_char(d as nat),
{
    if d < 10 {
        (d + 48) as char
    } else {
        (d + 87) as char
    }
}

/// The bytes as lowercase hexadecimal text.
pub fn hex_of(bytes: &Vec<u8>) -> (r: String)
    ensures
        r@ == hex_text(bytes@),
        r@.len() == 2 * bytes@.len(),
        forall|i: int| 0 <= i < r@.len() ==> is_hex_digit(#[trigger] r@[i]),
{
    let mut r = String::new();
    let mut i: usize = 0;
    while i < bytes.len()
        invariant
            i <= bytes.len(),
            r@ == hex_text(bytes@.take(i as int)),
        decreases bytes.len() - i,
    {
        assert(bytes@.take(i + 1).drop_last() =~= bytes@.take(i as int));
        let b = bytes[i];
        crate::text::push_char(&mut r, hex_digit(b / 16));
        crate::text::push_char(&mut r, hex_digit(b % 16));
        i += 1;
    }
    assert(bytes@.take(bytes.len() as int) =~= bytes@);
    proof {
        lemma_hex_text(bytes@);
    }
    r
}

/// A new database password: 32 bytes from the operating-system random
/// source as 64 lowercase hexadecimal characters. The random source failing
/// is a credential failure.
pub fn generate_password() -> (r: Result<String, ManagedPostgresError>)
    ensures
        r matches Ok(p) ==> p@.len() == 64 && forall|i: int|
            0 <= i < p@.len() ==> is_hex_digit(#[trigger] p@[i]),
        r matches Err(e) ==> e matches ManagedPostgresError::Credential(m) && m@
            == "operating system random source must be available"@,
{
    match crate::platform::random_bytes_32() {
        Ok(bytes) => Ok(hex_of(&bytes)),
        Err(_) => Err(
            ManagedPostgresError::Credential(
                owned("operating system random source must be available"),
            ),
        ),
    }
}

/// The first position of `n` in `h`, or -1 (`str::find`).
pub open spec fn first_occurrence(h: Seq<char>, n: Seq<char>) -> int
    decreases h.len(),
{
    if n.len() > h.len() {
        -1
    } else if h.take(n.len() as int) == n {
        0
    } else if h.len() == 0 {
        -1
    } else {
        let r = first_occurrence(h.drop_first(), n);
        if r < 0 {
            -1
        } else {
            r + 1
        }
    }
}

/// After the first `marker`, the value up to the next whitespace is replaced
/// by "[REDACTED]".
pub open spec fn redact_after(s: Seq<char>, marker: Seq<char>) -> Seq<char> {
    let i = first_occurrence(s, marker);
    if i < 0 {
        s
    } else {
        let start = i + marker.len();
        let tail = s.skip(start);
        let e = crate::seqs::first_pos(tail, ws_pred());
        let end = if e < 0 {
            tail.len() as int
        } else {
            e
        };
        s.take(start) + "[REDACTED]"@ + s.skip(start + end)
    }
}

pub open spec fn ws_pred() -> spec_fn(char) -> bool {
    |c: char| crate::text::is_ws(c)
}

/// A message with the values of `password=` and then `PGPASSWORD=` hidden.
pub open spec fn redacted(s: Seq<char>) -> Seq<char> {
    redact_after(redact_after(s, "password="@), "PGPASSWORD="@)
}

proof fn lemma_first_occurrence(h: Seq<char>, n: Seq<char>)
    ensures
        first_occurrence(h, n) >= -1,
        first_occurrence(h, n) >= 0 ==> crate::text::occurs_at(h, n, first_occurrence(h, n)),
        forall|j: int| 0 <= j < first_occurrence(h, n) ==> !#[trigger] crate::text::occurs_at(h, n, j),
        first_occurrence(h, n) < 0 ==> forall|j: int| !#[trigger] crate::text::occurs_at(h, n, j),
    decreases h.len(),
{
    if n.len() > h.len() {
    } else if h.take(n.len() as int) == n {
        assert(h.subrange(0, n.len() as int) =~= h.take(n.len() as int));
    } else if h.len() == 0 {
        assert(h.take(n.len() as int) =~= n);
    } else {
        let t = h.drop_first();
        lemma_first_occurrence(t, n);
        assert(!crate::text::occurs_at(h, n, 0)) by {
            if crate::text::occurs_at(h, n, 0) {
                assert(h.take(n.len() as int) =~= h.subrange(0, n.len() as int));
            }
        }
        assert forall|j: int| 1 <= j implies #[trigger] crate::text::occurs_at(h, n, j)
            == crate::text::occurs_at(t, n, j - 1) by {
            if 1 <= j && j + n.len() <= h.len() {
                assert(h.subrange(j, j + n.len()) =~= t.subrange(j - 1, j - 1 + n.len()));
            }
        }
    }
}

fn find_text(h: &Vec<char>, n: &Vec<char>) -> (r: Option<usize>)
    ensures
        match r {
            Some(i) => i as int == first_occurrence(h@, n@),
            None => first_occurrence(h@, n@) < 0,
        },
{
    proof {
        lemma_first_occurrence(h@, n@);
    }
    if n.len() > h.len() {
        return None;
    }
    let mut i: usize = 0;
    while i <= h.len() - n.len()
        invariant
            n.len() <= h.len(),
            i <= h.len() - n.len() + 1,
            forall|j: int| 0 <= j < i ==> !#[trigger] crate::text::occurs_at(h@, n@, j),
        decreases h.len() - i,
    {
        let mut k: usize = 0;
        let mut same = true;
        while k < n.len()
            invariant
                k <= n.len(),
                i + n.len() <= h.len(),
                same == forall|m: int| 0 <= m < k ==> h@[i + m] == n@[m],
            decreases n.len() - k,
        {
            if h[i + k] != n[k] {
                same = false;
            }
            k += 1;
        }
        if same {
            assert(h@.subrange(i as int, i + n@.len()) =~= n@);
            assert(crate::text::occurs_at(h@, n@, i as int));
            proof {
                lemma_first_occurrence(h@, n@);
                let f = first_occurrence(h@, n@);
                if f >= 0 && f < i {
                    assert(crate::text::occurs_at(h@, n@, f));
                }
                if f > i {
                    assert(!crate::text::occurs_at(h@, n@, i as int));
                }
            }
            return Some(i);
        } else {
            let ghost m = choose|m: int| 0 <= m < n@.len() && h@[i + m] != n@[m];
            assert(h@.subrange(i as int, i + n@.len())[m] != n@[m]);
            assert(!crate::text::occurs_at(h@, n@, i as int));
        }
        i += 1;
    }
    proof {
        let f = first_occurrence(h@, n@);
        if f >= 0 {
            assert(crate::text::occurs_at(h@, n@, f));
        }
    }
    None
}

#[verifier::loop_isolation(false)]
fn redact_marker(s: &str, marker: &str) -> (r: String)
    ensures
        r@ == redact_after(s@, marker@),
{
    let v = crate::text::chars_of(s);
    let m = crate::text::chars_of(marker);
    match find_text(&v, &m) {
        None => owned(s),
        Some(i) => {
            proof {
                lemma_first_occurrence(v@, m@);
                assert(crate::text::occurs_at(v@, m@, i as int));
                assert(i + m@.len() <= v@.len());
            }
            assert(i + m.len() <= v.len());
            let start = i + m.len();
            let ghost tail = v@.skip(start as int);
            let mut e: usize = start;
            while e < v.len()
                invariant
                    start <= e <= v.len(),
                    tail == v@.skip(start as int),
                    forall|j: int| 0 <= j < e - start ==> !ws_pred()(#[trigger] tail[j]),
                decreases v.len() - e,
            {
                if crate::text::is_ws_char(v[e]) {
                    assert(ws_pred()(tail[e - start]));
                    break;
                }
                e += 1;
            }
            proof {
                if e < v.len() {
                    crate::seqs::lemma_first_pos_is(tail, ws_pred(), e - start);
                } else {
                    crate::seqs::lemma_first_pos_is(tail, ws_pred(), -1);
                }
            }
            let mut r = crate::text::string_from_chars(&v, 0, start);
            r.append("[REDACTED]");
            r.append(crate::text::string_from_chars(&v, e, v.len()).as_str());
            assert(v@.skip(e as int) =~= v@.subrange(e as int, v@.len() as int));
            assert(v@.take(start as int) =~= v@.subrange(0, start as int));
            r
        },
    }
}

/// Hides credentials in a message before it is logged or shown.
pub fn redact_error(message: &str) -> (r: String)
    ensures
        r@ == redacted(message@),
{
    let once = redact_marker(message, "password=");
    redact_marker(once.as_str(), "PGPASSWORD=")
}

} // verus!

verus! {

/// What the statistics queries of a ready database returned (`None` where
/// a query failed).
#[derive(Debug, Clone, PartialEq, Eq)]
pub struct DatabaseStats {
    pub size_bytes: Option<i64>,
    pub connection_count: Option<i64>,
    pub schema_version: Option<i64>,
}

/// Statistics are read only from a ready runtime whose database exists.
pub fn wants_database_stats(state: ManagedRuntimeState, manifest: &RuntimeManifest) -> (r: bool)
    ensures
        r == (state == ManagedRuntimeState::Ready && manifest.database_initialized),
{
    state == ManagedRuntimeState::Ready && manifest.database_initialized
}

/// The state an inspection reports: ready when the health check passes,
/// stopped when the cluster exists, else in need of repair.
pub fn inspected_state(healthy: bool, cluster_exists: bool) -> (r: ManagedRuntimeState)
    ensures
        r == (if healthy {
            ManagedRuntimeState::Ready
        } else if cluster_exists {
            ManagedRuntimeState::Stopped
        } else {
            ManagedRuntimeState::RepairRequired
        }),
{
    if healthy {
        ManagedRuntimeState::Ready
    } else if cluster_exists {
        ManagedRuntimeState::Stopped
    } else {
        ManagedRuntimeState::RepairRequired
    }
}

/// A persisted port is replaced only when the server there is not ours and
/// the port is taken.
pub fn needs_new_port(healthy: bool, port_available: bool) -> (r: bool)
    ensures
        r == (!healthy && !port_available),
{
    !healthy && !port_available
}

/// The snapshot of the managed runtime in `state`, with the statistics read
/// (negative or oversized counts dropped), observed at `observed_at`.
pub fn managed_snapshot(
    paths: &ManagedPostgresPaths,
    manifest: &RuntimeManifest,
    state: ManagedRuntimeState,
    stats: Option<DatabaseStats>,
    observed_at: crate::developer::Timestamp,
) -> (r: ManagedRuntimeSnapshot)
    ensures
        r.id@ == "vertex-memory-core"@,
        r.display_name@ == "Vertex Memory Core"@,
        r.state == state,
        r.version == Some(manifest.runtime_version),
        r.runtime_location == paths.runtime_root,
        r.data_location == paths.data_root,
        r.host == Some(manifest.host),
        r.port == Some(manifest.port),
        r.database == Some(manifest.database),
        r.backup_state == manifest.backup_state,
        r.last_successful_start == manifest.last_successful_start,
        r.last_error == manifest.last_error,
        r.observed_at == observed_at,
        match stats {
            None => r.database_size_bytes is None && r.connection_count is None && r.schema_version is None,
            Some(s) => {
                &&& r.database_size_bytes == (match s.size_bytes { Some(v) => if v >= 0 { Some(v as u64) } else { None }, None => None })
                &&& r.connection_count == (match s.connection_count { Some(v) => if 0 <= v <= u32::MAX { Some(v as u32) } else { None }, None => None })
                &&& opt_view(r.schema_version) == (match s.schema_version { Some(v) => Some(crate::numtext::dec_signed(v as int)), None => None })
            },
        },
{
    let (size, count, schema) = match stats {
        None => (None, None, None),
        Some(s) => {
            let size = match s.size_bytes {
                Some(v) => if v >= 0 {
                    Some(v as u64)
                } else {
                    None
                },
                None => None,
            };
            let count = match s.connection_count {
                Some(v) => if 0 <= v && v <= 0xffff_ffffi64 {
                    Some(v as u32)
                } else {
                    None
                },
                None => None,
            };
            let schema = match s.schema_version {
                Some(v) => Some(crate::numtext::i64_text(v)),
                None => None,
            };
            (size, count, schema)
        },
    };
    ManagedRuntimeSnapshot {
        id: owned("vertex-memory-core"),
        display_name: owned("Vertex Memory Core"),
        state,
        version: Some(manifest.runtime_version.clone()),
        runtime_location: paths.runtime_root.clone(),
        data_location: paths.data_root.clone(),
        host: Some(manifest.host.clone()),
        port: Some(manifest.port),
        database: Some(manifest.database.clone()),
        schema_version: schema,
        database_size_bytes: size,
        connection_count: count,
        backup_state: manifest.backup_state.clone(),
        last_successful_start: manifest.last_successful_start,
        last_error: crate::relay::copy_opt_string(&manifest.last_error),
        observed_at,
    }
}

/// After every start attempt failed: the manifest keeps the redacted
/// error, and the runtime needs repair with the last error's text.
pub fn record_start_failure(manifest: &mut RuntimeManifest, error: &str) -> (e: ManagedPostgresError)
    ensures
        *final(manifest) == (RuntimeManifest { last_error: final(manifest).last_error, ..*old(manifest) }),
        opt_view(final(manifest).last_error) == Some(redacted(error@)),
        e matches ManagedPostgresError::RepairRequired(m) && m@ == error@,
{
    manifest.last_error = Some(redact_error(error));
    ManagedPostgresError::RepairRequired(owned(error))
}

/// After a successful start at `now`: the database counts as initialized,
/// the start is recorded and the last error cleared.
pub fn record_ready(manifest: &mut RuntimeManifest, now: crate::developer::Timestamp)
    ensures
        *final(manifest) == (RuntimeManifest {
            database_initialized: true,
            last_successful_start: Some(now),
            last_error: None,
            ..*old(manifest)
        }),
{
    manifest.database_initialized = true;
    manifest.last_successful_start = Some(now);
    manifest.last_error = None;
}

/// What a diagnosis found, in the order the checks run: a missing runtime
/// or cluster, or an unreadable manifest, ends it; a taken port with no
/// healthy server of ours, and a failing health check, are both reported.
pub fn diagnose_findings(
    runtime_error: Option<String>,
    cluster_exists: bool,
    manifest: Result<u16, String>,
    port_bindable: bool,
    health_error: Option<String>,
) -> (r: Vec<RuntimeDiagnosis>)
    ensures
        runtime_error matches Some(m) ==> r@.len() == 1 && r@[0].code@ == "runtime_missing"@
            && r@[0].detail@ == redacted(m@),
        runtime_error is None && !cluster_exists ==> r@.len() == 1 && r@[0].code@ == "cluster_missing"@
            && r@[0].detail@ == redacted("Vertex Memory cluster has not been initialized"@),
        runtime_error is None && cluster_exists && manifest is Err ==> r@.len() == 1 && r@[0].code@
            == "manifest_invalid"@ && r@[0].detail@ == redacted(manifest->Err_0@),
        runtime_error is None && cluster_exists && manifest is Ok ==> {
            let conflict = !port_bindable && health_error is Some;
            let failing = health_error is Some;
            &&& r@.len() == (if conflict { 1int } else { 0int }) + (if failing { 1int } else { 0int })
            &&& conflict ==> r@[0].code@ == "port_conflict"@ && r@[0].detail@ == redacted(
                "Managed port "@ + crate::numtext::dec(manifest->Ok_0 as nat) + " is occupied by another process"@,
            )
            &&& failing ==> r@.last().code@ == "connection_failure"@ && r@.last().detail@ == redacted(health_error->0@)
        },
        forall|i: int| 0 <= i < r@.len() ==> (#[trigger] r@[i]).repairable && !r@[i].destructive,
{
    let mut findings: Vec<RuntimeDiagnosis> = Vec::new();
    if let Some(m) = runtime_error {
        findings.push(diagnosis("runtime_missing", m.as_str(), true, false));
        return findings;
    }
    if !cluster_exists {
        findings.push(diagnosis("cluster_missing", "Vertex Memory cluster has not been initialized", true, false));
        return findings;
    }
    let port = match manifest {
        Ok(p) => p,
        Err(m) => {
            findings.push(diagnosis("manifest_invalid", m.as_str(), true, false));
            return findings;
        },
    };
    if !port_bindable && health_error.is_some() {
        let mut detail = concat2("Managed port ", crate::numtext::u64_text(port as u64).as_str());
        detail.append(" is occupied by another process");
        findings.push(diagnosis("port_conflict", detail.as_str(), true, false));
    }
    if let Some(m) = health_error {
        findings.push(diagnosis("connection_failure", m.as_str(), true, false));
    }
    findings
}

} // verus!
