//! The environment explorer: the tools looked for on the search path, the
//! snapshots a scan produces, and the index that reports what changed
//! between scans. Reading the disk is the application's part.

use crate::developer::Timestamp;
use crate::text::{owned, str_eq};
use crate::types::{
    AssetCategory, AssetKind, EvidenceRef, HealthState, RelationshipKind, SystemAsset, SystemAssetId,
    SystemRelationship,
};
use vstd::prelude::*;

verus! {

#[derive(Debug, Clone, PartialEq, Eq)]
pub enum EnvironmentError {
    EmptySearchPath,
    Io(String),
    Serialization(String),
    UnsupportedSchema(u32),
}

pub open spec fn environment_error_text(e: EnvironmentError) -> Seq<char> {
    match e {
        EnvironmentError::EmptySearchPath => "environment path contains no searchable directories"@,
        EnvironmentError::Io(m) => "environment index I/O failed: "@ + m@,
        EnvironmentError::Serialization(m) => "environment index serialization failed: "@ + m@,
        EnvironmentError::UnsupportedSchema(v) => "unsupported environment index schema version "@
            + crate::numtext::dec(v as nat),
    }
}

impl EnvironmentError {
    /// The message this error displays.
    pub fn to_text(&self) -> (r: String)
        ensures
            r@ == environment_error_text(*self),
    {
        match self {
            EnvironmentError::EmptySearchPath => owned("environment path contains no searchable directories"),
            EnvironmentError::Io(m) => crate::text::concat2("environment index I/O failed: ", m.as_str()),
            EnvironmentError::Serialization(m) => crate::text::concat2(
                "environment index serialization failed: ",
                m.as_str(),
            ),
            EnvironmentError::UnsupportedSchema(v) => crate::text::concat2(
                "unsupported environment index schema version ",
                crate::numtext::u64_text(*v as u64).as_str(),
            ),
        }
    }
}

/// The schema of the persisted index.
pub const ENVIRONMENT_INDEX_SCHEMA_VERSION: u32 = 1;

/// What one scan found.
#[derive(Debug, Clone, PartialEq, Eq)]
pub struct EnvironmentSnapshot {
    pub scanned_at: Timestamp,
    pub roots_scanned: Vec<String>,
    pub assets: Vec<SystemAsset>,
    pub relationships: Vec<SystemRelationship>,
}

/// What changed between two scans, by asset identifier.
#[derive(Debug, Clone, PartialEq, Eq, Default)]
pub struct EnvironmentDelta {
    pub added: Vec<SystemAssetId>,
    pub updated: Vec<SystemAssetId>,
    pub removed: Vec<SystemAssetId>,
    pub relationships_changed: bool,
}

pub open spec fn delta_has_changes(d: EnvironmentDelta) -> bool {
    d.added@.len() > 0 || d.updated@.len() > 0 || d.removed@.len() > 0 || d.relationships_changed
}

impl EnvironmentDelta {
    pub fn has_changes(&self) -> (b: bool)
        ensures
            b == delta_has_changes(*self),
    {
        self.added.len() > 0 || self.updated.len() > 0 || self.removed.len() > 0
            || self.relationships_changed
    }
}

#[derive(Debug, Clone, PartialEq, Eq)]
pub struct IndexedEnvironmentSnapshot {
    pub snapshot: EnvironmentSnapshot,
    pub delta: Option<EnvironmentDelta>,
}

pub open spec fn opt_view(o: Option<String>) -> Option<Seq<char>> {
    match o {
        Some(s) => Some(s@),
        None => None,
    }
}

/// The metadata of an asset as text pairs.
pub open spec fn pairs_view(v: Seq<(String, String)>) -> Seq<(Seq<char>, Seq<char>)> {
    Seq::new(v.len(), |i: int| (v[i].0@, v[i].1@))
}

/// Two observations of an asset say the same thing: everything but the
/// times and evidence of observation agrees.
pub open spec fn materially_equal(a: SystemAsset, b: SystemAsset) -> bool {
    &&& a.id@ == b.id@
    &&& a.name@ == b.name@
    &&& a.category == b.category
    &&& a.kind == b.kind
    &&& opt_view(a.location) == opt_view(b.location)
    &&& opt_view(a.version) == opt_view(b.version)
    &&& opt_view(a.architecture) == opt_view(b.architecture)
    &&& a.health == b.health
    &&& crate::text::views_of(a.capabilities@) == crate::text::views_of(b.capabilities@)
    &&& pairs_view(a.metadata@) == pairs_view(b.metadata@)
}

pub open spec fn relation_view(r: SystemRelationship) -> (Seq<char>, Seq<char>, RelationshipKind, bool) {
    (r.source_id@, r.target_id@, r.kind, r.verified)
}

pub open spec fn relations_view(s: Seq<SystemRelationship>) -> Seq<(Seq<char>, Seq<char>, RelationshipKind, bool)> {
    Seq::new(s.len(), |i: int| relation_view(s[i]))
}

fn opt_text_eq(a: &Option<String>, b: &Option<String>) -> (r: bool)
    ensures
        r == (opt_view(*a) == opt_view(*b)),
{
    match (a, b) {
        (Some(x), Some(y)) => str_eq(x.as_str(), y.as_str()),
        (None, None) => true,
        _ => false,
    }
}

fn texts_eq(a: &Vec<String>, b: &Vec<String>) -> (r: bool)
    ensures
        r == (crate::text::views_of(a@) == crate::text::views_of(b@)),
{
    if a.len() != b.len() {
        proof {
            assert(crate::text::views_of(a@).len() != crate::text::views_of(b@).len());
        }
        return false;
    }
    let mut i: usize = 0;
    while i < a.len()
        invariant
            i <= a@.len() == b@.len(),
            forall|k: int| 0 <= k < i ==> a@[k]@ == b@[k]@,
        decreases a.len() - i,
    {
        if !str_eq(a[i].as_str(), b[i].as_str()) {
            proof {
                assert(crate::text::views_of(a@)[i as int] != crate::text::views_of(b@)[i as int]);
            }
            return false;
        }
        i += 1;
    }
    assert(crate::text::views_of(a@) =~= crate::text::views_of(b@));
    true
}

fn pairs_eq(a: &Vec<(String, String)>, b: &Vec<(String, String)>) -> (r: bool)
    ensures
        r == (pairs_view(a@) == pairs_view(b@)),
{
    if a.len() != b.len() {
        proof {
            assert(pairs_view(a@).len() != pairs_view(b@).len());
        }
        return false;
    }
    let mut i: usize = 0;
    while i < a.len()
        invariant
            i <= a@.len() == b@.len(),
            forall|k: int| 0 <= k < i ==> a@[k].0@ == b@[k].0@ && a@[k].1@ == b@[k].1@,
        decreases a.len() - i,
    {
        if !str_eq(a[i].0.as_str(), b[i].0.as_str()) || !str_eq(a[i].1.as_str(), b[i].1.as_str()) {
            proof {
                assert(pairs_view(a@)[i as int] != pairs_view(b@)[i as int]);
            }
            return false;
        }
        i += 1;
    }
    assert(pairs_view(a@) =~= pairs_view(b@));
    true
}

fn relations_eq(a: &Vec<SystemRelationship>, b: &Vec<SystemRelationship>) -> (r: bool)
    ensures
        r == (relations_view(a@) == relations_view(b@)),
{
    if a.len() != b.len() {
        proof {
            assert(relations_view(a@).len() != relations_view(b@).len());
        }
        return false;
    }
    let mut i: usize = 0;
    while i < a.len()
        invariant
            i <= a@.len() == b@.len(),
            forall|k: int| 0 <= k < i ==> relation_view(a@[k]) == relation_view(b@[k]),
        decreases a.len() - i,
    {
        let x = &a[i];
        let y = &b[i];
        if !(str_eq(x.source_id.as_str(), y.source_id.as_str()) && str_eq(
            x.target_id.as_str(),
            y.target_id.as_str(),
        ) && x.kind == y.kind && x.verified == y.verified) {
            proof {
                assert(relations_view(a@)[i as int] != relations_view(b@)[i as int]);
            }
            return false;
        }
        i += 1;
    }
    assert(relations_view(a@) =~= relations_view(b@));
    true
}

fn assets_materially_equal(a: &SystemAsset, b: &SystemAsset) -> (r: bool)
    ensures
        r == materially_equal(*a, *b),
{
    str_eq(a.id.as_str(), b.id.as_str()) && str_eq(a.name.as_str(), b.name.as_str()) && a.category
        == b.category && a.kind == b.kind && opt_text_eq(&a.location, &b.location) && opt_text_eq(
        &a.version,
        &b.version,
    ) && opt_text_eq(&a.architecture, &b.architecture) && a.health == b.health && texts_eq(
        &a.capabilities,
        &b.capabilities,
    ) && pairs_eq(&a.metadata, &b.metadata)
}

/// The identifiers of the assets, in order.
pub open spec fn asset_ids(s: Seq<SystemAsset>) -> Seq<Seq<char>> {
    Seq::new(s.len(), |i: int| s[i].id@)
}

/// The assets by identifier, in identifier order; a later asset replaces an
/// earlier one with the same identifier.
pub open spec fn asset_index(s: Seq<SystemAsset>) -> Seq<SystemAsset>
    decreases s.len(),
{
    if s.len() == 0 {
        Seq::empty()
    } else {
        let before = asset_index(s.drop_last());
        crate::models::stored_at(before, asset_ids(before), s.last().id@, s.last())
    }
}

/// The identifiers of `next` that `prev_ids` lacks, in order.
pub open spec fn ids_not_in(next: Seq<Seq<char>>, prev_ids: Seq<Seq<char>>) -> Seq<Seq<char>>
    decreases next.len(),
{
    if next.len() == 0 {
        Seq::empty()
    } else if crate::models::key_pos(prev_ids, next.last()) < 0 {
        ids_not_in(next.drop_last(), prev_ids).push(next.last())
    } else {
        ids_not_in(next.drop_last(), prev_ids)
    }
}

/// The identifiers of `next` whose asset in `prev` says something else.
pub open spec fn changed_ids(next: Seq<SystemAsset>, prev: Seq<SystemAsset>) -> Seq<Seq<char>>
    decreases next.len(),
{
    if next.len() == 0 {
        Seq::empty()
    } else {
        let p = crate::models::key_pos(asset_ids(prev), next.last().id@);
        if p >= 0 && !materially_equal(prev[p], next.last()) {
            changed_ids(next.drop_last(), prev).push(next.last().id@)
        } else {
            changed_ids(next.drop_last(), prev)
        }
    }
}

/// The views of asset identifiers.
pub open spec fn id_views(v: Seq<SystemAssetId>) -> Seq<Seq<char>> {
    Seq::new(v.len(), |i: int| v[i]@)
}

/// The change from `previous` (none before the first scan) to `next`.
pub open spec fn delta_of(previous: Option<EnvironmentSnapshot>, next: EnvironmentSnapshot, d: EnvironmentDelta) -> bool {
    let prev = match previous {
        Some(p) => asset_index(p.assets@),
        None => Seq::empty(),
    };
    let nxt = asset_index(next.assets@);
    &&& id_views(d.added@) == ids_not_in(asset_ids(nxt), asset_ids(prev))
    &&& id_views(d.removed@) == ids_not_in(asset_ids(prev), asset_ids(nxt))
    &&& id_views(d.updated@) == changed_ids(nxt, prev)
    &&& d.relationships_changed == match previous {
        Some(p) => relations_view(p.relationships@) != relations_view(next.relationships@),
        None => next.relationships@.len() > 0,
    }
}

/// The assets at the given positions.
pub open spec fn picked(s: Seq<SystemAsset>, idx: Seq<usize>) -> Seq<SystemAsset> {
    Seq::new(idx.len(), |i: int| s[idx[i] as int])
}

/// The positions of the assets of `asset_index`, in identifier order.
fn index_of(assets: &Vec<SystemAsset>) -> (idx: Vec<usize>)
    ensures
        forall|i: int| 0 <= i < idx@.len() ==> (#[trigger] idx@[i]) < assets@.len(),
        picked(assets@, idx@) == asset_index(assets@),
        crate::order::keys_sorted(asset_ids(asset_index(assets@))),
{
    let mut idx: Vec<usize> = Vec::new();
    let mut k: usize = 0;
    while k < assets.len()
        invariant
            k <= assets@.len(),
            forall|i: int| 0 <= i < idx@.len() ==> (#[trigger] idx@[i]) < k,
            picked(assets@, idx@) == asset_index(assets@.take(k as int)),
            crate::order::keys_sorted(asset_ids(picked(assets@, idx@))),
        decreases assets.len() - k,
    {
        let ghost before = picked(assets@, idx@);
        let ghost keys = asset_ids(before);
        let id = assets[k].id.as_str();
        let mut p: usize = 0;
        while p < idx.len() && crate::order::text_less(assets[idx[p]].id.as_str(), id)
            invariant
                p <= idx@.len(),
                forall|i: int| 0 <= i < idx@.len() ==> (#[trigger] idx@[i]) < k,
                k < assets@.len(),
                before == picked(assets@, idx@),
                keys == asset_ids(before),
                id@ == assets@[k as int].id@,
                forall|j: int| 0 <= j < p ==> crate::order::text_lt(#[trigger] keys[j], id@),
            decreases idx.len() - p,
        {
            p += 1;
        }
        let found = p < idx.len() && str_eq(assets[idx[p]].id.as_str(), id);
        proof {
            crate::models::lemma_sorted_lookup(keys, id@, p as int);
            assert(assets@.take(k + 1).drop_last() =~= assets@.take(k as int));
            assert(assets@.take(k + 1).last() == assets@[k as int]);
        }
        if found {
            proof {
                crate::seqs::lemma_first_pos(keys, crate::models::key_is(id@));
            }
            idx.set(p, k);
            proof {
                assert(picked(assets@, idx@) =~= before.update(p as int, assets@[k as int]));
                assert(asset_ids(picked(assets@, idx@)) =~= keys);
            }
        } else {
            idx.insert(p, k);
            proof {
                assert(picked(assets@, idx@) =~= before.insert(p as int, assets@[k as int]));
                crate::models::lemma_sorted_insert(keys, id@, p as int);
                assert(asset_ids(picked(assets@, idx@)) =~= keys.insert(p as int, id@));
            }
        }
        k += 1;
    }
    assert(assets@.take(assets@.len() as int) =~= assets@);
    idx
}

/// The position of the asset with this identifier among the picked ones.
fn find_picked(assets: &Vec<SystemAsset>, idx: &Vec<usize>, id: &str) -> (r: Option<usize>)
    requires
        forall|i: int| 0 <= i < idx@.len() ==> (#[trigger] idx@[i]) < assets@.len(),
    ensures
        match r {
            Some(p) => p < idx@.len() && p as int == crate::models::key_pos(
                asset_ids(picked(assets@, idx@)),
                id@,
            ),
            None => crate::models::key_pos(asset_ids(picked(assets@, idx@)), id@) < 0,
        },
{
    let ghost keys = asset_ids(picked(assets@, idx@));
    let ghost q = crate::models::key_is(id@);
    let mut p: usize = 0;
    while p < idx.len()
        invariant
            p <= idx@.len(),
            forall|i: int| 0 <= i < idx@.len() ==> (#[trigger] idx@[i]) < assets@.len(),
            keys == asset_ids(picked(assets@, idx@)),
            q == crate::models::key_is(id@),
            forall|j: int| 0 <= j < p ==> !q(#[trigger] keys[j]),
        decreases idx.len() - p,
    {
        if str_eq(assets[idx[p]].id.as_str(), id) {
            proof {
                crate::seqs::lemma_first_pos_is(keys, q, p as int);
            }
            return Some(p);
        }
        p += 1;
    }
    proof {
        crate::seqs::lemma_first_pos_is(keys, q, -1);
    }
    None
}

/// The identifiers of the picked assets of `a` that the picked assets of
/// `b` lack, in order.
fn missing_ids(a: &Vec<SystemAsset>, ai: &Vec<usize>, b: &Vec<SystemAsset>, bi: &Vec<usize>) -> (r: Vec<SystemAssetId>)
    requires
        forall|i: int| 0 <= i < ai@.len() ==> (#[trigger] ai@[i]) < a@.len(),
        forall|i: int| 0 <= i < bi@.len() ==> (#[trigger] bi@[i]) < b@.len(),
    ensures
        id_views(r@) == ids_not_in(asset_ids(picked(a@, ai@)), asset_ids(picked(b@, bi@))),
{
    let ghost na = asset_ids(picked(a@, ai@));
    let ghost nb = asset_ids(picked(b@, bi@));
    let mut r: Vec<SystemAssetId> = Vec::new();
    let mut j: usize = 0;
    while j < ai.len()
        invariant
            j <= ai@.len(),
            forall|i: int| 0 <= i < ai@.len() ==> (#[trigger] ai@[i]) < a@.len(),
            forall|i: int| 0 <= i < bi@.len() ==> (#[trigger] bi@[i]) < b@.len(),
            na == asset_ids(picked(a@, ai@)),
            nb == asset_ids(picked(b@, bi@)),
            id_views(r@) == ids_not_in(na.take(j as int), nb),
        decreases ai.len() - j,
    {
        let x = &a[ai[j]];
        proof {
            assert(na.take(j + 1).drop_last() =~= na.take(j as int));
            assert(na.take(j + 1).last() == x.id@);
        }
        if find_picked(b, bi, x.id.as_str()).is_none() {
            r.push(x.id.clone());
            proof {
                assert(id_views(r@) =~= ids_not_in(na.take(j as int), nb).push(x.id@));
            }
        }
        j += 1;
    }
    assert(na.take(ai@.len() as int) =~= na);
    r
}

/// The change from `previous` (none before the first scan) to `next`.
pub fn diff_snapshots(previous: Option<&EnvironmentSnapshot>, next: &EnvironmentSnapshot) -> (d: EnvironmentDelta)
    ensures
        delta_of(
            match previous {
                Some(p) => Some(*p),
                None => None,
            },
            *next,
            d,
        ),
{
    let empty: Vec<SystemAsset> = Vec::new();
    let prev_assets: &Vec<SystemAsset> = match previous {
        Some(p) => &p.assets,
        None => &empty,
    };
    let pi = index_of(prev_assets);
    let ni = index_of(&next.assets);
    proof {
        assert(asset_index(empty@) =~= Seq::<SystemAsset>::empty());
    }
    let added = missing_ids(&next.assets, &ni, prev_assets, &pi);
    let removed = missing_ids(prev_assets, &pi, &next.assets, &ni);
    let ghost prev = picked(prev_assets@, pi@);
    let ghost nxt = picked(next.assets@, ni@);
    let mut updated: Vec<SystemAssetId> = Vec::new();
    let mut j: usize = 0;
    while j < ni.len()
        invariant
            j <= ni@.len(),
            forall|i: int| 0 <= i < ni@.len() ==> (#[trigger] ni@[i]) < next.assets@.len(),
            forall|i: int| 0 <= i < pi@.len() ==> (#[trigger] pi@[i]) < prev_assets@.len(),
            prev == picked(prev_assets@, pi@),
            nxt == picked(next.assets@, ni@),
            id_views(updated@) == changed_ids(nxt.take(j as int), prev),
        decreases ni.len() - j,
    {
        let x = &next.assets[ni[j]];
        proof {
            assert(nxt.take(j + 1).drop_last() =~= nxt.take(j as int));
            assert(nxt.take(j + 1).last() == *x);
        }
        match find_picked(prev_assets, &pi, x.id.as_str()) {
            Some(p) => {
                proof {
                    assert(prev[p as int] == prev_assets@[pi@[p as int] as int]);
                }
                if !assets_materially_equal(&prev_assets[pi[p]], x) {
                    updated.push(x.id.clone());
                    proof {
                        assert(id_views(updated@) =~= changed_ids(nxt.take(j as int), prev).push(x.id@));
                    }
                }
            },
            None => {},
        }
        j += 1;
    }
    assert(nxt.take(ni@.len() as int) =~= nxt);
    let relationships_changed = match previous {
        Some(p) => !relations_eq(&p.relationships, &next.relationships),
        None => next.relationships.len() > 0,
    };
    EnvironmentDelta { added, updated, removed, relationships_changed }
}

} // verus!

verus! {

/// The last snapshot, kept so the next scan can report what changed. The
/// application stores it on disk.
#[derive(Debug)]
pub struct PersistentEnvironmentIndex {
    snapshot: Option<EnvironmentSnapshot>,
}

impl PersistentEnvironmentIndex {
    pub closed spec fn stored(&self) -> Option<EnvironmentSnapshot> {
        self.snapshot
    }

    /// The index a persisted document describes; a document of another
    /// schema is refused.
    pub fn from_document(schema_version: u32, snapshot: Option<EnvironmentSnapshot>) -> (r: Result<
        PersistentEnvironmentIndex,
        EnvironmentError,
    >)
        ensures
            schema_version != ENVIRONMENT_INDEX_SCHEMA_VERSION ==> r == Err::<
                PersistentEnvironmentIndex,
                EnvironmentError,
            >(EnvironmentError::UnsupportedSchema(schema_version)),
            schema_version == ENVIRONMENT_INDEX_SCHEMA_VERSION ==> (r matches Ok(i) && i.stored()
                == snapshot),
    {
        if schema_version != ENVIRONMENT_INDEX_SCHEMA_VERSION {
            return Err(EnvironmentError::UnsupportedSchema(schema_version));
        }
        Ok(PersistentEnvironmentIndex { snapshot })
    }

    /// An index with no snapshot yet.
    pub fn empty() -> (i: PersistentEnvironmentIndex)
        ensures
            i.stored() is None,
    {
        PersistentEnvironmentIndex { snapshot: None }
    }

    /// The last snapshot.
    pub fn current(&self) -> (r: Option<&EnvironmentSnapshot>)
        ensures
            match self.stored() {
                Some(s) => r == Some(&s),
                None => r is None,
            },
    {
        match &self.snapshot {
            Some(s) => Some(s),
            None => None,
        }
    }

    /// Keeps a new snapshot and reports what changed since the last one.
    pub fn update(&mut self, snapshot: EnvironmentSnapshot) -> (d: EnvironmentDelta)
        ensures
            delta_of(old(self).stored(), snapshot, d),
            final(self).stored() == Some(snapshot),
    {
        let d = diff_snapshots(self.snapshot.as_ref(), &snapshot);
        self.snapshot = Some(snapshot);
        d
    }
}

/// Whether `q` (lowercase) appears in an asset's name, location or a
/// capability, each in Unicode lowercase.
pub open spec fn asset_matches(a: SystemAsset, q: Seq<char>) -> bool {
    ||| crate::text::seq_contains(crate::platform::unicode_lowercase(a.name@), q)
    ||| crate::text::seq_contains(
        crate::platform::unicode_lowercase(
            match a.location {
                Some(l) => l@,
                None => Seq::empty(),
            },
        ),
        q,
    )
    ||| exists|i: int|
        0 <= i < a.capabilities@.len() && crate::text::seq_contains(
            crate::platform::unicode_lowercase((#[trigger] a.capabilities@[i])@),
            q,
        )
}

/// The assets a search finds, in order.
pub open spec fn found_assets(s: Seq<SystemAsset>, q: Seq<char>) -> Seq<SystemAsset>
    decreases s.len(),
{
    if s.len() == 0 {
        Seq::empty()
    } else if asset_matches(s.last(), q) {
        found_assets(s.drop_last(), q).push(s.last())
    } else {
        found_assets(s.drop_last(), q)
    }
}

fn capability_matches(a: &SystemAsset, q: &str) -> (b: bool)
    ensures
        b == exists|i: int|
            0 <= i < a.capabilities@.len() && crate::text::seq_contains(
                crate::platform::unicode_lowercase((#[trigger] a.capabilities@[i])@),
                q@,
            ),
{
    let mut i: usize = 0;
    while i < a.capabilities.len()
        invariant
            i <= a.capabilities@.len(),
            forall|k: int|
                0 <= k < i ==> !crate::text::seq_contains(
                    crate::platform::unicode_lowercase((#[trigger] a.capabilities@[k])@),
                    q@,
                ),
        decreases a.capabilities.len() - i,
    {
        if crate::text::contains(crate::platform::lowercase(a.capabilities[i].as_str()).as_str(), q) {
            return true;
        }
        i += 1;
    }
    false
}

impl EnvironmentSnapshot {
    /// The assets whose name, location or capabilities mention the query
    /// (trimmed, in Unicode lowercase); every asset for a blank query.
    pub fn search(&self, query: &str) -> (r: Vec<&SystemAsset>)
        ensures
            ({
                let q = crate::platform::unicode_lowercase(crate::text::trim_seq(query@));
                let want = if q.len() == 0 {
                    self.assets@
                } else {
                    found_assets(self.assets@, q)
                };
                &&& r@.len() == want.len()
                &&& forall|i: int| 0 <= i < r@.len() ==> *(#[trigger] r@[i]) == want[i]
            }),
    {
        let q = crate::platform::lowercase(crate::text::trim(query).as_str());
        let all = q.as_str().unicode_len() == 0;
        let mut r: Vec<&SystemAsset> = Vec::new();
        let mut i: usize = 0;
        while i < self.assets.len()
            invariant
                i <= self.assets@.len(),
                q@ == crate::platform::unicode_lowercase(crate::text::trim_seq(query@)),
                all == (q@.len() == 0),
                all ==> r@.len() == i && forall|k: int| 0 <= k < i ==> *(#[trigger] r@[k]) == self.assets@[k],
                !all ==> r@.len() == found_assets(self.assets@.take(i as int), q@).len() && forall|k: int|
                    0 <= k < r@.len() ==> *(#[trigger] r@[k]) == found_assets(self.assets@.take(i as int), q@)[k],
            decreases self.assets.len() - i,
        {
            let a = &self.assets[i];
            proof {
                assert(self.assets@.take(i + 1).drop_last() =~= self.assets@.take(i as int));
            }
            if all {
                r.push(a);
            } else {
                let location: &str = match &a.location {
                    Some(l) => l.as_str(),
                    None => "",
                };
                proof {
                    reveal_strlit("");
                    assert(location@ =~= match a.location {
                        Some(l) => l@,
                        None => Seq::<char>::empty(),
                    });
                }
                let hit = crate::text::contains(crate::platform::lowercase(a.name.as_str()).as_str(), q.as_str())
                    || crate::text::contains(crate::platform::lowercase(location).as_str(), q.as_str())
                    || capability_matches(a, q.as_str());
                assert(hit == asset_matches(*a, q@));
                if hit {
                    r.push(a);
                }
            }
            i += 1;
        }
        assert(self.assets@.take(self.assets@.len() as int) =~= self.assets@);
        r
    }
}

} // verus!

verus! {

/// A tool looked for on the search path: its name, what it is, the file
/// names it goes by and the capabilities it provides.
#[derive(Debug, Clone, PartialEq, Eq)]
pub struct ToolDetector {
    pub name: &'static str,
    pub category: AssetCategory,
    pub kind: AssetKind,
    pub executable_names: Vec<&'static str>,
    pub capabilities: Vec<&'static str>,
}

impl ToolDetector {
    pub fn new(
        name: &'static str,
        category: AssetCategory,
        kind: AssetKind,
        executable_names: Vec<&'static str>,
        capabilities: Vec<&'static str>,
    ) -> (d: ToolDetector)
        ensures
            d == (ToolDetector { name, category, kind, executable_names, capabilities }),
    {
        ToolDetector { name, category, kind, executable_names, capabilities }
    }
}

fn strs2(a: &'static str, b: &'static str) -> (v: Vec<&'static str>)
    ensures
        v@ == seq![a, b],
{
    let mut v: Vec<&'static str> = Vec::new();
    v.push(a);
    v.push(b);
    v
}

fn strs1(a: &'static str) -> (v: Vec<&'static str>)
    ensures
        v@ == seq![a],
{
    let mut v: Vec<&'static str> = Vec::new();
    v.push(a);
    v
}

fn strs4(a: &'static str, b: &'static str, c: &'static str, d: &'static str) -> (v: Vec<&'static str>)
    ensures
        v@ == seq![a, b, c, d],
{
    let mut v: Vec<&'static str> = Vec::new();
    v.push(a);
    v.push(b);
    v.push(c);
    v.push(d);
    v
}

/// The names of the tools looked for by default, in order.
pub open spec fn default_tool_names() -> Seq<Seq<char>> {
    seq![
        "Python"@,
        "Node.js"@,
        "Rust"@,
        "Cargo"@,
        "Git"@,
        "Docker"@,
        "Ollama"@,
        "Visual Studio Code"@,
        "ffmpeg"@,
        "Blender"@,
        "PostgreSQL Client"@,
    ]
}

/// The tools looked for by default: language runtimes and toolchains,
/// version control, containers, the local model runtime, an editor, media
/// and 3D tools, and the PostgreSQL client. Each goes by its file name with
/// and without ".exe".
pub fn default_detectors() -> (v: Vec<ToolDetector>)
    ensures
        v@.len() == 11,
        forall|i: int| 0 <= i < 11 ==> (#[trigger] v@[i]).name@ == default_tool_names()[i],
        v@[0].category == AssetCategory::Developer && v@[0].kind == AssetKind::Runtime,
        v@[0].executable_names@ == seq!["python.exe", "python3.exe", "python", "python3"],
        v@[5].category == AssetCategory::Runtime,
        v@[6].category == AssetCategory::Ai && v@[6].executable_names@ == seq!["ollama.exe", "ollama"],
        v@[6].capabilities@ == seq!["ai.local_inference"],
        v@[10].category == AssetCategory::Database,
{
    let mut v: Vec<ToolDetector> = Vec::new();
    v.push(ToolDetector::new("Python", AssetCategory::Developer, AssetKind::Runtime,
        strs4("python.exe", "python3.exe", "python", "python3"),
        strs2("development.python", "runtime.python")));
    v.push(ToolDetector::new("Node.js", AssetCategory::Developer, AssetKind::Runtime,
        strs2("node.exe", "node"), strs2("development.javascript", "runtime.nodejs")));
    v.push(ToolDetector::new("Rust", AssetCategory::Developer, AssetKind::Sdk,
        strs2("rustc.exe", "rustc"), strs1("development.rust")));
    v.push(ToolDetector::new("Cargo", AssetCategory::Developer, AssetKind::Executable,
        strs2("cargo.exe", "cargo"), strs1("development.rust.package_management")));
    v.push(ToolDetector::new("Git", AssetCategory::Developer, AssetKind::Executable,
        strs2("git.exe", "git"), strs1("development.version_control")));
    v.push(ToolDetector::new("Docker", AssetCategory::Runtime, AssetKind::Runtime,
        strs2("docker.exe", "docker"), strs1("runtime.containers")));
    v.push(ToolDetector::new("Ollama", AssetCategory::Ai, AssetKind::Runtime,
        strs2("ollama.exe", "ollama"), strs1("ai.local_inference")));
    v.push(ToolDetector::new("Visual Studio Code", AssetCategory::Developer, AssetKind::Application,
        strs2("code.exe", "code"), strs1("development.source_editing")));
    v.push(ToolDetector::new("ffmpeg", AssetCategory::Creator, AssetKind::Executable,
        strs2("ffmpeg.exe", "ffmpeg"), strs2("creator.media_conversion", "creator.transcoding")));
    v.push(ToolDetector::new("Blender", AssetCategory::Creator, AssetKind::Application,
        strs2("blender.exe", "blender"), strs2("creator.3d_modeling", "creator.rendering")));
    v.push(ToolDetector::new("PostgreSQL Client", AssetCategory::Database, AssetKind::Executable,
        strs2("psql.exe", "psql"), strs1("database.postgresql.client")));
    proof {
        assert forall|i: int| 0 <= i < 11 implies (#[trigger] v@[i]).name@ == default_tool_names()[i] by {}
    }
    v
}

} // verus!

verus! {

/// A file the application found on the search path: which detector looked
/// for it, and its resolved location.
#[derive(Debug, Clone, PartialEq, Eq)]
pub struct ScanHit {
    pub detector: usize,
    pub resolved: String,
}

/// The form a found path is compared in: forward slashes, lowercase on Windows.
pub open spec fn scan_path_form(p: Seq<char>, windows: bool) -> Seq<char> {
    let t = crate::text::replace_char_seq(p, '\\', '/');
    if windows {
        crate::platform::unicode_lowercase(t)
    } else {
        t
    }
}

fn normalize_path(p: &str, windows: bool) -> (r: String)
    ensures
        r@ == scan_path_form(p@, windows),
{
    let t = crate::text::replace_char(p, '\\', '/');
    if windows {
        crate::platform::lowercase(t.as_str())
    } else {
        t
    }
}

/// The hits kept: the first for each location in comparison form.
pub open spec fn kept_hits(h: Seq<ScanHit>, windows: bool) -> Seq<ScanHit>
    decreases h.len(),
{
    if h.len() == 0 {
        Seq::empty()
    } else {
        let k = kept_hits(h.drop_last(), windows);
        if exists|i: int|
            0 <= i < k.len() && scan_path_form((#[trigger] k[i]).resolved@, windows) == scan_path_form(
                h.last().resolved@,
                windows,
            ) {
            k
        } else {
            k.push(h.last())
        }
    }
}

/// `a` is the asset of hit `h` found by detector `d` at `now`.
#[verifier::opaque]
pub open spec fn asset_of(a: SystemAsset, d: ToolDetector, h: ScanHit, now: Timestamp, windows: bool) -> bool {
    &&& a.id@ == "executable:"@ + scan_path_form(h.resolved@, windows)
    &&& a.name@ == d.name@
    &&& a.category == d.category && a.kind == d.kind
    &&& a.location == Some(h.resolved)
    &&& a.version is None && a.architecture is None
    &&& a.health == HealthState::Ready
    &&& a.capabilities@.len() == d.capabilities@.len()
    &&& forall|i: int| 0 <= i < d.capabilities@.len() ==> (#[trigger] a.capabilities@[i])@ == d.capabilities@[i]@
    &&& a.evidence@.len() == 1
    &&& a.evidence@[0].source@ == "path_scan"@
    &&& a.evidence@[0].locator == h.resolved
    &&& a.evidence@[0].observed_at == now
    &&& a.evidence@[0].content_hash is None
    &&& a.evidence@[0].metadata@.len() == 0
    &&& a.observed_at == now
    &&& a.metadata@.len() == 0
}

/// The relationships of a found asset: it provides each capability.
pub open spec fn provides(id: Seq<char>, caps: Seq<&'static str>) -> Seq<(Seq<char>, Seq<char>, RelationshipKind, bool)> {
    Seq::new(caps.len(), |i: int| (id, "capability:"@ + caps[i]@, RelationshipKind::Provides, true))
}

/// The relationships of all kept hits, in order.
pub open spec fn scan_relations(k: Seq<ScanHit>, detectors: Seq<ToolDetector>, windows: bool) -> Seq<
    (Seq<char>, Seq<char>, RelationshipKind, bool),
>
    decreases k.len(),
{
    if k.len() == 0 {
        Seq::empty()
    } else {
        scan_relations(k.drop_last(), detectors, windows) + provides(
            "executable:"@ + scan_path_form(k.last().resolved@, windows),
            detectors[k.last().detector as int].capabilities@,
        )
    }
}

fn ranks_before_asset(a: &SystemAsset, b: &SystemAsset) -> (r: bool)
    ensures
        r == asset_order(*a, *b),
{
    crate::order::text_less(a.name.as_str(), b.name.as_str()) || (str_eq(a.name.as_str(), b.name.as_str())
        && crate::order::text_less(a.id.as_str(), b.id.as_str()))
}

/// The order of assets in a snapshot: by name, then by identifier.
pub open spec fn asset_order(a: SystemAsset, b: SystemAsset) -> bool {
    crate::provider::ref_lt((a.name@, a.id@), (b.name@, b.id@))
}

proof fn lemma_asset_insert(s: Seq<SystemAsset>, c: SystemAsset, p: int)
    requires
        0 <= p <= s.len(),
        forall|a: int, b: int| 0 <= a < b < s.len() ==> asset_order(#[trigger] s[a], #[trigger] s[b]),
        forall|a: int| 0 <= a < s.len() ==> (#[trigger] s[a]).id@ != c.id@,
        forall|a: int| 0 <= a < p ==> !asset_order(c, #[trigger] s[a]),
        p < s.len() ==> asset_order(c, s[p]),
    ensures
        forall|a: int, b: int|
            0 <= a < b < s.insert(p, c).len() ==> asset_order(#[trigger] s.insert(p, c)[a], #[trigger] s.insert(p, c)[b]),
{
    let n = s.insert(p, c);
    let kc = (c.name@, c.id@);
    assert forall|a: int, b: int| 0 <= a < b < n.len() implies asset_order(#[trigger] n[a], #[trigger] n[b]) by {
        if b < p {
            assert(n[a] == s[a] && n[b] == s[b]);
        } else if b == p {
            assert(n[a] == s[a]);
            crate::provider::lemma_ref_order((s[a].name@, s[a].id@), kc, kc);
        } else if a < p {
            assert(n[a] == s[a] && n[b] == s[b - 1]);
            let ka = (s[a].name@, s[a].id@);
            crate::provider::lemma_ref_order(ka, kc, kc);
            crate::provider::lemma_ref_order(kc, (s[p].name@, s[p].id@), (s[b - 1].name@, s[b - 1].id@));
            crate::provider::lemma_ref_order(ka, kc, (s[b - 1].name@, s[b - 1].id@));
        } else if a == p {
            assert(n[b] == s[b - 1]);
            if b - 1 > p {
                crate::provider::lemma_ref_order(kc, (s[p].name@, s[p].id@), (s[b - 1].name@, s[b - 1].id@));
            }
        } else {
            assert(n[a] == s[a - 1] && n[b] == s[b - 1]);
        }
    }
}

/// The asset was made from one of the kept hits.
#[verifier::opaque]
pub open spec fn from_kept(x: SystemAsset, k: Seq<ScanHit>, ds: Seq<ToolDetector>, now: Timestamp, windows: bool) -> bool {
    exists|y: int| #![trigger k[y]] 0 <= y < k.len() && asset_of(x, ds[k[y].detector as int], k[y], now, windows)
}

/// Some asset was made from hit `h`.
#[verifier::opaque]
pub open spec fn has_asset(s: Seq<SystemAsset>, h: ScanHit, ds: Seq<ToolDetector>, now: Timestamp, windows: bool) -> bool {
    exists|a: int| #![trigger s[a]] 0 <= a < s.len() && asset_of(s[a], ds[h.detector as int], h, now, windows)
}

/// The asset's identifier names a location already seen.
#[verifier::opaque]
pub open spec fn id_seen(x: SystemAsset, seen: Seq<String>) -> bool {
    exists|y: int| #![trigger seen[y]] 0 <= y < seen.len() && x.id@ == "executable:"@ + seen[y]@
}

/// The non-empty roots, in order.
pub open spec fn nonempty_roots(r: Seq<String>) -> Seq<Seq<char>>
    decreases r.len(),
{
    if r.len() == 0 {
        Seq::empty()
    } else if r.last()@.len() == 0 {
        nonempty_roots(r.drop_last())
    } else {
        nonempty_roots(r.drop_last()).push(r.last()@)
    }
}

fn one_evidence(resolved: &String, now: Timestamp) -> (v: Vec<EvidenceRef>)
    ensures
        v@.len() == 1,
        v@[0].source@ == "path_scan"@,
        v@[0].locator == *resolved,
        v@[0].observed_at == now,
        v@[0].content_hash is None,
        v@[0].metadata@.len() == 0,
{
    let mut v: Vec<EvidenceRef> = Vec::new();
    v.push(
        EvidenceRef {
            source: owned("path_scan"),
            locator: resolved.clone(),
            observed_at: now,
            content_hash: None,
            metadata: Vec::new(),
        },
    );
    v
}

/// The scanner, with the tools it looks for.
#[derive(Debug, Clone)]
pub struct EnvironmentScanner {
    pub detectors: Vec<ToolDetector>,
}

impl Default for EnvironmentScanner {
    fn default() -> (s: Self)
        ensures
            s.detectors@.len() == 11,
    {
        EnvironmentScanner { detectors: default_detectors() }
    }
}

impl EnvironmentScanner {
    pub fn new(detectors: Vec<ToolDetector>) -> (s: EnvironmentScanner)
        ensures
            s.detectors == detectors,
    {
        EnvironmentScanner { detectors }
    }

    /// The snapshot of a search-path scan at `now` from the roots searched
    /// and the files found there (in detector, root and file-name order):
    /// one ready asset per location, with its evidence and the capabilities
    /// it provides; assets by name, then identifier. No non-empty root is an
    /// error.
    pub fn scan_found(&self, roots: &Vec<String>, hits: &Vec<ScanHit>, now: Timestamp, windows: bool) -> (r:
        Result<EnvironmentSnapshot, EnvironmentError>)
        requires
            forall|i: int| 0 <= i < hits@.len() ==> (#[trigger] hits@[i]).detector < self.detectors@.len(),
        ensures
            nonempty_roots(roots@).len() == 0 ==> r == Err::<EnvironmentSnapshot, EnvironmentError>(
                EnvironmentError::EmptySearchPath,
            ),
            nonempty_roots(roots@).len() > 0 ==> (r matches Ok(s) && {
                let k = kept_hits(hits@, windows);
                &&& s.scanned_at == now
                &&& crate::text::views_of(s.roots_scanned@) == nonempty_roots(roots@)
                &&& relations_view(s.relationships@) == scan_relations(k, self.detectors@, windows)
                &&& s.assets@.len() == k.len()
                &&& forall|a: int, b: int| 0 <= a < b < s.assets@.len() ==> asset_order(#[trigger] s.assets@[a], #[trigger] s.assets@[b])
                &&& forall|a: int| 0 <= a < s.assets@.len() ==> from_kept(#[trigger] s.assets@[a], k, self.detectors@, now, windows)
                &&& forall|j: int| 0 <= j < k.len() ==> has_asset(s.assets@, #[trigger] k[j], self.detectors@, now, windows)
            }),
    {
        let mut roots_scanned: Vec<String> = Vec::new();
        let mut i: usize = 0;
        while i < roots.len()
            invariant
                i <= roots@.len(),
                crate::text::views_of(roots_scanned@) == nonempty_roots(roots@.take(i as int)),
            decreases roots.len() - i,
        {
            proof {
                assert(roots@.take(i + 1).drop_last() =~= roots@.take(i as int));
            }
            if roots[i].as_str().unicode_len() > 0 {
                proof {
                    crate::text::lemma_views_push(roots_scanned@, roots@[i as int]);
                }
                roots_scanned.push(roots[i].clone());
            }
            i += 1;
        }
        assert(roots@.take(roots@.len() as int) =~= roots@);
        if roots_scanned.len() == 0 {
            return Err(EnvironmentError::EmptySearchPath);
        }
        let ghost ds = self.detectors@;
        let mut seen: Vec<String> = Vec::new();
        let mut assets: Vec<SystemAsset> = Vec::new();
        let mut relationships: Vec<SystemRelationship> = Vec::new();
        let ghost mut kept: Seq<ScanHit> = Seq::empty();
        proof {
            reveal(scan_state);
            assert(hits@.take(0) =~= Seq::<ScanHit>::empty());
            assert(relations_view(relationships@) =~= Seq::empty());
        }
        let mut j: usize = 0;
        while j < hits.len()
            invariant
                j <= hits@.len(),
                ds == self.detectors@,
                forall|x: int| 0 <= x < hits@.len() ==> (#[trigger] hits@[x]).detector < ds.len(),
                kept == kept_hits(hits@.take(j as int), windows),
                scan_state(seen@, assets@, relationships@, kept, ds, now, windows),
            decreases hits.len() - j,
        {
            let h = &hits[j];
            let normalized = normalize_path(h.resolved.as_str(), windows);
            proof {
                assert(hits@.take(j + 1).drop_last() =~= hits@.take(j as int));
                assert(hits@.take(j + 1).last() == *h);
                reveal(scan_state);
            }
            let dup = find_seen(&seen, &normalized);
            proof {
                if dup {
                    let x = choose|x: int| 0 <= x < seen@.len() && (#[trigger] seen@[x])@ == normalized@;
                    assert(scan_path_form(kept[x].resolved@, windows) == scan_path_form(h.resolved@, windows));
                } else {
                    assert forall|x: int| 0 <= x < kept.len() implies scan_path_form((#[trigger] kept[x]).resolved@, windows) != scan_path_form(h.resolved@, windows) by {
                        assert(seen@[x]@ != normalized@);
                    }
                }
            }
            if !dup {
                let ghost new_kept = kept.push(*h);
                self.add_hit(h, normalized, now, windows, &mut seen, &mut assets, &mut relationships, Ghost(kept));
                proof {
                    kept = new_kept;
                }
            }
            j += 1;
        }
        assert(hits@.take(hits@.len() as int) =~= hits@);
        proof {
            reveal(scan_state);
        }
        Ok(EnvironmentSnapshot { scanned_at: now, roots_scanned, assets, relationships })
    }

    /// Adds the asset of a hit at a location not seen before.
    #[verifier::spinoff_prover]
    #[verifier::rlimit(50)]
    fn add_hit(
        &self,
        h: &ScanHit,
        normalized: String,
        now: Timestamp,
        windows: bool,
        seen: &mut Vec<String>,
        assets: &mut Vec<SystemAsset>,
        relationships: &mut Vec<SystemRelationship>,
        Ghost(kept): Ghost<Seq<ScanHit>>,
    )
        requires
            h.detector < self.detectors@.len(),
            normalized@ == scan_path_form(h.resolved@, windows),
            scan_state(old(seen)@, old(assets)@, old(relationships)@, kept, self.detectors@, now, windows),
            forall|x: int| 0 <= x < old(seen)@.len() ==> (#[trigger] old(seen)@[x])@ != normalized@,
        ensures
            scan_state(final(seen)@, final(assets)@, final(relationships)@, kept.push(*h), self.detectors@, now, windows),
    {
        let ghost ds = self.detectors@;
        proof {
            reveal(scan_state);
        }
        let d = &self.detectors[h.detector];
        let id_text = crate::text::concat2("executable:", normalized.as_str());
        proof {
            reveal_strlit("executable:");
            assert(id_text@[0] == 'e');
            assert(!crate::text::is_ws(id_text@[0]));
        }
        let id = match SystemAssetId::new(id_text.as_str()) {
            Ok(id) => id,
            Err(_) => {
                proof {
                    assert(false);
                }
                return;
            },
        };
        let ghost rel0 = relationships@;
        let mut capabilities: Vec<String> = Vec::new();
        let mut c: usize = 0;
        while c < d.capabilities.len()
            invariant
                c <= d.capabilities@.len(),
                capabilities@.len() == c,
                id@ == id_text@,
                forall|x: int| 0 <= x < c ==> (#[trigger] capabilities@[x])@ == d.capabilities@[x]@,
                relations_view(relationships@) =~~= relations_view(rel0) + provides(id@, d.capabilities@.take(c as int)),
            decreases d.capabilities.len() - c,
        {
            let cap = d.capabilities[c];
            capabilities.push(owned(cap));
            let rel = SystemRelationship {
                source_id: id_text.clone(),
                target_id: crate::text::concat2("capability:", cap),
                kind: RelationshipKind::Provides,
                verified: true,
            };
            proof {
                assert(provides(id@, d.capabilities@.take(c + 1)) =~~= provides(id@, d.capabilities@.take(c as int)).push(relation_view(rel)));
                assert(relations_view(relationships@.push(rel)) =~~= relations_view(relationships@).push(relation_view(rel)));
            }
            relationships.push(rel);
            c += 1;
        }
        proof {
            assert(d.capabilities@.take(d.capabilities@.len() as int) =~= d.capabilities@);
            assert(kept.push(*h).drop_last() =~= kept);
            assert(kept.push(*h).last() == *h);
            assert(id@ == "executable:"@ + scan_path_form(h.resolved@, windows));
            assert(scan_relations(kept.push(*h), ds, windows) == scan_relations(kept, ds, windows) + provides(id@, d.capabilities@));
        }
        let asset = SystemAsset {
            id,
            name: owned(d.name),
            category: d.category,
            kind: d.kind,
            location: Some(h.resolved.clone()),
            version: None,
            architecture: None,
            health: HealthState::Ready,
            capabilities,
            evidence: one_evidence(&h.resolved, now),
            observed_at: now,
            metadata: Vec::new(),
        };
        assert(asset_of(asset, ds[h.detector as int], *h, now, windows)) by {
            reveal(asset_of);
        }
        let mut p: usize = 0;
        while p < assets.len() && !ranks_before_asset(&asset, &assets[p])
            invariant
                p <= assets@.len(),
                forall|a: int| 0 <= a < p ==> !asset_order(asset, #[trigger] assets@[a]),
            decreases assets.len() - p,
        {
            p += 1;
        }
        let ghost before = assets@;
        let ghost seen_before = seen@;
        proof {
            assert forall|a: int| 0 <= a < before.len() implies (#[trigger] before[a]).id@ != asset.id@ by {
                reveal(id_seen);
                assert(id_seen(before[a], seen_before));
                let y = choose|y: int| #![trigger seen_before[y]] 0 <= y < seen_before.len() && before[a].id@ == "executable:"@ + seen_before[y]@;
                assert(seen_before[y]@ != normalized@);
                if before[a].id@ == asset.id@ {
                    assert(("executable:"@ + seen_before[y]@).skip(11) =~= seen_before[y]@);
                    assert(("executable:"@ + normalized@).skip(11) =~= normalized@);
                }
            }
            lemma_asset_insert(before, asset, p as int);
        }
        let ghost nid = normalized@;
        assets.insert(p, asset);
        seen.push(normalized);
        proof {
            lemma_added(before, seen_before, asset, p as int, *h, kept, ds, now, windows, nid, assets@, seen@);
        }
    }
}

proof fn lemma_added(
    before: Seq<SystemAsset>,
    seen_before: Seq<String>,
    asset: SystemAsset,
    p: int,
    h: ScanHit,
    kept: Seq<ScanHit>,
    ds: Seq<ToolDetector>,
    now: Timestamp,
    windows: bool,
    nid: Seq<char>,
    assets: Seq<SystemAsset>,
    seen: Seq<String>,
)
    requires
        0 <= p <= before.len(),
        assets == before.insert(p, asset),
        seen.len() == seen_before.len() + 1,
        forall|x: int| 0 <= x < seen_before.len() ==> seen[x] == seen_before[x],
        seen[seen_before.len() as int]@ == nid,
        nid == scan_path_form(h.resolved@, windows),
        asset.id@ == "executable:"@ + nid,
        asset_of(asset, ds[h.detector as int], h, now, windows),
        h.detector < ds.len(),
        seen_before.len() == kept.len(),
        before.len() == kept.len(),
        forall|x: int| 0 <= x < kept.len() ==> (#[trigger] seen_before[x])@ == scan_path_form(kept[x].resolved@, windows),
        forall|x: int| 0 <= x < kept.len() ==> (#[trigger] kept[x]).detector < ds.len(),
        forall|a: int| 0 <= a < before.len() ==> from_kept(#[trigger] before[a], kept, ds, now, windows),
        forall|y: int| 0 <= y < kept.len() ==> has_asset(before, #[trigger] kept[y], ds, now, windows),
        forall|a: int| 0 <= a < before.len() ==> id_seen(#[trigger] before[a], seen_before),
    ensures
        forall|a: int| 0 <= a < assets.len() ==> from_kept(#[trigger] assets[a], kept.push(h), ds, now, windows),
        forall|y: int| 0 <= y < kept.push(h).len() ==> has_asset(assets, #[trigger] kept.push(h)[y], ds, now, windows),
        forall|a: int| 0 <= a < assets.len() ==> id_seen(#[trigger] assets[a], seen),
        forall|x: int| 0 <= x < kept.push(h).len() ==> (#[trigger] seen[x])@ == scan_path_form(kept.push(h)[x].resolved@, windows),
        forall|x: int| 0 <= x < kept.push(h).len() ==> (#[trigger] kept.push(h)[x]).detector < ds.len(),
{
    lemma_added_from(before, asset, p, h, kept, ds, now, windows, assets);
    lemma_added_has(before, asset, p, h, kept, ds, now, windows, assets);
    lemma_added_ids(before, seen_before, asset, p, nid, assets, seen);
    let nk = kept.push(h);
    assert forall|x: int| 0 <= x < nk.len() implies (#[trigger] seen[x])@ == scan_path_form(nk[x].resolved@, windows) by {
        if x < kept.len() {
            assert(seen[x] == seen_before[x]);
            assert(nk[x] == kept[x]);
        }
    }
    assert forall|x: int| 0 <= x < nk.len() implies (#[trigger] nk[x]).detector < ds.len() by {
        if x < kept.len() {
            assert(nk[x] == kept[x]);
        }
    }
}

proof fn lemma_added_from(
    before: Seq<SystemAsset>,
    asset: SystemAsset,
    p: int,
    h: ScanHit,
    kept: Seq<ScanHit>,
    ds: Seq<ToolDetector>,
    now: Timestamp,
    windows: bool,
    assets: Seq<SystemAsset>,
)
    requires
        0 <= p <= before.len(),
        assets == before.insert(p, asset),
        asset_of(asset, ds[h.detector as int], h, now, windows),
        forall|a: int| 0 <= a < before.len() ==> from_kept(#[trigger] before[a], kept, ds, now, windows),
    ensures
        forall|a: int| 0 <= a < assets.len() ==> from_kept(#[trigger] assets[a], kept.push(h), ds, now, windows),
{
    reveal(from_kept);
    let nk = kept.push(h);
    assert forall|a: int| 0 <= a < assets.len() implies from_kept(#[trigger] assets[a], nk, ds, now, windows) by {
        if a == p {
            assert(nk[kept.len() as int] == h);
        } else {
            let b = if a < p { a } else { a - 1 };
            assert(assets[a] == before[b]);
            assert(from_kept(before[b], kept, ds, now, windows));
            let y = choose|y: int| #![trigger kept[y]] 0 <= y < kept.len() && asset_of(before[b], ds[kept[y].detector as int], kept[y], now, windows);
            assert(nk[y] == kept[y]);
        }
    }
}

proof fn lemma_added_has(
    before: Seq<SystemAsset>,
    asset: SystemAsset,
    p: int,
    h: ScanHit,
    kept: Seq<ScanHit>,
    ds: Seq<ToolDetector>,
    now: Timestamp,
    windows: bool,
    assets: Seq<SystemAsset>,
)
    requires
        0 <= p <= before.len(),
        assets == before.insert(p, asset),
        asset_of(asset, ds[h.detector as int], h, now, windows),
        forall|y: int| 0 <= y < kept.len() ==> has_asset(before, #[trigger] kept[y], ds, now, windows),
    ensures
        forall|y: int| 0 <= y < kept.push(h).len() ==> has_asset(assets, #[trigger] kept.push(h)[y], ds, now, windows),
{
    reveal(has_asset);
    let nk = kept.push(h);
    assert forall|y: int| 0 <= y < nk.len() implies has_asset(assets, #[trigger] nk[y], ds, now, windows) by {
        if y < kept.len() {
            assert(nk[y] == kept[y]);
            assert(has_asset(before, kept[y], ds, now, windows));
            let a = choose|a: int| #![trigger before[a]] 0 <= a < before.len() && asset_of(before[a], ds[kept[y].detector as int], kept[y], now, windows);
            if a < p {
                assert(assets[a] == before[a]);
            } else {
                assert(assets[a + 1] == before[a]);
            }
        } else {
            assert(nk[y] == h);
            assert(assets[p] == asset);
        }
    }
}

proof fn lemma_added_ids(
    before: Seq<SystemAsset>,
    seen_before: Seq<String>,
    asset: SystemAsset,
    p: int,
    nid: Seq<char>,
    assets: Seq<SystemAsset>,
    seen: Seq<String>,
)
    requires
        0 <= p <= before.len(),
        assets == before.insert(p, asset),
        seen.len() == seen_before.len() + 1,
        forall|x: int| 0 <= x < seen_before.len() ==> seen[x] == seen_before[x],
        seen[seen_before.len() as int]@ == nid,
        asset.id@ == "executable:"@ + nid,
        forall|a: int| 0 <= a < before.len() ==> id_seen(#[trigger] before[a], seen_before),
    ensures
        forall|a: int| 0 <= a < assets.len() ==> id_seen(#[trigger] assets[a], seen),
{
    reveal(id_seen);
    assert forall|a: int| 0 <= a < assets.len() implies id_seen(#[trigger] assets[a], seen) by {
        if a == p {
            assert(seen[seen_before.len() as int]@ == nid);
        } else {
            let b = if a < p { a } else { a - 1 };
            assert(assets[a] == before[b]);
            assert(id_seen(before[b], seen_before));
            let y = choose|y: int| #![trigger seen_before[y]] 0 <= y < seen_before.len() && before[b].id@ == "executable:"@ + seen_before[y]@;
            assert(seen[y] == seen_before[y]);
        }
    }
}

/// The state of a scan over the kept hits: one seen location, one asset and
/// the relationships for each, assets in order.
#[verifier::opaque]
pub open spec fn scan_state(
    seen: Seq<String>,
    assets: Seq<SystemAsset>,
    relationships: Seq<SystemRelationship>,
    kept: Seq<ScanHit>,
    ds: Seq<ToolDetector>,
    now: Timestamp,
    windows: bool,
) -> bool {
    &&& seen.len() == kept.len()
    &&& forall|x: int| 0 <= x < kept.len() ==> (#[trigger] seen[x])@ == scan_path_form(kept[x].resolved@, windows)
    &&& forall|x: int| 0 <= x < kept.len() ==> (#[trigger] kept[x]).detector < ds.len()
    &&& relations_view(relationships) == scan_relations(kept, ds, windows)
    &&& forall|a: int, b: int| 0 <= a < b < assets.len() ==> asset_order(#[trigger] assets[a], #[trigger] assets[b])
    &&& assets.len() == kept.len()
    &&& forall|a: int| 0 <= a < assets.len() ==> from_kept(#[trigger] assets[a], kept, ds, now, windows)
    &&& forall|y: int| 0 <= y < kept.len() ==> has_asset(assets, #[trigger] kept[y], ds, now, windows)
    &&& forall|a: int| 0 <= a < assets.len() ==> id_seen(#[trigger] assets[a], seen)
}

fn find_seen(seen: &Vec<String>, n: &String) -> (b: bool)
    ensures
        b == exists|x: int| 0 <= x < seen@.len() && (#[trigger] seen@[x])@ == n@,
{
    let mut s: usize = 0;
    while s < seen.len()
        invariant
            s <= seen@.len(),
            forall|x: int| 0 <= x < s ==> (#[trigger] seen@[x])@ != n@,
        decreases seen.len() - s,
    {
        if str_eq(seen[s].as_str(), n.as_str()) {
            return true;
        }
        s += 1;
    }
    false
}

} // verus!

verus! {

proof fn lemma_index_sorted(s: Seq<SystemAsset>)
    ensures
        crate::order::keys_sorted(asset_ids(asset_index(s))),
    decreases s.len(),
{
    if s.len() > 0 {
        let before = asset_index(s.drop_last());
        lemma_index_sorted(s.drop_last());
        let keys = asset_ids(before);
        let k = s.last().id@;
        let i = crate::models::key_slot(keys, k);
        crate::models::lemma_slot_bounds(keys, k);
        crate::models::lemma_sorted_lookup(keys, k, i);
        let t = asset_index(s);
        if crate::models::key_pos(keys, k) >= 0 {
            crate::seqs::lemma_first_pos(keys, crate::models::key_is(k));
            assert(asset_ids(t) =~= keys);
        } else {
            crate::models::lemma_sorted_insert(keys, k, i);
            assert(asset_ids(t) =~= keys.insert(i, k));
        }
    }
}

proof fn lemma_index_parallel(a: Seq<SystemAsset>, b: Seq<SystemAsset>)
    requires
        a.len() == b.len(),
        forall|i: int| 0 <= i < a.len() ==> materially_equal(#[trigger] a[i], b[i]),
    ensures
        asset_ids(asset_index(a)) == asset_ids(asset_index(b)),
        asset_index(a).len() == asset_index(b).len(),
        forall|i: int| 0 <= i < asset_index(a).len() ==> materially_equal(#[trigger] asset_index(a)[i], asset_index(b)[i]),
    decreases a.len(),
{
    if a.len() > 0 {
        lemma_index_parallel(a.drop_last(), b.drop_last());
        assert(materially_equal(a[a.len() - 1], b[b.len() - 1]));
        let ia = asset_index(a.drop_last());
        let ib = asset_index(b.drop_last());
        let x = a.last();
        let y = b.last();
        let keys = asset_ids(ia);
        assert(keys == asset_ids(ib));
        assert(x.id@ == y.id@);
        let k = x.id@;
        let ra = asset_index(a);
        let rb = asset_index(b);
        if crate::models::key_pos(keys, k) >= 0 {
            let q = crate::models::key_pos(keys, k);
            crate::seqs::lemma_first_pos(keys, crate::models::key_is(k));
            assert(ra == ia.update(q, x));
            assert(rb == ib.update(q, y));
            assert(asset_ids(ra) =~= asset_ids(rb));
            assert forall|i: int| 0 <= i < ra.len() implies materially_equal(#[trigger] ra[i], rb[i]) by {
                if i != q {
                    assert(ra[i] == ia[i] && rb[i] == ib[i]);
                }
            }
        } else {
            let q = crate::models::key_slot(keys, k);
            crate::models::lemma_slot_bounds(keys, k);
            assert(ra == ia.insert(q, x));
            assert(rb == ib.insert(q, y));
            assert(asset_ids(ra) =~= asset_ids(rb)) by {
                assert forall|i: int| 0 <= i < ra.len() implies asset_ids(ra)[i] == asset_ids(rb)[i] by {
                    if i < q {
                        assert(ra[i] == ia[i] && rb[i] == ib[i]);
                        assert(asset_ids(ia)[i] == asset_ids(ib)[i]);
                    } else if i > q {
                        assert(ra[i] == ia[i - 1] && rb[i] == ib[i - 1]);
                        assert(asset_ids(ia)[i - 1] == asset_ids(ib)[i - 1]);
                    }
                }
            }
            assert forall|i: int| 0 <= i < ra.len() implies materially_equal(#[trigger] ra[i], rb[i]) by {
                if i < q {
                    assert(ra[i] == ia[i] && rb[i] == ib[i]);
                } else if i > q {
                    assert(ra[i] == ia[i - 1] && rb[i] == ib[i - 1]);
                }
            }
        }
    }
}

proof fn lemma_not_in_covered(s: Seq<Seq<char>>, t: Seq<Seq<char>>)
    requires
        forall|i: int| 0 <= i < s.len() ==> crate::models::key_pos(t, #[trigger] s[i]) >= 0,
    ensures
        ids_not_in(s, t).len() == 0,
    decreases s.len(),
{
    if s.len() > 0 {
        assert(crate::models::key_pos(t, s[s.len() - 1]) >= 0);
        lemma_not_in_covered(s.drop_last(), t);
    }
}

proof fn lemma_present(t: Seq<Seq<char>>, i: int)
    requires
        0 <= i < t.len(),
    ensures
        crate::models::key_pos(t, t[i]) >= 0,
{
    crate::seqs::lemma_first_pos(t, crate::models::key_is(t[i]));
    assert(crate::models::key_is(t[i])(t[i]));
}

proof fn lemma_none_changed(n: Seq<SystemAsset>, p: Seq<SystemAsset>)
    requires
        n.len() <= p.len(),
        asset_ids(n) == asset_ids(p).take(n.len() as int),
        crate::order::keys_sorted(asset_ids(p)),
        forall|i: int| 0 <= i < n.len() ==> materially_equal(p[i], #[trigger] n[i]),
    ensures
        changed_ids(n, p).len() == 0,
    decreases n.len(),
{
    if n.len() > 0 {
        let j = n.len() - 1;
        let keys = asset_ids(p);
        assert(asset_ids(n)[j] == keys[j]);
        assert forall|x: int| 0 <= x < j implies !crate::models::key_is(keys[j])(#[trigger] keys[x]) by {
            crate::order::lemma_text_lt_irreflexive(keys[j]);
        }
        crate::seqs::lemma_first_pos_is(keys, crate::models::key_is(keys[j]), j);
        assert(asset_ids(n.drop_last()) =~= asset_ids(p).take(j));
        lemma_none_changed(n.drop_last(), p);
    }
}

/// Scanning again and finding the same assets (only the times and evidence
/// of observation differ) and the same relationships reports no change.
pub proof fn same_observations_report_no_change(
    previous: EnvironmentSnapshot,
    next: EnvironmentSnapshot,
    d: EnvironmentDelta,
)
    requires
        previous.assets@.len() == next.assets@.len(),
        forall|i: int| 0 <= i < next.assets@.len() ==> materially_equal(#[trigger] previous.assets@[i], next.assets@[i]),
        relations_view(previous.relationships@) == relations_view(next.relationships@),
        delta_of(Some(previous), next, d),
    ensures
        !delta_has_changes(d),
{
    let prev = asset_index(previous.assets@);
    let nxt = asset_index(next.assets@);
    lemma_index_parallel(previous.assets@, next.assets@);
    lemma_index_sorted(previous.assets@);
    assert forall|i: int| 0 <= i < asset_ids(nxt).len() implies crate::models::key_pos(asset_ids(prev), #[trigger] asset_ids(nxt)[i]) >= 0 by {
        lemma_present(asset_ids(prev), i);
    }
    lemma_not_in_covered(asset_ids(nxt), asset_ids(prev));
    assert forall|i: int| 0 <= i < asset_ids(prev).len() implies crate::models::key_pos(asset_ids(nxt), #[trigger] asset_ids(prev)[i]) >= 0 by {
        lemma_present(asset_ids(nxt), i);
    }
    lemma_not_in_covered(asset_ids(prev), asset_ids(nxt));
    assert(asset_ids(prev).take(nxt.len() as int) =~= asset_ids(prev));
    lemma_none_changed(nxt, prev);
    assert(id_views(d.added@).len() == 0);
    assert(id_views(d.removed@).len() == 0);
    assert(id_views(d.updated@).len() == 0);
}

proof fn lemma_not_in_empty(s: Seq<Seq<char>>)
    ensures
        ids_not_in(s, Seq::empty()) == s,
    decreases s.len(),
{
    if s.len() > 0 {
        lemma_not_in_empty(s.drop_last());
        crate::seqs::lemma_first_pos(Seq::<Seq<char>>::empty(), crate::models::key_is(s.last()));
        assert(s.drop_last().push(s.last()) =~= s);
    }
}

/// The first scan reports every asset as added and none as removed or updated.
pub proof fn first_scan_adds_every_asset(next: EnvironmentSnapshot, d: EnvironmentDelta)
    requires
        delta_of(None, next, d),
    ensures
        id_views(d.added@) == asset_ids(asset_index(next.assets@)),
        d.removed@.len() == 0,
        d.updated@.len() == 0,
{
    let e = Seq::<SystemAsset>::empty();
    assert(asset_ids(e) =~= Seq::<Seq<char>>::empty());
    lemma_not_in_empty(asset_ids(asset_index(next.assets@)));
    lemma_not_in_covered(Seq::empty(), asset_ids(asset_index(next.assets@)));
    lemma_no_changes_against_nothing(asset_index(next.assets@));
    assert(id_views(d.removed@).len() == 0);
    assert(id_views(d.updated@).len() == 0);
}

proof fn lemma_no_changes_against_nothing(n: Seq<SystemAsset>)
    ensures
        changed_ids(n, Seq::empty()).len() == 0,
    decreases n.len(),
{
    if n.len() > 0 {
        crate::seqs::lemma_first_pos(asset_ids(Seq::<SystemAsset>::empty()), crate::models::key_is(n.last().id@));
        lemma_no_changes_against_nothing(n.drop_last());
    }
}

proof fn lemma_not_in_keeps(s: Seq<Seq<char>>, t: Seq<Seq<char>>, i: int)
    requires
        0 <= i < s.len(),
        crate::models::key_pos(t, s[i]) < 0,
    ensures
        ids_not_in(s, t).contains(s[i]),
    decreases s.len(),
{
    if i == s.len() - 1 {
        assert(ids_not_in(s, t).last() == s[i]);
    } else {
        lemma_not_in_keeps(s.drop_last(), t, i);
        let r = ids_not_in(s.drop_last(), t);
        let k = choose|k: int| 0 <= k < r.len() && r[k] == s[i];
        if crate::models::key_pos(t, s.last()) < 0 {
            assert(ids_not_in(s, t)[k] == s[i]);
        }
    }
}

/// An asset the last scan found and this one does not is reported removed.
pub proof fn vanished_asset_is_reported_removed(
    previous: EnvironmentSnapshot,
    next: EnvironmentSnapshot,
    d: EnvironmentDelta,
    i: int,
)
    requires
        delta_of(Some(previous), next, d),
        0 <= i < asset_index(previous.assets@).len(),
        crate::models::key_pos(asset_ids(asset_index(next.assets@)), asset_index(previous.assets@)[i].id@) < 0,
    ensures
        id_views(d.removed@).contains(asset_index(previous.assets@)[i].id@),
{
    let prev = asset_ids(asset_index(previous.assets@));
    assert(prev[i] == asset_index(previous.assets@)[i].id@);
    lemma_not_in_keeps(prev, asset_ids(asset_index(next.assets@)), i);
}

} // verus!
