//! Provider-neutral registries: the providers by identifier, the models they
//! offer by reference, and a deterministic mock provider.

use crate::text::{owned, str_eq};
use crate::types::{
    GenerationRequest, GenerationResponse, ModelCapabilities, ModelDescriptor, ModelId, ModelRef,
    ProviderId, TokenUsage,
};
use vstd::prelude::*;

verus! {

#[derive(Debug, Clone, Copy, PartialEq, Eq, Structural)]
pub struct ProviderCapabilities {
    pub model_discovery: bool,
    pub streaming: bool,
    pub cost_estimation: bool,
}

#[derive(Debug, Clone, PartialEq, Eq)]
pub enum ProviderHealth {
    Healthy,
    Degraded(String),
    Unavailable(String),
}

#[derive(Debug, Clone, PartialEq, Eq)]
pub enum ProviderError {
    Unavailable(String),
    InvalidRequest(String),
    Unsupported(String),
    Failed(String),
}

pub open spec fn provider_error_text(e: ProviderError) -> Seq<char> {
    match e {
        ProviderError::Unavailable(m) => "provider is unavailable: "@ + m@,
        ProviderError::InvalidRequest(m) => "provider rejected the request: "@ + m@,
        ProviderError::Unsupported(m) => "provider operation is unsupported: "@ + m@,
        ProviderError::Failed(m) => "provider operation failed: "@ + m@,
    }
}

impl ProviderError {
    /// The message this error displays.
    pub fn to_text(&self) -> (r: String)
        ensures
            r@ == provider_error_text(*self),
    {
        match self {
            ProviderError::Unavailable(m) => crate::text::concat2("provider is unavailable: ", m.as_str()),
            ProviderError::InvalidRequest(m) => crate::text::concat2(
                "provider rejected the request: ",
                m.as_str(),
            ),
            ProviderError::Unsupported(m) => crate::text::concat2(
                "provider operation is unsupported: ",
                m.as_str(),
            ),
            ProviderError::Failed(m) => crate::text::concat2("provider operation failed: ", m.as_str()),
        }
    }
}

#[derive(Debug, Clone, PartialEq, Eq)]
pub enum RegistryError {
    DuplicateProvider(ProviderId),
    ProviderNotFound(ProviderId),
    ModelNotFound(ProviderId, ModelId),
}

pub open spec fn registry_error_text(e: RegistryError) -> Seq<char> {
    match e {
        RegistryError::DuplicateProvider(p) => "provider is already registered: "@ + p@,
        RegistryError::ProviderNotFound(p) => "provider is not registered: "@ + p@,
        RegistryError::ModelNotFound(p, m) => "model is not registered: "@ + p@ + "/"@ + m@,
    }
}

impl RegistryError {
    /// The message this error displays.
    pub fn to_text(&self) -> (r: String)
        ensures
            r@ == registry_error_text(*self),
    {
        match self {
            RegistryError::DuplicateProvider(p) => crate::text::concat2(
                "provider is already registered: ",
                p.as_str(),
            ),
            RegistryError::ProviderNotFound(p) => crate::text::concat2(
                "provider is not registered: ",
                p.as_str(),
            ),
            RegistryError::ModelNotFound(p, m) => {
                let mut t = crate::text::concat3("model is not registered: ", p.as_str(), "/");
                t.append(m.as_str());
                t
            },
        }
    }
}

/// The identifiers of registered providers, in order.
pub open spec fn provider_keys<P>(s: Seq<(ProviderId, P)>) -> Seq<Seq<char>> {
    Seq::new(s.len(), |i: int| s[i].0@)
}

/// How the application holds a provider or a runtime: it tells the
/// identifier it is registered under.
pub trait Registrable {
    spec fn registered_id(&self) -> ProviderId;

    fn registration_id(&self) -> (r: ProviderId)
        ensures
            r == self.registered_id(),
    ;
}

/// The registered providers, each identifier once, in identifier order. `P`
/// is how the application holds a provider.
pub struct ProviderRegistry<P> {
    providers: Vec<(ProviderId, P)>,
}

impl<P: Registrable> ProviderRegistry<P> {
    /// Registers a provider under the identifier it tells; an identifier is
    /// taken once.
    pub fn register(&mut self, provider: P) -> (r: Result<(), RegistryError>)
        ensures
            ({
                let id = provider.registered_id();
                let keys = provider_keys(old(self).entries());
                let p = crate::models::key_pos(keys, id@);
                &&& p >= 0 ==> r == Err::<(), RegistryError>(RegistryError::DuplicateProvider(id))
                    && final(self).entries() == old(self).entries()
                &&& p < 0 ==> r is Ok && final(self).entries() == old(self).entries().insert(
                    crate::models::key_slot(keys, id@),
                    (id, provider),
                )
            }),
    {
        proof {
            use_type_invariant(&*self);
        }
        let id = provider.registration_id();
        let (i, found) = self.slot(&id);
        if found {
            return Err(RegistryError::DuplicateProvider(id));
        }
        let ghost keys = provider_keys(self.providers@);
        let mut providers: Vec<(ProviderId, P)> = Vec::new();
        std::mem::swap(&mut providers, &mut self.providers);
        let ghost k = id@;
        providers.insert(i, (id, provider));
        proof {
            crate::models::lemma_sorted_insert(keys, k, i as int);
            assert(provider_keys(providers@) =~= keys.insert(i as int, k));
        }
        self.providers = providers;
        Ok(())
    }
}

impl<P> ProviderRegistry<P> {
    #[verifier::type_invariant]
    spec fn sorted(&self) -> bool {
        crate::order::keys_sorted(provider_keys(self.providers@))
    }

    /// The providers, in identifier order.
    pub closed spec fn entries(&self) -> Seq<(ProviderId, P)> {
        self.providers@
    }

    pub fn new() -> (r: ProviderRegistry<P>)
        ensures
            r.entries().len() == 0,
    {
        ProviderRegistry { providers: Vec::new() }
    }

    fn slot(&self, id: &ProviderId) -> (r: (usize, bool))
        ensures
            r.0 <= self.entries().len(),
            r.0 == crate::models::key_slot(provider_keys(self.entries()), id@),
            r.1 == (crate::models::key_pos(provider_keys(self.entries()), id@) >= 0),
            r.1 ==> crate::models::key_pos(provider_keys(self.entries()), id@) == r.0 && r.0
                < self.entries().len() && self.entries()[r.0 as int].0@ == id@,
            forall|j: int|
                0 <= j < r.0 ==> crate::order::text_lt(#[trigger] provider_keys(self.entries())[j], id@),
            !r.1 ==> forall|j: int|
                r.0 <= j < self.entries().len() ==> crate::order::text_lt(
                    id@,
                    #[trigger] provider_keys(self.entries())[j],
                ),
    {
        proof {
            use_type_invariant(self);
        }
        let ghost keys = provider_keys(self.providers@);
        let mut i: usize = 0;
        while i < self.providers.len() && crate::order::text_less(self.providers[i].0.as_str(), id.as_str())
            invariant
                i <= self.providers@.len(),
                keys == provider_keys(self.providers@),
                forall|j: int| 0 <= j < i ==> crate::order::text_lt(#[trigger] keys[j], id@),
            decreases self.providers.len() - i,
        {
            i += 1;
        }
        let found = i < self.providers.len() && str_eq(self.providers[i].0.as_str(), id.as_str());
        proof {
            crate::models::lemma_sorted_lookup(keys, id@, i as int);
            if found {
                assert(keys[i as int] == id@);
            }
        }
        (i, found)
    }

    /// The provider registered under this identifier.
    pub fn get(&self, id: &ProviderId) -> (r: Result<&P, RegistryError>)
        ensures
            ({
                let p = crate::models::key_pos(provider_keys(self.entries()), id@);
                &&& p >= 0 ==> r == Ok::<&P, RegistryError>(&self.entries()[p].1)
                &&& p < 0 ==> r == Err::<&P, RegistryError>(RegistryError::ProviderNotFound(*id))
            }),
    {
        let (i, found) = self.slot(id);
        if found {
            Ok(&self.providers[i].1)
        } else {
            Err(RegistryError::ProviderNotFound(id.clone()))
        }
    }

    /// The registered identifiers, in order.
    pub fn ids(&self) -> (r: Vec<ProviderId>)
        ensures
            r@.len() == self.entries().len(),
            forall|i: int| 0 <= i < r@.len() ==> #[trigger] r@[i] == self.entries()[i].0,
            crate::order::keys_sorted(provider_keys(self.entries())),
    {
        proof {
            use_type_invariant(self);
        }
        let mut r: Vec<ProviderId> = Vec::new();
        let mut i: usize = 0;
        while i < self.providers.len()
            invariant
                i <= self.providers@.len(),
                r@.len() == i,
                forall|k: int| 0 <= k < i ==> #[trigger] r@[k] == self.providers@[k].0,
            decreases self.providers.len() - i,
        {
            r.push(self.providers[i].0.clone());
            i += 1;
        }
        r
    }
}

} // verus!

verus! {

/// The order of model references: by provider, then by model.
pub open spec fn ref_lt(a: (Seq<char>, Seq<char>), b: (Seq<char>, Seq<char>)) -> bool {
    crate::order::text_lt(a.0, b.0) || (a.0 == b.0 && crate::order::text_lt(a.1, b.1))
}

pub open spec fn ref_key(r: ModelRef) -> (Seq<char>, Seq<char>) {
    (r.provider_id@, r.model_id@)
}

pub proof fn lemma_ref_order(a: (Seq<char>, Seq<char>), b: (Seq<char>, Seq<char>), c: (Seq<char>, Seq<char>))
    ensures
        !ref_lt(a, a),
        a != b ==> ref_lt(a, b) || ref_lt(b, a),
        !(ref_lt(a, b) && ref_lt(b, a)),
        ref_lt(a, b) && ref_lt(b, c) ==> ref_lt(a, c),
{
    crate::order::lemma_text_lt_irreflexive(a.0);
    crate::order::lemma_text_lt_irreflexive(a.1);
    crate::order::lemma_text_lt_total(a.0, b.0);
    crate::order::lemma_text_lt_total(a.1, b.1);
    if ref_lt(a, b) && ref_lt(b, c) {
        if crate::order::text_lt(a.0, b.0) && crate::order::text_lt(b.0, c.0) {
            crate::order::lemma_text_lt_transitive(a.0, b.0, c.0);
        }
        if a.0 == b.0 && b.0 == c.0 {
            crate::order::lemma_text_lt_transitive(a.1, b.1, c.1);
        }
    }
}

/// The references of the descriptors, in order.
pub open spec fn descriptor_keys(s: Seq<ModelDescriptor>) -> Seq<(Seq<char>, Seq<char>)> {
    Seq::new(s.len(), |i: int| ref_key(s[i].reference))
}

pub open spec fn refs_sorted(k: Seq<(Seq<char>, Seq<char>)>) -> bool {
    forall|i: int, j: int| 0 <= i < j < k.len() ==> ref_lt(#[trigger] k[i], #[trigger] k[j])
}

/// `a` is a copy of `b`: equal fields, metadata with equal contents.
pub open spec fn descriptor_copied(a: ModelDescriptor, b: ModelDescriptor) -> bool {
    &&& a == ModelDescriptor { metadata: a.metadata, ..b }
    &&& a.metadata@ == b.metadata@
}

fn copy_pairs(v: &Vec<(String, String)>) -> (r: Vec<(String, String)>)
    ensures
        r@ == v@,
{
    let mut r: Vec<(String, String)> = Vec::new();
    let mut i: usize = 0;
    while i < v.len()
        invariant
            i <= v.len(),
            r@ == v@.take(i as int),
        decreases v.len() - i,
    {
        r.push((v[i].0.clone(), v[i].1.clone()));
        assert(v@.take(i + 1) =~= v@.take(i as int).push(v@[i as int]));
        i += 1;
    }
    assert(v@.take(v.len() as int) =~= v@);
    r
}

pub fn copy_descriptor(d: &ModelDescriptor) -> (r: ModelDescriptor)
    ensures
        descriptor_copied(r, *d),
{
    ModelDescriptor {
        reference: ModelRef::new(d.reference.provider_id.clone(), d.reference.model_id.clone()),
        display_name: d.display_name.clone(),
        capabilities: d.capabilities,
        context_size: d.context_size,
        local: d.local,
        input_cost_per_million: d.input_cost_per_million,
        output_cost_per_million: d.output_cost_per_million,
        available: d.available,
        metadata: copy_pairs(&d.metadata),
    }
}

pub open spec fn ref_is(k: (Seq<char>, Seq<char>)) -> spec_fn((Seq<char>, Seq<char>)) -> bool {
    |x: (Seq<char>, Seq<char>)| x == k
}

/// The descriptors kept when a provider's models are replaced: those of
/// other providers.
pub open spec fn other_providers(s: Seq<ModelDescriptor>, p: Seq<char>) -> Seq<ModelDescriptor>
    decreases s.len(),
{
    if s.len() == 0 {
        Seq::empty()
    } else if s.last().reference.provider_id@ == p {
        other_providers(s.drop_last(), p)
    } else {
        other_providers(s.drop_last(), p).push(s.last())
    }
}

pub open spec fn ref_not_before(k: (Seq<char>, Seq<char>)) -> spec_fn((Seq<char>, Seq<char>)) -> bool {
    |x: (Seq<char>, Seq<char>)| !ref_lt(x, k)
}

/// Where reference `k` belongs: before the first reference not below it.
pub open spec fn ref_slot(keys: Seq<(Seq<char>, Seq<char>)>, k: (Seq<char>, Seq<char>)) -> int {
    let p = crate::seqs::first_pos(keys, ref_not_before(k));
    if p < 0 {
        keys.len() as int
    } else {
        p
    }
}

/// `s` with `d` stored under its reference: replacing the descriptor with
/// that reference, or inserted where the reference belongs.
pub open spec fn stored_descriptor(s: Seq<ModelDescriptor>, d: ModelDescriptor) -> Seq<ModelDescriptor> {
    let keys = descriptor_keys(s);
    let k = ref_key(d.reference);
    let p = crate::seqs::first_pos(keys, ref_is(k));
    if p >= 0 {
        s.update(p, d)
    } else {
        s.insert(ref_slot(keys, k), d)
    }
}

/// The descriptors of `s` stored one after another onto `base`.
pub open spec fn store_descriptors(base: Seq<ModelDescriptor>, s: Seq<ModelDescriptor>) -> Seq<ModelDescriptor>
    decreases s.len(),
{
    if s.len() == 0 {
        base
    } else {
        stored_descriptor(store_descriptors(base, s.drop_last()), s.last())
    }
}

/// The descriptors of the provider, or all of them.
pub open spec fn of_provider(s: Seq<ModelDescriptor>, p: Option<Seq<char>>) -> Seq<ModelDescriptor>
    decreases s.len(),
{
    if s.len() == 0 {
        Seq::empty()
    } else if p matches Some(x) && s.last().reference.provider_id@ != x {
        of_provider(s.drop_last(), p)
    } else {
        of_provider(s.drop_last(), p).push(s.last())
    }
}

/// The models the providers offer, each reference once, in reference order.
#[derive(Debug)]
pub struct ModelRegistry {
    models: Vec<ModelDescriptor>,
}

impl ModelRegistry {
    #[verifier::type_invariant]
    spec fn sorted(&self) -> bool {
        refs_sorted(descriptor_keys(self.models@))
    }

    /// The descriptors, in reference order.
    pub closed spec fn descriptors(&self) -> Seq<ModelDescriptor> {
        self.models@
    }

    pub fn new() -> (r: ModelRegistry)
        ensures
            r.descriptors().len() == 0,
    {
        ModelRegistry { models: Vec::new() }
    }

    /// Where reference `k` is or belongs.
    fn slot(&self, provider: &str, model: &str) -> (r: (usize, bool))
        ensures
            ({
                let keys = descriptor_keys(self.descriptors());
                let k = (provider@, model@);
                &&& r.0 <= keys.len()
                &&& r.0 == ref_slot(keys, k)
                &&& r.1 == (crate::seqs::first_pos(keys, ref_is(k)) >= 0)
                &&& r.1 ==> crate::seqs::first_pos(keys, ref_is(k)) == r.0 && r.0 < keys.len()
                &&& forall|j: int| 0 <= j < r.0 ==> ref_lt(#[trigger] keys[j], k)
                &&& !r.1 ==> forall|j: int| r.0 <= j < keys.len() ==> ref_lt(k, #[trigger] keys[j])
            }),
    {
        proof {
            use_type_invariant(self);
        }
        let ghost keys = descriptor_keys(self.models@);
        let ghost k = (provider@, model@);
        let ghost below = ref_not_before(k);
        let mut i: usize = 0;
        while i < self.models.len() && ref_less(&self.models[i].reference, provider, model)
            invariant
                i <= self.models@.len(),
                keys == descriptor_keys(self.models@),
                k == (provider@, model@),
                forall|j: int| 0 <= j < i ==> ref_lt(#[trigger] keys[j], k),
            decreases self.models.len() - i,
        {
            i += 1;
        }
        let found = i < self.models.len() && str_eq(
            self.models[i].reference.provider_id.as_str(),
            provider,
        ) && str_eq(self.models[i].reference.model_id.as_str(), model);
        proof {
            assert forall|j: int| 0 <= j < i implies !below(#[trigger] keys[j]) by {}
            if i < keys.len() {
                assert(below(keys[i as int]));
            }
            crate::seqs::lemma_first_pos_is(keys, below, if i < keys.len() { i as int } else { -1 });
            assert forall|j: int| 0 <= j < i implies !ref_is(k)(#[trigger] keys[j]) by {
                lemma_ref_order(k, k, k);
            }
            if found {
                crate::seqs::lemma_first_pos_is(keys, ref_is(k), i as int);
            } else {
                if i < keys.len() {
                    lemma_ref_order(keys[i as int], k, k);
                }
                assert forall|j: int| i <= j < keys.len() implies ref_lt(k, #[trigger] keys[j]) by {
                    if j > i {
                        lemma_ref_order(k, keys[i as int], keys[j]);
                    }
                }
                assert forall|j: int| 0 <= j < keys.len() implies !ref_is(k)(#[trigger] keys[j]) by {
                    lemma_ref_order(k, k, k);
                }
                crate::seqs::lemma_first_pos_is(keys, ref_is(k), -1);
            }
        }
        (i, found)
    }

    fn put(&mut self, d: ModelDescriptor)
        ensures
            final(self).descriptors() == stored_descriptor(old(self).descriptors(), d),
    {
        proof {
            use_type_invariant(&*self);
        }
        let (i, found) = self.slot(d.reference.provider_id.as_str(), d.reference.model_id.as_str());
        let ghost keys = descriptor_keys(self.models@);
        let ghost k = ref_key(d.reference);
        let mut models: Vec<ModelDescriptor> = Vec::new();
        std::mem::swap(&mut models, &mut self.models);
        if found {
            proof {
                crate::seqs::lemma_first_pos(keys, ref_is(k));
            }
            models.set(i, d);
            proof {
                assert(descriptor_keys(models@) =~= keys);
            }
        } else {
            models.insert(i, d);
            proof {
                let n = descriptor_keys(models@);
                assert(n =~= keys.insert(i as int, k));
                assert forall|a: int, b: int| 0 <= a < b < n.len() implies ref_lt(#[trigger] n[a], #[trigger] n[b]) by {
                    if b < i {
                        assert(n[a] == keys[a] && n[b] == keys[b]);
                    } else if b == i {
                        assert(n[a] == keys[a]);
                    } else if a < i {
                        assert(n[a] == keys[a] && n[b] == keys[b - 1]);
                        lemma_ref_order(keys[a], k, keys[b - 1]);
                    } else if a == i {
                        assert(n[b] == keys[b - 1]);
                    } else {
                        assert(n[a] == keys[a - 1] && n[b] == keys[b - 1]);
                    }
                }
            }
        }
        self.models = models;
    }

    /// Replaces the models of a provider with those it now reports; a later
    /// descriptor of the same reference replaces an earlier one.
    pub fn replace_provider_models(&mut self, provider_id: &ProviderId, models: Vec<ModelDescriptor>)
        ensures
            final(self).descriptors() == store_descriptors(
                other_providers(old(self).descriptors(), provider_id@),
                models@,
            ),
    {
        proof {
            use_type_invariant(&*self);
        }
        let ghost all = self.models@;
        let ghost keys = descriptor_keys(all);
        let mut rest: Vec<ModelDescriptor> = Vec::new();
        std::mem::swap(&mut rest, &mut self.models);
        let n = rest.len();
        let mut kept: Vec<ModelDescriptor> = Vec::new();
        let mut i: usize = 0;
        while i < n
            invariant
                i <= n == all.len(),
                keys == descriptor_keys(all),
                refs_sorted(keys),
                rest@ == all.subrange(i as int, n as int),
                kept@ == other_providers(all.take(i as int), provider_id@),
                refs_sorted(descriptor_keys(kept@)),
                forall|a: int, k: int|
                    0 <= a < kept@.len() && i <= k < n ==> ref_lt(
                        #[trigger] descriptor_keys(kept@)[a],
                        #[trigger] keys[k],
                    ),
            decreases n - i,
        {
            let d = rest.remove(0);
            assert(d == all[i as int]);
            assert(rest@ =~= all.subrange(i + 1, n as int));
            assert(all.take(i + 1).drop_last() =~= all.take(i as int));
            let same = str_eq(d.reference.provider_id.as_str(), provider_id.as_str());
            if !same {
                proof {
                    let kk = descriptor_keys(kept@);
                    let nk = descriptor_keys(kept@.push(d));
                    assert(nk =~= kk.push(keys[i as int]));
                    assert forall|a: int, b: int| 0 <= a < b < nk.len() implies ref_lt(#[trigger] nk[a], #[trigger] nk[b]) by {
                        if b < kk.len() {
                            assert(nk[a] == kk[a] && nk[b] == kk[b]);
                        } else {
                            assert(nk[a] == kk[a]);
                        }
                    }
                }
                kept.push(d);
            }
            proof {
                assert forall|a: int, k: int|
                    0 <= a < kept@.len() && i + 1 <= k < n implies ref_lt(
                    #[trigger] descriptor_keys(kept@)[a],
                    #[trigger] keys[k],
                ) by {
                    if a == kept@.len() - 1 && !same {
                        assert(descriptor_keys(kept@)[a] == keys[i as int]);
                    }
                }
            }
            i += 1;
        }
        assert(all.take(n as int) =~= all);
        self.models = kept;
        let ghost base = self.models@;
        let ghost news = models@;
        let m_n = models.len();
        let mut incoming = models;
        let mut j: usize = 0;
        while j < m_n
            invariant
                j <= m_n == news.len(),
                incoming@ == news.subrange(j as int, m_n as int),
                self.models@ == store_descriptors(base, news.take(j as int)),
            decreases m_n - j,
        {
            let d = incoming.remove(0);
            assert(d == news[j as int]);
            assert(incoming@ =~= news.subrange(j + 1, m_n as int));
            assert(news.take(j + 1).drop_last() =~= news.take(j as int));
            self.put(d);
            j += 1;
        }
        assert(news.take(m_n as int) =~= news);
    }

    /// A copy of the descriptor with this reference.
    pub fn get(&self, reference: &ModelRef) -> (r: Result<ModelDescriptor, RegistryError>)
        ensures
            ({
                let keys = descriptor_keys(self.descriptors());
                let p = crate::seqs::first_pos(keys, ref_is(ref_key(*reference)));
                &&& p >= 0 ==> (r matches Ok(d) && descriptor_copied(d, self.descriptors()[p]))
                &&& p < 0 ==> r == Err::<ModelDescriptor, RegistryError>(
                    RegistryError::ModelNotFound(reference.provider_id, reference.model_id),
                )
            }),
    {
        let (i, found) = self.slot(reference.provider_id.as_str(), reference.model_id.as_str());
        if found {
            Ok(copy_descriptor(&self.models[i]))
        } else {
            Err(RegistryError::ModelNotFound(reference.provider_id.clone(), reference.model_id.clone()))
        }
    }

    /// Copies of the descriptors of one provider, or of all, in reference order.
    pub fn list(&self, provider_id: Option<&ProviderId>) -> (r: Vec<ModelDescriptor>)
        ensures
            ({
                let want = of_provider(
                    self.descriptors(),
                    match provider_id {
                        Some(p) => Some(p@),
                        None => None,
                    },
                );
                &&& r@.len() == want.len()
                &&& forall|i: int| 0 <= i < r@.len() ==> descriptor_copied(#[trigger] r@[i], want[i])
            }),
    {
        let ghost want_id = match provider_id {
            Some(p) => Some(p@),
            None => None,
        };
        let mut r: Vec<ModelDescriptor> = Vec::new();
        let mut i: usize = 0;
        while i < self.models.len()
            invariant
                i <= self.models@.len(),
                want_id == match provider_id {
                    Some(p) => Some(p@),
                    None => None::<Seq<char>>,
                },
                r@.len() == of_provider(self.models@.take(i as int), want_id).len(),
                forall|k: int|
                    0 <= k < r@.len() ==> descriptor_copied(
                        #[trigger] r@[k],
                        of_provider(self.models@.take(i as int), want_id)[k],
                    ),
            decreases self.models.len() - i,
        {
            let d = &self.models[i];
            proof {
                assert(self.models@.take(i + 1).drop_last() =~= self.models@.take(i as int));
            }
            let keep = match provider_id {
                Some(p) => str_eq(d.reference.provider_id.as_str(), p.as_str()),
                None => true,
            };
            if keep {
                r.push(copy_descriptor(d));
            }
            i += 1;
        }
        assert(self.models@.take(self.models@.len() as int) =~= self.models@);
        r
    }
}

fn ref_less(r: &ModelRef, provider: &str, model: &str) -> (b: bool)
    ensures
        b == ref_lt(ref_key(*r), (provider@, model@)),
{
    crate::order::text_less(r.provider_id.as_str(), provider) || (str_eq(r.provider_id.as_str(), provider)
        && crate::order::text_less(r.model_id.as_str(), model))
}

} // verus!

verus! {

/// The number of whitespace-separated words (`split_whitespace().count()`).
pub open spec fn word_count(s: Seq<char>) -> nat
    decreases s.len(),
{
    if s.len() == 0 {
        0
    } else {
        word_count(s.drop_last()) + if !crate::text::is_ws(s.last()) && (s.len() == 1
            || crate::text::is_ws(s[s.len() - 2])) {
            1nat
        } else {
            0nat
        }
    }
}

fn count_words(s: &str) -> (n: u64)
    ensures
        n == word_count(s@),
{
    let v = crate::text::chars_of(s);
    let mut n: u64 = 0;
    let mut i: usize = 0;
    while i < v.len()
        invariant
            i <= v@.len(),
            v@ == s@,
            n == word_count(s@.take(i as int)),
            n <= i,
        decreases v.len() - i,
    {
        proof {
            assert(s@.take(i + 1).drop_last() =~= s@.take(i as int));
        }
        if !crate::text::is_ws_char(v[i]) && (i == 0 || crate::text::is_ws_char(v[i - 1])) {
            n = n + 1;
        }
        i += 1;
    }
    assert(s@.take(v.len() as int) =~= s@);
    n
}

/// A provider that answers every model it was made with by echoing the last
/// message, for tests and demonstrations.
#[derive(Debug)]
pub struct MockProvider {
    id: ProviderId,
    models: Vec<ModelDescriptor>,
}

/// The descriptor the mock provider offers for a model.
pub open spec fn mock_descriptor(d: ModelDescriptor, id: ProviderId, model_id: ModelId) -> bool {
    &&& d.reference == ModelRef { provider_id: id, model_id }
    &&& d.display_name@ == "Mock "@ + model_id@
    &&& d.capabilities == ModelCapabilities { tools: false, vision: false, structured_output: true, streaming: true }
    &&& d.context_size == Some(8192u32)
    &&& d.local
    &&& d.input_cost_per_million == Some(0u64) && d.output_cost_per_million == Some(0u64)
    &&& d.available
    &&& d.metadata@.len() == 0
}

/// What the mock provider `p` answers to `request` as response `response_id` at time `now`.
pub open spec fn generate_post(
    p: MockProvider,
    request: GenerationRequest,
    response_id: u128,
    now: crate::developer::Timestamp,
    r: Result<GenerationResponse, ProviderError>,
) -> bool {
        let offered = exists|i: int|
            0 <= i < p.offered().len() && ref_key((#[trigger] p.offered()[i]).reference)
                == ref_key(request.model);
        let input = if request.messages@.len() > 0 {
            request.messages@.last().content@
        } else {
            Seq::<char>::empty()
        };
        &&& !offered ==> (r matches Err(e) && e matches ProviderError::InvalidRequest(m) && m@
            == "unknown model "@ + request.model.provider_id@ + "/"@ + request.model.model_id@)
        &&& offered ==> (r matches Ok(g) && {
            &&& g.response_id == response_id
            &&& g.model == request.model
            &&& g.text@ == "mock:"@ + input
            &&& g.usage == TokenUsage { input_tokens: word_count(input) as u64, output_tokens: 1 }
            &&& g.finish_reason matches Some(f) && f@ == "stop"@
            &&& g.created_at == now
        })
    }

impl Registrable for MockProvider {
    open spec fn registered_id(&self) -> ProviderId {
        self.provider_id()
    }

    fn registration_id(&self) -> (r: ProviderId) {
        self.id().clone()
    }
}

impl MockProvider {
    pub closed spec fn provider_id(&self) -> ProviderId {
        self.id
    }

    pub closed spec fn offered(&self) -> Seq<ModelDescriptor> {
        self.models@
    }

    pub fn new(id: ProviderId, model_ids: Vec<ModelId>) -> (p: MockProvider)
        ensures
            p.provider_id() == id,
            p.offered().len() == model_ids@.len(),
            forall|i: int| 0 <= i < model_ids@.len() ==> mock_descriptor(#[trigger] p.offered()[i], id, model_ids@[i]),
    {
        let mut models: Vec<ModelDescriptor> = Vec::new();
        let mut i: usize = 0;
        while i < model_ids.len()
            invariant
                i <= model_ids@.len(),
                models@.len() == i,
                forall|k: int| 0 <= k < i ==> mock_descriptor(#[trigger] models@[k], id, model_ids@[k]),
            decreases model_ids.len() - i,
        {
            let model_id = model_ids[i].clone();
            let display_name = crate::text::concat2("Mock ", model_id.as_str());
            models.push(
                ModelDescriptor {
                    reference: ModelRef::new(id.clone(), model_id),
                    display_name,
                    capabilities: ModelCapabilities {
                        tools: false,
                        vision: false,
                        structured_output: true,
                        streaming: true,
                    },
                    context_size: Some(8192),
                    local: true,
                    input_cost_per_million: Some(0),
                    output_cost_per_million: Some(0),
                    available: true,
                    metadata: Vec::new(),
                },
            );
            i += 1;
        }
        MockProvider { id, models }
    }

    pub fn id(&self) -> (r: &ProviderId)
        ensures
            *r == self.provider_id(),
    {
        &self.id
    }

    pub fn capabilities(&self) -> (c: ProviderCapabilities)
        ensures
            c == (ProviderCapabilities { model_discovery: true, streaming: true, cost_estimation: true }),
    {
        ProviderCapabilities { model_discovery: true, streaming: true, cost_estimation: true }
    }

    pub fn health(&self) -> (h: ProviderHealth)
        ensures
            h == ProviderHealth::Healthy,
    {
        ProviderHealth::Healthy
    }

    /// Copies of the offered descriptors.
    pub fn list_models(&self) -> (r: Result<Vec<ModelDescriptor>, ProviderError>)
        ensures
            r matches Ok(v) && v@.len() == self.offered().len() && forall|i: int|
                0 <= i < v@.len() ==> descriptor_copied(#[trigger] v@[i], self.offered()[i]),
    {
        let mut r: Vec<ModelDescriptor> = Vec::new();
        let mut i: usize = 0;
        while i < self.models.len()
            invariant
                i <= self.models@.len(),
                r@.len() == i,
                forall|k: int| 0 <= k < i ==> descriptor_copied(#[trigger] r@[k], self.models@[k]),
            decreases self.models.len() - i,
        {
            r.push(copy_descriptor(&self.models[i]));
            i += 1;
        }
        Ok(r)
    }

    /// The provider offers a model with this reference.
    pub open spec fn offers(&self, reference: ModelRef) -> bool {
        exists|i: int| 0 <= i < self.offered().len() && ref_key((#[trigger] self.offered()[i]).reference)
            == ref_key(reference)
    }

    fn supports(&self, reference: &ModelRef) -> (b: bool)
        ensures
            b == self.offers(*reference),
    {
        let mut i: usize = 0;
        while i < self.models.len()
            invariant
                i <= self.models@.len(),
                forall|k: int| 0 <= k < i ==> ref_key((#[trigger] self.models@[k]).reference) != ref_key(*reference),
            decreases self.models.len() - i,
        {
            let r = &self.models[i].reference;
            if str_eq(r.provider_id.as_str(), reference.provider_id.as_str()) && str_eq(
                r.model_id.as_str(),
                reference.model_id.as_str(),
            ) {
                return true;
            }
            i += 1;
        }
        false
    }

    /// Answers with "mock:" and the last message (or nothing) for a model it
    /// offers, as response `response_id` at time `now`.
    pub fn generate_at(&self, request: GenerationRequest, response_id: u128, now: crate::developer::Timestamp) -> (r: Result<
        GenerationResponse,
        ProviderError,
    >)
        ensures
            generate_post(*self, request, response_id, now, r),
    {
        if !self.supports(&request.model) {
            let mut m = crate::text::concat3(
                "unknown model ",
                request.model.provider_id.as_str(),
                "/",
            );
            m.append(request.model.model_id.as_str());
            return Err(ProviderError::InvalidRequest(m));
        }
        let n = request.messages.len();
        let input: &str = if n > 0 {
            request.messages[n - 1].content.as_str()
        } else {
            ""
        };
        proof {
            reveal_strlit("");
        }
        let words = count_words(input);
        let text = crate::text::concat2("mock:", input);
        Ok(
            GenerationResponse {
                response_id,
                model: request.model,
                text,
                usage: TokenUsage { input_tokens: words, output_tokens: 1 },
                finish_reason: Some(owned("stop")),
                created_at: now,
            },
        )
    }

    /// `generate_at` with a fresh identifier at the current time.
    pub fn generate(&self, request: GenerationRequest) -> (r: Result<GenerationResponse, ProviderError>)
        ensures
            !self.offers(request.model) ==> forall|id: u128, now: crate::developer::Timestamp|
                #[trigger] generate_post(*self, request, id, now, r),
            self.offers(request.model) ==> (r matches Err(e) && e matches ProviderError::Unavailable(m)
                && (m@ == crate::platform::CLOCK_UNAVAILABLE@ || m@
                == crate::platform::RANDOM_UNAVAILABLE@)) || exists|
                id: u128,
                now: crate::developer::Timestamp,
            | #[trigger] generate_post(*self, request, id, now, r),
    {
        if !self.supports(&request.model) {
            return self.generate_at(request, 0, 0);
        }
        let id = match crate::platform::fresh_id() {
            Some(v) => v,
            None => {
                return Err(ProviderError::Unavailable(owned(crate::platform::RANDOM_UNAVAILABLE)));
            },
        };
        let now = match crate::platform::now_millis() {
            Some(t) => t,
            None => {
                return Err(ProviderError::Unavailable(owned(crate::platform::CLOCK_UNAVAILABLE)));
            },
        };
        self.generate_at(request, id, now)
    }
}

} // verus!
