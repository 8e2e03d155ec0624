//! Secret identifiers and values, and a process-local secret store. The
//! operating-system store itself is reached by the application.

use crate::text::{concat3, is_blank, is_blank_seq, owned, str_eq};
use crate::types::ProviderId;
use vstd::prelude::*;

verus! {

/// The name a secret is stored under.
#[derive(Debug, Clone, PartialEq, Eq, PartialOrd, Ord, Hash)]
pub struct SecretId(String);

impl View for SecretId {
    type V = Seq<char>;

    closed spec fn view(&self) -> Seq<char> {
        self.0@
    }
}

impl SecretId {
    /// "provider/<provider>/api-key".
    pub fn provider_api_key(provider_id: &ProviderId) -> (r: SecretId)
        ensures
            r@ == "provider/"@ + provider_id@ + "/api-key"@,
    {
        SecretId(concat3("provider/", provider_id.as_str(), "/api-key"))
    }

    pub fn memory_database_password() -> (r: SecretId)
        ensures
            r@ == "memory/postgresql/application-password"@,
    {
        SecretId(owned("memory/postgresql/application-password"))
    }

    pub fn memory_bootstrap_password() -> (r: SecretId)
        ensures
            r@ == "memory/postgresql/bootstrap-password"@,
    {
        SecretId(owned("memory/postgresql/bootstrap-password"))
    }

    pub fn as_str(&self) -> (r: &str)
        ensures
            r@ == self@,
    {
        self.0.as_str()
    }

    fn duplicate(&self) -> (r: SecretId)
        ensures
            r@ == self@,
    {
        SecretId(self.0.clone())
    }

    fn same(&self, other: &SecretId) -> (b: bool)
        ensures
            b == (self@ == other@),
    {
        str_eq(self.0.as_str(), other.0.as_str())
    }
}

#[derive(Debug, Clone, PartialEq, Eq)]
pub enum SecretStoreError {
    Invalid(String),
    Unavailable(String),
}

pub open spec fn secret_error_text(e: SecretStoreError) -> Seq<char> {
    match e {
        SecretStoreError::Invalid(m) => "invalid secret: "@ + m@,
        SecretStoreError::Unavailable(m) => "secret store is unavailable: "@ + m@,
    }
}

impl SecretStoreError {
    /// The message this error displays.
    pub fn to_text(&self) -> (r: String)
        ensures
            r@ == secret_error_text(*self),
    {
        match self {
            SecretStoreError::Invalid(m) => crate::text::concat2("invalid secret: ", m.as_str()),
            SecretStoreError::Unavailable(m) => crate::text::concat2(
                "secret store is unavailable: ",
                m.as_str(),
            ),
        }
    }
}

/// A secret's value; never empty.
#[derive(Clone, PartialEq, Eq)]
pub struct SecretValue(String);

impl View for SecretValue {
    type V = Seq<char>;

    closed spec fn view(&self) -> Seq<char> {
        self.0@
    }
}

impl SecretValue {
    /// A value, refused when empty.
    pub fn new(value: String) -> (r: Result<SecretValue, SecretStoreError>)
        ensures
            value@.len() == 0 <==> r is Err,
            r matches Ok(v) ==> v@ == value@,
            r matches Err(e) ==> e matches SecretStoreError::Invalid(m) && m@
                == "secret cannot be empty"@,
    {
        if value.as_str().unicode_len() == 0 {
            return Err(SecretStoreError::Invalid(owned("secret cannot be empty")));
        }
        Ok(SecretValue(value))
    }

    /// The plaintext, for the one place that must use it.
    pub fn expose(&self) -> (r: &str)
        ensures
            r@ == self@,
    {
        self.0.as_str()
    }

    /// How the value shows in logs and debug output: never the plaintext.
    pub fn redacted(&self) -> (r: &'static str)
        ensures
            r@ == "SecretValue([REDACTED])"@,
    {
        "SecretValue([REDACTED])"
    }

    fn duplicate(&self) -> (r: SecretValue)
        ensures
            r@ == self@,
    {
        SecretValue(self.0.clone())
    }
}

/// A process-local store for development and tests; it never writes secrets
/// to disk. Each identifier holds at most one value.
pub struct InMemorySecretStore {
    values: Vec<(SecretId, SecretValue)>,
}

/// The value stored under `id`, if any.
pub open spec fn lookup(s: Seq<(Seq<char>, Seq<char>)>, id: Seq<char>) -> Option<Seq<char>>
    decreases s.len(),
{
    if s.len() == 0 {
        None
    } else if s.last().0 == id {
        Some(s.last().1)
    } else {
        lookup(s.drop_last(), id)
    }
}

impl InMemorySecretStore {
    /// The stored pairs as identifiers and plaintexts.
    pub closed spec fn entries(&self) -> Seq<(Seq<char>, Seq<char>)> {
        Seq::new(self.values@.len(), |i: int| (self.values@[i].0@, self.values@[i].1@))
    }

    /// The value stored under `id`, if any.
    pub open spec fn value_of(&self, id: Seq<char>) -> Option<Seq<char>> {
        lookup(self.entries(), id)
    }

    pub fn new() -> (s: InMemorySecretStore)
        ensures
            forall|id: Seq<char>| #[trigger] s.value_of(id) is None,
    {
        let s = InMemorySecretStore { values: Vec::new() };
        assert forall|id: Seq<char>| #[trigger] s.value_of(id) is None by {
            assert(s.entries().len() == 0);
        }
        s
    }

    /// Stores `value` under `id`, replacing what was there.
    pub fn put(&mut self, id: &SecretId, value: SecretValue) -> (r: Result<(), SecretStoreError>)
        ensures
            r is Ok,
            final(self).value_of(id@) == Some(value@),
            forall|other: Seq<char>|
                other != id@ ==> #[trigger] final(self).value_of(other) == old(self).value_of(other),
    {
        self.values.push((id.duplicate(), value));
        assert(self.entries().drop_last() =~= old(self).entries());
        Ok(())
    }

    /// The value stored under `id`, if any.
    pub fn get(&self, id: &SecretId) -> (r: Result<Option<SecretValue>, SecretStoreError>)
        ensures
            r matches Ok(v) && match self.value_of(id@) {
                Some(x) => v matches Some(y) && y@ == x,
                None => v is None,
            },
    {
        let mut i: usize = self.values.len();
        assert(self.entries().take(i as int) =~= self.entries());
        while i > 0
            invariant
                i <= self.values@.len(),
                lookup(self.entries(), id@) == lookup(self.entries().take(i as int), id@),
            decreases i,
        {
            assert(self.entries().take(i as int).drop_last() =~= self.entries().take(i - 1));
            if self.values[i - 1].0.same(id) {
                return Ok(Some(self.values[i - 1].1.duplicate()));
            }
            i -= 1;
        }
        Ok(None)
    }

    /// Removes the value under `id`; tells whether there was one.
    pub fn delete(&mut self, id: &SecretId) -> (r: Result<bool, SecretStoreError>)
        ensures
            r == Ok::<bool, SecretStoreError>(old(self).value_of(id@) is Some),
            final(self).value_of(id@) is None,
            forall|other: Seq<char>|
                other != id@ ==> #[trigger] final(self).value_of(other) == old(self).value_of(other),
    {
        let existed = match self.get(id) {
            Ok(v) => v.is_some(),
            Err(_) => false,
        };
        let mut old_values: Vec<(SecretId, SecretValue)> = Vec::new();
        std::mem::swap(&mut old_values, &mut self.values);
        let ghost all = Seq::new(old_values@.len(), |i: int| (old_values@[i].0@, old_values@[i].1@));
        assert(all == old(self).entries());
        let n = old_values.len();
        let mut k: usize = 0;
        while k < n
            invariant
                k <= n == all.len(),
                old_values@.len() == n - k,
                Seq::new(old_values@.len(), |j: int| (old_values@[j].0@, old_values@[j].1@))
                    == all.subrange(k as int, n as int),
                lookup(self.entries(), id@) is None,
                forall|other: Seq<char>|
                    other != id@ ==> #[trigger] lookup(self.entries(), other) == lookup(
                        all.take(k as int),
                        other,
                    ),
            decreases n - k,
        {
            let ghost rest = Seq::new(old_values@.len(), |j: int| (old_values@[j].0@, old_values@[j].1@));
            assert(rest[0] == all[k as int]);
            let ghost ov = old_values@;
            let entry = old_values.remove(0);
            assert forall|j: int| 0 <= j < old_values@.len() implies (old_values@[j].0@, old_values@[j].1@)
                == all.subrange(k + 1, n as int)[j] by {
                assert(old_values@[j] == ov[j + 1]);
                assert(rest[j + 1] == all.subrange(k as int, n as int)[j + 1]);
            }
            assert(Seq::new(old_values@.len(), |j: int| (old_values@[j].0@, old_values@[j].1@))
                =~= all.subrange(k + 1, n as int));
            assert(all.take(k + 1).drop_last() =~= all.take(k as int));
            assert(all.take(k + 1).last() == all[k as int]);
            assert((entry.0@, entry.1@) == all[k as int]);
            if !entry.0.same(id) {
                let ghost before = self.entries();
                self.values.push(entry);
                assert(self.entries().drop_last() =~= before);
                assert(self.entries().last() == all[k as int]);
                assert forall|other: Seq<char>| other != id@ implies #[trigger] lookup(
                    self.entries(),
                    other,
                ) == lookup(all.take(k + 1), other) by {
                    assert(lookup(before, other) == lookup(all.take(k as int), other));
                }
                assert(lookup(self.entries(), id@) is None);
            } else {
                assert forall|other: Seq<char>| other != id@ implies #[trigger] lookup(
                    self.entries(),
                    other,
                ) == lookup(all.take(k + 1), other) by {
                    assert(lookup(self.entries(), other) == lookup(all.take(k as int), other));
                }
            }
            k += 1;
        }
        assert(all.take(n as int) =~= all);
        Ok(existed)
    }
}

} // verus!

verus! {

/// Secrets kept in the operating system's store (Credential Manager on
/// Windows), under one service name.
#[derive(Debug, Clone, PartialEq, Eq)]
pub struct WindowsCredentialStore {
    service_name: String,
}

impl WindowsCredentialStore {
    pub closed spec fn service(&self) -> Seq<char> {
        self.service_name@
    }

    /// A store for `service_name` on a platform that is (`windows`) or is not
    /// Windows: a blank name is refused first, then any other platform.
    pub fn new_on(service_name: &str, windows: bool) -> (r: Result<WindowsCredentialStore, SecretStoreError>)
        ensures
            is_blank_seq(service_name@) ==> (r matches Err(e) && e matches SecretStoreError::Invalid(m)
                && m@ == "secret-store service name cannot be empty"@),
            !is_blank_seq(service_name@) && !windows ==> (r matches Err(e)
                && e matches SecretStoreError::Unavailable(m) && m@
                == "Windows Credential Manager is unavailable on this platform"@),
            !is_blank_seq(service_name@) && windows ==> (r matches Ok(s) && s.service()
                == service_name@),
    {
        if is_blank(service_name) {
            return Err(
                SecretStoreError::Invalid(owned("secret-store service name cannot be empty")),
            );
        }
        if !windows {
            return Err(
                SecretStoreError::Unavailable(
                    owned("Windows Credential Manager is unavailable on this platform"),
                ),
            );
        }
        Ok(WindowsCredentialStore { service_name: owned(service_name) })
    }

    /// A store for `service_name` on this platform (see `new_on`).
    pub fn new(service_name: &str) -> (r: Result<WindowsCredentialStore, SecretStoreError>)
        ensures
            is_blank_seq(service_name@) ==> (r matches Err(e) && e matches SecretStoreError::Invalid(m)
                && m@ == "secret-store service name cannot be empty"@),
            r matches Ok(s) ==> s.service() == service_name@,
    {
        WindowsCredentialStore::new_on(service_name, crate::platform::host_is_windows())
    }

    pub fn service_name(&self) -> (r: &str)
        ensures
            r@ == self.service(),
    {
        self.service_name.as_str()
    }
}

/// What every failure of the operating-system store is reported as.
pub fn os_store_failure() -> (e: SecretStoreError)
    ensures
        e matches SecretStoreError::Unavailable(m) && m@
            == "operating-system secret store operation failed"@,
{
    SecretStoreError::Unavailable(owned("operating-system secret store operation failed"))
}

} // verus!
