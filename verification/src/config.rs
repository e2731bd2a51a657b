//! Per-domain configuration and the client's change-tracking store.

use vstd::prelude::*;

verus! {

use crate::auth::{Authentication, AuthenticationV};
use crate::kv::{
    has_key, keys_sorted, keys_unique, kv_get, kv_insert, kv_map, lemma_kv_empty, lemma_kv_entry,
    lemma_sorted_unique, str_lt,
};

/// How a password for one domain is derived: its length, an optional
/// secret suffix appended to the master password, and a free-form note.
#[derive(Debug)]
pub struct DomainConfig {
    pub length: usize,
    pub suffix: Option<String>,
    pub note: Option<String>,
}

/// The mathematical value of a [`DomainConfig`].
pub struct DomainConfigV {
    pub length: int,
    pub suffix: Option<Seq<char>>,
    pub note: Option<Seq<char>>,
}

impl View for DomainConfig {
    type V = DomainConfigV;

    open spec fn view(&self) -> DomainConfigV {
        DomainConfigV {
            length: self.length as int,
            suffix: match self.suffix {
                Some(s) => Some(s@),
                None => None,
            },
            note: match self.note {
                Some(s) => Some(s@),
                None => None,
            },
        }
    }
}

impl Clone for DomainConfig {
    fn clone(&self) -> (r: Self)
        ensures
            r@ == self@,
    {
        DomainConfig {
            length: self.length,
            suffix: match &self.suffix {
                Some(s) => Some(s.clone()),
                None => None,
            },
            note: match &self.note {
                Some(s) => Some(s.clone()),
                None => None,
            },
        }
    }
}

impl Default for DomainConfig {
    /// Ten characters, no suffix, no note.
    fn default() -> (r: Self)
        ensures
            r@.length == 10,
            r@.suffix is None,
            r@.note is None,
    {
        DomainConfig { length: 10, suffix: None, note: None }
    }
}

impl DomainConfig {
    /// The same configuration with the length replaced.
    pub fn with_length(self, length: usize) -> (r: Self)
        ensures
            r@.length == length as int,
            r@.suffix == self@.suffix,
            r@.note == self@.note,
    {
        DomainConfig { length, suffix: self.suffix, note: self.note }
    }
}


/// A staged, unsynced edit to one domain's configuration: a deletion,
/// or a value to set (`Put`).
#[derive(Debug)]
pub enum Change<T> {
    Delete,
    Put(T),
}

impl<T: View> View for Change<T> {
    type V = Change<T::V>;

    open spec fn view(&self) -> Change<T::V> {
        match self {
            Change::Delete => Change::Delete,
            Change::Put(t) => Change::Put(t.view()),
        }
    }
}

impl Clone for Change<DomainConfig> {
    fn clone(&self) -> (r: Self)
        ensures
            r@ == self@,
    {
        match self {
            Change::Delete => Change::Delete,
            Change::Put(c) => Change::Put(c.clone()),
        }
    }
}

/// Whether a resolved value was found explicitly or fell back to the
/// global defaults; callers distinguish the two.
#[derive(Debug)]
pub enum Defaulted<T> {
    Explicit(T),
    Default(T),
}

impl<T: View> View for Defaulted<T> {
    type V = Defaulted<T::V>;

    open spec fn view(&self) -> Defaulted<T::V> {
        match self {
            Defaulted::Explicit(t) => Defaulted::Explicit(t.view()),
            Defaulted::Default(t) => Defaulted::Default(t.view()),
        }
    }
}

/// The value either way.
pub open spec fn underlying_of<T>(d: Defaulted<T>) -> T {
    match d {
        Defaulted::Explicit(t) => t,
        Defaulted::Default(t) => t,
    }
}

impl<T> Defaulted<T> {
    /// Unwrap the value, explicit or defaulted.
    pub fn underlying(self) -> (r: T)
        ensures
            r == underlying_of(self),
    {
        match self {
            Defaulted::Explicit(t) => t,
            Defaulted::Default(t) => t,
        }
    }
}

/// A cached username and sync credential as the client file stores them.
#[derive(Debug)]
pub struct StoredCredentials {
    pub user: String,
    pub contents: String,
}

/// The client's persisted state: the cached bearer credential, the
/// global defaults, the last-synced domain table, and the staged edits.
pub struct ConfigFile {
    pub authentication: Option<Authentication>,
    pub defaults: DomainConfig,
    pub domains: Vec<(String, DomainConfig)>,
    pub changes: Vec<(String, Change<DomainConfig>)>,
}

/// The mathematical value of a [`ConfigFile`].
pub struct ConfigFileV {
    pub authentication: Option<AuthenticationV>,
    pub defaults: DomainConfigV,
    pub domains: Map<Seq<char>, DomainConfigV>,
    pub changes: Map<Seq<char>, Change<DomainConfigV>>,
}

impl View for ConfigFile {
    type V = ConfigFileV;

    open spec fn view(&self) -> ConfigFileV {
        ConfigFileV {
            authentication: match self.authentication {
                Some(ref a) => Some(a@),
                None => None,
            },
            defaults: self.defaults@,
            domains: kv_map(self.domains@),
            changes: kv_map(self.changes@),
        }
    }
}

impl ConfigFile {
    /// The domain table is sorted by name (so each domain appears at
    /// most once), and the staged edits carry each domain at most once.
    pub open spec fn wf(&self) -> bool {
        keys_sorted(self.domains@) && keys_unique(self.changes@)
    }
}

impl Default for ConfigFile {
    /// No credential, stock defaults, no known domains, no staged edits.
    fn default() -> (r: Self)
        ensures
            r.wf(),
            r@.authentication is None,
            r@.defaults.length == 10,
            r@.defaults.suffix is None,
            r@.defaults.note is None,
            r@.domains == Map::<Seq<char>, DomainConfigV>::empty(),
            r@.changes == Map::<Seq<char>, Change<DomainConfigV>>::empty(),
    {
        let r = ConfigFile {
            authentication: None,
            defaults: DomainConfig::default(),
            domains: Vec::new(),
            changes: Vec::new(),
        };
        proof {
            lemma_kv_empty::<DomainConfig>();
            lemma_kv_empty::<Change<DomainConfig>>();
            assert(r.domains@ =~= Seq::<(String, DomainConfig)>::empty());
            assert(r.changes@ =~= Seq::<(String, Change<DomainConfig>)>::empty());
        }
        r
    }
}

/// Where a domain resolves to, by precedence: a pending `Put` wins, a
/// pending `Delete` falls back to the defaults even over a stored value,
/// otherwise the stored value, otherwise the defaults.
pub open spec fn spec_for_domain(c: ConfigFileV, domain: Seq<char>) -> Defaulted<DomainConfigV> {
    if c.changes.contains_key(domain) {
        match c.changes[domain] {
            Change::Delete => Defaulted::Default(c.defaults),
            Change::Put(v) => Defaulted::Explicit(v),
        }
    } else if c.domains.contains_key(domain) {
        Defaulted::Explicit(c.domains[domain])
    } else {
        Defaulted::Default(c.defaults)
    }
}

/// A full-sync change set: every known domain, as a `Put` of its stored
/// value.
pub open spec fn full_change_map(m: Map<Seq<char>, DomainConfigV>) -> Map<
    Seq<char>,
    Change<DomainConfigV>,
> {
    Map::new(|k: Seq<char>| m.contains_key(k), |k: Seq<char>| Change::Put(m[k]))
}

/// The client's in-memory configuration: the persisted data and whether
/// it has unsaved edits.
pub struct Config {
    pub data: ConfigFile,
    pub dirty: bool,
}

impl Config {
    pub open spec fn wf(&self) -> bool {
        self.data.wf()
    }

    /// Wrap freshly loaded data; nothing is unsaved yet.
    pub fn new(data: ConfigFile) -> (r: Config)
        ensures
            r.data == data,
            r.dirty == false,
    {
        Config { data, dirty: false }
    }

    /// The staged edits, exactly as they will be sent incrementally.
    pub fn changes(&self) -> (r: &Vec<(String, Change<DomainConfig>)>)
        ensures
            r@ == self.data.changes@,
            self.wf() ==> kv_map(r@) == self.data@.changes,
    {
        &self.data.changes
    }

    /// Every known domain's name, once each, in increasing order.
    pub fn domain_list(&self) -> (r: Vec<String>)
        requires
            self.wf(),
        ensures
            r@.len() == self.data.domains@.len(),
            forall|i: int| 0 <= i < r@.len() ==> r@[i]@ == self.data.domains@[i].0@,
            forall|i: int, j: int| 0 <= i < j < r@.len() ==> str_lt(r@[i]@, r@[j]@),
    {
        let mut out: Vec<String> = Vec::new();
        let mut i: usize = 0;
        while i < self.data.domains.len()
            invariant
                i <= self.data.domains@.len(),
                out@.len() == i,
                forall|j: int| 0 <= j < i ==> out@[j]@ == self.data.domains@[j].0@,
            decreases self.data.domains@.len() - i,
        {
            out.push(self.data.domains[i].0.clone());
            i += 1;
        }
        out
    }

    /// The pending change staged for a domain, if any.
    pub fn override_for(&self, domain: &str) -> (r: Option<&Change<DomainConfig>>)
        requires
            self.wf(),
        ensures
            match r {
                Some(ch) => self.data@.changes.contains_key(domain@) && ch@
                    == self.data@.changes[domain@],
                None => !self.data@.changes.contains_key(domain@),
            },
    {
        kv_get(&self.data.changes, domain)
    }

    /// Resolve a domain by the precedence [`spec_for_domain`] states.
    pub fn for_domain(&self, domain: &str) -> (r: Defaulted<DomainConfig>)
        requires
            self.wf(),
        ensures
            r@ == spec_for_domain(self.data@, domain@),
    {
        proof {
            lemma_sorted_unique(self.data.domains@);
        }
        let stored = kv_get(&self.data.domains, domain);
        let found = match self.override_for(domain) {
            Some(ch) => match ch {
                Change::Delete => None,
                Change::Put(c) => Some(c),
            },
            None => stored,
        };
        match found {
            Some(f) => Defaulted::Explicit(f.clone()),
            None => Defaulted::Default(self.data.defaults.clone()),
        }
    }

    /// Stage a `Put` edit for a domain; the last-synced table is never
    /// touched, and the configuration becomes dirty.
    pub fn add(&mut self, domain: String, domain_config: DomainConfig)
        requires
            old(self).wf(),
        ensures
            final(self).wf(),
            final(self).data@.changes == old(self).data@.changes.insert(
                domain@,
                Change::Put(domain_config@),
            ),
            final(self).data.domains == old(self).data.domains,
            final(self).data.defaults == old(self).data.defaults,
            final(self).data.authentication == old(self).data.authentication,
            final(self).dirty == true,
    {
        kv_insert(&mut self.data.changes, domain, Change::Put(domain_config));
        self.dirty = true;
    }

    /// Stage a deletion for a domain: it will resolve to the defaults
    /// and synchronize as a `Delete`.
    pub fn stage_delete(&mut self, domain: String)
        requires
            old(self).wf(),
        ensures
            final(self).wf(),
            final(self).data@.changes == old(self).data@.changes.insert(domain@, Change::Delete),
            final(self).data.domains == old(self).data.domains,
            final(self).data.defaults == old(self).data.defaults,
            final(self).data.authentication == old(self).data.authentication,
            final(self).dirty == true,
    {
        kv_insert(&mut self.data.changes, domain, Change::Delete);
        self.dirty = true;
    }

    /// Cache a fresh bearer credential; the configuration becomes dirty.
    pub fn set_authentication(&mut self, auth: Authentication)
        ensures
            final(self).data.authentication == Some(auth),
            final(self).data.domains == old(self).data.domains,
            final(self).data.changes == old(self).data.changes,
            final(self).data.defaults == old(self).data.defaults,
            final(self).dirty == true,
    {
        self.data.authentication = Some(auth);
        self.dirty = true;
    }

    /// Adopt the server's canonical domain table wholesale and clear the
    /// staged edits; the server's merge result is authoritative. The
    /// reconciled state is unsaved, so the configuration becomes dirty
    /// and reaches durable storage on the next save.
    pub fn post_sync(&mut self, merged: Vec<(String, DomainConfig)>)
        requires
            keys_sorted(merged@),
        ensures
            final(self).wf(),
            final(self).data@.domains == kv_map(merged@),
            final(self).data@.changes == Map::<Seq<char>, Change<DomainConfigV>>::empty(),
            final(self).data.defaults == old(self).data.defaults,
            final(self).data.authentication == old(self).data.authentication,
            final(self).dirty == true,
    {
        self.data.domains = merged;
        self.data.changes = Vec::new();
        self.dirty = true;
        proof {
            lemma_kv_empty::<Change<DomainConfig>>();
            assert(self.data.changes@ =~= Seq::<(String, Change<DomainConfig>)>::empty());
        }
    }

    /// The full-sync change set: every known domain as a `Put` of its
    /// stored value, capturing complete current state.
    pub fn full_changes(&self) -> (r: Vec<(String, Change<DomainConfig>)>)
        requires
            self.wf(),
        ensures
            keys_sorted(r@),
            keys_unique(r@),
            kv_map(r@) == full_change_map(self.data@.domains),
            r@.len() == self.data.domains@.len(),
            forall|i: int|
                0 <= i < r@.len() ==> r@[i].0@ == self.data.domains@[i].0@ && r@[i].1@
                    == Change::Put(self.data.domains@[i].1@),
    {
        let mut out: Vec<(String, Change<DomainConfig>)> = Vec::new();
        let mut i: usize = 0;
        while i < self.data.domains.len()
            invariant
                self.wf(),
                i <= self.data.domains@.len(),
                out@.len() == i,
                forall|j: int|
                    0 <= j < i ==> out@[j].0@ == self.data.domains@[j].0@ && out@[j].1@
                        == Change::Put(self.data.domains@[j].1@),
            decreases self.data.domains@.len() - i,
        {
            out.push(
                (self.data.domains[i].0.clone(), Change::Put(self.data.domains[i].1.clone())),
            );
            i += 1;
        }
        proof {
            let d = self.data.domains@;
            lemma_sorted_unique(d);
            assert forall|a: int, b: int| 0 <= a < b < out@.len() implies str_lt(
                out@[a].0@,
                out@[b].0@,
            ) by {
                assert(str_lt(d[a].0@, d[b].0@));
            }
            lemma_sorted_unique(out@);
            assert forall|k: Seq<char>| #[trigger] has_key(out@, k) implies has_key(d, k) by {
                let m = choose|m: int| 0 <= m < out@.len() && out@[m].0@ == k;
                assert(d[m].0@ == k);
            }
            assert forall|k: Seq<char>| #[trigger] has_key(d, k) implies has_key(out@, k) by {
                let m = choose|m: int| 0 <= m < d.len() && d[m].0@ == k;
                assert(out@[m].0@ == k);
            }
            assert forall|k: Seq<char>| #[trigger] kv_map(out@).dom().contains(k) implies kv_map(
                out@,
            )[k] == full_change_map(kv_map(d))[k] by {
                let m = crate::kv::idx_of(out@, k);
                assert(0 <= m < out@.len() && out@[m].0@ == k);
                lemma_kv_entry(out@, m);
                lemma_kv_entry(d, m);
            }
            assert(kv_map(out@).dom() =~= full_change_map(kv_map(d)).dom());
            assert(kv_map(out@) =~= full_change_map(kv_map(d)));
        }
        out
    }
}

} // verus!
