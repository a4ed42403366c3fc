//! The profile store: profile definitions, the id-keyed store with stable
//! iteration order, and the manager that holds the persisted images of the
//! config file and the active-selection marker.
use vstd::prelude::*;
use vstd::string::StrSliceExecFns;
use crate::strutil::{trim, trimmed, str_eq, clone_opt_string};

verus! {

/// One proxy profile: display name, base URL, optional credentials.
#[derive(Debug)]
pub struct ProxyConfig {
    pub name: String,
    pub url: String,
    pub api_key: Option<String>,
    pub auth_token: Option<String>,
}

/// A profile can be activated only with at least one non-empty credential.
pub open spec fn has_credential(p: ProxyConfig) -> bool {
    ||| (p.api_key matches Some(k) && k@.len() > 0)
    ||| (p.auth_token matches Some(t) && t@.len() > 0)
}

impl Clone for ProxyConfig {
    fn clone(&self) -> (r: Self)
        ensures
            r == *self,
    {
        ProxyConfig {
            name: self.name.clone(),
            url: self.url.clone(),
            api_key: clone_opt_string(&self.api_key),
            auth_token: clone_opt_string(&self.auth_token),
        }
    }
}

impl ProxyConfig {
    /// Whether this profile carries a credential that activation accepts.
    pub fn usable_credential(&self) -> (r: bool)
        ensures
            r == has_credential(*self),
    {
        let key_ok = match &self.api_key {
            Some(k) => k.as_str().unicode_len() > 0,
            None => false,
        };
        let token_ok = match &self.auth_token {
            Some(t) => t.as_str().unicode_len() > 0,
            None => false,
        };
        key_ok || token_ok
    }
}

/// The id at position `i` of a store, as a character sequence.
pub open spec fn key_at(s: Seq<(String, ProxyConfig)>, i: int) -> Seq<char> {
    s[i].0@
}

/// The store holds an entry under id `id`.
pub open spec fn has_key(s: Seq<(String, ProxyConfig)>, id: Seq<char>) -> bool {
    exists|i: int| 0 <= i < s.len() && key_at(s, i) == id
}

/// The position of the entry under id `id` (meaningful when `has_key`).
pub open spec fn index_of_key(s: Seq<(String, ProxyConfig)>, id: Seq<char>) -> int {
    choose|i: int| 0 <= i < s.len() && key_at(s, i) == id
}

/// The definition stored under id `id` (meaningful when `has_key`).
pub open spec fn value_of(s: Seq<(String, ProxyConfig)>, id: Seq<char>) -> ProxyConfig {
    s[index_of_key(s, id)].1
}

/// No two entries share an id.
pub open spec fn keys_unique(s: Seq<(String, ProxyConfig)>) -> bool {
    forall|i: int, j: int| 0 <= i < j < s.len() ==> key_at(s, i) != key_at(s, j)
}

/// The store after an insert-or-overwrite of entry `e`: an existing entry
/// under the same id is replaced in place, a new id is appended.
pub open spec fn entries_after_insert(
    s: Seq<(String, ProxyConfig)>,
    e: (String, ProxyConfig),
) -> Seq<(String, ProxyConfig)> {
    if has_key(s, e.0@) {
        s.update(index_of_key(s, e.0@), e)
    } else {
        s.push(e)
    }
}

/// The store after removal of the entry under `id` (unchanged if absent).
pub open spec fn entries_after_remove(
    s: Seq<(String, ProxyConfig)>,
    id: Seq<char>,
) -> Seq<(String, ProxyConfig)> {
    if has_key(s, id) {
        s.remove(index_of_key(s, id))
    } else {
        s
    }
}

/// The full persisted store: id-keyed profiles, iteration order stable.
#[derive(Debug)]
pub struct Config {
    pub proxies: Vec<(String, ProxyConfig)>,
}

impl Config {
    /// Ids are pairwise distinct.
    pub closed spec fn wf(&self) -> bool {
        keys_unique(self.proxies@)
    }

    /// An empty store.
    pub fn new() -> (r: Self)
        ensures
            r.proxies@.len() == 0,
            r.wf(),
    {
        Config { proxies: Vec::new() }
    }

    /// The number of stored profiles.
    pub fn len(&self) -> (r: usize)
        ensures
            r == self.proxies@.len(),
    {
        self.proxies.len()
    }

    /// Whether the store holds no profile at all.
    pub fn is_empty(&self) -> (r: bool)
        ensures
            r == (self.proxies@.len() == 0),
    {
        self.proxies.len() == 0
    }

    /// The position of the entry under `id`, if present.
    fn find(&self, id: &str) -> (r: Option<usize>)
        requires
            self.wf(),
        ensures
            match r {
                Some(i) => i < self.proxies@.len() && key_at(self.proxies@, i as int) == id@
                    && i == index_of_key(self.proxies@, id@),
                None => !has_key(self.proxies@, id@),
            },
    {
        let n = self.proxies.len();
        let mut i: usize = 0;
        while i < n
            invariant
                self.wf(),
                n == self.proxies@.len(),
                i <= n,
                forall|k: int| 0 <= k < i ==> key_at(self.proxies@, k) != id@,
            decreases n - i,
    {
            if str_eq(self.proxies[i].0.as_str(), id) {
                proof {
                    let w = index_of_key(self.proxies@, id@);
                    assert(key_at(self.proxies@, i as int) == id@);
                    assert(0 <= w < self.proxies@.len() && key_at(self.proxies@, w) == id@);
                    if w != i {
                        assert(key_at(self.proxies@, w) != key_at(self.proxies@, i as int));
                    }
                }
                return Some(i);
            }
            i = i + 1;
        }
        None
    }

    /// Whether the store holds an entry under `id`.
    pub fn contains_key(&self, id: &str) -> (r: bool)
        requires
            self.wf(),
        ensures
            r == has_key(self.proxies@, id@),
    {
        match self.find(id) {
            Some(_) => true,
            None => false,
        }
    }

    /// The definition stored under `id`, if present.
    pub fn get<'a>(&'a self, id: &str) -> (r: Option<&'a ProxyConfig>)
        requires
            self.wf(),
        ensures
            match r {
                Some(p) => has_key(self.proxies@, id@) && *p == value_of(self.proxies@, id@),
                None => !has_key(self.proxies@, id@),
            },
    {
        match self.find(id) {
            Some(i) => Some(&self.proxies[i].1),
            None => None,
        }
    }

    /// Insert-or-overwrite: an existing entry under the same id is replaced
    /// in place (the store does not grow), a new id is appended at the end.
    pub fn insert(&mut self, id: String, p: ProxyConfig) -> (overwrote: bool)
        requires
            old(self).wf(),
        ensures
            final(self).wf(),
            overwrote == has_key(old(self).proxies@, id@),
            final(self).proxies@ == entries_after_insert(old(self).proxies@, (id, p)),
            has_key(final(self).proxies@, id@),
            value_of(final(self).proxies@, id@) == p,
    {
        let ghost s0 = self.proxies@;
        let found = self.find(id.as_str());
        match found {
            Some(i) => {
                self.proxies[i] = (id, p);
                proof {
                    let s1 = self.proxies@;
                    let e = s1[i as int];
                    assert forall|a: int, b: int| 0 <= a < b < s1.len()
                        implies key_at(s1, a) != key_at(s1, b) by {
                        if a != i && b != i {
                            assert(key_at(s0, a) != key_at(s0, b));
                        } else if a == i {
                            assert(key_at(s0, b) != key_at(s0, i as int));
                        } else {
                            assert(key_at(s0, a) != key_at(s0, i as int));
                        }
                    }
                    let w = index_of_key(s1, e.0@);
                    assert(key_at(s1, i as int) == e.0@);
                    assert(0 <= w < s1.len() && key_at(s1, w) == e.0@);
                    if w != i {
                        assert(key_at(s1, w) == key_at(s0, w));
                        assert(key_at(s0, w) != key_at(s0, i as int));
                    }
                }
                true
            },
            None => {
                self.proxies.push((id, p));
                proof {
                    let s1 = self.proxies@;
                    let e = s1[s1.len() - 1];
                    assert forall|a: int, b: int| 0 <= a < b < s1.len()
                        implies key_at(s1, a) != key_at(s1, b) by {
                        if b < s1.len() - 1 {
                            assert(key_at(s0, a) != key_at(s0, b));
                        } else {
                            assert(key_at(s1, b) == e.0@);
                            assert(key_at(s1, a) == key_at(s0, a));
                            assert(!has_key(s0, e.0@));
                        }
                    }
                    let w = index_of_key(s1, e.0@);
                    assert(key_at(s1, s1.len() - 1) == e.0@);
                    assert(0 <= w < s1.len() && key_at(s1, w) == e.0@);
                    if w != s1.len() - 1 {
                        assert(key_at(s0, w) == e.0@);
                    }
                }
                false
            },
        }
    }

    /// Remove the entry under `id`; reports whether one was there.
    pub fn remove(&mut self, id: &str) -> (found: bool)
        requires
            old(self).wf(),
        ensures
            final(self).wf(),
            found == has_key(old(self).proxies@, id@),
            final(self).proxies@ == entries_after_remove(old(self).proxies@, id@),
            !has_key(final(self).proxies@, id@),
    {
        let ghost s0 = self.proxies@;
        match self.find(id) {
            Some(i) => {
                self.proxies.remove(i);
                proof {
                    let s1 = self.proxies@;
                    assert forall|a: int, b: int| 0 <= a < b < s1.len()
                        implies key_at(s1, a) != key_at(s1, b) by {
                        let a0 = if a < i { a } else { a + 1 };
                        let b0 = if b < i { b } else { b + 1 };
                        assert(key_at(s1, a) == key_at(s0, a0));
                        assert(key_at(s1, b) == key_at(s0, b0));
                        assert(key_at(s0, a0) != key_at(s0, b0));
                    }
                    assert forall|k: int| 0 <= k < s1.len()
                        implies key_at(s1, k) != id@ by {
                        let k0 = if k < i { k } else { k + 1 };
                        assert(key_at(s1, k) == key_at(s0, k0));
                        assert(key_at(s0, k0) != key_at(s0, i as int));
                    }
                }
                true
            },
            None => false,
        }
    }
}

impl Clone for Config {
    fn clone(&self) -> (r: Self)
        ensures
            r.proxies@ == self.proxies@,
    {
        let n = self.proxies.len();
        let mut out: Vec<(String, ProxyConfig)> = Vec::new();
        let mut i: usize = 0;
        while i < n
            invariant
                n == self.proxies@.len(),
                i <= n,
                out@ == self.proxies@.subrange(0, i as int),
            decreases n - i,
        {
            let (id, p) = &self.proxies[i];
            out.push((id.clone(), p.clone()));
            proof {
                assert(out@ =~= self.proxies@.subrange(0, i + 1));
            }
            i = i + 1;
        }
        proof {
            assert(out@ =~= self.proxies@);
        }
        Config { proxies: out }
    }
}

/// Holds the persisted images the application syncs with disk: the config
/// file (`None` while no file exists) and the active-selection marker file
/// (`None` while no marker file exists; its raw text otherwise).
#[derive(Debug)]
pub struct ConfigManager {
    config_file: String,
    current_file: String,
    config: Option<Config>,
    current: Option<String>,
}

impl ConfigManager {
    /// The inner store, where present, has pairwise distinct ids.
    pub closed spec fn wf(&self) -> bool {
        self.config matches Some(c) ==> c.wf()
    }

    /// The config-file image at view level: `None` while no file exists.
    pub closed spec fn spec_store(&self) -> Option<Seq<(String, ProxyConfig)>> {
        match self.config {
            Some(c) => Some(c.proxies@),
            None => None,
        }
    }

    /// The marker-file image: `None` while no marker file exists.
    pub closed spec fn spec_current(&self) -> Option<String> {
        self.current
    }

    /// Where the config file lives.
    pub closed spec fn spec_config_file(&self) -> String {
        self.config_file
    }

    /// Both file locations, for frame conditions.
    pub closed spec fn spec_files(&self) -> (String, String) {
        (self.config_file, self.current_file)
    }

    /// A manager over the given file locations and persisted images.
    pub fn new(
        config_file: String,
        current_file: String,
        config: Option<Config>,
        current: Option<String>,
    ) -> (r: Self)
        requires
            config matches Some(c) ==> c.wf(),
        ensures
            r.wf(),
            r.spec_store() == (match config {
                Some(c) => Some(c.proxies@),
                None => None::<Seq<(String, ProxyConfig)>>,
            }),
            r.spec_current() == current,
            r.spec_files() == (config_file, current_file),
    {
        ConfigManager { config_file, current_file, config, current }
    }

    /// The location of the config file.
    pub fn config_file(&self) -> (r: &String)
        ensures
            *r == self.spec_config_file(),
    {
        &self.config_file
    }

    /// The location of the active-selection marker file.
    pub fn current_file(&self) -> (r: &String)
        ensures
            *r == self.spec_files().1,
    {
        &self.current_file
    }

    /// The config-file image itself, without creating a default.
    pub fn config_ref(&self) -> (r: Option<&Config>)
        ensures
            match r {
                Some(c) => self.spec_store() == Some(c.proxies@),
                None => self.spec_store() is None,
            },
    {
        match &self.config {
            Some(c) => Some(c),
            None => None,
        }
    }

    /// The raw marker-file image, untrimmed.
    pub fn current_ref(&self) -> (r: Option<&String>)
        ensures
            match r {
                Some(c) => self.spec_current() matches Some(c2) && c2@ == c@,
                None => self.spec_current() is None,
            },
    {
        match &self.current {
            Some(c) => Some(c),
            None => None,
        }
    }

    /// Whether a config file exists at all.
    pub fn config_exists(&self) -> (r: bool)
        ensures
            r == (self.spec_store() matches Some(_)),
    {
        match &self.config {
            Some(_) => true,
            None => false,
        }
    }

    /// The active selection: the marker's text, trimmed; an absent marker or
    /// one holding only whitespace means no selection.
    pub fn load_current_proxy(&self) -> (r: Option<String>)
        ensures
            match self.spec_current() {
                None => r is None,
                Some(c) => if trimmed(c@).len() == 0 {
                    r is None
                } else {
                    r matches Some(id) && id@ == trimmed(c@)
                },
            },
    {
        match &self.current {
            None => None,
            Some(c) => {
                let t = trim(c.as_str());
                if t.as_str().unicode_len() == 0 {
                    None
                } else {
                    Some(t)
                }
            },
        }
    }

    /// Record `proxy_id` as the active selection.
    pub fn save_current_proxy(&mut self, proxy_id: &str)
        ensures
            final(self).spec_current() matches Some(c) && c@ == proxy_id@,
            final(self).spec_store() == old(self).spec_store(),
            final(self).spec_files() == old(self).spec_files(),
            final(self).wf() == old(self).wf(),
    {
        self.current = Some(proxy_id.to_owned());
    }

    /// Forget the active selection (the marker file is removed).
    pub fn clear_current_proxy(&mut self)
        ensures
            final(self).spec_current() is None,
            final(self).spec_store() == old(self).spec_store(),
            final(self).spec_files() == old(self).spec_files(),
            final(self).wf() == old(self).wf(),
    {
        self.current = None;
    }

    /// Replace the stored config image.
    pub fn save_config(&mut self, config: &Config)
        requires
            config.wf(),
        ensures
            final(self).wf(),
            final(self).spec_store() == Some(config.proxies@),
            final(self).spec_current() == old(self).spec_current(),
            final(self).spec_files() == old(self).spec_files(),
    {
        self.config = Some(config.clone());
    }

    /// The store: a copy of the existing config, or — when no config file
    /// exists yet — a freshly created and persisted default store.
    pub fn load_config(&mut self) -> (r: Config)
        requires
            old(self).wf(),
        ensures
            final(self).wf(),
            r.wf(),
            final(self).spec_store() == Some(r.proxies@),
            final(self).spec_current() == old(self).spec_current(),
            final(self).spec_files() == old(self).spec_files(),
            match old(self).spec_store() {
                Some(s) => r.proxies@ == s,
                None => is_default_entries(r.proxies@),
            },
    {
        match &self.config {
            Some(c) => c.clone(),
            None => self.create_default_config(),
        }
    }

    /// Build and persist the fixed default store of example profiles.
    pub fn create_default_config(&mut self) -> (r: Config)
        ensures
            final(self).wf(),
            r.wf(),
            is_default_entries(r.proxies@),
            final(self).spec_store() == Some(r.proxies@),
            final(self).spec_current() == old(self).spec_current(),
            final(self).spec_files() == old(self).spec_files(),
    {
        let mut config = Config::new();
        proof {
            reveal_strlit("wenwen");
            reveal_strlit("anyrouter");
            assert("wenwen"@.len() == 6);
            assert("anyrouter"@.len() == 9);
        }
        config.insert(
            "wenwen".to_owned(),
            ProxyConfig {
                name: "WenWen AI".to_owned(),
                url: "https://api.wenwenai.com".to_owned(),
                api_key: None,
                auth_token: Some("your-auth-token-here".to_owned()),
            },
        );
        config.insert(
            "anyrouter".to_owned(),
            ProxyConfig {
                name: "AnyRouter".to_owned(),
                url: "https://api.anyrouter.ai".to_owned(),
                api_key: Some("your-api-key-here".to_owned()),
                auth_token: None,
            },
        );
        self.config = Some(config.clone());
        config
    }
}

/// The shape of the default store: two example profiles, each with exactly
/// one credential filled with a placeholder.
pub open spec fn is_default_entries(s: Seq<(String, ProxyConfig)>) -> bool {
    &&& s.len() == 2
    &&& s[0].0@ == "wenwen"@
    &&& s[0].1.name@ == "WenWen AI"@
    &&& s[0].1.url@ == "https://api.wenwenai.com"@
    &&& s[0].1.api_key is None
    &&& (s[0].1.auth_token matches Some(t) && t@ == "your-auth-token-here"@)
    &&& s[1].0@ == "anyrouter"@
    &&& s[1].1.name@ == "AnyRouter"@
    &&& s[1].1.url@ == "https://api.anyrouter.ai"@
    &&& (s[1].1.api_key matches Some(k) && k@ == "your-api-key-here"@)
    &&& s[1].1.auth_token is None
}

} // verus!
