//! The controller: composes the store, the marker and the environment
//! projection into the user-facing operations — switch, add, remove, reload,
//! init, status, listing and start-up restoration.
use vstd::prelude::*;
use crate::config::{Config, ConfigManager, ProxyConfig, has_credential, has_key, value_of,
    entries_after_insert, entries_after_remove, is_default_entries, key_at};
use crate::env_manager::{EnvManager, EnvStatus, env_applied, env_cleared};
use crate::strutil::{trimmed, str_eq};
use crate::ProxyError;

verus! {

/// The active selection a marker image denotes: its trimmed text, with an
/// absent or blank marker meaning none.
pub open spec fn active_of(m: Option<String>) -> Option<Seq<char>> {
    match m {
        None => None,
        Some(c) => if trimmed(c@).len() == 0 {
            None
        } else {
            Some(trimmed(c@))
        },
    }
}

/// What a load left in place of a possibly-absent store image: the image
/// itself, or the freshly created default store.
pub open spec fn loaded_entries(
    pre: Option<Seq<(String, ProxyConfig)>>,
    s: Seq<(String, ProxyConfig)>,
) -> bool {
    match pre {
        Some(p) => s == p,
        None => is_default_entries(s),
    }
}

/// How re-resolving the active selection went, for reporting.
#[derive(Debug)]
pub enum RestoreOutcome {
    /// The selection named an existing profile; its environment was applied.
    Applied { id: String, name: String },
    /// The selection dangled: it named no stored profile and was cleared.
    ClearedDangling { id: String },
    /// No selection was set; nothing happened.
    NoneActive,
}

/// One row of the non-interactive listing.
#[derive(Debug)]
pub struct ListEntry {
    pub id: String,
    pub name: String,
    pub url: String,
    pub is_current: bool,
}

/// The data a status report shows: the environment read-back and, where the
/// applied profile id still names a stored profile, its display name.
#[derive(Debug)]
pub struct StatusReport {
    pub env: EnvStatus,
    pub active_name: Option<String>,
}

/// The controller over one store image and one environment context.
#[derive(Debug)]
pub struct ProxyManager {
    config_manager: ConfigManager,
    env_manager: EnvManager,
}

impl ProxyManager {
    /// The store is well-formed.
    pub closed spec fn wf(&self) -> bool {
        self.config_manager.wf()
    }

    /// The config-file image, at view level.
    pub closed spec fn store(&self) -> Option<Seq<(String, ProxyConfig)>> {
        self.config_manager.spec_store()
    }

    /// The marker-file image.
    pub closed spec fn marker(&self) -> Option<String> {
        self.config_manager.spec_current()
    }

    /// The environment context.
    pub closed spec fn env(&self) -> EnvManager {
        self.env_manager
    }

    /// A controller that restores the persisted selection at once: if the
    /// marker resolves to a stored profile its environment is applied; a
    /// dangling marker is cleared; an empty marker changes nothing.
    pub fn new(config_manager: ConfigManager, env_manager: EnvManager) -> (r: Self)
        requires
            config_manager.wf(),
        ensures
            r.wf(),
            exists|o: RestoreOutcome| restore_rel(
                config_manager.spec_store(),
                config_manager.spec_current(),
                env_manager,
                r.store(),
                r.marker(),
                r.env(),
                o,
            ),
    {
        let mut manager = ProxyManager { config_manager, env_manager };
        let outcome = manager.auto_restore_proxy();
        proof {
            assert(restore_rel(
                config_manager.spec_store(),
                config_manager.spec_current(),
                env_manager,
                manager.store(),
                manager.marker(),
                manager.env(),
                outcome,
            ));
        }
        manager
    }

    /// A controller that leaves the persisted selection alone.
    pub fn new_without_restore(config_manager: ConfigManager, env_manager: EnvManager) -> (r:
        Self)
        requires
            config_manager.wf(),
        ensures
            r.wf(),
            r.store() == config_manager.spec_store(),
            r.marker() == config_manager.spec_current(),
            r.env() == env_manager,
    {
        ProxyManager { config_manager, env_manager }
    }

    /// Try to restore the persisted selection; never fails, only reports.
    pub fn auto_restore_proxy(&mut self) -> (o: RestoreOutcome)
        requires
            old(self).wf(),
        ensures
            final(self).wf(),
            restore_rel(
                old(self).store(),
                old(self).marker(),
                old(self).env(),
                final(self).store(),
                final(self).marker(),
                final(self).env(),
                o,
            ),
    {
        let current = self.config_manager.load_current_proxy();
        match current {
            None => RestoreOutcome::NoneActive,
            Some(id) => {
                let config = self.config_manager.load_config();
                match config.get(id.as_str()) {
                    Some(p) => {
                        let name = p.name.clone();
                        self.env_manager.set_proxy_env(id.as_str(), p);
                        RestoreOutcome::Applied { id, name }
                    },
                    None => {
                        self.config_manager.clear_current_proxy();
                        RestoreOutcome::ClearedDangling { id }
                    },
                }
            },
        }
    }

    /// The store, loading the default on first use.
    pub fn load_config(&mut self) -> (r: Config)
        requires
            old(self).wf(),
        ensures
            final(self).wf(),
            r.wf(),
            loaded_entries(old(self).store(), r.proxies@),
            final(self).store() == Some(r.proxies@),
            final(self).marker() == old(self).marker(),
            final(self).env() == old(self).env(),
    {
        self.config_manager.load_config()
    }

    /// The persisted active selection, trimmed; `None` when unset.
    pub fn load_current_proxy(&self) -> (r: Option<String>)
        ensures
            match active_of(self.marker()) {
                None => r is None,
                Some(a) => r matches Some(id) && id@ == a,
            },
    {
        self.config_manager.load_current_proxy()
    }

    /// Switch to the profile under `proxy_id`: refuse an unknown id and a
    /// profile without a usable credential; otherwise apply its environment
    /// and persist the selection.
    pub fn switch_proxy(&mut self, proxy_id: &str) -> (r: Result<(), ProxyError>)
        requires
            old(self).wf(),
        ensures
            final(self).wf(),
            final(self).store() matches Some(s) && loaded_entries(old(self).store(), s) && (
            match r {
                Err(ProxyError::NotFound) => {
                    &&& !has_key(s, proxy_id@)
                    &&& final(self).env() == old(self).env()
                    &&& final(self).marker() == old(self).marker()
                },
                Err(ProxyError::MissingCredential) => {
                    &&& has_key(s, proxy_id@)
                    &&& !has_credential(value_of(s, proxy_id@))
                    &&& final(self).env() == old(self).env()
                    &&& final(self).marker() == old(self).marker()
                },
                Ok(()) => {
                    &&& has_key(s, proxy_id@)
                    &&& has_credential(value_of(s, proxy_id@))
                    &&& env_applied(final(self).env(), proxy_id@, value_of(s, proxy_id@))
                    &&& (final(self).marker() matches Some(m) && m@ == proxy_id@)
                },
                Err(_) => false,
            }),
    {
        let config = self.config_manager.load_config();
        let p = match config.get(proxy_id) {
            Some(p) => p,
            None => {
                return Err(ProxyError::NotFound);
            },
        };
        if !p.usable_credential() {
            return Err(ProxyError::MissingCredential);
        }
        self.env_manager.set_proxy_env(proxy_id, p);
        self.config_manager.save_current_proxy(proxy_id);
        Ok(())
    }

    /// Store a profile under `proxy_id`, overwriting an entry already there
    /// (reported, not an error); refuse a profile with both credential
    /// fields empty or absent. The marker and the environment are untouched.
    pub fn add_proxy(
        &mut self,
        proxy_id: &str,
        name: &str,
        url: &str,
        api_key: Option<&str>,
        auth_token: Option<&str>,
    ) -> (r: Result<bool, ProxyError>)
        requires
            old(self).wf(),
        ensures
            final(self).wf(),
            final(self).marker() == old(self).marker(),
            final(self).env() == old(self).env(),
            r matches Err(e) ==> {
                &&& e == ProxyError::MissingCredential
                &&& !args_have_credential(api_key, auth_token)
                &&& final(self).store() == old(self).store()
            },
            r matches Ok(overwrote) ==> {
                &&& args_have_credential(api_key, auth_token)
                &&& exists|s: Seq<(String, ProxyConfig)>, e: (String, ProxyConfig)| {
                    &&& loaded_entries(old(self).store(), s)
                    &&& e.0@ == proxy_id@
                    &&& e.1.name@ == name@
                    &&& e.1.url@ == url@
                    &&& opt_views_match(e.1.api_key, api_key)
                    &&& opt_views_match(e.1.auth_token, auth_token)
                    &&& final(self).store() == Some(#[trigger] entries_after_insert(s, e))
                    &&& overwrote == has_key(s, proxy_id@)
                }
            },
    {
        let key_ok = match api_key {
            Some(k) => k.unicode_len() > 0,
            None => false,
        };
        let token_ok = match auth_token {
            Some(t) => t.unicode_len() > 0,
            None => false,
        };
        if !key_ok && !token_ok {
            return Err(ProxyError::MissingCredential);
        }
        let mut config = self.config_manager.load_config();
        let ghost s = config.proxies@;
        let p = ProxyConfig {
            name: name.to_owned(),
            url: url.to_owned(),
            api_key: match api_key {
                Some(k) => Some(k.to_owned()),
                None => None,
            },
            auth_token: match auth_token {
                Some(t) => Some(t.to_owned()),
                None => None,
            },
        };
        let id = proxy_id.to_owned();
        let ghost e = (id, p);
        let overwrote = config.insert(id, p);
        self.config_manager.save_config(&config);
        proof {
            assert(loaded_entries(old(self).store(), s));
            assert(final(self).store() == Some(entries_after_insert(s, e)));
        }
        Ok(overwrote)
    }

    /// The display name of the profile under `proxy_id`, for the removal
    /// confirmation prompt; fails on an unknown id.
    pub fn remove_target_name(&mut self, proxy_id: &str) -> (r: Result<String, ProxyError>)
        requires
            old(self).wf(),
        ensures
            final(self).wf(),
            final(self).marker() == old(self).marker(),
            final(self).env() == old(self).env(),
            final(self).store() matches Some(s) && loaded_entries(old(self).store(), s) && (
            match r {
                Ok(n) => has_key(s, proxy_id@) && n@ == value_of(s, proxy_id@).name@,
                Err(e) => e == ProxyError::NotFound && !has_key(s, proxy_id@),
            }),
    {
        let config = self.config_manager.load_config();
        match config.get(proxy_id) {
            Some(p) => Ok(p.name.clone()),
            None => Err(ProxyError::NotFound),
        }
    }

    /// The confirmed removal of the profile under `proxy_id`: delete and
    /// persist; when the removed id is the active selection, additionally
    /// clear every environment slot and the marker. A non-active removal
    /// leaves marker and environment untouched. Reports whether the active
    /// profile was the one removed.
    pub fn remove_proxy(&mut self, proxy_id: &str) -> (r: Result<bool, ProxyError>)
        requires
            old(self).wf(),
        ensures
            final(self).wf(),
            exists|s: Seq<(String, ProxyConfig)>| {
                &&& #[trigger] loaded_entries(old(self).store(), s)
                &&& match r {
                    Err(e) => {
                        &&& e == ProxyError::NotFound
                        &&& !has_key(s, proxy_id@)
                        &&& final(self).store() == Some(s)
                        &&& final(self).marker() == old(self).marker()
                        &&& final(self).env() == old(self).env()
                    },
                    Ok(was_active) => {
                        &&& has_key(s, proxy_id@)
                        &&& final(self).store() == Some(entries_after_remove(s, proxy_id@))
                        &&& was_active == (active_of(old(self).marker()) matches Some(a)
                            && a == proxy_id@)
                        &&& (if was_active {
                            env_cleared(final(self).env()) && final(self).marker() is None
                        } else {
                            final(self).env() == old(self).env() && final(self).marker() == old(
                                self,
                            ).marker()
                        })
                    },
                }
            },
    {
        let mut config = self.config_manager.load_config();
        let ghost s = config.proxies@;
        if !config.contains_key(proxy_id) {
            proof {
                assert(loaded_entries(old(self).store(), s));
            }
            return Err(ProxyError::NotFound);
        }
        config.remove(proxy_id);
        self.config_manager.save_config(&config);
        let was_active = match self.config_manager.load_current_proxy() {
            Some(cur) => str_eq(cur.as_str(), proxy_id),
            None => false,
        };
        if was_active {
            self.env_manager.clear_all_env();
            self.config_manager.clear_current_proxy();
        }
        proof {
            assert(loaded_entries(old(self).store(), s));
        }
        Ok(was_active)
    }

    /// Re-read the store and re-resolve the active selection: an existing
    /// selection is re-applied silently; a dangling one has both the marker
    /// and the environment cleared — a warning, never a failure. Refuses to
    /// run only when no config file exists at all.
    pub fn reload_config(&mut self) -> (r: Result<RestoreOutcome, ProxyError>)
        requires
            old(self).wf(),
        ensures
            final(self).wf(),
            match r {
                Err(e) => {
                    &&& e == ProxyError::NoConfigFile
                    &&& old(self).store() is None
                    &&& final(self).store() == old(self).store()
                    &&& final(self).marker() == old(self).marker()
                    &&& final(self).env() == old(self).env()
                },
                Ok(outcome) => {
                    &&& old(self).store() matches Some(s) && final(self).store() == Some(s) && (
                    match active_of(old(self).marker()) {
                        None => {
                            &&& outcome is NoneActive
                            &&& final(self).marker() == old(self).marker()
                            &&& final(self).env() == old(self).env()
                        },
                        Some(a) => if has_key(s, a) {
                            &&& (outcome matches RestoreOutcome::Applied { id, name } && id@ == a
                                && name@ == value_of(s, a).name@)
                            &&& env_applied(final(self).env(), a, value_of(s, a))
                            &&& final(self).marker() == old(self).marker()
                        } else {
                            &&& (outcome matches RestoreOutcome::ClearedDangling { id }
                                && id@ == a)
                            &&& env_cleared(final(self).env())
                            &&& final(self).marker() is None
                        },
                    })
                },
            },
    {
        if !self.config_manager.config_exists() {
            return Err(ProxyError::NoConfigFile);
        }
        let config = self.config_manager.load_config();
        let current = self.config_manager.load_current_proxy();
        match current {
            None => Ok(RestoreOutcome::NoneActive),
            Some(id) => {
                match config.get(id.as_str()) {
                    Some(p) => {
                        let name = p.name.clone();
                        self.env_manager.set_proxy_env(id.as_str(), p);
                        Ok(RestoreOutcome::Applied { id, name })
                    },
                    None => {
                        self.env_manager.clear_all_env();
                        self.config_manager.clear_current_proxy();
                        Ok(RestoreOutcome::ClearedDangling { id })
                    },
                }
            },
        }
    }

    /// Write the fixed default store, overwriting whatever was there. The
    /// confirmation step, when a config already exists, belongs to the
    /// caller.
    pub fn init_config(&mut self) -> (r: Config)
        requires
            old(self).wf(),
        ensures
            final(self).wf(),
            r.wf(),
            is_default_entries(r.proxies@),
            final(self).store() == Some(r.proxies@),
            final(self).marker() == old(self).marker(),
            final(self).env() == old(self).env(),
    {
        self.config_manager.create_default_config()
    }

    /// The listing rows: every stored profile in store order, the one
    /// matching the active selection flagged.
    pub fn list_proxies(&mut self) -> (r: Vec<ListEntry>)
        requires
            old(self).wf(),
        ensures
            final(self).wf(),
            final(self).marker() == old(self).marker(),
            final(self).env() == old(self).env(),
            final(self).store() matches Some(s) && loaded_entries(old(self).store(), s) && {
                &&& r@.len() == s.len()
                &&& forall|i: int| 0 <= i < s.len() ==> {
                    &&& (#[trigger] r@[i]).id@ == key_at(s, i)
                    &&& r@[i].name@ == s[i].1.name@
                    &&& r@[i].url@ == s[i].1.url@
                    &&& r@[i].is_current == (active_of(old(self).marker()) matches Some(a)
                        && a == key_at(s, i))
                }
            },
    {
        let config = self.config_manager.load_config();
        let current = self.config_manager.load_current_proxy();
        let n = config.proxies.len();
        let mut rows: Vec<ListEntry> = Vec::new();
        let mut i: usize = 0;
        while i < n
            invariant
                n == config.proxies@.len(),
                i <= n,
                rows@.len() == i,
                match current {
                    Some(c) => active_of(self.marker()) matches Some(a) && a == c@,
                    None => active_of(self.marker()) is None,
                },
                forall|k: int| 0 <= k < i ==> {
                    &&& (#[trigger] rows@[k]).id@ == key_at(config.proxies@, k)
                    &&& rows@[k].name@ == config.proxies@[k].1.name@
                    &&& rows@[k].url@ == config.proxies@[k].1.url@
                    &&& rows@[k].is_current == (active_of(self.marker()) matches Some(a)
                        && a == key_at(config.proxies@, k))
                },
            decreases n - i,
        {
            let (id, p) = &config.proxies[i];
            let is_current = match &current {
                Some(c) => str_eq(c.as_str(), id.as_str()),
                None => false,
            };
            rows.push(ListEntry {
                id: id.clone(),
                name: p.name.clone(),
                url: p.url.clone(),
                is_current,
            });
            i = i + 1;
        }
        rows
    }

    /// What status reporting shows: the environment read-back, plus the
    /// stored display name when the applied profile id still names a stored
    /// profile.
    pub fn show_status(&mut self) -> (r: StatusReport)
        requires
            old(self).wf(),
        ensures
            final(self).wf(),
            final(self).marker() == old(self).marker(),
            final(self).env() == old(self).env(),
            r.env.base_url == final(self).env().base_url,
            r.env.api_key == final(self).env().api_key,
            r.env.auth_token == final(self).env().auth_token,
            r.env.proxy_id == final(self).env().proxy_id,
            final(self).store() matches Some(s) && loaded_entries(old(self).store(), s) && (
            match final(self).env().proxy_id {
                Some(pid) => if has_key(s, pid@) {
                    r.active_name matches Some(n) && n@ == value_of(s, pid@).name@
                } else {
                    r.active_name is None
                },
                None => r.active_name is None,
            }),
    {
        let env = self.env_manager.get_env_status();
        let config = self.config_manager.load_config();
        let active_name = match &env.proxy_id {
            Some(pid) => match config.get(pid.as_str()) {
                Some(p) => Some(p.name.clone()),
                None => None,
            },
            None => None,
        };
        StatusReport { env, active_name }
    }

    /// The current environment slots, for publication by the caller.
    pub fn env_snapshot(&self) -> (r: EnvStatus)
        ensures
            r.base_url == self.env().base_url,
            r.api_key == self.env().api_key,
            r.auth_token == self.env().auth_token,
            r.proxy_id == self.env().proxy_id,
    {
        self.env_manager.get_env_status()
    }

    /// Whether a config file exists at all.
    pub fn config_exists(&self) -> (r: bool)
        ensures
            r == (self.store() matches Some(_)),
    {
        self.config_manager.config_exists()
    }

    /// The store image itself, without creating a default: what persisting
    /// should write back.
    pub fn store_snapshot(&self) -> (r: Option<&Config>)
        ensures
            match r {
                Some(c) => self.store() == Some(c.proxies@),
                None => self.store() is None,
            },
    {
        self.config_manager.config_ref()
    }

    /// The raw marker image: what persisting should write back.
    pub fn marker_snapshot(&self) -> (r: Option<&String>)
        ensures
            match r {
                Some(c) => self.marker() matches Some(c2) && c2@ == c@,
                None => self.marker() is None,
            },
    {
        self.config_manager.current_ref()
    }
}

/// A credential argument pair is usable when at least one is present and
/// non-empty.
pub open spec fn args_have_credential(api_key: Option<&str>, auth_token: Option<&str>) -> bool {
    ||| (api_key matches Some(k) && k@.len() > 0)
    ||| (auth_token matches Some(t) && t@.len() > 0)
}

/// The stored optional field carries exactly the characters of the optional
/// argument.
pub open spec fn opt_views_match(stored: Option<String>, arg: Option<&str>) -> bool {
    match (stored, arg) {
        (Some(s), Some(a)) => s@ == a@,
        (None, None) => true,
        _ => false,
    }
}

/// How start-up restoration transforms the persisted images and the
/// environment: an empty selection changes nothing; a selection naming a
/// stored profile has that profile's environment applied (loading the
/// default store first where none existed); a dangling selection has the
/// marker cleared and the environment left alone.
pub open spec fn restore_rel(
    store0: Option<Seq<(String, ProxyConfig)>>,
    marker0: Option<String>,
    env0: EnvManager,
    store1: Option<Seq<(String, ProxyConfig)>>,
    marker1: Option<String>,
    env1: EnvManager,
    o: RestoreOutcome,
) -> bool {
    match active_of(marker0) {
        None => {
            &&& store1 == store0
            &&& marker1 == marker0
            &&& env1 == env0
            &&& o is NoneActive
        },
        Some(a) => {
            &&& store1 matches Some(s) && loaded_entries(store0, s) && (if has_key(s, a) {
                &&& (o matches RestoreOutcome::Applied { id, name } && id@ == a && name@
                    == value_of(s, a).name@)
                &&& env_applied(env1, a, value_of(s, a))
                &&& marker1 == marker0
            } else {
                &&& (o matches RestoreOutcome::ClearedDangling { id } && id@ == a)
                &&& env1 == env0
                &&& marker1 is None
            })
        },
    }
}

/// Switching and then reading the status back: the snapshot shows the
/// stored definition's base URL and the switched id, and a credential slot
/// the new definition does not supply (absent or empty field) reads back as
/// unset — never a leftover from an earlier switch.
pub proof fn lemma_switch_then_status(e: EnvManager, id: Seq<char>, p: ProxyConfig)
    requires
        env_applied(e, id, p),
    ensures
        e.base_url matches Some(u) && u@ == p.url@,
        e.proxy_id matches Some(i) && i@ == id,
        (match p.api_key {
            Some(k) => k@.len() == 0,
            None => true,
        }) ==> e.api_key is None,
        (match p.auth_token {
            Some(t) => t@.len() == 0,
            None => true,
        }) ==> e.auth_token is None,
{
}

/// Adding twice under one id overwrites: the result is the single insert of
/// the latest definition, and the store is no larger than after the first
/// add — exactly one entry holds the id, with the latest fields.
pub proof fn lemma_add_overwrites(
    s: Seq<(String, ProxyConfig)>,
    e1: (String, ProxyConfig),
    e2: (String, ProxyConfig),
)
    requires
        crate::config::keys_unique(s),
        e1.0@ == e2.0@,
    ensures
        entries_after_insert(entries_after_insert(s, e1), e2) == entries_after_insert(s, e2),
        entries_after_insert(entries_after_insert(s, e1), e2).len() == entries_after_insert(
            s,
            e1,
        ).len(),
        has_key(entries_after_insert(entries_after_insert(s, e1), e2), e2.0@),
        value_of(entries_after_insert(entries_after_insert(s, e1), e2), e2.0@) == e2.1,
{
    let id = e1.0@;
    let s1 = entries_after_insert(s, e1);
    if has_key(s, id) {
        let w = crate::config::index_of_key(s, id);
        assert(0 <= w < s.len() && key_at(s, w) == id);
        assert(s1 == s.update(w, e1));
        assert(key_at(s1, w) == id);
        assert(has_key(s1, id));
        let w1 = crate::config::index_of_key(s1, id);
        assert(0 <= w1 < s1.len() && key_at(s1, w1) == id);
        if w1 != w {
            assert(key_at(s, w1) == key_at(s1, w1));
            assert(key_at(s, w1) != key_at(s, w));
        }
        assert(s1.update(w, e2) =~= s.update(w, e2));
        let s2 = entries_after_insert(s1, e2);
        assert(s2 == s1.update(w, e2));
        let w2 = crate::config::index_of_key(s2, id);
        assert(key_at(s2, w) == id);
        assert(0 <= w2 < s2.len() && key_at(s2, w2) == id);
        if w2 != w {
            assert(key_at(s, w2) == key_at(s2, w2));
            assert(key_at(s, w2) != key_at(s, w));
        }
        assert(value_of(s2, id) == e2.1);
    } else {
        assert(s1 == s.push(e1));
        assert(key_at(s1, s.len() as int) == id);
        assert(has_key(s1, id));
        let w1 = crate::config::index_of_key(s1, id);
        assert(0 <= w1 < s1.len() && key_at(s1, w1) == id);
        if w1 != s.len() {
            assert(key_at(s, w1) == key_at(s1, w1));
            assert(has_key(s, id));
        }
        let s2 = entries_after_insert(s1, e2);
        assert(s2 == s1.update(s.len() as int, e2));
        assert(s2 =~= s.push(e2));
        assert(s2 == entries_after_insert(s, e2));
        let w2 = crate::config::index_of_key(s2, id);
        assert(key_at(s2, s.len() as int) == id);
        assert(0 <= w2 < s2.len() && key_at(s2, w2) == id);
        if w2 != s.len() {
            assert(key_at(s, w2) == key_at(s2, w2));
            assert(has_key(s, id));
        }
        assert(value_of(s2, id) == e2.1);
    }
}

} // verus!
