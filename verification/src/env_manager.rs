//! The applied-environment projection: an explicit context holding the four
//! managed slots (base URL, api key, auth token, active profile id), written
//! by every successful switch and read back for status reporting.
use vstd::prelude::*;
use vstd::string::StrSliceExecFns;
use crate::config::ProxyConfig;
use crate::strutil::clone_opt_string;

verus! {

/// Names of the managed environment slots, as the surrounding process
/// publishes them.
pub const BASE_URL_VAR: &'static str = "ANTHROPIC_BASE_URL";

pub const API_KEY_VAR: &'static str = "ANTHROPIC_API_KEY";

pub const AUTH_TOKEN_VAR: &'static str = "ANTHROPIC_AUTH_TOKEN";

pub const PROXY_ID_VAR: &'static str = "CLAUDE_PROXY_ID";

/// The four managed slots. `None` means the slot is unset.
#[derive(Debug)]
pub struct EnvManager {
    pub base_url: Option<String>,
    pub api_key: Option<String>,
    pub auth_token: Option<String>,
    pub proxy_id: Option<String>,
}

impl Default for EnvManager {
    fn default() -> (r: Self)
        ensures
            env_cleared(r),
    {
        EnvManager { base_url: None, api_key: None, auth_token: None, proxy_id: None }
    }
}

/// A read-back snapshot of the four slots.
#[derive(Debug)]
pub struct EnvStatus {
    pub base_url: Option<String>,
    pub api_key: Option<String>,
    pub auth_token: Option<String>,
    pub proxy_id: Option<String>,
}

/// The environment that applying profile `p` under id `id` leaves behind:
/// base URL and id always overwritten, each credential slot filled only from
/// a present, non-empty field — never left over from an earlier profile.
pub open spec fn env_applied(e: EnvManager, id: Seq<char>, p: ProxyConfig) -> bool {
    &&& e.base_url matches Some(u) && u@ == p.url@
    &&& e.proxy_id matches Some(i) && i@ == id
    &&& (match p.api_key {
        Some(k) => if k@.len() > 0 {
            e.api_key matches Some(k2) && k2@ == k@
        } else {
            e.api_key is None
        },
        None => e.api_key is None,
    })
    &&& (match p.auth_token {
        Some(t) => if t@.len() > 0 {
            e.auth_token matches Some(t2) && t2@ == t@
        } else {
            e.auth_token is None
        },
        None => e.auth_token is None,
    })
}

/// Every managed slot is unset.
pub open spec fn env_cleared(e: EnvManager) -> bool {
    &&& e.base_url is None
    &&& e.api_key is None
    &&& e.auth_token is None
    &&& e.proxy_id is None
}

impl EnvManager {
    /// A context with every slot unset.
    pub fn new() -> (r: Self)
        ensures
            env_cleared(r),
    {
        EnvManager { base_url: None, api_key: None, auth_token: None, proxy_id: None }
    }

    /// A context seeded from slots the surrounding process already had set.
    pub fn with_slots(
        base_url: Option<String>,
        api_key: Option<String>,
        auth_token: Option<String>,
        proxy_id: Option<String>,
    ) -> (r: Self)
        ensures
            r.base_url == base_url,
            r.api_key == api_key,
            r.auth_token == auth_token,
            r.proxy_id == proxy_id,
    {
        EnvManager { base_url, api_key, auth_token, proxy_id }
    }

    /// Project profile `config` into the slots: clear both credential slots
    /// first, then overwrite base URL and id, then set each credential slot
    /// only from a present, non-empty field.
    pub fn set_proxy_env(&mut self, proxy_id: &str, config: &ProxyConfig)
        ensures
            env_applied(*final(self), proxy_id@, *config),
    {
        self.clear_auth_env();
        self.base_url = Some(config.url.clone());
        self.proxy_id = Some(proxy_id.to_owned());
        match &config.api_key {
            Some(k) => {
                if k.as_str().unicode_len() > 0 {
                    self.api_key = Some(k.clone());
                }
            },
            None => {},
        }
        match &config.auth_token {
            Some(t) => {
                if t.as_str().unicode_len() > 0 {
                    self.auth_token = Some(t.clone());
                }
            },
            None => {},
        }
    }

    /// Unset both credential slots, leaving base URL and id alone.
    pub fn clear_auth_env(&mut self)
        ensures
            final(self).api_key is None,
            final(self).auth_token is None,
            final(self).base_url == old(self).base_url,
            final(self).proxy_id == old(self).proxy_id,
    {
        self.api_key = None;
        self.auth_token = None;
    }

    /// Unset every managed slot.
    pub fn clear_all_env(&mut self)
        ensures
            env_cleared(*final(self)),
    {
        self.base_url = None;
        self.api_key = None;
        self.auth_token = None;
        self.proxy_id = None;
    }

    /// Read back whatever is currently set, whether or not it matches the
    /// persisted active selection.
    pub fn get_env_status(&self) -> (r: EnvStatus)
        ensures
            r.base_url == self.base_url,
            r.api_key == self.api_key,
            r.auth_token == self.auth_token,
            r.proxy_id == self.proxy_id,
    {
        EnvStatus {
            base_url: clone_opt_string(&self.base_url),
            api_key: clone_opt_string(&self.api_key),
            auth_token: clone_opt_string(&self.auth_token),
            proxy_id: clone_opt_string(&self.proxy_id),
        }
    }
}

} // verus!
