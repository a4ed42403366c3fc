use claude_px::config::{Config, ConfigManager, ProxyConfig};
use claude_px::env_manager::EnvManager;
use claude_px::proxy::{ProxyManager, RestoreOutcome};
use claude_px::ProxyError;

fn profile(name: &str, url: &str, api_key: Option<&str>, auth_token: Option<&str>) -> ProxyConfig {
    ProxyConfig {
        name: name.to_string(),
        url: url.to_string(),
        api_key: api_key.map(|s| s.to_string()),
        auth_token: auth_token.map(|s| s.to_string()),
    }
}

fn two_profile_store() -> Config {
    let mut c = Config::new();
    c.insert(
        "a".to_string(),
        profile("Alpha", "https://a.example", Some("k1"), None),
    );
    c.insert(
        "b".to_string(),
        profile("Beta", "https://b.example", None, Some("t1")),
    );
    c
}

fn manager(config: Option<Config>, marker: Option<&str>) -> ProxyManager {
    let cm = ConfigManager::new(
        "config.json".to_string(),
        "current".to_string(),
        config,
        marker.map(|s| s.to_string()),
    );
    ProxyManager::new_without_restore(cm, EnvManager::new())
}

#[test]
fn switch_unknown_id_fails_not_found() {
    let mut pm = manager(Some(two_profile_store()), None);
    let r = pm.switch_proxy("missing");
    assert_eq!(r, Err(ProxyError::NotFound));
    let snap = pm.env_snapshot();
    assert!(snap.base_url.is_none());
    assert!(snap.proxy_id.is_none());
}

#[test]
fn remove_unknown_id_fails_not_found() {
    let mut pm = manager(Some(two_profile_store()), None);
    assert_eq!(pm.remove_proxy("missing"), Err(ProxyError::NotFound));
    assert_eq!(pm.remove_target_name("missing"), Err(ProxyError::NotFound));
}

#[test]
fn add_without_credentials_fails() {
    let mut pm = manager(Some(two_profile_store()), None);
    let r = pm.add_proxy("c", "Gamma", "https://c.example", None, None);
    assert_eq!(r, Err(ProxyError::MissingCredential));
    let r = pm.add_proxy("c", "Gamma", "https://c.example", Some(""), Some(""));
    assert_eq!(r, Err(ProxyError::MissingCredential));
    assert_eq!(pm.load_config().len(), 2);
}

#[test]
fn switch_to_credentialless_profile_fails() {
    let mut store = two_profile_store();
    store.insert(
        "bare".to_string(),
        profile("Bare", "https://bare.example", None, None),
    );
    let mut pm = manager(Some(store), None);
    assert_eq!(pm.switch_proxy("bare"), Err(ProxyError::MissingCredential));
    let mut store = two_profile_store();
    store.insert(
        "empty".to_string(),
        profile("Empty", "https://e.example", Some(""), Some("")),
    );
    let mut pm = manager(Some(store), None);
    assert_eq!(pm.switch_proxy("empty"), Err(ProxyError::MissingCredential));
}

#[test]
fn switch_then_status_reports_matching_fields() {
    let mut pm = manager(Some(two_profile_store()), None);
    assert_eq!(pm.switch_proxy("a"), Ok(()));
    let st = pm.show_status();
    assert_eq!(st.env.base_url.as_deref(), Some("https://a.example"));
    assert_eq!(st.env.proxy_id.as_deref(), Some("a"));
    assert_eq!(st.env.api_key.as_deref(), Some("k1"));
    assert!(st.env.auth_token.is_none());
    assert_eq!(st.active_name.as_deref(), Some("Alpha"));
}

#[test]
fn switch_clears_stale_credential_slot() {
    let mut pm = manager(Some(two_profile_store()), None);
    assert_eq!(pm.switch_proxy("a"), Ok(()));
    assert_eq!(pm.switch_proxy("b"), Ok(()));
    let snap = pm.env_snapshot();
    assert_eq!(snap.base_url.as_deref(), Some("https://b.example"));
    assert_eq!(snap.auth_token.as_deref(), Some("t1"));
    assert!(snap.api_key.is_none(), "stale api key must not survive");
    assert_eq!(snap.proxy_id.as_deref(), Some("b"));
}

#[test]
fn add_twice_overwrites_without_growing() {
    let mut pm = manager(Some(two_profile_store()), None);
    let r = pm.add_proxy("c", "First", "https://one.example", Some("k"), None);
    assert_eq!(r, Ok(false));
    let r = pm.add_proxy("c", "Second", "https://two.example", None, Some("t"));
    assert_eq!(r, Ok(true));
    let store = pm.load_config();
    assert_eq!(store.len(), 3);
    let p = store.get("c").expect("entry must exist");
    assert_eq!(p.name, "Second");
    assert_eq!(p.url, "https://two.example");
    assert!(p.api_key.is_none());
    assert_eq!(p.auth_token.as_deref(), Some("t"));
}

#[test]
fn remove_active_profile_clears_env_and_marker() {
    let mut pm = manager(Some(two_profile_store()), None);
    assert_eq!(pm.switch_proxy("a"), Ok(()));
    assert_eq!(pm.remove_proxy("a"), Ok(true));
    let snap = pm.env_snapshot();
    assert!(snap.base_url.is_none());
    assert!(snap.api_key.is_none());
    assert!(snap.auth_token.is_none());
    assert!(snap.proxy_id.is_none());
    assert!(pm.load_current_proxy().is_none());
    assert!(pm.load_config().get("a").is_none());
}

#[test]
fn remove_non_active_profile_keeps_marker() {
    let mut pm = manager(Some(two_profile_store()), None);
    assert_eq!(pm.switch_proxy("a"), Ok(()));
    assert_eq!(pm.remove_proxy("b"), Ok(false));
    assert_eq!(pm.load_current_proxy().as_deref(), Some("a"));
    let snap = pm.env_snapshot();
    assert_eq!(snap.proxy_id.as_deref(), Some("a"));
}

#[test]
fn reload_with_dangling_marker_recovers() {
    let mut pm = manager(Some(two_profile_store()), Some("gone"));
    let r = pm.reload_config();
    match r {
        Ok(RestoreOutcome::ClearedDangling { id }) => assert_eq!(id, "gone"),
        other => panic!("expected a cleared dangling selection, got {:?}", other),
    }
    assert!(pm.load_current_proxy().is_none());
    let snap = pm.env_snapshot();
    assert!(snap.base_url.is_none());
    assert!(snap.proxy_id.is_none());
}

#[test]
fn reload_reapplies_existing_marker() {
    let mut pm = manager(Some(two_profile_store()), Some("b"));
    let r = pm.reload_config();
    match r {
        Ok(RestoreOutcome::Applied { id, name }) => {
            assert_eq!(id, "b");
            assert_eq!(name, "Beta");
        }
        other => panic!("expected the selection re-applied, got {:?}", other),
    }
    let snap = pm.env_snapshot();
    assert_eq!(snap.base_url.as_deref(), Some("https://b.example"));
    assert_eq!(snap.auth_token.as_deref(), Some("t1"));
}

#[test]
fn reload_without_config_file_fails() {
    let mut pm = manager(None, Some("a"));
    assert!(matches!(pm.reload_config(), Err(ProxyError::NoConfigFile)));
}

#[test]
fn auto_restore_applies_marked_profile() {
    let mut pm = manager(Some(two_profile_store()), Some("a"));
    let o = pm.auto_restore_proxy();
    match o {
        RestoreOutcome::Applied { id, name } => {
            assert_eq!(id, "a");
            assert_eq!(name, "Alpha");
        }
        other => panic!("expected the profile restored, got {:?}", other),
    }
    let snap = pm.env_snapshot();
    assert_eq!(snap.base_url.as_deref(), Some("https://a.example"));
}

#[test]
fn auto_restore_clears_dangling_marker_without_touching_env() {
    let mut pm = manager(Some(two_profile_store()), Some("gone"));
    let o = pm.auto_restore_proxy();
    assert!(matches!(o, RestoreOutcome::ClearedDangling { .. }));
    assert!(pm.load_current_proxy().is_none());
}

#[test]
fn auto_restore_with_no_marker_does_nothing() {
    let mut pm = manager(Some(two_profile_store()), None);
    assert!(matches!(pm.auto_restore_proxy(), RestoreOutcome::NoneActive));
}

#[test]
fn marker_text_is_trimmed_and_blank_means_none() {
    let pm = manager(Some(two_profile_store()), Some("  a\n"));
    assert_eq!(pm.load_current_proxy().as_deref(), Some("a"));
    let pm = manager(Some(two_profile_store()), Some("   \n\t"));
    assert!(pm.load_current_proxy().is_none());
}

#[test]
fn load_config_creates_default_store_when_absent() {
    let mut pm = manager(None, None);
    assert!(!pm.config_exists());
    let store = pm.load_config();
    assert_eq!(store.len(), 2);
    assert!(pm.config_exists());
    let wenwen = store.get("wenwen").expect("default entry");
    assert_eq!(wenwen.name, "WenWen AI");
    assert_eq!(wenwen.url, "https://api.wenwenai.com");
    assert!(wenwen.api_key.is_none());
    assert_eq!(wenwen.auth_token.as_deref(), Some("your-auth-token-here"));
    let anyrouter = store.get("anyrouter").expect("default entry");
    assert_eq!(anyrouter.api_key.as_deref(), Some("your-api-key-here"));
    assert!(anyrouter.auth_token.is_none());
}

#[test]
fn init_config_overwrites_with_default() {
    let mut pm = manager(Some(two_profile_store()), None);
    let fresh = pm.init_config();
    assert_eq!(fresh.len(), 2);
    assert!(pm.load_config().get("a").is_none());
    assert!(pm.load_config().get("wenwen").is_some());
}

#[test]
fn list_rows_mark_the_active_entry() {
    let mut pm = manager(Some(two_profile_store()), Some("b"));
    let rows = pm.list_proxies();
    assert_eq!(rows.len(), 2);
    assert_eq!(rows[0].id, "a");
    assert!(!rows[0].is_current);
    assert_eq!(rows[1].id, "b");
    assert_eq!(rows[1].name, "Beta");
    assert_eq!(rows[1].url, "https://b.example");
    assert!(rows[1].is_current);
}

#[test]
fn empty_store_lists_nothing() {
    let mut pm = manager(Some(Config::new()), None);
    assert!(pm.load_config().is_empty());
    assert!(pm.list_proxies().is_empty());
}

#[test]
fn config_file_location_is_reported() {
    let cm = ConfigManager::new(
        "config.json".to_string(),
        "current".to_string(),
        None,
        None,
    );
    assert_eq!(cm.config_file(), "config.json");
    assert_eq!(cm.current_file(), "current");
    assert!(!cm.config_exists());
}

#[test]
fn full_scenario_switch_then_confirmed_remove() {
    let mut pm = manager(Some(two_profile_store()), None);

    assert_eq!(pm.switch_proxy("b"), Ok(()));
    let snap = pm.env_snapshot();
    assert_eq!(snap.base_url.as_deref(), Some("https://b.example"));
    assert_eq!(snap.auth_token.as_deref(), Some("t1"));
    assert!(snap.api_key.is_none());
    assert_eq!(snap.proxy_id.as_deref(), Some("b"));
    assert_eq!(pm.load_current_proxy().as_deref(), Some("b"));

    assert_eq!(pm.remove_target_name("b").as_deref(), Ok("Beta"));
    assert_eq!(pm.remove_proxy("b"), Ok(true));
    let store = pm.load_config();
    assert_eq!(store.len(), 1);
    assert!(store.get("a").is_some());
    assert!(store.get("b").is_none());
    assert!(pm.load_current_proxy().is_none());
    let snap = pm.env_snapshot();
    assert!(snap.proxy_id.is_none());
    assert!(snap.auth_token.is_none());
    assert!(snap.base_url.is_none());
}
