use claude_px::config::{Config, ProxyConfig};
use claude_px::render::{detail_lines, display_url, env_var_display, help_line, list_row,
    mask_secret};
use claude_px::selector::{filter_proxies, KeyInput, SelectorState, SelectorStatus};

fn profile(name: &str, url: &str, api_key: Option<&str>, auth_token: Option<&str>) -> ProxyConfig {
    ProxyConfig {
        name: name.to_string(),
        url: url.to_string(),
        api_key: api_key.map(|s| s.to_string()),
        auth_token: auth_token.map(|s| s.to_string()),
    }
}

fn items() -> Vec<(String, ProxyConfig)> {
    let mut c = Config::new();
    c.insert(
        "a".to_string(),
        profile("Alpha", "https://a.example", Some("k1"), None),
    );
    c.insert(
        "b".to_string(),
        profile("Beta", "https://b.example", None, Some("t1")),
    );
    c.insert(
        "api_internal".to_string(),
        profile("Hidden", "https://i.example", Some("k2"), None),
    );
    c.proxies
}

#[test]
fn reserved_prefix_entries_are_never_listed() {
    let items = items();
    let shown = filter_proxies(&items, "");
    assert_eq!(shown.len(), 2);
    assert_eq!(shown[0].0, "a");
    assert_eq!(shown[1].0, "b");
}

#[test]
fn filtering_is_case_folded_across_id_name_and_url() {
    let items = items();
    // Matches only through the case-folded display name.
    let shown = filter_proxies(&items, "ALPHA");
    assert_eq!(shown.len(), 1);
    assert_eq!(shown[0].0, "a");
    // Matches through the URL.
    let shown = filter_proxies(&items, "b.example");
    assert_eq!(shown.len(), 1);
    assert_eq!(shown[0].0, "b");
    // Matches through the id.
    let shown = filter_proxies(&items, "B");
    assert_eq!(shown.len(), 1);
    assert_eq!(shown[0].0, "b");
}

#[test]
fn filtering_keeps_store_order() {
    let items = items();
    let shown = filter_proxies(&items, "example");
    assert_eq!(shown.len(), 2);
    assert_eq!(shown[0].0, "a");
    assert_eq!(shown[1].0, "b");
}

#[test]
fn no_match_yields_empty_list_and_enter_is_a_noop() {
    let items = items();
    let mut st = SelectorState::new();
    st.step(&items, KeyInput::Printable('/'));
    for c in "zzz".chars() {
        st.step(&items, KeyInput::Printable(c));
    }
    st.step(&items, KeyInput::Enter); // leave search mode, keep filter
    assert_eq!(filter_proxies(&items, &st.filter).len(), 0);
    st.step(&items, KeyInput::Enter); // Enter on an empty list: no-op
    assert!(matches!(st.status, SelectorStatus::Browsing));
    // Clearing the filter restores the full eligible list, cursor valid.
    st.step(&items, KeyInput::Printable('/'));
    st.step(&items, KeyInput::Esc);
    assert_eq!(st.filter, "");
    let shown = filter_proxies(&items, &st.filter);
    assert_eq!(shown.len(), 2);
    assert!(st.cursor < shown.len());
}

#[test]
fn navigation_wraps_around() {
    let items = items();
    let mut st = SelectorState::new();
    assert_eq!(st.cursor, 0);
    st.step(&items, KeyInput::Down);
    assert_eq!(st.cursor, 1);
    st.step(&items, KeyInput::Down);
    assert_eq!(st.cursor, 0, "down from the last entry wraps to the first");
    st.step(&items, KeyInput::Up);
    assert_eq!(st.cursor, 1, "up from the first entry wraps to the last");
}

#[test]
fn enter_commits_the_highlighted_entry() {
    let items = items();
    let mut st = SelectorState::new();
    st.step(&items, KeyInput::Down);
    st.step(&items, KeyInput::Enter);
    match &st.status {
        SelectorStatus::Committed(id) => assert_eq!(id, "b"),
        other => panic!("expected a committed id, got {:?}", other),
    }
}

#[test]
fn quit_and_escape_cancel() {
    let items = items();
    let mut st = SelectorState::new();
    st.step(&items, KeyInput::Printable('q'));
    assert!(matches!(st.status, SelectorStatus::Cancelled));
    let mut st = SelectorState::new();
    st.step(&items, KeyInput::Esc);
    assert!(matches!(st.status, SelectorStatus::Cancelled));
}

#[test]
fn search_editing_appends_removes_and_resets_cursor() {
    let items = items();
    let mut st = SelectorState::new();
    st.step(&items, KeyInput::Down); // cursor 1
    st.step(&items, KeyInput::Printable('/'));
    assert!(matches!(st.status, SelectorStatus::Searching));
    st.step(&items, KeyInput::Printable('b'));
    assert_eq!(st.filter, "b");
    assert_eq!(st.cursor, 0, "typing resets the cursor");
    st.step(&items, KeyInput::Backspace);
    assert_eq!(st.filter, "");
    st.step(&items, KeyInput::Backspace); // empty filter: stays empty
    assert_eq!(st.filter, "");
    st.step(&items, KeyInput::Enter);
    assert!(matches!(st.status, SelectorStatus::Browsing));
}

#[test]
fn masking_shows_edges_of_long_secrets_only() {
    assert_eq!(mask_secret("abcdefghijk"), "abcd***hijk");
    assert_eq!(mask_secret("12345678"), "***");
    assert_eq!(mask_secret(""), "***");
}

#[test]
fn sensitive_env_values_are_cut_short() {
    let v = "1234567890123".to_string();
    assert_eq!(env_var_display("ANTHROPIC_API_KEY", Some(&v)), "1234567890...");
    assert_eq!(env_var_display("ANTHROPIC_AUTH_TOKEN", Some(&v)), "1234567890...");
    assert_eq!(env_var_display("ANTHROPIC_BASE_URL", Some(&v)), "1234567890123");
    let short = "abc".to_string();
    assert_eq!(env_var_display("ANTHROPIC_API_KEY", Some(&short)), "abc");
    assert_eq!(env_var_display("ANTHROPIC_BASE_URL", None), "(not set)");
}

#[test]
fn display_url_strips_scheme_and_www() {
    assert_eq!(display_url("https://www.example.com/path"), "example.com");
    assert_eq!(display_url("https://api.example.com"), "api.example.com");
    assert_eq!(display_url("not a url"), "not a url");
}

#[test]
fn list_rows_are_rendered_exactly() {
    assert_eq!(
        list_row("abc", "Alpha", "https://www.a.example", false),
        "[ ] ABC | Alpha | a.example"
    );
    assert_eq!(
        list_row("abc", "Alpha", "https://a.example", true),
        "[*] ABC | Alpha | a.example (current)"
    );
}

#[test]
fn detail_lines_list_present_fields_with_masked_credentials() {
    let p = profile("Alpha", "https://a.example", Some("secretsecret"), None);
    let lines = detail_lines("a", &p, true);
    assert_eq!(
        lines,
        vec![
            "id: a".to_string(),
            "name: Alpha".to_string(),
            "url: https://a.example".to_string(),
            "api_key: secr***cret".to_string(),
            "current: yes".to_string(),
        ]
    );
    let p = profile("Beta", "https://b.example", None, Some("tok"));
    let lines = detail_lines("b", &p, false);
    assert_eq!(
        lines,
        vec![
            "id: b".to_string(),
            "name: Beta".to_string(),
            "url: https://b.example".to_string(),
            "auth_token: ***".to_string(),
            "current: no".to_string(),
        ]
    );
}

#[test]
fn help_line_depends_on_mode() {
    assert!(help_line(true).contains("filter"));
    assert!(help_line(false).contains("confirm"));
    assert_ne!(help_line(true), help_line(false));
}
