//! Pure presentation values: credential masking, URL host display, list
//! rows, the detail pane's lines and the help line. The painting itself —
//! colours, widgets, the terminal — happens outside the library, on exactly
//! these strings.
use vstd::prelude::*;
use vstd::string::StrSliceExecFns;
use vstd::string::StringExecFns;
use crate::config::ProxyConfig;
use crate::strutil::{upper_of, uppercase, seq_contains, contains_sub, has_prefix, starts_with};

verus! {

/// What parsing a URL yields as its host component: a function of the input
/// string alone.
pub uninterp spec fn url_host_of(s: Seq<char>) -> Option<Seq<char>>;

/// Relies on url::Url::parse and url::Url::host_str: the host component of
/// an absolute URL, a pure function of the input string; `None` when the
/// string does not parse as an absolute URL or its kind carries no host.
#[verifier::external_body]
fn host_of(url: &str) -> (r: Option<String>)
    ensures
        match r {
            Some(h) => url_host_of(url@) matches Some(hh) && hh == h@,
            None => url_host_of(url@) is None,
        },
{
    match url::Url::parse(url) {
        Ok(u) => match u.host_str() {
            Some(h) => Some(h.to_string()),
            None => None,
        },
        Err(_) => None,
    }
}

/// How a base URL is shown in the list: its host with a leading `www.`
/// stripped, or the raw string when no host can be parsed out of it.
pub open spec fn shown_url(url: Seq<char>) -> Seq<char> {
    match url_host_of(url) {
        Some(h) => if has_prefix(h, "www."@) {
            h.subrange(4, h.len() as int)
        } else {
            h
        },
        None => url,
    }
}

/// The display form of a base URL.
pub fn display_url(url: &str) -> (r: String)
    ensures
        r@ == shown_url(url@),
{
    match host_of(url) {
        Some(h) => {
            if starts_with(h.as_str(), "www.") {
                let len = h.as_str().unicode_len();
                proof {
                    reveal_strlit("www.");
                    assert("www."@.len() == 4);
                }
                h.as_str().substring_char(4, len).to_owned()
            } else {
                h
            }
        },
        None => url.to_owned(),
    }
}

/// A masked secret: a long one shows its first and last four characters
/// around an ellipsis of stars, a short one is hidden entirely.
pub open spec fn masked(s: Seq<char>) -> Seq<char> {
    if s.len() > 8 {
        s.subrange(0, 4) + "***"@ + s.subrange(s.len() - 4, s.len() as int)
    } else {
        "***"@
    }
}

/// Mask a credential for display.
pub fn mask_secret(s: &str) -> (r: String)
    ensures
        r@ == masked(s@),
{
    let len = s.unicode_len();
    if len > 8 {
        let mut r = s.substring_char(0, 4).to_owned();
        r.append("***");
        let tail = s.substring_char(len - 4, len);
        r.append(tail);
        r
    } else {
        String::from_str("***")
    }
}

/// A slot name counts as sensitive when it mentions a key or a token.
pub open spec fn sensitive_name(name: Seq<char>) -> bool {
    seq_contains(name, "KEY"@) || seq_contains(name, "TOKEN"@)
}

/// How a slot's value is shown: a sensitive value longer than ten
/// characters is cut to its first ten plus an ellipsis; anything else is
/// shown whole; an unset slot reads `(not set)`.
pub open spec fn shown_env_value(name: Seq<char>, value: Option<Seq<char>>) -> Seq<char> {
    match value {
        Some(v) => if sensitive_name(name) && v.len() > 10 {
            v.subrange(0, 10) + "..."@
        } else {
            v
        },
        None => "(not set)"@,
    }
}

/// The display form of one environment slot's value.
pub fn env_var_display(name: &str, value: Option<&String>) -> (r: String)
    ensures
        r@ == shown_env_value(name@, match value {
            Some(v) => Some(v@),
            None => None,
        }),
{
    match value {
        Some(v) => {
            let sensitive = contains_sub(name, "KEY") || contains_sub(name, "TOKEN");
            let len = v.as_str().unicode_len();
            if sensitive && len > 10 {
                let mut r = v.as_str().substring_char(0, 10).to_owned();
                r.append("...");
                r
            } else {
                v.clone()
            }
        },
        None => String::from_str("(not set)"),
    }
}

/// One list row: a current-marker, the id in upper case, the display name
/// and the display URL, with a trailing current tag.
pub open spec fn row_of(id: Seq<char>, name: Seq<char>, url: Seq<char>, is_current: bool) -> Seq<
    char,
> {
    (if is_current {
        "[*] "@
    } else {
        "[ ] "@
    }) + upper_of(id) + " | "@ + name + " | "@ + shown_url(url) + (if is_current {
        " (current)"@
    } else {
        Seq::<char>::empty()
    })
}

/// Build one list row.
pub fn list_row(id: &str, name: &str, url: &str, is_current: bool) -> (r: String)
    ensures
        r@ == row_of(id@, name@, url@, is_current),
{
    let mut r = if is_current {
        String::from_str("[*] ")
    } else {
        String::from_str("[ ] ")
    };
    let up = uppercase(id);
    r.append(up.as_str());
    r.append(" | ");
    r.append(name);
    r.append(" | ");
    let du = display_url(url);
    r.append(du.as_str());
    if is_current {
        r.append(" (current)");
    }
    r
}

/// The detail pane's lines for one profile: id, name and URL; one line per
/// credential actually present, masked; and the current flag.
pub open spec fn detail_lines_of(id: Seq<char>, p: ProxyConfig, is_current: bool) -> Seq<
    Seq<char>,
> {
    let base = seq![
        "id: "@ + id,
        "name: "@ + p.name@,
        "url: "@ + p.url@,
    ];
    let with_key = match p.api_key {
        Some(k) => base.push("api_key: "@ + masked(k@)),
        None => base,
    };
    let with_token = match p.auth_token {
        Some(t) => with_key.push("auth_token: "@ + masked(t@)),
        None => with_key,
    };
    with_token.push(
        if is_current {
            "current: yes"@
        } else {
            "current: no"@
        },
    )
}

/// Build the detail pane's lines.
pub fn detail_lines(id: &str, p: &ProxyConfig, is_current: bool) -> (r: Vec<String>)
    ensures
        r.deep_view() == detail_lines_of(id@, *p, is_current),
{
    let mut r: Vec<String> = Vec::new();
    let mut line = String::from_str("id: ");
    line.append(id);
    r.push(line);
    let mut line = String::from_str("name: ");
    line.append(p.name.as_str());
    r.push(line);
    let mut line = String::from_str("url: ");
    line.append(p.url.as_str());
    r.push(line);
    match &p.api_key {
        Some(k) => {
            let mut line = String::from_str("api_key: ");
            let m = mask_secret(k.as_str());
            line.append(m.as_str());
            r.push(line);
        },
        None => {},
    }
    match &p.auth_token {
        Some(t) => {
            let mut line = String::from_str("auth_token: ");
            let m = mask_secret(t.as_str());
            line.append(m.as_str());
            r.push(line);
        },
        None => {},
    }
    if is_current {
        r.push(String::from_str("current: yes"));
    } else {
        r.push(String::from_str("current: no"));
    }
    proof {
        assert(r.deep_view() =~= detail_lines_of(id@, *p, is_current));
    }
    r
}

/// The help line under the list, depending on the mode.
pub fn help_line(searching: bool) -> (r: &'static str)
    ensures
        searching ==> r@ == "Enter: keep filter | Esc: clear filter | type to search"@,
        !searching ==> r@ == "Up/Down: select | Enter: confirm | /: search | q/Esc: quit"@,
{
    if searching {
        "Enter: keep filter | Esc: clear filter | type to search"
    } else {
        "Up/Down: select | Enter: confirm | /: search | q/Esc: quit"
    }
}

} // verus!
