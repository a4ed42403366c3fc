//! The interactive list selector, modelled as a pure state machine: a filter
//! buffer, a cursor into the filtered list, and a mode; each key event makes
//! at most one transition. The terminal loop around it lives outside the
//! library and only feeds events in.
use vstd::prelude::*;
use vstd::string::StrSliceExecFns;
use crate::config::ProxyConfig;
use crate::strutil::{lower_of, lowercase, contains_sub, seq_contains, starts_with, has_prefix,
    push_char};

verus! {

/// One discrete key event, as the terminal hands them over. Every printable
/// character arrives as `Printable`; the selector itself decides whether it
/// starts a search, quits, or extends the filter.
#[derive(Debug, Clone, Copy)]
pub enum KeyInput {
    Up,
    Down,
    Enter,
    Esc,
    Backspace,
    Printable(char),
}

/// The four states of the selector. `Committed` and `Cancelled` are
/// terminal: the loop around the selector stops there.
#[derive(Debug)]
pub enum SelectorStatus {
    Browsing,
    Searching,
    Committed(String),
    Cancelled,
}

/// The selector's whole mutable state.
#[derive(Debug)]
pub struct SelectorState {
    pub filter: String,
    pub cursor: usize,
    pub status: SelectorStatus,
}

/// Profiles whose id starts with the reserved prefix are internal entries,
/// hidden from the interactive list (though still switchable by exact id).
pub open spec fn eligible(e: (String, ProxyConfig)) -> bool {
    !has_prefix(e.0@, "api_"@)
}

/// An entry is shown under query `q` when it is eligible and, for a
/// non-empty query, the case-folded query occurs in its case-folded id,
/// display name or base URL.
pub open spec fn entry_matches(e: (String, ProxyConfig), q: Seq<char>) -> bool {
    &&& eligible(e)
    &&& (q.len() == 0 || seq_contains(lower_of(e.0@), lower_of(q)) || seq_contains(
        lower_of(e.1.name@),
        lower_of(q),
    ) || seq_contains(lower_of(e.1.url@), lower_of(q)))
}

/// The displayed list: the entries matching query `q`, in store order.
pub open spec fn filtered(
    items: Seq<(String, ProxyConfig)>,
    q: Seq<char>,
) -> Seq<(String, ProxyConfig)> {
    items.filter(|e: (String, ProxyConfig)| entry_matches(e, q))
}

proof fn lemma_filter_push<A>(s: Seq<A>, p: spec_fn(A) -> bool, x: A)
    ensures
        s.push(x).filter(p) == if p(x) {
            s.filter(p).push(x)
        } else {
            s.filter(p)
        },
{
    reveal(Seq::filter);
    assert(s.push(x).drop_last() =~= s);
    assert(s.push(x).last() == x);
}

/// The entries matching `search_input`, in store order; an entry under a
/// reserved id never appears, and an empty query keeps every eligible entry.
pub fn filter_proxies(
    items: &Vec<(String, ProxyConfig)>,
    search_input: &str,
) -> (r: Vec<(String, ProxyConfig)>)
    ensures
        r@ == filtered(items@, search_input@),
{
    let ghost q = search_input@;
    let ghost pred = |e: (String, ProxyConfig)| entry_matches(e, q);
    let q_empty = search_input.unicode_len() == 0;
    let q_low = lowercase(search_input);
    let n = items.len();
    let mut out: Vec<(String, ProxyConfig)> = Vec::new();
    let mut i: usize = 0;
    while i < n
        invariant
            n == items@.len(),
            i <= n,
            q == search_input@,
            q_empty == (q.len() == 0),
            q_low@ == lower_of(q),
            pred == (|e: (String, ProxyConfig)| entry_matches(e, q)),
            out@ == items@.subrange(0, i as int).filter(pred),
        decreases n - i,
    {
        let (id, p) = &items[i];
        let elig = !starts_with(id.as_str(), "api_");
        let is_match = elig && (q_empty || {
            let id_low = lowercase(id.as_str());
            let name_low = lowercase(p.name.as_str());
            let url_low = lowercase(p.url.as_str());
            contains_sub(id_low.as_str(), q_low.as_str()) || contains_sub(
                name_low.as_str(),
                q_low.as_str(),
            ) || contains_sub(url_low.as_str(), q_low.as_str())
        });
        proof {
            assert(is_match == pred(items@[i as int]));
        }
        if is_match {
            out.push((id.clone(), p.clone()));
        }
        proof {
            let prefix = items@.subrange(0, i as int);
            lemma_filter_push(prefix, pred, items@[i as int]);
            assert(prefix.push(items@[i as int]) =~= items@.subrange(0, i + 1));
        }
        i = i + 1;
    }
    proof {
        assert(items@.subrange(0, n as int) =~= items@);
    }
    out
}

/// How one key event transforms the selector state over the given store.
/// This is the whole transition table: mode switches, wrap-around
/// navigation, filter editing with cursor clamping, commit and cancel.
pub open spec fn step_rel(
    s0: SelectorState,
    s1: SelectorState,
    items: Seq<(String, ProxyConfig)>,
    key: KeyInput,
) -> bool {
    let flt = filtered(items, s0.filter@);
    match s0.status {
        SelectorStatus::Searching => match key {
            KeyInput::Enter => {
                &&& s1.filter@ == s0.filter@
                &&& s1.cursor == s0.cursor
                &&& s1.status is Browsing
            },
            KeyInput::Esc => {
                let new_len = filtered(items, Seq::<char>::empty()).len();
                &&& s1.filter@ == Seq::<char>::empty()
                &&& s1.cursor == (if s0.cursor < new_len {
                    s0.cursor as int
                } else {
                    0
                })
                &&& s1.status is Browsing
            },
            KeyInput::Backspace => {
                let shorter = if s0.filter@.len() > 0 {
                    s0.filter@.drop_last()
                } else {
                    s0.filter@
                };
                let new_len = filtered(items, shorter).len();
                &&& s1.filter@ == shorter
                &&& s1.cursor == (if s0.cursor < new_len {
                    s0.cursor as int
                } else {
                    0
                })
                &&& s1.status is Searching
            },
            KeyInput::Printable(c) => {
                &&& s1.filter@ == s0.filter@.push(c)
                &&& s1.cursor == 0
                &&& s1.status is Searching
            },
            _ => unchanged(s0, s1),
        },
        SelectorStatus::Browsing => match key {
            KeyInput::Esc => cancelled_from(s0, s1),
            KeyInput::Printable(c) => if c == '/' {
                &&& s1.filter@ == s0.filter@
                &&& s1.cursor == s0.cursor
                &&& s1.status is Searching
            } else if c == 'q' {
                cancelled_from(s0, s1)
            } else {
                unchanged(s0, s1)
            },
            KeyInput::Down => if flt.len() == 0 {
                unchanged(s0, s1)
            } else {
                &&& s1.filter@ == s0.filter@
                &&& s1.cursor == (if s0.cursor >= flt.len() - 1 {
                    0
                } else {
                    s0.cursor + 1
                })
                &&& s1.status is Browsing
            },
            KeyInput::Up => if flt.len() == 0 {
                unchanged(s0, s1)
            } else {
                &&& s1.filter@ == s0.filter@
                &&& s1.cursor == (if s0.cursor == 0 {
                    flt.len() - 1
                } else {
                    s0.cursor - 1
                })
                &&& s1.status is Browsing
            },
            KeyInput::Enter => if flt.len() == 0 {
                unchanged(s0, s1)
            } else {
                &&& s1.filter@ == s0.filter@
                &&& s1.cursor == s0.cursor
                &&& (s1.status matches SelectorStatus::Committed(id) && id@ == flt[
                    s0.cursor as int
                ].0@)
            },
            KeyInput::Backspace => unchanged(s0, s1),
        },
        _ => unchanged(s0, s1),
    }
}

/// The event changed nothing.
pub open spec fn unchanged(s0: SelectorState, s1: SelectorState) -> bool {
    &&& s1.filter@ == s0.filter@
    &&& s1.cursor == s0.cursor
    &&& s1.status == s0.status
}

/// The event cancelled the selector.
pub open spec fn cancelled_from(s0: SelectorState, s1: SelectorState) -> bool {
    &&& s1.filter@ == s0.filter@
    &&& s1.cursor == s0.cursor
    &&& s1.status is Cancelled
}

impl SelectorState {
    /// The selector can still take events.
    pub open spec fn live(&self) -> bool {
        self.status is Browsing || self.status is Searching
    }

    /// The cursor stays inside the filtered list: a valid index while the
    /// list is non-empty, pinned to zero while it is empty.
    pub open spec fn wf(&self, items: Seq<(String, ProxyConfig)>) -> bool {
        let flt = filtered(items, self.filter@);
        if flt.len() > 0 {
            self.cursor < flt.len()
        } else {
            self.cursor == 0
        }
    }

    /// The opening state: browsing, no filter, cursor on the first entry.
    pub fn new() -> (r: Self)
        ensures
            r.filter@ == Seq::<char>::empty(),
            r.cursor == 0,
            r.status is Browsing,
            forall|items: Seq<(String, ProxyConfig)>| r.wf(items),
    {
        SelectorState { filter: String::new(), cursor: 0, status: SelectorStatus::Browsing }
    }

    /// Process one key event: at most one transition of the table.
    pub fn step(&mut self, items: &Vec<(String, ProxyConfig)>, key: KeyInput)
        requires
            old(self).wf(items@),
            old(self).live(),
        ensures
            final(self).wf(items@),
            step_rel(*old(self), *final(self), items@, key),
    {
        let searching = match &self.status {
            SelectorStatus::Searching => true,
            _ => false,
        };
        if searching {
            match key {
                KeyInput::Enter => {
                    self.status = SelectorStatus::Browsing;
                },
                KeyInput::Esc => {
                    self.filter = String::new();
                    self.status = SelectorStatus::Browsing;
                    self.clamp_cursor(items);
                },
                KeyInput::Backspace => {
                    let len = self.filter.as_str().unicode_len();
                    if len > 0 {
                        let shorter = self.filter.as_str().substring_char(0, len - 1).to_owned();
                        proof {
                            assert(shorter@ =~= self.filter@.drop_last());
                        }
                        self.filter = shorter;
                    }
                    self.clamp_cursor(items);
                },
                KeyInput::Printable(c) => {
                    push_char(&mut self.filter, c);
                    self.cursor = 0;
                },
                _ => {},
            }
        } else {
            match key {
                KeyInput::Esc => {
                    self.status = SelectorStatus::Cancelled;
                },
                KeyInput::Printable(c) => {
                    if c == '/' {
                        self.status = SelectorStatus::Searching;
                    } else if c == 'q' {
                        self.status = SelectorStatus::Cancelled;
                    }
                },
                KeyInput::Down => {
                    let flt = filter_proxies(items, self.filter.as_str());
                    if flt.len() > 0 {
                        if self.cursor >= flt.len() - 1 {
                            self.cursor = 0;
                        } else {
                            self.cursor = self.cursor + 1;
                        }
                    }
                },
                KeyInput::Up => {
                    let flt = filter_proxies(items, self.filter.as_str());
                    if flt.len() > 0 {
                        if self.cursor == 0 {
                            self.cursor = flt.len() - 1;
                        } else {
                            self.cursor = self.cursor - 1;
                        }
                    }
                },
                KeyInput::Enter => {
                    let flt = filter_proxies(items, self.filter.as_str());
                    if flt.len() > 0 {
                        let id = flt[self.cursor].0.clone();
                        self.status = SelectorStatus::Committed(id);
                    }
                },
                KeyInput::Backspace => {},
            }
        }
    }

    /// Pull the cursor back to the first entry when the filtered list no
    /// longer reaches it.
    fn clamp_cursor(&mut self, items: &Vec<(String, ProxyConfig)>)
        ensures
            final(self).filter@ == old(self).filter@,
            final(self).status == old(self).status,
            final(self).cursor == (if old(self).cursor < filtered(items@, old(self).filter@).len() {
                old(self).cursor as int
            } else {
                0
            }),
            final(self).wf(items@),
    {
        let flt = filter_proxies(items, self.filter.as_str());
        if self.cursor >= flt.len() {
            self.cursor = 0;
        }
    }
}

/// Discarding the filter restores the full eligible list, and the cursor
/// lands on a valid entry (or stays pinned to zero when even the eligible
/// list is empty).
pub proof fn lemma_clearing_filter_restores(
    s0: SelectorState,
    s1: SelectorState,
    items: Seq<(String, ProxyConfig)>,
)
    requires
        s0.status is Searching,
        step_rel(s0, s1, items, KeyInput::Esc),
    ensures
        filtered(items, s1.filter@) == items.filter(|e: (String, ProxyConfig)| eligible(e)),
        s1.wf(items),
{
    lemma_empty_query_shows_eligible(items);
}

/// With an empty query the displayed list is exactly the eligible entries,
/// in store order: clearing the filter restores the full eligible list.
pub proof fn lemma_empty_query_shows_eligible(items: Seq<(String, ProxyConfig)>)
    ensures
        filtered(items, Seq::<char>::empty()) == items.filter(
            |e: (String, ProxyConfig)| eligible(e),
        ),
    decreases items.len(),
{
    reveal(Seq::filter);
    let q = Seq::<char>::empty();
    let pm = |e: (String, ProxyConfig)| entry_matches(e, q);
    let pe = |e: (String, ProxyConfig)| eligible(e);
    if items.len() == 0 {
        assert(items.filter(pm) =~= items.filter(pe));
    } else {
        lemma_empty_query_shows_eligible(items.drop_last());
        assert(pm(items.last()) == pe(items.last()));
    }
}

} // verus!
