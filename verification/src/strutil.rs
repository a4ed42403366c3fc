//! String helpers the core builds on: verified substring search, prefix
//! tests and trimming, and trusted wrappers for case folding.
use vstd::prelude::*;
use vstd::string::StrSliceExecFns;

verus! {

/// What `str::to_lowercase` returns: a function of the characters alone.
pub uninterp spec fn lower_of(s: Seq<char>) -> Seq<char>;

/// What `str::to_uppercase` returns: a function of the characters alone.
pub uninterp spec fn upper_of(s: Seq<char>) -> Seq<char>;

/// Relies on str::to_lowercase: the lowercase form of a string, a function
/// of its characters alone; an empty string stays empty.
#[verifier::external_body]
pub fn lowercase(s: &str) -> (r: String)
    ensures
        r@ == lower_of(s@),
        s@.len() == 0 ==> r@.len() == 0,
{
    s.to_lowercase()
}

/// Relies on str::to_uppercase: the uppercase form of a string, a function
/// of its characters alone; an empty string stays empty.
#[verifier::external_body]
pub fn uppercase(s: &str) -> (r: String)
    ensures
        r@ == upper_of(s@),
        s@.len() == 0 ==> r@.len() == 0,
{
    s.to_uppercase()
}

/// Relies on String::push: appends one character at the end.
#[verifier::external_body]
pub fn push_char(s: &mut String, c: char)
    ensures
        final(s)@ == old(s)@.push(c),
{
    s.push(c);
}

/// The needle `n` occurs in `h` starting at position `i`.
pub open spec fn occurs_at(h: Seq<char>, n: Seq<char>, i: int) -> bool {
    0 <= i && i + n.len() <= h.len() && h.subrange(i, i + n.len()) == n
}

/// The needle `n` occurs somewhere in `h`.
pub open spec fn seq_contains(h: Seq<char>, n: Seq<char>) -> bool {
    exists|i: int| occurs_at(h, n, i)
}

/// Substring search: whether `n` occurs contiguously in `h`.
pub fn contains_sub(h: &str, n: &str) -> (r: bool)
    ensures
        r == seq_contains(h@, n@),
{
    let n_len = n.unicode_len();
    let h_len = h.unicode_len();
    if n_len == 0 {
        assert(occurs_at(h@, n@, 0)) by {
            assert(h@.subrange(0, 0) =~= n@);
        }
        return true;
    }
    if n_len > h_len {
        return false;
    }
    let mut i: usize = 0;
    while i <= h_len - n_len
        invariant
            n_len == n@.len(),
            h_len == h@.len(),
            0 < n_len <= h_len,
            i <= h_len - n_len + 1,
            forall|k: int| 0 <= k < i ==> !occurs_at(h@, n@, k),
        decreases h_len - i,
    {
        let mut j: usize = 0;
        let mut all_eq = true;
        while j < n_len
            invariant
                n_len == n@.len(),
                h_len == h@.len(),
                i + n_len <= h_len,
                j <= n_len,
                all_eq == (forall|k: int| 0 <= k < j ==> h@[i + k] == n@[k]),
                !all_eq ==> j == n_len,
            decreases n_len - j,
        {
            let hc = h.get_char(i + j);
            let nc = n.get_char(j);
            if hc != nc {
                all_eq = false;
                assert(!(forall|k: int| 0 <= k < j + 1 ==> h@[i + k] == n@[k]));
                j = n_len;
            } else {
                assert forall|k: int| 0 <= k < j + 1 implies h@[i + k] == n@[k] by {
                    if k == j {
                        assert(h@[i + j] == n@[j as int]);
                    }
                }
                j = j + 1;
            }
        }
        if all_eq {
            assert(occurs_at(h@, n@, i as int)) by {
                assert(h@.subrange(i as int, i + n@.len()) =~= n@);
            }
            return true;
        }
        assert(!occurs_at(h@, n@, i as int)) by {
            if occurs_at(h@, n@, i as int) {
                let w = choose|k: int| 0 <= k < n@.len() && h@[i + k] != n@[k];
                assert(h@.subrange(i as int, i + n@.len())[w] == n@[w]);
            }
        }
        i = i + 1;
    }
    assert forall|k: int| occurs_at(h@, n@, k) implies false by {
        assert(k + n@.len() <= h@.len());
        assert(k < i);
    }
    false
}

/// `p` is a prefix of `s`.
pub open spec fn has_prefix(s: Seq<char>, p: Seq<char>) -> bool {
    p.len() <= s.len() && s.subrange(0, p.len() as int) == p
}

/// Prefix test: whether the characters of `p` open `s`.
pub fn starts_with(s: &str, p: &str) -> (r: bool)
    ensures
        r == has_prefix(s@, p@),
{
    let p_len = p.unicode_len();
    let s_len = s.unicode_len();
    if p_len > s_len {
        return false;
    }
    let mut j: usize = 0;
    while j < p_len
        invariant
            p_len == p@.len(),
            s_len == s@.len(),
            p_len <= s_len,
            j <= p_len,
            forall|k: int| 0 <= k < j ==> s@[k] == p@[k],
        decreases p_len - j,
    {
        if s.get_char(j) != p.get_char(j) {
            assert(s@.subrange(0, p@.len() as int)[j as int] == s@[j as int]);
            return false;
        }
        j = j + 1;
    }
    assert(s@.subrange(0, p@.len() as int) =~= p@);
    true
}

/// Character-for-character equality of two string slices.
pub fn str_eq(a: &str, b: &str) -> (r: bool)
    ensures
        r == (a@ == b@),
{
    let a_len = a.unicode_len();
    let b_len = b.unicode_len();
    if a_len != b_len {
        return false;
    }
    let mut j: usize = 0;
    while j < a_len
        invariant
            a_len == a@.len(),
            a_len == b@.len(),
            j <= a_len,
            forall|k: int| 0 <= k < j ==> a@[k] == b@[k],
        decreases a_len - j,
    {
        if a.get_char(j) != b.get_char(j) {
            return false;
        }
        j = j + 1;
    }
    proof {
        assert(a@ =~= b@);
    }
    true
}

/// The whitespace the marker file may carry around an id.
pub open spec fn is_space(c: char) -> bool {
    c == ' ' || c == '\t' || c == '\n' || c == '\r'
}

/// `s` with leading whitespace removed.
pub open spec fn trim_front(s: Seq<char>) -> Seq<char>
    decreases s.len(),
{
    if s.len() > 0 && is_space(s[0]) {
        trim_front(s.subrange(1, s.len() as int))
    } else {
        s
    }
}

/// `s` with trailing whitespace removed.
pub open spec fn trim_back(s: Seq<char>) -> Seq<char>
    decreases s.len(),
{
    if s.len() > 0 && is_space(s[s.len() - 1]) {
        trim_back(s.subrange(0, s.len() - 1))
    } else {
        s
    }
}

/// `s` with whitespace removed on both sides.
pub open spec fn trimmed(s: Seq<char>) -> Seq<char> {
    trim_back(trim_front(s))
}

proof fn lemma_trim_front_range(s: Seq<char>, a: int)
    requires
        0 <= a <= s.len(),
        forall|k: int| 0 <= k < a ==> is_space(s[k]),
        a < s.len() ==> !is_space(s[a]),
    ensures
        trim_front(s) == s.subrange(a, s.len() as int),
    decreases a,
{
    if a == 0 {
        if s.len() > 0 && is_space(s[0]) {
            assert(false);
        }
        assert(s.subrange(0, s.len() as int) =~= s);
    } else {
        let t = s.subrange(1, s.len() as int);
        lemma_trim_front_range(t, a - 1);
        assert(t.subrange(a - 1, t.len() as int) =~= s.subrange(a, s.len() as int));
    }
}

proof fn lemma_trim_back_range(s: Seq<char>, b: int)
    requires
        0 <= b <= s.len(),
        forall|k: int| b <= k < s.len() ==> is_space(s[k]),
        b > 0 ==> !is_space(s[b - 1]),
    ensures
        trim_back(s) == s.subrange(0, b),
    decreases s.len() - b,
{
    if b == s.len() {
        if s.len() > 0 && is_space(s[s.len() - 1]) {
            assert(false);
        }
        assert(s.subrange(0, s.len() as int) =~= s);
    } else {
        let t = s.subrange(0, s.len() - 1);
        lemma_trim_back_range(t, b);
        assert(t.subrange(0, b) =~= s.subrange(0, b));
    }
}

/// Trim: the characters of `s` with surrounding whitespace removed.
pub fn trim(s: &str) -> (r: String)
    ensures
        r@ == trimmed(s@),
{
    let len = s.unicode_len();
    let mut a: usize = 0;
    while a < len && is_space_char(s.get_char(a))
        invariant
            len == s@.len(),
            a <= len,
            forall|k: int| 0 <= k < a ==> is_space(s@[k]),
        decreases len - a,
    {
        a = a + 1;
    }
    proof {
        lemma_trim_front_range(s@, a as int);
    }
    let mut b: usize = len;
    while b > a && is_space_char(s.get_char(b - 1))
        invariant
            len == s@.len(),
            a <= b <= len,
            forall|k: int| 0 <= k < a ==> is_space(s@[k]),
            a < len ==> !is_space(s@[a as int]),
            forall|k: int| b <= k < len ==> is_space(s@[k]),
        decreases b,
    {
        b = b - 1;
    }
    let piece = s.substring_char(a, b);
    proof {
        let f = trim_front(s@);
        assert(f == s@.subrange(a as int, len as int));
        if b > a {
            assert(!is_space(s@[b - 1]));
        }
        assert forall|k: int| (b - a) <= k < f.len() implies is_space(f[k]) by {
            assert(f[k] == s@[a + k]);
        }
        if b - a > 0 {
            assert(f[b - a - 1] == s@[b - 1]);
        }
        lemma_trim_back_range(f, b - a);
        assert(f.subrange(0, b - a) =~= s@.subrange(a as int, b as int));
    }
    piece.to_owned()
}

/// Executable form of the whitespace test.
pub fn is_space_char(c: char) -> (r: bool)
    ensures
        r == is_space(c),
{
    c == ' ' || c == '\t' || c == '\n' || c == '\r'
}

/// Clone of an optional string, kept exact.
pub fn clone_opt_string(o: &Option<String>) -> (r: Option<String>)
    ensures
        r == *o,
{
    match o {
        Some(s) => Some(s.clone()),
        None => None,
    }
}

} // verus!
