//! Metadata tokens in free text. A token is `key:value`, where the key
//! is a maximal run of word characters, and the value either runs to the
//! next space, newline, `<` or quote, or is a non-empty quoted string.
//! One function collects the tokens by key, the other blanks them out of
//! the text.

use vstd::prelude::*;
use crate::types::compare_str;

verus! {

/// A word character: a letter, a digit or an underscore.
pub open spec fn is_key_char(c: char) -> bool {
    ('a' <= c && c <= 'z') || ('A' <= c && c <= 'Z') || ('0' <= c && c <= '9') || c == '_'
}

/// A character a bare (unquoted) value may hold.
pub open spec fn is_plain_char(c: char) -> bool {
    c != ' ' && c != '\n' && c != '<' && c != '"'
}

/// The end of the run of word characters that starts at `p`.
pub open spec fn key_run_end(s: Seq<char>, p: int) -> int
    decreases s.len() - p,
{
    if 0 <= p < s.len() && is_key_char(s[p]) {
        key_run_end(s, p + 1)
    } else {
        p
    }
}

/// The end of the run of bare-value characters that starts at `p`.
pub open spec fn plain_run_end(s: Seq<char>, p: int) -> int
    decreases s.len() - p,
{
    if 0 <= p < s.len() && is_plain_char(s[p]) {
        plain_run_end(s, p + 1)
    } else {
        p
    }
}

/// The place of the first quote at or after `p`, or the text's end.
pub open spec fn close_quote(s: Seq<char>, p: int) -> int
    decreases s.len() - p,
{
    if 0 <= p < s.len() {
        if s[p] == '"' {
            p
        } else {
            close_quote(s, p + 1)
        }
    } else {
        p
    }
}

/// The token whose key starts at `p`, if the text holds one there: the
/// key's bounds, the value's bounds, and where the text goes on. A
/// quoted value must be non-empty and closed; a bare value must be
/// non-empty.
pub open spec fn spec_token_at(s: Seq<char>, p: int) -> Option<(int, int, int, int, int)> {
    let k = key_run_end(s, p);
    if k < s.len() && s[k] == ':' {
        if k + 1 < s.len() && s[k + 1] == '"' {
            let q = close_quote(s, k + 2);
            if q < s.len() && q > k + 2 {
                Some((p, k, k + 2, q, q + 1))
            } else {
                Option::None
            }
        } else {
            let e = plain_run_end(s, k + 1);
            if e > k + 1 {
                Some((p, k, k + 1, e, e))
            } else {
                Option::None
            }
        }
    } else {
        Option::None
    }
}

/// Whether a token's key may start at `p`: a word character that no word
/// character precedes.
pub open spec fn spec_run_start(s: Seq<char>, p: int) -> bool {
    0 <= p < s.len() && is_key_char(s[p]) && (p == 0 || !is_key_char(s[p - 1]))
}

/// All the text's tokens at or after `p`, left to right; scanning
/// resumes after each token found.
pub open spec fn spec_scan(s: Seq<char>, p: int) -> Seq<(int, int, int, int, int)>
    decreases s.len() - p,
{
    if p < 0 || p >= s.len() {
        Seq::empty()
    } else if spec_run_start(s, p) {
        match spec_token_at(s, p) {
            Some(t) => if p < t.4 <= s.len() {
                seq![t] + spec_scan(s, t.4)
            } else {
                Seq::empty()
            },
            Option::None => spec_scan(s, p + 1),
        }
    } else {
        spec_scan(s, p + 1)
    }
}

/// A token's key text.
pub open spec fn tok_key(s: Seq<char>, t: (int, int, int, int, int)) -> Seq<char> {
    s.subrange(t.0, t.1)
}

/// A whitespace character at a value's fringe.
pub open spec fn is_ws_char(c: char) -> bool {
    c == ' ' || c == '\t' || c == '\r' || c == '\n'
}

/// The text with its leading whitespace shed.
pub open spec fn trim_front(v: Seq<char>) -> Seq<char>
    decreases v.len(),
{
    if v.len() > 0 && is_ws_char(v[0]) {
        trim_front(v.drop_first())
    } else {
        v
    }
}

/// The text with its trailing whitespace shed.
pub open spec fn trim_back(v: Seq<char>) -> Seq<char>
    decreases v.len(),
{
    if v.len() > 0 && is_ws_char(v.last()) {
        trim_back(v.drop_last())
    } else {
        v
    }
}

/// The text with whitespace shed at both fringes.
pub open spec fn spec_trim_ws(v: Seq<char>) -> Seq<char> {
    trim_back(trim_front(v))
}

/// A token's value text: a bare value is its run with whitespace shed at
/// the fringes; a quoted value keeps its content exactly, the quotes
/// already shed — the quotes bound it, so its own whitespace stays.
pub open spec fn tok_val(s: Seq<char>, t: (int, int, int, int, int)) -> Seq<char> {
    if t.4 == t.3 {
        spec_trim_ws(s.subrange(t.2, t.3))
    } else {
        s.subrange(t.2, t.3)
    }
}

/// The values of the tokens that carry the given key, left to right.
pub open spec fn spec_values_for(
    s: Seq<char>,
    toks: Seq<(int, int, int, int, int)>,
    key: Seq<char>,
) -> Seq<Seq<char>>
    decreases toks.len(),
{
    if toks.len() == 0 {
        Seq::empty()
    } else {
        spec_values_for(s, toks.drop_last(), key) + if tok_key(s, toks.last()) == key {
            seq![tok_val(s, toks.last())]
        } else {
            Seq::empty()
        }
    }
}

/// The text with every token blanked to a single space.
pub open spec fn spec_strip(s: Seq<char>, p: int) -> Seq<char>
    decreases s.len() - p,
{
    if p < 0 || p >= s.len() {
        Seq::empty()
    } else if spec_run_start(s, p) && spec_token_at(s, p) is Some {
        let t = spec_token_at(s, p)->Some_0;
        if p < t.4 <= s.len() {
            seq![' '] + spec_strip(s, t.4)
        } else {
            Seq::empty()
        }
    } else {
        seq![s[p]] + spec_strip(s, p + 1)
    }
}

/// Finds the end of the word-character run starting at `p`.
fn key_run_end_exec(s: &str, p: usize) -> (r: usize)
    requires
        p <= s@.len(),
    ensures
        r == key_run_end(s@, p as int),
        p <= r <= s@.len(),
    decreases s@.len() - p,
{
    if p < s.unicode_len() {
        let c = s.get_char(p);
        if ('a' <= c && c <= 'z') || ('A' <= c && c <= 'Z') || ('0' <= c && c <= '9') || c == '_' {
            return key_run_end_exec(s, p + 1);
        }
    }
    p
}

/// Finds the end of the bare-value run starting at `p`.
fn plain_run_end_exec(s: &str, p: usize) -> (r: usize)
    requires
        p <= s@.len(),
    ensures
        r == plain_run_end(s@, p as int),
        p <= r <= s@.len(),
    decreases s@.len() - p,
{
    if p < s.unicode_len() {
        let c = s.get_char(p);
        if c != ' ' && c != '\n' && c != '<' && c != '"' {
            return plain_run_end_exec(s, p + 1);
        }
    }
    p
}

/// Finds the first quote at or after `p`.
fn close_quote_exec(s: &str, p: usize) -> (r: usize)
    requires
        p <= s@.len(),
    ensures
        r == close_quote(s@, p as int),
        p <= r <= s@.len(),
    decreases s@.len() - p,
{
    if p < s.unicode_len() {
        if s.get_char(p) != '"' {
            return close_quote_exec(s, p + 1);
        }
    }
    p
}

/// The run of word characters starting at `p` ends within the text.
proof fn lemma_key_run_bounds(s: Seq<char>, p: int)
    requires
        0 <= p <= s.len(),
    ensures
        p <= key_run_end(s, p) <= s.len(),
    decreases s.len() - p,
{
    if p < s.len() && is_key_char(s[p]) {
        lemma_key_run_bounds(s, p + 1);
    }
}

/// Reads the token whose key would start at `p`.
fn token_at_exec(s: &str, p: usize) -> (r: Option<(usize, usize, usize, usize, usize)>)
    requires
        spec_run_start(s@, p as int),
    ensures
        match r {
            Some(t) => spec_token_at(s@, p as int) == Some(
                (t.0 as int, t.1 as int, t.2 as int, t.3 as int, t.4 as int),
            ) && t.0 == p && p < t.1 && t.1 <= s@.len() && t.1 < t.2 && t.2 <= t.3 && t.3
                <= s@.len() && p < t.4 && t.4 <= s@.len(),
            None => spec_token_at(s@, p as int) is None,
        },
{
    proof {
        lemma_key_run_bounds(s@, p + 1 as int);
        assert(key_run_end(s@, p as int) == key_run_end(s@, p + 1 as int));
    }
    let k = key_run_end_exec(s, p);
    if k < s.unicode_len() && s.get_char(k) == ':' {
        if k + 1 < s.unicode_len() && s.get_char(k + 1) == '"' {
            let q = close_quote_exec(s, k + 2);
            if q < s.unicode_len() && q > k + 2 {
                Some((p, k, k + 2, q, q + 1))
            } else {
                None
            }
        } else {
            let e = plain_run_end_exec(s, k + 1);
            if e > k + 1 {
                Some((p, k, k + 1, e, e))
            } else {
                None
            }
        }
    } else {
        None
    }
}

/// Whether a token's key may start at `p`.
fn run_start_exec(s: &str, p: usize) -> (r: bool)
    requires
        p < s@.len(),
    ensures
        r == spec_run_start(s@, p as int),
{
    let c = s.get_char(p);
    let is_key = ('a' <= c && c <= 'z') || ('A' <= c && c <= 'Z') || ('0' <= c && c <= '9') || c
        == '_';
    if !is_key {
        return false;
    }
    if p == 0 {
        return true;
    }
    let b = s.get_char(p - 1);
    !(('a' <= b && b <= 'z') || ('A' <= b && b <= 'Z') || ('0' <= b && b <= '9') || b == '_')
}

/// The view of a token's places.
pub open spec fn tok_view(t: (usize, usize, usize, usize, usize)) -> (int, int, int, int, int) {
    (t.0 as int, t.1 as int, t.2 as int, t.3 as int, t.4 as int)
}

/// Scans the whole text for tokens, left to right.
fn scan_tokens(s: &str) -> (r: Vec<(usize, usize, usize, usize, usize)>)
    ensures
        r@.map_values(|t: (usize, usize, usize, usize, usize)| tok_view(t)) == spec_scan(s@, 0),
        forall|a: int|
            0 <= a < r@.len() ==> (#[trigger] r@[a]).4 <= s@.len() && r@[a].0 < r@[a].1
                && r@[a].1 <= s@.len() && r@[a].2 <= r@[a].3 && r@[a].3 <= s@.len(),
{
    let n = s.unicode_len();
    let mut r: Vec<(usize, usize, usize, usize, usize)> = Vec::new();
    let mut p: usize = 0;
    while p < n
        invariant
            n == s@.len(),
            p <= n,
            spec_scan(s@, 0) == r@.map_values(
                |t: (usize, usize, usize, usize, usize)| tok_view(t),
            ) + spec_scan(s@, p as int),
            forall|a: int|
                0 <= a < r@.len() ==> (#[trigger] r@[a]).4 <= n && r@[a].0 < r@[a].1 && r@[a].1
                    <= n && r@[a].2 <= r@[a].3 && r@[a].3 <= n,
        decreases n - p,
    {
        let ghost rs_before = r@;
        if run_start_exec(s, p) {
            match token_at_exec(s, p) {
                Some(t) => {
                    proof {
                        let tt = spec_token_at(s@, p as int)->Some_0;
                        assert(spec_scan(s@, p as int) == seq![tt] + spec_scan(s@, tt.4));
                    }
                    r.push(t);
                    proof {
                        let f = |t: (usize, usize, usize, usize, usize)| tok_view(t);
                        assert(r@.map_values(f) =~= rs_before.map_values(f) + seq![f(t)]);
                        assert(spec_scan(s@, 0) =~= r@.map_values(f) + spec_scan(
                            s@,
                            t.4 as int,
                        ));
                    }
                    p = t.4;
                },
                None => {
                    proof {
                        assert(spec_scan(s@, p as int) == spec_scan(s@, p + 1 as int));
                    }
                    p = p + 1;
                },
            }
        } else {
            proof {
                assert(spec_scan(s@, p as int) == spec_scan(s@, p + 1 as int));
            }
            p = p + 1;
        }
    }
    proof {
        assert(spec_scan(s@, n as int) =~= Seq::<(int, int, int, int, int)>::empty());
        let f = |t: (usize, usize, usize, usize, usize)| tok_view(t);
        assert(spec_scan(s@, 0) =~= r@.map_values(f));
    }
    r
}

/// Decides whether the character at `i` is fringe whitespace.
fn is_ws_at(s: &str, i: usize) -> (r: bool)
    requires
        i < s@.len(),
    ensures
        r == is_ws_char(s@[i as int]),
{
    let c = s.get_char(i);
    c == ' ' || c == '\t' || c == '\r' || c == '\n'
}

/// Finds the bounds of `[lo, hi)` with whitespace shed at both fringes.
fn trimmed_bounds(s: &str, lo: usize, hi: usize) -> (r: (usize, usize))
    requires
        lo <= hi <= s@.len(),
    ensures
        lo <= r.0 <= r.1 <= hi,
        s@.subrange(r.0 as int, r.1 as int) == spec_trim_ws(s@.subrange(lo as int, hi as int)),
{
    let mut a = lo;
    while a < hi && is_ws_at(s, a)
        invariant
            lo <= a <= hi <= s@.len(),
            trim_front(s@.subrange(lo as int, hi as int)) == trim_front(
                s@.subrange(a as int, hi as int),
            ),
        decreases hi - a,
    {
        proof {
            assert(s@.subrange(a as int, hi as int)[0] == s@[a as int]);
            assert(s@.subrange(a as int, hi as int).drop_first() =~= s@.subrange(
                a + 1 as int,
                hi as int,
            ));
        }
        a = a + 1;
    }
    proof {
        if a < hi {
            assert(s@.subrange(a as int, hi as int)[0] == s@[a as int]);
        }
        assert(trim_front(s@.subrange(lo as int, hi as int)) == s@.subrange(a as int, hi as int));
    }
    let mut b = hi;
    while b > a && is_ws_at(s, b - 1)
        invariant
            lo <= a <= b <= hi <= s@.len(),
            trim_back(s@.subrange(a as int, hi as int)) == trim_back(
                s@.subrange(a as int, b as int),
            ),
        decreases b,
    {
        proof {
            assert(s@.subrange(a as int, b as int).last() == s@[b - 1 as int]);
            assert(s@.subrange(a as int, b as int).drop_last() =~= s@.subrange(
                a as int,
                b - 1 as int,
            ));
        }
        b = b - 1;
    }
    proof {
        if b > a {
            assert(s@.subrange(a as int, b as int).last() == s@[b - 1 as int]);
        }
        assert(trim_back(s@.subrange(a as int, b as int)) == s@.subrange(a as int, b as int));
        assert(spec_trim_ws(s@.subrange(lo as int, hi as int)) == s@.subrange(
            a as int,
            b as int,
        ));
    }
    (a, b)
}

/// Collects the values of one key over a scanned token list.
fn values_for_key(
    text: &str,
    toks: &Vec<(usize, usize, usize, usize, usize)>,
    key: &str,
) -> (r: Vec<String>)
    requires
        forall|a: int|
            0 <= a < toks@.len() ==> (#[trigger] toks@[a]).4 <= text@.len() && toks@[a].0
                < toks@[a].1 && toks@[a].1 <= text@.len() && toks@[a].2 <= toks@[a].3
                && toks@[a].3 <= text@.len(),
    ensures
        r@.map_values(|v: String| v@) == spec_values_for(
            text@,
            toks@.map_values(|t: (usize, usize, usize, usize, usize)| tok_view(t)),
            key@,
        ),
{
    let ghost stoks = toks@.map_values(|t: (usize, usize, usize, usize, usize)| tok_view(t));
    let n = toks.len();
    let mut r: Vec<String> = Vec::new();
    let mut i: usize = 0;
    proof {
        assert(stoks.subrange(0, 0) =~= Seq::<(int, int, int, int, int)>::empty());
        assert(r@.map_values(|v: String| v@) =~= spec_values_for(
            text@,
            stoks.subrange(0, 0),
            key@,
        ));
    }
    while i < n
        invariant
            n == toks@.len(),
            i <= n,
            stoks == toks@.map_values(|t: (usize, usize, usize, usize, usize)| tok_view(t)),
            forall|a: int|
                0 <= a < toks@.len() ==> (#[trigger] toks@[a]).4 <= text@.len() && toks@[a].0
                    < toks@[a].1 && toks@[a].1 <= text@.len() && toks@[a].2 <= toks@[a].3
                    && toks@[a].3 <= text@.len(),
            r@.map_values(|v: String| v@) == spec_values_for(
                text@,
                stoks.subrange(0, i as int),
                key@,
            ),
        decreases n - i,
    {
        let ghost rs_before = r@;
        proof {
            assert(stoks.subrange(0, i + 1 as int).drop_last() =~= stoks.subrange(0, i as int));
            assert(stoks.subrange(0, i + 1 as int).last() == stoks[i as int]);
            assert(stoks[i as int] == tok_view(toks@[i as int]));
        }
        let t = toks[i];
        let k = text.substring_char(t.0, t.1);
        if compare_str(k, key) {
            let v = if t.4 == t.3 {
                let (lo, hi) = trimmed_bounds(text, t.2, t.3);
                text.substring_char(lo, hi).to_owned()
            } else {
                text.substring_char(t.2, t.3).to_owned()
            };
            proof {
                assert(v@ == tok_val(text@, stoks[i as int]));
                assert(tok_key(text@, stoks[i as int]) == key@);
            }
            r.push(v);
            proof {
                assert(r@.map_values(|v: String| v@) =~= rs_before.map_values(|v: String| v@)
                    + seq![tok_val(text@, stoks[i as int])]);
            }
        } else {
            proof {
                assert(tok_key(text@, stoks[i as int]) != key@);
            }
        }
        i = i + 1;
    }
    proof {
        assert(stoks.subrange(0, n as int) =~= stoks);
    }
    r
}

/// A key that some token carries has at least one value.
proof fn lemma_values_nonempty(
    s: Seq<char>,
    toks: Seq<(int, int, int, int, int)>,
    ti: int,
    key: Seq<char>,
)
    requires
        0 <= ti < toks.len(),
        tok_key(s, toks[ti]) == key,
    ensures
        spec_values_for(s, toks, key).len() >= 1,
    decreases toks.len(),
{
    if ti == toks.len() - 1 {
        assert(toks.last() == toks[ti]);
    } else {
        assert(toks.drop_last()[ti] == toks[ti]);
        lemma_values_nonempty(s, toks.drop_last(), ti, key);
    }
}

/// Whether some collected entry carries the given key.
pub open spec fn spec_has_key(entries: Seq<(String, Vec<String>)>, key: Seq<char>) -> bool {
    exists|a: int| 0 <= a < entries.len() && (#[trigger] entries[a]).0@ == key
}

/// Extracts the metadata of a text: each key that some token carries,
/// once, in order of first appearance, with all its values in reading
/// order. A bare value sheds whitespace at its fringes; a quoted value
/// sheds only its quotes, so whitespace inside the quotes stays.
pub fn text_to_metadata(text: &str) -> (r: Vec<(String, Vec<String>)>)
    ensures
        forall|a: int, b: int| 0 <= a < b < r@.len() ==> r@[a].0@ != r@[b].0@,
        forall|a: int|
            0 <= a < r@.len() ==> (#[trigger] r@[a]).1@.map_values(|v: String| v@)
                == spec_values_for(text@, spec_scan(text@, 0), r@[a].0@),
        forall|a: int| 0 <= a < r@.len() ==> (#[trigger] r@[a]).1@.len() > 0,
        forall|ti: int|
            0 <= ti < spec_scan(text@, 0).len() ==> spec_has_key(
                r@,
                tok_key(text@, #[trigger] spec_scan(text@, 0)[ti]),
            ),
{
    let toks = scan_tokens(text);
    let ghost stoks = spec_scan(text@, 0);
    proof {
        assert(stoks == toks@.map_values(|t: (usize, usize, usize, usize, usize)| tok_view(t)));
    }
    let tn = toks.len();
    let mut r: Vec<(String, Vec<String>)> = Vec::new();
    let mut i: usize = 0;
    let ghost mut owner: Seq<int> = Seq::empty();
    while i < tn
        invariant
            tn == toks@.len(),
            tn == stoks.len(),
            stoks == spec_scan(text@, 0),
            stoks == toks@.map_values(|t: (usize, usize, usize, usize, usize)| tok_view(t)),
            i <= tn,
            owner.len() == i,
            forall|a: int|
                0 <= a < toks@.len() ==> (#[trigger] toks@[a]).4 <= text@.len() && toks@[a].0
                    < toks@[a].1 && toks@[a].1 <= text@.len() && toks@[a].2 <= toks@[a].3
                    && toks@[a].3 <= text@.len(),
            forall|a: int, b: int| 0 <= a < b < r@.len() ==> r@[a].0@ != r@[b].0@,
            forall|a: int|
                0 <= a < r@.len() ==> (#[trigger] r@[a]).1@.map_values(|v: String| v@)
                    == spec_values_for(text@, stoks, r@[a].0@),
            forall|a: int| 0 <= a < r@.len() ==> (#[trigger] r@[a]).1@.len() > 0,
            forall|ti: int|
                0 <= ti < i ==> 0 <= #[trigger] owner[ti] < r@.len() && r@[owner[ti]].0@
                    == tok_key(text@, stoks[ti]),
        decreases tn - i,
    {
        let t = toks[i];
        proof {
            assert(stoks[i as int] == tok_view(toks@[i as int]));
        }
        let key = text.substring_char(t.0, t.1).to_owned();
        proof {
            assert(key@ == tok_key(text@, stoks[i as int]));
        }
        let rn = r.len();
        let mut j: usize = 0;
        let mut found: Option<usize> = None;
        while j < rn
            invariant
                rn == r@.len(),
                j <= rn,
                match found {
                    Some(f) => f < rn && r@[f as int].0@ == key@,
                    None => forall|a: int| 0 <= a < j ==> (#[trigger] r@[a]).0@ != key@,
                },
            decreases rn - j,
        {
            if compare_str(r[j].0.as_str(), key.as_str()) {
                proof {
                    assert(r@[j as int].0@ == key@);
                }
                found = Some(j);
                j = rn;
            } else {
                j = j + 1;
            }
        }
        let ghost rs_before = r@;
        match found {
            Some(f) => {
                proof {
                    owner = owner.push(f as int);
                }
            },
            None => {
                let vs = values_for_key(text, &toks, key.as_str());
                proof {
                    lemma_values_nonempty(text@, stoks, i as int, key@);
                    assert(vs@.map_values(|v: String| v@).len() == spec_values_for(
                        text@,
                        stoks,
                        key@,
                    ).len());
                }
                r.push((key, vs));
                proof {
                    assert(forall|a: int| 0 <= a < rs_before.len() ==> r@[a] == rs_before[a]);
                    assert(r@[rs_before.len() as int].0@ == tok_key(text@, stoks[i as int]));
                    owner = owner.push(rs_before.len() as int);
                }
            },
        }
        i = i + 1;
    }
    proof {
        assert forall|ti: int|
            0 <= ti < spec_scan(text@, 0).len() implies spec_has_key(
            r@,
            tok_key(text@, #[trigger] spec_scan(text@, 0)[ti]),
        ) by {
            assert(0 <= owner[ti] < r@.len() && r@[owner[ti]].0@ == tok_key(text@, stoks[ti]));
        }
    }
    r
}

/// Blanks every metadata token of the text to a single space, leaving
/// everything else as it stands; the line cleanup follows separately.
fn strip_tokens(text: &str) -> (r: String)
    ensures
        r@ == spec_strip(text@, 0),
{
    proof {
        reveal_strlit(" ");
    }
    let n = text.unicode_len();
    let mut out = String::new();
    let mut p: usize = 0;
    while p < n
        invariant
            n == text@.len(),
            p <= n,
            spec_strip(text@, 0) == out@ + spec_strip(text@, p as int),
        decreases n - p,
    {
        let ghost out_before = out@;
        if run_start_exec(text, p) {
            match token_at_exec(text, p) {
                Some(t) => {
                    proof {
                        let tt = spec_token_at(text@, p as int)->Some_0;
                        assert(spec_strip(text@, p as int) == seq![' '] + spec_strip(
                            text@,
                            tt.4,
                        ));
                    }
                    out.append(" ");
                    proof {
                        reveal_strlit(" ");
                        assert(" "@ =~= seq![' ']);
                        assert(spec_strip(text@, 0) =~= out@ + spec_strip(text@, t.4 as int));
                    }
                    p = t.4;
                },
                None => {
                    let piece = text.substring_char(p, p + 1);
                    proof {
                        assert(piece@ =~= seq![text@[p as int]]);
                        assert(spec_strip(text@, p as int) == seq![text@[p as int]] + spec_strip(
                            text@,
                            p + 1 as int,
                        ));
                    }
                    out.append(piece);
                    proof {
                        assert(spec_strip(text@, 0) =~= out@ + spec_strip(text@, p + 1 as int));
                    }
                    p = p + 1;
                },
            }
        } else {
            let piece = text.substring_char(p, p + 1);
            proof {
                assert(piece@ =~= seq![text@[p as int]]);
                assert(spec_strip(text@, p as int) == seq![text@[p as int]] + spec_strip(
                    text@,
                    p + 1 as int,
                ));
            }
            out.append(piece);
            proof {
                assert(spec_strip(text@, 0) =~= out@ + spec_strip(text@, p + 1 as int));
            }
            p = p + 1;
        }
    }
    proof {
        assert(spec_strip(text@, n as int) =~= Seq::<char>::empty());
        assert(out@ =~= spec_strip(text@, 0));
    }
    out
}

/// A character that leaves a line blank: a space, a tab or a carriage
/// return.
pub open spec fn is_blank_char(c: char) -> bool {
    c == ' ' || c == '\t' || c == '\r'
}

/// The end of the line that starts at `p`: the next newline, or the
/// text's end.
pub open spec fn line_end(s: Seq<char>, p: int) -> int
    decreases s.len() - p,
{
    if 0 <= p < s.len() {
        if s[p] == '\n' {
            p
        } else {
            line_end(s, p + 1)
        }
    } else {
        p
    }
}

/// Whether every character in `[p, e)` is blank.
pub open spec fn spec_blank_range(s: Seq<char>, p: int, e: int) -> bool {
    forall|i: int| p <= i < e ==> is_blank_char(#[trigger] s[i])
}

/// The text with every whitespace-only line dropped, its newline with
/// it; a whitespace-only final fragment is dropped too, so no trailing
/// blank run survives.
pub open spec fn spec_drop_blank_lines(s: Seq<char>, p: int) -> Seq<char>
    decreases s.len() - p,
{
    if p < 0 || p >= s.len() {
        Seq::empty()
    } else {
        let e = line_end(s, p);
        if p <= e && e < s.len() {
            (if spec_blank_range(s, p, e) {
                Seq::empty()
            } else {
                s.subrange(p, e + 1)
            }) + spec_drop_blank_lines(s, e + 1)
        } else if p <= e {
            if spec_blank_range(s, p, s.len() as int) {
                Seq::empty()
            } else {
                s.subrange(p, s.len() as int)
            }
        } else {
            Seq::empty()
        }
    }
}

/// Finds the end of the line that starts at `p`.
fn line_end_exec(s: &str, p: usize) -> (r: usize)
    requires
        p <= s@.len(),
    ensures
        r == line_end(s@, p as int),
        p <= r <= s@.len(),
    decreases s@.len() - p,
{
    if p < s.unicode_len() {
        if s.get_char(p) != '\n' {
            return line_end_exec(s, p + 1);
        }
    }
    p
}

/// Decides whether every character in `[p, e)` is blank.
fn blank_range_exec(s: &str, p: usize, e: usize) -> (r: bool)
    requires
        p <= e <= s@.len(),
    ensures
        r == spec_blank_range(s@, p as int, e as int),
{
    let mut i: usize = p;
    while i < e
        invariant
            p <= i <= e,
            e <= s@.len(),
            forall|j: int| p <= j < i ==> is_blank_char(#[trigger] s@[j]),
        decreases e - i,
    {
        let c = s.get_char(i);
        if !(c == ' ' || c == '\t' || c == '\r') {
            return false;
        }
        i = i + 1;
    }
    true
}

/// Drops every whitespace-only line of a text, its newline with it.
fn drop_blank_lines(s: &str) -> (r: String)
    ensures
        r@ == spec_drop_blank_lines(s@, 0),
{
    let n = s.unicode_len();
    let mut out = String::new();
    let mut p: usize = 0;
    while p < n
        invariant
            n == s@.len(),
            p <= n,
            spec_drop_blank_lines(s@, 0) == out@ + spec_drop_blank_lines(s@, p as int),
        decreases n - p,
    {
        let e = line_end_exec(s, p);
        if e < n {
            let blank = blank_range_exec(s, p, e);
            proof {
                assert(spec_drop_blank_lines(s@, p as int) == (if spec_blank_range(
                    s@,
                    p as int,
                    e as int,
                ) {
                    Seq::<char>::empty()
                } else {
                    s@.subrange(p as int, e + 1 as int)
                }) + spec_drop_blank_lines(s@, e + 1 as int));
            }
            if !blank {
                let piece = s.substring_char(p, e + 1);
                out.append(piece);
            }
            proof {
                assert(spec_drop_blank_lines(s@, 0) =~= out@ + spec_drop_blank_lines(
                    s@,
                    e + 1 as int,
                ));
            }
            p = e + 1;
        } else {
            let blank = blank_range_exec(s, p, n);
            proof {
                assert(e as int == line_end(s@, p as int));
                assert(spec_drop_blank_lines(s@, p as int) == if spec_blank_range(
                    s@,
                    p as int,
                    s@.len() as int,
                ) {
                    Seq::<char>::empty()
                } else {
                    s@.subrange(p as int, s@.len() as int)
                });
            }
            if !blank {
                let piece = s.substring_char(p, n);
                out.append(piece);
            }
            proof {
                assert(spec_drop_blank_lines(s@, n as int) =~= Seq::<char>::empty());
                assert(spec_drop_blank_lines(s@, 0) =~= out@ + spec_drop_blank_lines(
                    s@,
                    n as int,
                ));
            }
            p = n;
        }
    }
    proof {
        assert(spec_drop_blank_lines(s@, n as int) =~= Seq::<char>::empty());
        assert(out@ =~= spec_drop_blank_lines(s@, 0));
    }
    out
}

/// Scrubs the metadata out of a text: every token is blanked to a single
/// space, and every line left holding only whitespace is dropped, its
/// newline with it, so no blank line or trailing blank run survives.
pub fn text_no_meta(text: &str) -> (r: String)
    ensures
        r@ == spec_drop_blank_lines(spec_strip(text@, 0), 0),
{
    let stripped = strip_tokens(text);
    drop_blank_lines(stripped.as_str())
}

} // verus!
