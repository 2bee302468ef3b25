//! Character classes and scanning helpers shared by the grammars.

use vstd::prelude::*;

verus! {

/// The character classes the grammars and the output readers speak of.
#[derive(Clone, Copy, PartialEq, Eq, Structural)]
pub enum CharClass {
    Word,
    Digit,
    Space,
    /// Characters a line may hold: anything but a line feed.
    Line,
    /// ASCII whitespace.
    Ws,
}

/// A decimal digit, `0` through `9`.
pub open spec fn is_digit_char(c: char) -> bool {
    '0' as u32 <= c as u32 && c as u32 <= '9' as u32
}

/// A word character: an ASCII letter, a digit, or an underscore.
pub open spec fn is_word_char(c: char) -> bool {
    ||| ('a' as u32 <= c as u32 && c as u32 <= 'z' as u32)
    ||| ('A' as u32 <= c as u32 && c as u32 <= 'Z' as u32)
    ||| is_digit_char(c)
    ||| c == '_'
}

/// ASCII whitespace: space, tab, carriage return, line feed.
pub open spec fn is_ws_char(c: char) -> bool {
    c == ' ' || c == '\t' || c == '\r' || c == '\n'
}

pub open spec fn char_in_class(cc: CharClass, c: char) -> bool {
    match cc {
        CharClass::Word => is_word_char(c),
        CharClass::Digit => is_digit_char(c),
        CharClass::Space => c == ' ',
        CharClass::Line => c != '\n',
        CharClass::Ws => is_ws_char(c),
    }
}

/// Length of the longest run of characters of class `cc` in `s` starting at
/// position `i`.
pub open spec fn run_len(s: Seq<char>, i: int, cc: CharClass) -> int
    decreases s.len() - i when 0 <= i <= s.len()
{
    if i >= s.len() {
        0
    } else if char_in_class(cc, s[i]) {
        1 + run_len(s, i + 1, cc)
    } else {
        0
    }
}

pub proof fn lemma_run_len(s: Seq<char>, i: int, cc: CharClass)
    requires
        0 <= i <= s.len(),
    ensures
        0 <= run_len(s, i, cc),
        i + run_len(s, i, cc) <= s.len(),
        forall|j: int| i <= j < i + run_len(s, i, cc) ==> char_in_class(cc, s[j]),
        i + run_len(s, i, cc) < s.len() ==> !char_in_class(cc, s[i + run_len(s, i, cc)]),
    decreases s.len() - i,
{
    if i < s.len() && char_in_class(cc, s[i]) {
        lemma_run_len(s, i + 1, cc);
    }
}

/// A run is exactly `n` long when `n` characters of the class stand at `i`
/// and the run is then stopped by the end or by a character outside it.
pub proof fn lemma_run_len_exact(s: Seq<char>, i: int, n: int, cc: CharClass)
    requires
        0 <= i,
        0 <= n,
        i + n <= s.len(),
        forall|j: int| i <= j < i + n ==> char_in_class(cc, s[j]),
        i + n < s.len() ==> !char_in_class(cc, s[i + n]),
    ensures
        run_len(s, i, cc) == n,
    decreases n,
{
    if n > 0 {
        lemma_run_len_exact(s, i + 1, n - 1, cc);
    }
}

fn char_is_in_class(cc: CharClass, c: char) -> (b: bool)
    ensures
        b == char_in_class(cc, c),
{
    let v = c as u32;
    match cc {
        CharClass::Word => {
            (97 <= v && v <= 122) || (65 <= v && v <= 90) || (48 <= v && v <= 57) || c == '_'
        },
        CharClass::Digit => 48 <= v && v <= 57,
        CharClass::Space => c == ' ',
        CharClass::Line => c != '\n',
        CharClass::Ws => c == ' ' || c == '\t' || c == '\r' || c == '\n',
    }
}

/// Scans `s` from `start` and returns the length of the run of characters of
/// class `cc` found there.
pub fn scan_run(s: &str, start: usize, cc: CharClass) -> (n: usize)
    requires
        start <= s@.len(),
    ensures
        n == run_len(s@, start as int, cc),
        start + n <= s@.len(),
{
    proof {
        lemma_run_len(s@, start as int, cc);
    }
    let len = s.unicode_len();
    let mut i: usize = start;
    while i < len && char_is_in_class(cc, s.get_char(i))
        invariant
            start <= i <= len,
            len == s@.len(),
            run_len(s@, start as int, cc) == i - start + run_len(s@, i as int, cc),
            forall|j: int| start <= j < i ==> char_in_class(cc, s@[j]),
        decreases len - i,
    {
        proof {
            lemma_run_len(s@, i as int, cc);
        }
        i = i + 1;
    }
    proof {
        lemma_run_len(s@, i as int, cc);
    }
    i - start
}

/// Character-for-character equality of two strings.
pub fn str_eq(a: &str, b: &str) -> (r: bool)
    ensures
        r == (a@ == b@),
{
    let alen = a.unicode_len();
    let blen = b.unicode_len();
    if alen != blen {
        return false;
    }
    let mut i: usize = 0;
    while i < alen
        invariant
            i <= alen,
            alen == a@.len(),
            alen == b@.len(),
            forall|j: int| 0 <= j < i ==> a@[j] == b@[j],
        decreases alen - i,
    {
        if a.get_char(i) != b.get_char(i) {
            return false;
        }
        i = i + 1;
    }
    proof {
        assert(a@ =~= b@);
    }
    true
}

/// Length of the run of whitespace at the end of `s`.
pub open spec fn ws_suffix_len(s: Seq<char>) -> int
    decreases s.len(),
{
    if s.len() == 0 {
        0
    } else if is_ws_char(s.last()) {
        1 + ws_suffix_len(s.drop_last())
    } else {
        0
    }
}

pub proof fn lemma_ws_suffix_len(s: Seq<char>)
    ensures
        0 <= ws_suffix_len(s) <= s.len(),
        forall|j: int| s.len() - ws_suffix_len(s) <= j < s.len() ==> is_ws_char(s[j]),
        ws_suffix_len(s) < s.len() ==> !is_ws_char(s[s.len() - ws_suffix_len(s) - 1]),
    decreases s.len(),
{
    if s.len() > 0 && is_ws_char(s.last()) {
        lemma_ws_suffix_len(s.drop_last());
        assert forall|j: int| s.len() - ws_suffix_len(s) <= j < s.len() implies is_ws_char(
            s[j],
        ) by {
            if j < s.len() - 1 {
                assert(s.drop_last()[j] == s[j]);
            }
        }
        if ws_suffix_len(s) < s.len() {
            assert(s.drop_last()[s.len() - ws_suffix_len(s) - 1] == s[s.len() - ws_suffix_len(s)
                - 1]);
        }
    }
}

/// `s` with the whitespace at both ends taken off.
pub open spec fn trimmed(s: Seq<char>) -> Seq<char> {
    let a = run_len(s, 0, CharClass::Ws);
    if a == s.len() {
        Seq::empty()
    } else {
        s.subrange(a, s.len() - ws_suffix_len(s))
    }
}

fn ws_suffix(s: &str) -> (n: usize)
    ensures
        n == ws_suffix_len(s@),
{
    let len = s.unicode_len();
    let mut e: usize = len;
    proof {
        assert(s@.subrange(0, len as int) =~= s@);
    }
    while e > 0 && char_is_in_class(CharClass::Ws, s.get_char(e - 1))
        invariant
            e <= len,
            len == s@.len(),
            ws_suffix_len(s@) == (len - e) + ws_suffix_len(s@.subrange(0, e as int)),
        decreases e,
    {
        proof {
            let pre = s@.subrange(0, e as int);
            assert(pre.last() == s@[e - 1]);
            assert(pre.drop_last() =~= s@.subrange(0, e - 1));
        }
        e = e - 1;
    }
    proof {
        if e > 0 {
            let pre = s@.subrange(0, e as int);
            assert(pre.last() == s@[e - 1]);
        }
        assert(ws_suffix_len(s@.subrange(0, e as int)) == 0);
    }
    len - e
}

/// `s` with the whitespace at both ends taken off.
pub fn str_trim<'a>(s: &'a str) -> (r: &'a str)
    ensures
        r@ == trimmed(s@),
{
    let len = s.unicode_len();
    let a = scan_run(s, 0, CharClass::Ws);
    if a == len {
        let r = "";
        proof {
            reveal_strlit("");
            assert(r@ =~= trimmed(s@));
        }
        return r;
    }
    let suf = ws_suffix(s);
    proof {
        lemma_run_len(s@, 0, CharClass::Ws);
        lemma_ws_suffix_len(s@);
        // the first non-whitespace character comes before the trailing
        // whitespace run
        assert(!is_ws_char(s@[a as int]));
        assert(a < len - suf);
    }
    s.substring_char(a, len - suf)
}

/// `p` stands at the front of `s`.
pub open spec fn has_prefix(s: Seq<char>, p: Seq<char>) -> bool {
    p.len() <= s.len() && s.subrange(0, p.len() as int) == p
}

/// `p` stands in `s` at position `i`.
pub open spec fn has_substr_at(s: Seq<char>, p: Seq<char>, i: int) -> bool {
    0 <= i && i + p.len() <= s.len() && s.subrange(i, i + p.len()) == p
}

/// `p` stands somewhere in `s`.
pub open spec fn has_substr(s: Seq<char>, p: Seq<char>) -> bool {
    exists|i: int| has_substr_at(s, p, i)
}

/// Does `p` stand in `s` at position `i`?
fn match_at(s: &str, p: &str, i: usize, slen: usize, plen: usize) -> (r: bool)
    requires
        slen == s@.len(),
        plen == p@.len(),
        i + plen <= slen,
    ensures
        r == has_substr_at(s@, p@, i as int),
{
    let mut j: usize = 0;
    while j < plen
        invariant
            j <= plen,
            plen == p@.len(),
            slen == s@.len(),
            i + plen <= slen,
            forall|k: int| 0 <= k < j ==> s@[i + k] == p@[k],
        decreases plen - j,
    {
        if s.get_char(i + j) != p.get_char(j) {
            proof {
                assert(s@.subrange(i as int, i + plen)[j as int] == s@[i + j]);
            }
            return false;
        }
        j = j + 1;
    }
    proof {
        assert(s@.subrange(i as int, i + plen) =~= p@);
    }
    true
}

/// `p` stands at the front of `s`.
pub fn str_starts_with(s: &str, p: &str) -> (r: bool)
    ensures
        r == has_prefix(s@, p@),
{
    let slen = s.unicode_len();
    let plen = p.unicode_len();
    if plen > slen {
        return false;
    }
    match_at(s, p, 0, slen, plen)
}

/// `p` stands somewhere in `s`.
pub fn str_contains(s: &str, p: &str) -> (r: bool)
    ensures
        r == has_substr(s@, p@),
{
    let slen = s.unicode_len();
    let plen = p.unicode_len();
    if plen > slen {
        return false;
    }
    if plen == 0 {
        proof {
            assert(s@.subrange(0, 0) =~= p@);
            assert(has_substr_at(s@, p@, 0));
        }
        return true;
    }
    let mut i: usize = 0;
    while i <= slen - plen
        invariant
            0 < plen <= slen,
            slen == s@.len(),
            plen == p@.len(),
            i <= slen - plen + 1,
            forall|k: int| 0 <= k < i ==> !has_substr_at(s@, p@, k),
        decreases slen - plen - i + 1,
    {
        if match_at(s, p, i, slen, plen) {
            return true;
        }
        i = i + 1;
    }
    proof {
        assert forall|k: int| !has_substr_at(s@, p@, k) by {
            if 0 <= k <= slen - plen {
                assert(!has_substr_at(s@, p@, k));
            }
        }
    }
    false
}

} // verus!
