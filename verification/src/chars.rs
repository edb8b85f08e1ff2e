//! Character-level helpers shared by the chunker, the sanitizer and the
//! heading extractor: the whitespace predicate, fixed-pattern matching
//! inside a text, and whitespace trimming.

use vstd::prelude::*;

verus! {

/// The Unicode `White_Space` code points, the set that character
/// classification goes by throughout the library.
pub open spec fn is_ws_char(c: char) -> bool {
    c == ' ' || c == '\t' || c == '\n' || c == '\u{0b}' || c == '\u{0c}' || c == '\r'
        || c == '\u{85}' || c == '\u{a0}' || c == '\u{1680}'
        || (0x2000 <= c as int && c as int <= 0x200a)
        || c == '\u{2028}' || c == '\u{2029}' || c == '\u{202f}' || c == '\u{205f}'
        || c == '\u{3000}'
}

/// Decides [`is_ws_char`] executably.
pub fn is_ws(c: char) -> (r: bool)
    ensures
        r == is_ws_char(c),
{
    let u = c as u32;
    c == ' ' || c == '\t' || c == '\n' || c == '\u{0b}' || c == '\u{0c}' || c == '\r'
        || c == '\u{85}' || c == '\u{a0}' || c == '\u{1680}'
        || (0x2000 <= u && u <= 0x200a)
        || c == '\u{2028}' || c == '\u{2029}' || c == '\u{202f}' || c == '\u{205f}'
        || c == '\u{3000}'
}

/// The fixed pattern `pat` occurs in `s` at position `i`.
pub open spec fn occurs_at(s: Seq<char>, pat: Seq<char>, i: int) -> bool {
    0 <= i && i + pat.len() <= s.len() && s.subrange(i, i + pat.len()) == pat
}

/// Decides [`occurs_at`] executably.
pub fn pat_at(text: &str, i: usize, pat: &str) -> (r: bool)
    ensures
        r == occurs_at(text@, pat@, i as int),
{
    let n = text.unicode_len();
    let m = pat.unicode_len();
    if i > n || m > n - i {
        assert(!occurs_at(text@, pat@, i as int));
        return false;
    }
    let mut k: usize = 0;
    while k < m
        invariant
            i + m <= n,
            n == text@.len(),
            m == pat@.len(),
            k <= m,
            forall|j: int| 0 <= j < k ==> text@[i + j] == pat@[j],
        decreases m - k,
    {
        if text.get_char(i + k) != pat.get_char(k) {
            assert(text@.subrange(i as int, i + m) != pat@) by {
                assert(text@.subrange(i as int, i + m)[k as int] == text@[i + k]);
            }
            return false;
        }
        k += 1;
    }
    assert(text@.subrange(i as int, i + m) =~= pat@);
    true
}

/// Decides character-for-character string equality.
pub fn str_eq(a: &str, b: &str) -> (r: bool)
    ensures
        r == (a@ == b@),
{
    let n = a.unicode_len();
    let m = b.unicode_len();
    if n != m {
        return false;
    }
    let r = pat_at(a, 0, b);
    proof {
        assert(a@.subrange(0, a@.len() as int) =~= a@);
    }
    r
}

/// The number of whitespace characters at the front of `s`.
pub open spec fn leading_ws(s: Seq<char>) -> int
    decreases s.len(),
{
    if s.len() == 0 {
        0
    } else if is_ws_char(s[0]) {
        1 + leading_ws(s.skip(1))
    } else {
        0
    }
}

/// The number of whitespace characters at the back of `s`.
pub open spec fn trailing_ws(s: Seq<char>) -> int
    decreases s.len(),
{
    if s.len() == 0 {
        0
    } else if is_ws_char(s.last()) {
        1 + trailing_ws(s.drop_last())
    } else {
        0
    }
}

/// `s` with leading and trailing whitespace removed.
pub open spec fn trim_spec(s: Seq<char>) -> Seq<char> {
    let a = leading_ws(s);
    if a >= s.len() {
        Seq::empty()
    } else {
        s.subrange(a, s.len() - trailing_ws(s))
    }
}

/// `leading_ws` is the position of the first non-whitespace character.
pub proof fn lemma_leading_ws(s: Seq<char>)
    ensures
        0 <= leading_ws(s) <= s.len(),
        forall|i: int| 0 <= i < leading_ws(s) ==> is_ws_char(s[i]),
        leading_ws(s) < s.len() ==> !is_ws_char(s[leading_ws(s)]),
    decreases s.len(),
{
    if s.len() > 0 && is_ws_char(s[0]) {
        lemma_leading_ws(s.skip(1));
        assert forall|i: int| 0 <= i < leading_ws(s) implies is_ws_char(s[i]) by {
            if i > 0 {
                assert(s.skip(1)[i - 1] == s[i]);
            }
        }
        if leading_ws(s) < s.len() {
            assert(s.skip(1)[leading_ws(s) - 1] == s[leading_ws(s)]);
        }
    }
}

/// Conversely: a prefix of whitespace bounded by a non-whitespace
/// character (or the end) pins `leading_ws` down.
pub proof fn lemma_leading_ws_char(s: Seq<char>, k: int)
    requires
        0 <= k <= s.len(),
        forall|i: int| 0 <= i < k ==> is_ws_char(s[i]),
        k < s.len() ==> !is_ws_char(s[k]),
    ensures
        leading_ws(s) == k,
    decreases s.len(),
{
    if s.len() > 0 && is_ws_char(s[0]) {
        assert(forall|i: int| 0 <= i < k - 1 ==> s.skip(1)[i] == s[i + 1]);
        lemma_leading_ws_char(s.skip(1), k - 1);
    }
}

/// `trailing_ws` is the distance from the last non-whitespace character
/// to the end.
pub proof fn lemma_trailing_ws(s: Seq<char>)
    ensures
        0 <= trailing_ws(s) <= s.len(),
        forall|i: int| s.len() - trailing_ws(s) <= i < s.len() ==> is_ws_char(s[i]),
        trailing_ws(s) < s.len() ==> !is_ws_char(s[s.len() - trailing_ws(s) - 1]),
    decreases s.len(),
{
    if s.len() > 0 && is_ws_char(s.last()) {
        lemma_trailing_ws(s.drop_last());
        assert forall|i: int| s.len() - trailing_ws(s) <= i < s.len() implies is_ws_char(s[i]) by {
            if i < s.len() - 1 {
                assert(s.drop_last()[i] == s[i]);
            }
        }
        if trailing_ws(s) < s.len() {
            assert(s.drop_last()[s.len() - trailing_ws(s) - 1] == s[s.len() - trailing_ws(s) - 1]);
        }
    }
}

/// Conversely: a suffix of whitespace bounded by a non-whitespace
/// character (or the start) pins `trailing_ws` down.
pub proof fn lemma_trailing_ws_char(s: Seq<char>, k: int)
    requires
        0 <= k <= s.len(),
        forall|i: int| s.len() - k <= i < s.len() ==> is_ws_char(s[i]),
        k < s.len() ==> !is_ws_char(s[s.len() - k - 1]),
    ensures
        trailing_ws(s) == k,
    decreases s.len(),
{
    if s.len() > 0 && is_ws_char(s.last()) {
        assert(forall|i: int| s.len() - 1 - (k - 1) <= i < s.len() - 1 ==> s.drop_last()[i] == s[i]);
        lemma_trailing_ws_char(s.drop_last(), k - 1);
    }
}

/// Removes leading and trailing whitespace, executably.
pub fn trim(text: &str) -> (r: String)
    ensures
        r@ == trim_spec(text@),
{
    let n = text.unicode_len();
    let mut a: usize = 0;
    while a < n && is_ws(text.get_char(a))
        invariant
            a <= n,
            n == text@.len(),
            forall|i: int| 0 <= i < a ==> is_ws_char(text@[i]),
        decreases n - a,
    {
        a += 1;
    }
    proof {
        lemma_leading_ws_char(text@, a as int);
    }
    if a == n {
        let r = String::new();
        assert(r@ =~= trim_spec(text@));
        return r;
    }
    let mut b: usize = n;
    while b > a && is_ws(text.get_char(b - 1))
        invariant
            a <= b <= n,
            n == text@.len(),
            a < n,
            !is_ws_char(text@[a as int]),
            forall|i: int| b <= i < n ==> is_ws_char(text@[i]),
        decreases b,
    {
        b -= 1;
    }
    proof {
        lemma_trailing_ws_char(text@, n - b);
    }
    let r = text.substring_char(a, b).to_owned();
    assert(r@ =~= trim_spec(text@));
    r
}

/// Trimming is idempotent.
pub proof fn lemma_trim_idempotent(s: Seq<char>)
    ensures
        trim_spec(trim_spec(s)) == trim_spec(s),
{
    lemma_leading_ws(s);
    lemma_trailing_ws(s);
    let t = trim_spec(s);
    if leading_ws(s) < s.len() {
        let a = leading_ws(s);
        let b = s.len() - trailing_ws(s);
        assert(a < b) by {
            if b <= a {
                assert(is_ws_char(s[a]));
            }
        }
        assert(t[0] == s[a]);
        lemma_leading_ws_char(t, 0);
        assert(t.last() == s[b - 1]);
        assert(!is_ws_char(s[b - 1])) by {
            if trailing_ws(s) == 0 {
                if is_ws_char(s[b - 1]) {
                    lemma_trailing_ws_char(s, 1);
                }
            }
        }
        lemma_trailing_ws_char(t, 0);
        assert(trim_spec(t) =~= t);
    } else {
        assert(t =~= Seq::<char>::empty());
        lemma_leading_ws_char(t, 0);
        assert(trim_spec(t) =~= t);
    }
}

} // verus!
