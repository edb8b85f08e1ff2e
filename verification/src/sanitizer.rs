//! LLM-output sanitization: removes model "reasoning" blocks
//! (`<think>…</think>` / `<thinking>…</thinking>`), trims whitespace,
//! and unwraps a fenced code block around the remaining text.

use vstd::prelude::*;
use crate::chars::{occurs_at, pat_at, trim, trim_spec};

verus! {

/// Length of the reasoning opener at position `i`: 10 for
/// `<thinking>`, 7 for `<think>`, 0 when neither occurs there.
pub open spec fn opener_len_at(s: Seq<char>, i: int) -> int {
    if occurs_at(s, "<thinking>"@, i) {
        10
    } else if occurs_at(s, "<think>"@, i) {
        7
    } else {
        0
    }
}

/// Length of the reasoning closer at position `i`: 11 for
/// `</thinking>`, 8 for `</think>`, 0 when neither occurs there.
pub open spec fn closer_len_at(s: Seq<char>, i: int) -> int {
    if occurs_at(s, "</thinking>"@, i) {
        11
    } else if occurs_at(s, "</think>"@, i) {
        8
    } else {
        0
    }
}

/// The first closer position at or after `i`, or -1 when none follows.
pub open spec fn closer_from(s: Seq<char>, i: int) -> int
    decreases s.len() - i,
{
    if i < 0 || i + 8 > s.len() {
        -1
    } else if closer_len_at(s, i) > 0 {
        i
    } else {
        closer_from(s, i + 1)
    }
}

/// A reasoning block begins at `i`: an opener stands there and some
/// closer follows it (the lazy-match reading: the block ends at the
/// first closer).
pub open spec fn reasoning_match_at(s: Seq<char>, i: int) -> bool {
    opener_len_at(s, i) > 0 && closer_from(s, i + opener_len_at(s, i)) >= 0
}

/// One past the end of the reasoning block that begins at `i`.
pub open spec fn match_end(s: Seq<char>, i: int) -> int {
    let j = closer_from(s, i + opener_len_at(s, i));
    j + closer_len_at(s, j)
}

/// What `closer_from` finds: a genuine closer, skipping none.
pub proof fn lemma_closer_from(s: Seq<char>, i: int)
    requires
        0 <= i,
    ensures
        closer_from(s, i) == -1 ==> forall|j: int| i <= j ==> closer_len_at(s, j) == 0,
        closer_from(s, i) != -1 ==> i <= closer_from(s, i) && closer_len_at(s, closer_from(s, i))
            > 0 && closer_from(s, i) + closer_len_at(s, closer_from(s, i)) <= s.len(),
        closer_from(s, i) != -1 ==> forall|j: int|
            i <= j < closer_from(s, i) ==> closer_len_at(s, j) == 0,
    decreases s.len() - i,
{
    reveal_strlit("</thinking>");
    reveal_strlit("</think>");
    if i < 0 || i + 8 > s.len() {
        assert forall|j: int| i <= j implies closer_len_at(s, j) == 0 by {
            if occurs_at(s, "</thinking>"@, j) {
                assert(j + 11 <= s.len());
            }
            if occurs_at(s, "</think>"@, j) {
                assert(j + 8 <= s.len());
            }
        }
    } else if closer_len_at(s, i) > 0 {
    } else {
        lemma_closer_from(s, i + 1);
    }
}

/// The sanitized remainder of `s` from position `i` on: characters are
/// kept one by one, and every reasoning block is skipped whole.
pub open spec fn strip_from(s: Seq<char>, i: int) -> Seq<char>
    decreases s.len() - i,
{
    if i < 0 || i >= s.len() {
        Seq::empty()
    } else if reasoning_match_at(s, i) {
        let e = match_end(s, i);
        if i < e <= s.len() {
            strip_from(s, e)
        } else {
            strip_from(s, i + 1)
        }
    } else {
        seq![s[i]] + strip_from(s, i + 1)
    }
}

/// `s` with every reasoning block removed.
pub open spec fn strip_reasoning_spec(s: Seq<char>) -> Seq<char> {
    strip_from(s, 0)
}

/// A reasoning block always ends strictly past its start and within the
/// text, so the skip in `strip_from` is the one actually taken.
pub proof fn lemma_match_end(s: Seq<char>, i: int)
    requires
        0 <= i,
        reasoning_match_at(s, i),
    ensures
        i < match_end(s, i) <= s.len(),
        strip_from(s, i) == strip_from(s, match_end(s, i)),
{
    reveal_strlit("<thinking>");
    reveal_strlit("<think>");
    lemma_closer_from(s, i + opener_len_at(s, i));
    let j = closer_from(s, i + opener_len_at(s, i));
    assert(j >= i + opener_len_at(s, i));
    assert(i < s.len()) by {
        if occurs_at(s, "<thinking>"@, i) {
            assert(i + 10 <= s.len());
        } else {
            assert(i + 7 <= s.len());
        }
    }
}

/// The fixed fence markers: a `markdown`-tagged opener, a bare opener,
/// and the closing triple backtick.
pub open spec fn fence_wrapped_md(t: Seq<char>) -> bool {
    t.len() >= 15 && occurs_at(t, "```markdown\n"@, 0) && occurs_at(t, "```"@, t.len() - 3)
}

/// The bare-fence counterpart of [`fence_wrapped_md`].
pub open spec fn fence_wrapped_plain(t: Seq<char>) -> bool {
    t.len() >= 7 && occurs_at(t, "```\n"@, 0) && occurs_at(t, "```"@, t.len() - 3)
}

/// The text is wrapped in one of the recognized code fences.
pub open spec fn fence_wrapped(t: Seq<char>) -> bool {
    fence_wrapped_md(t) || fence_wrapped_plain(t)
}

/// Strips a recognized code fence, returning the trimmed inner
/// content; text that is not fence-wrapped passes through unchanged.
pub open spec fn strip_fence_spec(t: Seq<char>) -> Seq<char> {
    if fence_wrapped_md(t) {
        trim_spec(t.subrange(12, t.len() - 3))
    } else if fence_wrapped_plain(t) {
        trim_spec(t.subrange(4, t.len() - 3))
    } else {
        t
    }
}

/// The whole sanitization pass: reasoning blocks out, whitespace
/// trimmed, a wrapping code fence stripped.
pub open spec fn sanitize_spec(s: Seq<char>) -> Seq<char> {
    strip_fence_spec(trim_spec(strip_reasoning_spec(s)))
}

/// Some reasoning block still begins somewhere in `s`.
pub open spec fn has_reasoning_match(s: Seq<char>) -> bool {
    exists|i: int| 0 <= i < s.len() && reasoning_match_at(s, i)
}

/// Text without any reasoning block passes `strip_from` unchanged.
pub proof fn lemma_strip_no_match_id(s: Seq<char>, k: int)
    requires
        0 <= k <= s.len(),
        !has_reasoning_match(s),
    ensures
        strip_from(s, k) == s.subrange(k, s.len() as int),
    decreases s.len() - k,
{
    if k >= s.len() {
        assert(strip_from(s, k) =~= s.subrange(k, s.len() as int));
    } else {
        assert(!reasoning_match_at(s, k));
        lemma_strip_no_match_id(s, k + 1);
        assert(strip_from(s, k) =~= s.subrange(k, s.len() as int));
    }
}

/// Sanitized text is already trimmed.
pub proof fn lemma_sanitize_trimmed(s: Seq<char>)
    ensures
        trim_spec(sanitize_spec(s)) == sanitize_spec(s),
{
    let t = trim_spec(strip_reasoning_spec(s));
    crate::chars::lemma_trim_idempotent(strip_reasoning_spec(s));
    if fence_wrapped_md(t) {
        crate::chars::lemma_trim_idempotent(t.subrange(12, t.len() - 3));
    } else if fence_wrapped_plain(t) {
        crate::chars::lemma_trim_idempotent(t.subrange(4, t.len() - 3));
    }
}

/// Idempotence: sanitizing a second time changes nothing, provided the
/// first pass left no reasoning opener-closer pair behind (removals can
/// splice one together out of fragments) and did not expose yet another
/// fence wrapping.
pub proof fn lemma_sanitize_idempotent(s: Seq<char>)
    requires
        !has_reasoning_match(sanitize_spec(s)),
        !fence_wrapped(sanitize_spec(s)),
    ensures
        sanitize_spec(sanitize_spec(s)) == sanitize_spec(s),
{
    let y = sanitize_spec(s);
    lemma_strip_no_match_id(y, 0);
    assert(y.subrange(0, y.len() as int) =~= y);
    assert(strip_reasoning_spec(y) == y);
    lemma_sanitize_trimmed(s);
    assert(strip_fence_spec(y) == y);
}

/// Executable check for an opener at `i`.
fn opener_len(text: &str, i: usize) -> (r: usize)
    ensures
        r == opener_len_at(text@, i as int),
{
    if pat_at(text, i, "<thinking>") {
        10
    } else if pat_at(text, i, "<think>") {
        7
    } else {
        0
    }
}

/// Executable check for a closer at `i`.
fn closer_len(text: &str, i: usize) -> (r: usize)
    ensures
        r == closer_len_at(text@, i as int),
{
    if pat_at(text, i, "</thinking>") {
        11
    } else if pat_at(text, i, "</think>") {
        8
    } else {
        0
    }
}

/// Finds the first closer at or after `k`, as `closer_from` describes.
fn find_closer(text: &str, k: usize) -> (r: Option<usize>)
    requires
        k <= text@.len(),
    ensures
        match r {
            Some(j) => closer_from(text@, k as int) == j as int && k <= j,
            None => closer_from(text@, k as int) == -1,
        },
{
    let n = text.unicode_len();
    if n < 8 {
        assert(closer_from(text@, k as int) == -1);
        return None;
    }
    let mut j = k;
    while j <= n - 8
        invariant
            k <= j <= n,
            8 <= n == text@.len(),
            closer_from(text@, k as int) == closer_from(text@, j as int),
        decreases n - j,
    {
        let cl = closer_len(text, j);
        if cl > 0 {
            return Some(j);
        }
        j += 1;
    }
    assert(closer_from(text@, j as int) == -1);
    None
}

/// Removes every reasoning block from the text.
fn strip_reasoning(text: &str) -> (r: String)
    ensures
        r@ == strip_reasoning_spec(text@),
{
    let n = text.unicode_len();
    let mut out = String::new();
    let mut seg: usize = 0;
    let mut i: usize = 0;
    while i < n
        invariant
            seg <= i <= n,
            n == text@.len(),
            out@ + strip_from(text@, seg as int) == strip_from(text@, 0),
            strip_from(text@, seg as int) == text@.subrange(seg as int, i as int) + strip_from(
                text@,
                i as int,
            ),
        decreases n - i,
    {
        let op = opener_len(text, i);
        let mut matched = false;
        let mut mend: usize = 0;
        if op > 0 {
            proof {
                reveal_strlit("<thinking>");
                reveal_strlit("<think>");
                if occurs_at(text@, "<thinking>"@, i as int) {
                    assert(i + 10 <= n);
                } else {
                    assert(i + 7 <= n);
                }
            }
            match find_closer(text, i + op) {
                Some(j) => {
                    let cl = closer_len(text, j);
                    proof {
                        lemma_closer_from(text@, i as int + op);
                    }
                    matched = true;
                    mend = j + cl;
                },
                None => {
                },
            }
        }
        if matched {
            assert(reasoning_match_at(text@, i as int));
            assert(mend == match_end(text@, i as int));
            proof {
                lemma_match_end(text@, i as int);
            }
            let ghost prev = out@;
            out.append(text.substring_char(seg, i));
            proof {
                assert(out@ + strip_from(text@, mend as int) == strip_from(text@, 0));
            }
            i = mend;
            seg = mend;
            assert(strip_from(text@, seg as int) =~= text@.subrange(seg as int, i as int)
                + strip_from(text@, i as int));
        } else {
            assert(!reasoning_match_at(text@, i as int));
            assert(strip_from(text@, i as int) == seq![text@[i as int]] + strip_from(
                text@,
                i as int + 1,
            ));
            assert(text@.subrange(seg as int, i as int + 1) + strip_from(text@, i as int + 1)
                =~= text@.subrange(seg as int, i as int) + strip_from(text@, i as int));
            i += 1;
        }
    }
    out.append(text.substring_char(seg, n));
    assert(strip_from(text@, n as int) =~= Seq::<char>::empty());
    assert(out@ =~= strip_from(text@, 0));
    out
}

/// Strips a recognized code fence from already-trimmed text.
fn strip_fence(t: String) -> (r: String)
    ensures
        r@ == strip_fence_spec(t@),
{
    let n = t.as_str().unicode_len();
    if n >= 15 && pat_at(t.as_str(), 0, "```markdown\n") && pat_at(t.as_str(), n - 3, "```") {
        trim(t.as_str().substring_char(12, n - 3))
    } else if n >= 7 && pat_at(t.as_str(), 0, "```\n") && pat_at(t.as_str(), n - 3, "```") {
        trim(t.as_str().substring_char(4, n - 3))
    } else {
        t
    }
}

/// Cleans raw LLM markdown output: removes `<think>`/`<thinking>`
/// reasoning blocks, trims whitespace, and strips a wrapping code
/// fence, returning only the usable content.
pub fn clean_llm_markdown_output(markdown: &str) -> (r: String)
    ensures
        r@ == sanitize_spec(markdown@),
{
    let stripped = strip_reasoning(markdown);
    let trimmed = trim(stripped.as_str());
    strip_fence(trimmed)
}

} // verus!
