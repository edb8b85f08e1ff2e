//! Prompt construction: substituting content into localized prompt
//! templates through their `{}` placeholder, and joining chunk
//! summaries with the combination separator.

use vstd::prelude::*;
use crate::chars::occurs_at;

verus! {

/// The template placeholder, `{}`.
pub open spec fn placeholder() -> Seq<char> {
    seq!['{', '}']
}

/// The first placeholder position at or after `k`, or -1 when none.
pub open spec fn find_ph(t: Seq<char>, k: int) -> int
    decreases t.len() - k,
{
    if k < 0 || k + 2 > t.len() {
        -1
    } else if occurs_at(t, placeholder(), k) {
        k
    } else {
        find_ph(t, k + 1)
    }
}

/// What `find_ph` finds: a genuine placeholder, skipping none.
pub proof fn lemma_find_ph(t: Seq<char>, k: int)
    requires
        0 <= k,
    ensures
        find_ph(t, k) == -1 ==> forall|j: int| k <= j ==> !occurs_at(t, placeholder(), j),
        find_ph(t, k) != -1 ==> k <= find_ph(t, k) && occurs_at(t, placeholder(), find_ph(t, k))
            && find_ph(t, k) + 2 <= t.len(),
        find_ph(t, k) != -1 ==> forall|j: int|
            k <= j < find_ph(t, k) ==> !occurs_at(t, placeholder(), j),
    decreases t.len() - k,
{
    if k + 2 > t.len() {
    } else if occurs_at(t, placeholder(), k) {
    } else {
        lemma_find_ph(t, k + 1);
    }
}

/// The template with its first placeholder (if any) replaced by `v`,
/// as `replacen(…, 1)` does.
pub open spec fn subst_first(t: Seq<char>, v: Seq<char>) -> Seq<char> {
    let i = find_ph(t, 0);
    if i >= 0 {
        t.subrange(0, i) + v + t.subrange(i + 2, t.len() as int)
    } else {
        t
    }
}

/// The template from position `k` on, with every placeholder replaced
/// by `v`; replacements are never rescanned.
pub open spec fn subst_from(t: Seq<char>, v: Seq<char>, k: int) -> Seq<char>
    decreases t.len() - k,
{
    if k < 0 || k >= t.len() {
        Seq::empty()
    } else if occurs_at(t, placeholder(), k) {
        v + subst_from(t, v, k + 2)
    } else {
        seq![t[k]] + subst_from(t, v, k + 1)
    }
}

/// The template with every placeholder replaced by `v`, as
/// `replace` does.
pub open spec fn subst_all(t: Seq<char>, v: Seq<char>) -> Seq<char> {
    subst_from(t, v, 0)
}

/// The sequence of texts joined with the separator between neighbours.
pub open spec fn joined(xs: Seq<Seq<char>>, sep: Seq<char>) -> Seq<char>
    decreases xs.len(),
{
    if xs.len() == 0 {
        Seq::empty()
    } else if xs.len() == 1 {
        xs[0]
    } else {
        xs[0] + sep + joined(xs.skip(1), sep)
    }
}

/// Joining one more text appends a separator and the text.
pub proof fn lemma_joined_push(xs: Seq<Seq<char>>, sep: Seq<char>, y: Seq<char>)
    requires
        xs.len() >= 1,
    ensures
        joined(xs.push(y), sep) == joined(xs, sep) + sep + y,
    decreases xs.len(),
{
    let ys = xs.push(y);
    assert(ys[0] == xs[0]);
    if xs.len() == 1 {
        assert(ys.skip(1) =~= seq![y]);
        assert(joined(ys.skip(1), sep) == y);
        assert(joined(ys, sep) == xs[0] + sep + y);
        assert(joined(xs, sep) + sep + y == xs[0] + sep + y);
    } else {
        assert(ys.skip(1) =~= xs.skip(1).push(y));
        lemma_joined_push(xs.skip(1), sep, y);
        assert(joined(ys, sep) == ys[0] + sep + (joined(xs.skip(1), sep) + sep + y));
        assert(joined(ys, sep) =~= (xs[0] + sep + joined(xs.skip(1), sep)) + sep + y);
    }
}

/// Decides whether the placeholder stands at position `i`.
fn ph_at(text: &str, i: usize) -> (r: bool)
    ensures
        r == occurs_at(text@, placeholder(), i as int),
{
    let n = text.unicode_len();
    if i >= n || n - i < 2 {
        return false;
    }
    let hit = text.get_char(i) == '{' && text.get_char(i + 1) == '}';
    proof {
        if hit {
            assert(text@.subrange(i as int, i as int + 2) =~= placeholder());
        } else {
            if text@.subrange(i as int, i as int + 2) == placeholder() {
                assert(text@[i as int] == '{' && text@[i as int + 1] == '}') by {
                    assert(text@.subrange(i as int, i as int + 2)[0] == text@[i as int]);
                    assert(text@.subrange(i as int, i as int + 2)[1] == text@[i as int + 1]);
                }
            }
        }
    }
    hit
}

/// Finds the first placeholder at or after `k`.
fn find_placeholder(text: &str, k: usize) -> (r: Option<usize>)
    requires
        k <= text@.len(),
    ensures
        match r {
            Some(j) => find_ph(text@, k as int) == j as int && k <= j,
            None => find_ph(text@, k as int) == -1,
        },
{
    let n = text.unicode_len();
    if n < 2 {
        return None;
    }
    let mut j = k;
    while j <= n - 2
        invariant
            k <= j <= n,
            2 <= n == text@.len(),
            find_ph(text@, k as int) == find_ph(text@, j as int),
        decreases n - j,
    {
        if ph_at(text, j) {
            return Some(j);
        }
        j += 1;
    }
    None
}

/// Substitutes `value` for the first `{}` in the template, leaving a
/// template without a placeholder unchanged.
pub fn substitute_first(template: &str, value: &str) -> (r: String)
    ensures
        r@ == subst_first(template@, value@),
{
    let n = template.unicode_len();
    match find_placeholder(template, 0) {
        Some(i) => {
            proof {
                lemma_find_ph(template@, 0);
            }
            let mut out = template.substring_char(0, i).to_owned();
            out.append(value);
            out.append(template.substring_char(i + 2, n));
            out
        },
        None => template.to_owned(),
    }
}

/// Substitutes `value` for every `{}` in the template; substituted
/// text is never rescanned for further placeholders.
pub fn substitute_all(template: &str, value: &str) -> (r: String)
    ensures
        r@ == subst_all(template@, value@),
{
    let n = template.unicode_len();
    let mut out = String::new();
    let mut seg: usize = 0;
    let mut k: usize = 0;
    while k < n
        invariant
            seg <= k <= n,
            n == template@.len(),
            out@ + subst_from(template@, value@, seg as int) == subst_all(template@, value@),
            subst_from(template@, value@, seg as int) == template@.subrange(seg as int, k as int)
                + subst_from(template@, value@, k as int),
        decreases n - k,
    {
        if ph_at(template, k) {
            out.append(template.substring_char(seg, k));
            out.append(value);
            assert(subst_from(template@, value@, k as int) == value@ + subst_from(
                template@,
                value@,
                k as int + 2,
            ));
            k += 2;
            seg = k;
            assert(subst_from(template@, value@, seg as int) =~= template@.subrange(
                seg as int,
                k as int,
            ) + subst_from(template@, value@, k as int));
        } else {
            assert(subst_from(template@, value@, k as int) == seq![template@[k as int]]
                + subst_from(template@, value@, k as int + 1));
            assert(template@.subrange(seg as int, k as int + 1) + subst_from(
                template@,
                value@,
                k as int + 1,
            ) =~= template@.subrange(seg as int, k as int) + subst_from(
                template@,
                value@,
                k as int,
            ));
            k += 1;
        }
    }
    out.append(template.substring_char(seg, n));
    assert(subst_from(template@, value@, n as int) =~= Seq::<char>::empty());
    assert(out@ =~= subst_all(template@, value@));
    out
}

/// Joins the texts with the given separator between neighbours.
pub fn join_with(parts: &Vec<String>, sep: &str) -> (r: String)
    ensures
        r@ == joined(parts.deep_view(), sep@),
{
    let mut out = String::new();
    let mut i: usize = 0;
    if parts.len() == 0 {
        assert(out@ =~= joined(parts.deep_view(), sep@));
        return out;
    }
    while i < parts.len()
        invariant
            i <= parts.len(),
            parts.len() >= 1,
            out@ == joined(parts.deep_view().take(i as int), sep@),
        decreases parts.len() - i,
    {
        let ghost prefix = parts.deep_view().take(i as int);
        if i > 0 {
            out.append(sep);
        }
        out.append(parts[i].as_str());
        proof {
            assert(parts.deep_view().take(i as int + 1) =~= prefix.push(parts[i as int]@));
            if i > 0 {
                lemma_joined_push(prefix, sep@, parts[i as int]@);
            } else {
                assert(prefix.len() == 0);
                assert(prefix.push(parts[i as int]@) =~= seq![parts[i as int]@]);
                assert(joined(seq![parts[i as int]@], sep@) == parts[i as int]@);
                assert(out@ =~= parts[i as int]@);
            }
        }
        i += 1;
    }
    proof {
        assert(parts.deep_view().take(parts.len() as int) =~= parts.deep_view());
    }
    out
}

} // verus!
