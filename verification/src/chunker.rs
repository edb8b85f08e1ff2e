//! Boundary-preserving text chunking: splits a text into overlapping,
//! word-boundary-respecting segments bounded by a character budget
//! derived from a token budget (four characters per token).

use vstd::prelude::*;
use crate::chars::{is_ws, is_ws_char};

verus! {

/// The largest whitespace position in `(pos, j]`, or `pos` when the whole
/// range is whitespace-free (mirroring the backward boundary scan).
pub open spec fn snap_back(s: Seq<char>, pos: int, j: int) -> int
    decreases j - pos,
{
    if j <= pos {
        pos
    } else if is_ws_char(s[j]) {
        j
    } else {
        snap_back(s, pos, j - 1)
    }
}

/// Where the chunk starting at `pos` ends: the raw end is `pos + csize`
/// capped at the text length; an end that falls strictly inside the text
/// is pulled back to the nearest whitespace boundary, unless none exists
/// after `pos`, in which case the raw (possibly mid-word) end stands.
pub open spec fn chunk_end(s: Seq<char>, pos: int, csize: int) -> int {
    let raw = if pos + csize < s.len() { pos + csize } else { s.len() as int };
    if raw == s.len() {
        raw
    } else {
        let b = snap_back(s, pos, raw);
        if b > pos { b } else { raw }
    }
}

/// The spans of the sliding window: each chunk starts `step` characters
/// after its predecessor and the last one ends at the text's end.
pub open spec fn spans_from(s: Seq<char>, csize: int, step: int, pos: int) -> Seq<(int, int)>
    decreases s.len() - pos,
{
    if pos < 0 || pos >= s.len() || step < 1 {
        Seq::empty()
    } else {
        let e = chunk_end(s, pos, csize);
        if e == s.len() || pos + step >= s.len() {
            seq![(pos, e)]
        } else {
            seq![(pos, e)] + spans_from(s, csize, step, pos + step)
        }
    }
}

/// The window step for a token budget: the non-overlapping part of the
/// window, never less than one so that the window always advances.
pub open spec fn step_of(chunk_tokens: int, overlap_tokens: int) -> int {
    if chunk_tokens * 4 - overlap_tokens * 4 > 1 {
        chunk_tokens * 4 - overlap_tokens * 4
    } else {
        1
    }
}

/// The chunk spans for the given token budget: empty text or a zero
/// chunk size yield no spans; a text within the budget is one span;
/// otherwise the sliding window runs.
pub open spec fn chunk_spans(s: Seq<char>, chunk_tokens: int, overlap_tokens: int) -> Seq<
    (int, int),
> {
    if s.len() == 0 || chunk_tokens <= 0 {
        Seq::empty()
    } else if s.len() <= chunk_tokens * 4 {
        seq![(0int, s.len() as int)]
    } else {
        spans_from(s, chunk_tokens * 4, step_of(chunk_tokens, overlap_tokens), 0)
    }
}

/// The chunk texts themselves: the spans, read back out of the text.
pub open spec fn chunks_of(s: Seq<char>, chunk_tokens: int, overlap_tokens: int) -> Seq<
    Seq<char>,
> {
    chunk_spans(s, chunk_tokens, overlap_tokens).map_values(|sp: (int, int)| s.subrange(sp.0, sp.1))
}

/// `snap_back` stays within `[pos, j]`, lands on whitespace whenever it
/// moves, and skips no whitespace position.
pub proof fn lemma_snap_back(s: Seq<char>, pos: int, j: int)
    requires
        pos <= j,
    ensures
        pos <= snap_back(s, pos, j) <= j,
        snap_back(s, pos, j) > pos ==> is_ws_char(s[snap_back(s, pos, j)]),
        forall|k: int| snap_back(s, pos, j) < k <= j ==> !is_ws_char(s[k]),
    decreases j - pos,
{
    if j > pos && !is_ws_char(s[j]) {
        lemma_snap_back(s, pos, j - 1);
    }
}

/// The basic shape of the sliding-window spans: starts advance by
/// exactly `step` from `pos`, every span is non-empty and stays within
/// the text and the character budget, only the last span reaches the
/// text's end.
pub proof fn lemma_spans_from_wf(s: Seq<char>, csize: int, step: int, pos: int)
    requires
        0 <= pos < s.len(),
        1 <= step <= csize,
    ensures
        spans_from(s, csize, step, pos).len() >= 1,
        forall|i: int|
            0 <= i < spans_from(s, csize, step, pos).len() ==> (#[trigger] spans_from(
                s,
                csize,
                step,
                pos,
            )[i]).0 == pos + i * step,
        forall|i: int|
            0 <= i < spans_from(s, csize, step, pos).len() ==> 0 <= (#[trigger] spans_from(
                s,
                csize,
                step,
                pos,
            )[i]).0 < spans_from(s, csize, step, pos)[i].1 <= s.len(),
        forall|i: int|
            0 <= i < spans_from(s, csize, step, pos).len() ==> (#[trigger] spans_from(
                s,
                csize,
                step,
                pos,
            )[i]).1 <= spans_from(s, csize, step, pos)[i].0 + csize,
        forall|i: int|
            0 <= i < spans_from(s, csize, step, pos).len() - 1 ==> (#[trigger] spans_from(
                s,
                csize,
                step,
                pos,
            )[i]).1 < s.len(),
        spans_from(s, csize, step, pos).last().1 == s.len(),
    decreases s.len() - pos,
{
    let sp = spans_from(s, csize, step, pos);
    let raw = if pos + csize < s.len() { pos + csize } else { s.len() as int };
    let e = chunk_end(s, pos, csize);
    lemma_snap_back(s, pos, raw);
    assert(pos < e <= s.len());
    assert(e <= pos + csize);
    if e != s.len() {
        assert(pos + csize < s.len());
        assert(pos + step < s.len());
        lemma_spans_from_wf(s, csize, step, pos + step);
        let tail = spans_from(s, csize, step, pos + step);
        assert(sp == seq![(pos, e)] + tail);
        assert forall|i: int| 0 <= i < sp.len() implies (#[trigger] sp[i]).0 == pos + i * step by {
            if i > 0 {
                assert(sp[i] == tail[i - 1]);
                assert(tail[i - 1].0 == (pos + step) + (i - 1) * step);
                assert((pos + step) + (i - 1) * step == pos + i * step) by (nonlinear_arith);
            } else {
                assert(sp[0].0 == pos);
                assert(pos + 0 * step == pos) by (nonlinear_arith);
            }
        }
        assert(sp.last() == tail.last());
    }
}

/// The whitespace fallback never triggered: every span ends at its raw
/// window end (`start + csize`, capped at the text length).
pub open spec fn no_fallback(s: Seq<char>, chunk_tokens: int, overlap_tokens: int) -> bool {
    let sp = chunk_spans(s, chunk_tokens, overlap_tokens);
    forall|i: int|
        0 <= i < sp.len() ==> (#[trigger] sp[i]).1 == if sp[i].0 + chunk_tokens * 4 < s.len() {
            sp[i].0 + chunk_tokens * 4
        } else {
            s.len() as int
        }
}

/// The pieces a reader glues back together: of every span, the part
/// past its predecessor's end (the spans' shared overlap counted once).
pub open spec fn glue_from(s: Seq<char>, sp: Seq<(int, int)>, i: int, start: int) -> Seq<char>
    decreases sp.len() - i,
{
    if i < 0 || i >= sp.len() {
        Seq::empty()
    } else {
        s.subrange(start, sp[i].1) + glue_from(s, sp, i + 1, sp[i].1)
    }
}

/// Concatenation of the spans with the overlap regions deduplicated.
pub open spec fn dedup_concat(s: Seq<char>, sp: Seq<(int, int)>) -> Seq<char> {
    if sp.len() == 0 {
        Seq::empty()
    } else {
        glue_from(s, sp, 0, sp[0].0)
    }
}

proof fn lemma_glue_covers(s: Seq<char>, sp: Seq<(int, int)>, i: int, start: int)
    requires
        0 <= i < sp.len(),
        0 <= start <= sp[i].1,
        forall|j: int| i <= j < sp.len() ==> 0 <= (#[trigger] sp[j]).0 < sp[j].1 <= s.len(),
        forall|j: int| i <= j < sp.len() - 1 ==> (#[trigger] sp[j]).1 <= sp[j + 1].1,
        sp.last().1 == s.len(),
    ensures
        glue_from(s, sp, i, start) == s.subrange(start, s.len() as int),
    decreases sp.len() - i,
{
    if i == sp.len() - 1 {
        assert(glue_from(s, sp, i + 1, sp[i].1) == Seq::<char>::empty());
        assert(sp[i].1 == s.len());
        assert(glue_from(s, sp, i, start) == s.subrange(start, s.len() as int) + Seq::<
            char,
        >::empty());
        assert(glue_from(s, sp, i, start) =~= s.subrange(start, s.len() as int));
    } else {
        lemma_glue_covers(s, sp, i + 1, sp[i].1);
        assert(glue_from(s, sp, i, start) == s.subrange(start, sp[i].1) + s.subrange(
            sp[i].1,
            s.len() as int,
        ));
        assert(s.subrange(start, sp[i].1) + s.subrange(sp[i].1, s.len() as int) =~= s.subrange(
            start,
            s.len() as int,
        ));
    }
}

/// Reconstruction: when the whitespace fallback never triggered,
/// concatenating the chunks of a non-empty text with the overlap
/// regions deduplicated gives the text back exactly.
pub proof fn lemma_chunks_reconstruct(s: Seq<char>, chunk_tokens: int, overlap_tokens: int)
    requires
        s.len() > 0,
        chunk_tokens > 0,
        overlap_tokens >= 0,
        no_fallback(s, chunk_tokens, overlap_tokens),
    ensures
        dedup_concat(s, chunk_spans(s, chunk_tokens, overlap_tokens)) == s,
{
    let csize = chunk_tokens * 4;
    let step = step_of(chunk_tokens, overlap_tokens);
    let sp = chunk_spans(s, chunk_tokens, overlap_tokens);
    if s.len() <= csize {
        assert(sp == seq![(0int, s.len() as int)]);
        assert(glue_from(s, sp, 1, s.len() as int) == Seq::<char>::empty());
        assert(dedup_concat(s, sp) == s.subrange(0, s.len() as int) + Seq::<char>::empty());
        assert(dedup_concat(s, sp) =~= s);
    } else {
        assert(step <= csize);
        lemma_spans_from_wf(s, csize, step, 0);
        assert forall|j: int| 0 <= j < sp.len() - 1 implies (#[trigger] sp[j]).1 <= sp[j + 1].1 by {
            assert(sp[j + 1].0 == sp[j].0 + step) by {
                assert(sp[j].0 == 0 + j * step);
                assert(sp[j + 1].0 == 0 + (j + 1) * step);
                assert((j + 1) * step == j * step + step) by (nonlinear_arith);
            }
            assert(sp[j].1 < s.len());
            assert(sp[j].1 == sp[j].0 + csize);
            assert(sp[j + 1].1 == if sp[j + 1].0 + csize < s.len() {
                sp[j + 1].0 + csize
            } else {
                s.len() as int
            });
        }
        lemma_glue_covers(s, sp, 0, sp[0].0);
        assert(s.subrange(0, s.len() as int) =~= s);
    }
}

/// Bounded overlap: consecutive chunks overlap by at most
/// `overlap_tokens * 4` characters; and when the fallback never
/// triggered and the overlap is smaller than the chunk size, each pair
/// of neighbours overlaps by exactly that amount.
pub proof fn lemma_chunk_overlap(s: Seq<char>, chunk_tokens: int, overlap_tokens: int)
    requires
        chunk_tokens > 0,
        overlap_tokens >= 0,
    ensures
        forall|i: int|
            0 <= i < chunk_spans(s, chunk_tokens, overlap_tokens).len() - 1 ==> (
            #[trigger] chunk_spans(s, chunk_tokens, overlap_tokens)[i]).1 - chunk_spans(
                s,
                chunk_tokens,
                overlap_tokens,
            )[i + 1].0 <= overlap_tokens * 4,
        (no_fallback(s, chunk_tokens, overlap_tokens) && overlap_tokens < chunk_tokens)
            ==> forall|i: int|
            0 <= i < chunk_spans(s, chunk_tokens, overlap_tokens).len() - 1 ==> (
            #[trigger] chunk_spans(s, chunk_tokens, overlap_tokens)[i]).1 - chunk_spans(
                s,
                chunk_tokens,
                overlap_tokens,
            )[i + 1].0 == overlap_tokens * 4,
{
    let csize = chunk_tokens * 4;
    let osize = overlap_tokens * 4;
    let step = step_of(chunk_tokens, overlap_tokens);
    let sp = chunk_spans(s, chunk_tokens, overlap_tokens);
    if sp.len() > 1 {
        assert(s.len() > csize);
        lemma_spans_from_wf(s, csize, step, 0);
        assert forall|i: int| 0 <= i < sp.len() - 1 implies (#[trigger] sp[i]).1 - sp[i + 1].0
            <= osize by {
            assert(sp[i + 1].0 == sp[i].0 + step) by {
                assert(sp[i].0 == 0 + i * step);
                assert(sp[i + 1].0 == 0 + (i + 1) * step);
                assert((i + 1) * step == i * step + step) by (nonlinear_arith);
            }
            assert(sp[i].1 <= sp[i].0 + csize);
        }
        if no_fallback(s, chunk_tokens, overlap_tokens) && overlap_tokens < chunk_tokens {
            assert(osize <= csize - 4);
            assert forall|i: int| 0 <= i < sp.len() - 1 implies (#[trigger] sp[i]).1 - sp[i + 1].0
                == osize by {
                assert(sp[i + 1].0 == sp[i].0 + step) by {
                    assert(sp[i].0 == 0 + i * step);
                    assert(sp[i + 1].0 == 0 + (i + 1) * step);
                    assert((i + 1) * step == i * step + step) by (nonlinear_arith);
                }
                assert(sp[i].1 < s.len());
                assert(sp[i].1 == if sp[i].0 + csize < s.len() {
                    sp[i].0 + csize
                } else {
                    s.len() as int
                });
            }
        }
    }
}

/// A non-empty text within the character budget is returned whole, as a
/// single chunk.
pub proof fn lemma_single_chunk(s: Seq<char>, chunk_tokens: int, overlap_tokens: int)
    requires
        0 < s.len() <= chunk_tokens * 4,
    ensures
        chunks_of(s, chunk_tokens, overlap_tokens) == seq![s],
{
    assert(chunk_tokens > 0) by (nonlinear_arith)
        requires
            0 < chunk_tokens * 4,
    ;
    assert(chunk_spans(s, chunk_tokens, overlap_tokens) == seq![(0int, s.len() as int)]);
    assert(chunks_of(s, chunk_tokens, overlap_tokens) =~= seq![s.subrange(0, s.len() as int)]);
    assert(s.subrange(0, s.len() as int) =~= s);
}

/// An empty text, or a zero chunk size, yields no chunks at all.
pub proof fn lemma_empty_chunks(s: Seq<char>, chunk_tokens: int, overlap_tokens: int)
    requires
        s.len() == 0 || chunk_tokens == 0,
    ensures
        chunks_of(s, chunk_tokens, overlap_tokens) == Seq::<Seq<char>>::empty(),
{
    assert(chunks_of(s, chunk_tokens, overlap_tokens) =~= Seq::<Seq<char>>::empty());
}

/// Chunks a text into overlapping segments based on token count.
///
/// Token sizes are converted to character sizes (four characters per
/// token). A text within the budget comes back as a single chunk;
/// otherwise a sliding window advances by `chunk size - overlap`
/// characters (at least one), pulling each cut back to a whitespace
/// boundary where one exists so that no word is split.
pub fn chunk_text(text: &str, chunk_size_tokens: usize, overlap_tokens: usize) -> (r: Vec<String>)
    requires
        chunk_size_tokens <= usize::MAX / 4,
        overlap_tokens <= usize::MAX / 4,
    ensures
        r.deep_view() == chunks_of(text@, chunk_size_tokens as int, overlap_tokens as int),
{
    let ghost gchunks = chunks_of(text@, chunk_size_tokens as int, overlap_tokens as int);
    let mut out: Vec<String> = Vec::new();
    let total = text.unicode_len();
    if total == 0 || chunk_size_tokens == 0 {
        assert(out.deep_view() =~= gchunks);
        return out;
    }
    let csize = chunk_size_tokens * 4;
    let osize = overlap_tokens * 4;
    if total <= csize {
        out.push(text.substring_char(0, total).to_owned());
        assert(text@.subrange(0, total as int) =~= text@);
        assert(out.deep_view() =~= gchunks);
        return out;
    }
    let step = if csize > osize && csize - osize > 1 {
        csize - osize
    } else {
        1
    };
    assert(step as int == step_of(chunk_size_tokens as int, overlap_tokens as int));
    let mut pos: usize = 0;
    let ghost ispans = chunk_spans(text@, chunk_size_tokens as int, overlap_tokens as int);
    proof {
        assert(ispans == spans_from(text@, csize as int, step as int, 0));
        lemma_spans_from_wf(text@, csize as int, step as int, 0);
    }
    loop
        invariant
            pos < total,
            total == text@.len(),
            csize == chunk_size_tokens * 4,
            1 <= step <= csize,
            csize < total,
            gchunks == chunks_of(text@, chunk_size_tokens as int, overlap_tokens as int),
            out.deep_view() + spans_from(text@, csize as int, step as int, pos as int).map_values(
                |sp: (int, int)| text@.subrange(sp.0, sp.1),
            ) == gchunks,
        decreases total - pos,
    {
        let raw_end = if csize < total - pos {
            pos + csize
        } else {
            total
        };
        let mut end_pos = raw_end;
        if end_pos < total {
            let mut boundary = end_pos;
            while boundary > pos && !is_ws(text.get_char(boundary))
                invariant
                    pos <= boundary <= raw_end,
                    raw_end < total == text@.len(),
                    snap_back(text@, pos as int, raw_end as int) == snap_back(
                        text@,
                        pos as int,
                        boundary as int,
                    ),
                decreases boundary,
            {
                boundary -= 1;
            }
            if boundary > pos {
                end_pos = boundary;
            }
        }
        proof {
            lemma_snap_back(text@, pos as int, raw_end as int);
        }
        assert(end_pos == chunk_end(text@, pos as int, csize as int));
        assert(pos < end_pos <= total);
        let ghost prev = out.deep_view();
        let ghost piece = text@.subrange(pos as int, end_pos as int);
        out.push(text.substring_char(pos, end_pos).to_owned());
        proof {
            assert(out.deep_view() =~= prev.push(piece));
            let rest = spans_from(text@, csize as int, step as int, pos as int);
            let f = |sp: (int, int)| text@.subrange(sp.0, sp.1);
            assert(rest[0] == (pos as int, end_pos as int));
            if end_pos == total {
                assert(rest =~= seq![(pos as int, end_pos as int)]);
                assert(rest.map_values(f) =~= seq![piece]);
                assert(prev.push(piece) =~= prev + seq![piece]);
            } else {
                let tail = spans_from(text@, csize as int, step as int, pos as int + step as int);
                assert(rest == seq![(pos as int, end_pos as int)] + tail);
                assert(rest.map_values(f) =~= seq![piece] + tail.map_values(f));
                assert(prev.push(piece) + tail.map_values(f) =~= prev + rest.map_values(f));
            }
        }
        if end_pos == total {
            assert(out.deep_view() =~= gchunks);
            return out;
        }
        assert(pos + csize < total);
        pos += step;
    }
}

} // verus!
