//! Extracting the meeting name from a markdown report: the first
//! heading line, with its heading marks stripped and trimmed.

use vstd::prelude::*;
use crate::chars::{occurs_at, trim, trim_spec};

verus! {

/// The markdown heading mark, `# `.
pub open spec fn heading_mark() -> Seq<char> {
    seq!['#', ' ']
}

/// Position `i` begins a line of `s`.
pub open spec fn line_start(s: Seq<char>, i: int) -> bool {
    i == 0 || s[i - 1] == '\n'
}

/// The first position at or after `i` where a line begins with `# `,
/// or -1 when no such line follows.
pub open spec fn find_heading(s: Seq<char>, i: int) -> int
    decreases s.len() - i,
{
    if i < 0 || i + 2 > s.len() {
        -1
    } else if line_start(s, i) && occurs_at(s, heading_mark(), i) {
        i
    } else {
        find_heading(s, i + 1)
    }
}

/// The end of the line beginning at `i`: the next newline, or the end
/// of the text.
pub open spec fn line_end(s: Seq<char>, i: int) -> int
    decreases s.len() - i,
{
    if i < 0 || i >= s.len() {
        s.len() as int
    } else if s[i] == '\n' {
        i
    } else {
        line_end(s, i + 1)
    }
}

/// The line with every repetition of the leading `# ` mark removed,
/// as `trim_start_matches` removes it.
pub open spec fn strip_heading_marks(t: Seq<char>) -> Seq<char>
    decreases t.len(),
{
    if occurs_at(t, heading_mark(), 0) {
        strip_heading_marks(t.skip(2))
    } else {
        t
    }
}

/// The meeting name a markdown report carries: the first `# ` heading
/// line (its carriage return, heading marks and surrounding whitespace
/// removed), or nothing when no heading line exists.
pub open spec fn meeting_name_spec(s: Seq<char>) -> Option<Seq<char>> {
    let h = find_heading(s, 0);
    if h == -1 {
        Option::None
    } else {
        let e = line_end(s, h);
        let raw = s.subrange(h, e);
        let line = if raw.len() > 0 && raw.last() == '\r' {
            raw.drop_last()
        } else {
            raw
        };
        Option::Some(trim_spec(strip_heading_marks(line)))
    }
}

/// Decides whether a `# ` heading line begins at `i`.
fn heading_at(text: &str, i: usize) -> (r: bool)
    requires
        i + 2 <= text@.len(),
        text@.len() <= usize::MAX,
    ensures
        r == (line_start(text@, i as int) && occurs_at(text@, heading_mark(), i as int)),
{
    let at_start = i == 0 || text.get_char(i - 1) == '\n';
    if !at_start {
        return false;
    }
    let hit = text.get_char(i) == '#' && text.get_char(i + 1) == ' ';
    proof {
        if hit {
            assert(text@.subrange(i as int, i as int + 2) =~= heading_mark());
        } else {
            if text@.subrange(i as int, i as int + 2) == heading_mark() {
                assert(text@[i as int] == '#' && text@[i as int + 1] == ' ') by {
                    assert(text@.subrange(i as int, i as int + 2)[0] == text@[i as int]);
                    assert(text@.subrange(i as int, i as int + 2)[1] == text@[i as int + 1]);
                }
            }
        }
    }
    hit
}

/// Finds where the first heading line begins.
fn find_heading_pos(text: &str) -> (r: Option<usize>)
    ensures
        match r {
            Some(h) => find_heading(text@, 0) == h as int,
            None => find_heading(text@, 0) == -1,
        },
{
    let n = text.unicode_len();
    if n < 2 {
        return Option::None;
    }
    let mut i: usize = 0;
    while i <= n - 2
        invariant
            i <= n,
            2 <= n == text@.len(),
            find_heading(text@, 0) == find_heading(text@, i as int),
        decreases n - i,
    {
        if heading_at(text, i) {
            return Option::Some(i);
        }
        i += 1;
    }
    Option::None
}

/// Decides whether the heading mark stands at offset `off` of the line.
fn mark_at(line: &str, off: usize) -> (r: bool)
    requires
        off <= line@.len(),
    ensures
        r == occurs_at(line@.skip(off as int), heading_mark(), 0),
{
    let m = line.unicode_len();
    if off >= m || m - off < 2 {
        assert(!occurs_at(line@.skip(off as int), heading_mark(), 0));
        return false;
    }
    let hit = line.get_char(off) == '#' && line.get_char(off + 1) == ' ';
    proof {
        let tail = line@.skip(off as int);
        assert(tail[0] == line@[off as int] && tail[1] == line@[off as int + 1]);
        if hit {
            assert(tail.subrange(0, 2) =~= heading_mark());
        } else {
            if occurs_at(tail, heading_mark(), 0) {
                assert(tail.subrange(0, 2)[0] == tail[0]);
                assert(tail.subrange(0, 2)[1] == tail[1]);
            }
        }
    }
    hit
}

/// Extracts the meeting name from the first heading in markdown, or
/// `None` when the markdown has no `# ` heading line.
pub fn extract_meeting_name_from_markdown(markdown: &str) -> (r: Option<String>)
    ensures
        r is Some <==> meeting_name_spec(markdown@) is Some,
        r matches Some(name) ==> Option::Some(name@) == meeting_name_spec(markdown@),
{
    let n = markdown.unicode_len();
    let h = match find_heading_pos(markdown) {
        Option::Some(h) => h,
        Option::None => {
            return Option::None;
        },
    };
    proof {
        lemma_find_heading_bounds(markdown@, 0);
    }
    let mut e: usize = h;
    while e < n && markdown.get_char(e) != '\n'
        invariant
            h <= e <= n,
            n == markdown@.len(),
            line_end(markdown@, h as int) == line_end(markdown@, e as int),
        decreases n - e,
    {
        e += 1;
    }
    assert(e as int == line_end(markdown@, h as int));
    let e_adj = if e > h && markdown.get_char(e - 1) == '\r' {
        e - 1
    } else {
        e
    };
    proof {
        let raw = markdown@.subrange(h as int, e as int);
        let line_view = markdown@.subrange(h as int, e_adj as int);
        if e_adj < e {
            assert(raw.last() == markdown@[e as int - 1]);
            assert(raw.drop_last() =~= line_view);
        } else {
            assert(raw =~= line_view);
            if raw.len() > 0 {
                assert(raw.last() == markdown@[e as int - 1]);
            }
        }
    }
    let line = markdown.substring_char(h, e_adj);
    let m = line.unicode_len();
    let mut off: usize = 0;
    proof {
        assert(line@.skip(0) =~= line@);
    }
    while mark_at(line, off)
        invariant
            off <= m,
            m == line@.len(),
            strip_heading_marks(line@) == strip_heading_marks(line@.skip(off as int)),
        decreases m - off,
    {
        assert(line@.skip(off as int).len() >= 2);
        proof {
            assert(line@.skip(off as int).skip(2) =~= line@.skip(off as int + 2));
        }
        off += 2;
    }
    proof {
        assert(strip_heading_marks(line@.skip(off as int)) == line@.skip(off as int));
        assert(line@.skip(off as int) =~= line@.subrange(off as int, m as int));
    }
    let name = trim(line.substring_char(off, m));
    Option::Some(name)
}

/// A found heading fits within the text.
proof fn lemma_find_heading_bounds(s: Seq<char>, i: int)
    requires
        0 <= i,
    ensures
        find_heading(s, i) != -1 ==> i <= find_heading(s, i) && find_heading(s, i) + 2 <= s.len(),
    decreases s.len() - i,
{
    if !(i < 0 || i + 2 > s.len()) && !(line_start(s, i) && occurs_at(s, heading_mark(), i)) {
        lemma_find_heading_bounds(s, i + 1);
    }
}

} // verus!
