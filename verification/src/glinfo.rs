//! Extracting the OpenGL version from diagnostic output.
//!
//! The output is scanned line by line for the first line containing the
//! marker text; that line is split on colons, the final segment is taken
//! and trimmed. When no line matches, the version is reported as unknown.

use vstd::prelude::*;

verus! {

/// The marker a line must contain to be the version line.
pub open spec fn spec_marker() -> Seq<char> {
    "OpenGL version"@
}

/// Index of the first newline in `s`, or `s.len()` when there is none.
pub open spec fn first_nl(s: Seq<char>) -> nat
    decreases s.len(),
{
    if s.len() == 0 {
        0
    } else if s[0] == '\n' {
        0
    } else {
        1 + first_nl(s.skip(1))
    }
}

proof fn lemma_first_nl_bounds(s: Seq<char>)
    ensures
        first_nl(s) <= s.len(),
        forall|k: int| 0 <= k < first_nl(s) ==> s[k] != '\n',
        first_nl(s) < s.len() ==> s[first_nl(s) as int] == '\n',
    decreases s.len(),
{
    if s.len() == 0 || s[0] == '\n' {
    } else {
        lemma_first_nl_bounds(s.skip(1));
        assert forall|k: int| 0 <= k < first_nl(s) implies s[k] != '\n' by {
            if k > 0 {
                assert(s.skip(1)[k - 1] == s[k]);
            }
        }
    }
}

/// `first_nl` is pinned down by its characteristic properties.
proof fn lemma_first_nl_of(s: Seq<char>, j: int)
    requires
        0 <= j <= s.len(),
        forall|k: int| 0 <= k < j ==> s[k] != '\n',
        j < s.len() ==> s[j] == '\n',
    ensures
        first_nl(s) == j,
    decreases j,
{
    if j == 0 {
    } else {
        assert(s[0] != '\n');
        lemma_first_nl_of(s.skip(1), j - 1);
        assert(forall|k: int| 0 <= k < j - 1 ==> s.skip(1)[k] == s[k + 1]);
    }
}

/// A carriage return left at the end of a newline-terminated line is
/// dropped.
pub open spec fn strip_cr(line: Seq<char>) -> Seq<char> {
    if line.len() > 0 && line.last() == '\r' {
        line.drop_last()
    } else {
        line
    }
}

/// Whether the marker occurs somewhere in the line.
pub open spec fn spec_has_marker(line: Seq<char>) -> bool {
    exists|i: int|
        0 <= i && i + spec_marker().len() <= line.len() && #[trigger] line.subrange(
            i,
            i + spec_marker().len(),
        ) == spec_marker()
}

/// The first line of `s` that contains the marker, if any. Lines are
/// delimited by newlines; a carriage return before the delimiter is not
/// part of the line, and a final line needs no delimiter.
pub open spec fn spec_first_match(s: Seq<char>) -> Option<Seq<char>>
    decreases s.len(),
{
    if s.len() == 0 {
        None
    } else if first_nl(s) < s.len() {
        let j = first_nl(s);
        let line = strip_cr(s.take(j as int));
        if spec_has_marker(line) {
            Some(line)
        } else {
            spec_first_match(s.skip(j + 1 as int))
        }
    } else {
        if spec_has_marker(s) {
            Some(s)
        } else {
            None
        }
    }
}

/// Index of the last colon in the line, or -1 when there is none.
pub open spec fn last_colon(line: Seq<char>) -> int
    decreases line.len(),
{
    if line.len() == 0 {
        -1
    } else if line.last() == ':' {
        line.len() - 1
    } else {
        last_colon(line.drop_last())
    }
}

/// `last_colon` is pinned down by its characteristic properties.
proof fn lemma_last_colon_of(line: Seq<char>, m: int)
    requires
        -1 <= m < line.len(),
        m >= 0 ==> line[m] == ':',
        forall|k: int| m < k < line.len() ==> line[k] != ':',
    ensures
        last_colon(line) == m,
    decreases line.len(),
{
    if line.len() == 0 {
    } else if line.last() == ':' {
        assert(m == line.len() - 1);
    } else {
        assert(m < line.len() - 1);
        lemma_last_colon_of(line.drop_last(), m);
    }
}

/// The final colon-delimited segment: what follows the last colon, or the
/// whole line when it has no colon.
pub open spec fn spec_after_last_colon(line: Seq<char>) -> Seq<char> {
    if last_colon(line) >= 0 {
        line.skip(last_colon(line) + 1)
    } else {
        line
    }
}

/// Unicode whitespace, as trimming understands it.
pub open spec fn spec_is_whitespace(c: char) -> bool {
    let u = c as u32;
    u == 9 || u == 10 || u == 11 || u == 12 || u == 13 || u == 32 || u == 0x85 || u == 0xA0 || u
        == 0x1680 || (0x2000 <= u && u <= 0x200A) || u == 0x2028 || u == 0x2029 || u == 0x202F || u
        == 0x205F || u == 0x3000
}

pub open spec fn spec_trim_start(s: Seq<char>) -> Seq<char>
    decreases s.len(),
{
    if s.len() > 0 && spec_is_whitespace(s[0]) {
        spec_trim_start(s.skip(1))
    } else {
        s
    }
}

pub open spec fn spec_trim_end(s: Seq<char>) -> Seq<char>
    decreases s.len(),
{
    if s.len() > 0 && spec_is_whitespace(s.last()) {
        spec_trim_end(s.drop_last())
    } else {
        s
    }
}

/// The line with leading and trailing whitespace removed.
pub open spec fn spec_trim(s: Seq<char>) -> Seq<char> {
    spec_trim_end(spec_trim_start(s))
}

/// Trimming from the start keeps exactly the suffix after the leading
/// whitespace run.
proof fn lemma_trim_start_at(s: Seq<char>, a: int)
    requires
        0 <= a <= s.len(),
        forall|k: int| 0 <= k < a ==> spec_is_whitespace(s[k]),
        a < s.len() ==> !spec_is_whitespace(s[a]),
    ensures
        spec_trim_start(s) == s.skip(a),
    decreases a,
{
    if a == 0 {
        assert(s.skip(0) =~= s);
    } else {
        lemma_trim_start_at(s.skip(1), a - 1);
        assert(forall|k: int| 0 <= k < a - 1 ==> s.skip(1)[k] == s[k + 1]);
        assert(a - 1 < s.skip(1).len() ==> s.skip(1)[a - 1] == s[a]);
        assert(s.skip(1).skip(a - 1) =~= s.skip(a));
    }
}

/// Trimming from the end keeps exactly the prefix before the trailing
/// whitespace run.
proof fn lemma_trim_end_at(s: Seq<char>, b: int)
    requires
        0 <= b <= s.len(),
        forall|k: int| b <= k < s.len() ==> spec_is_whitespace(s[k]),
        b > 0 ==> !spec_is_whitespace(s[b - 1]),
    ensures
        spec_trim_end(s) == s.take(b),
    decreases s.len() - b,
{
    if b == s.len() {
        assert(s.take(b) =~= s);
        if s.len() > 0 {
            assert(!spec_is_whitespace(s.last()));
        }
    } else {
        assert(spec_is_whitespace(s.last()));
        lemma_trim_end_at(s.drop_last(), b);
        assert(s.drop_last().take(b) =~= s.take(b));
    }
}

/// Find the first newline at or after `from`, or the end of the text.
fn find_newline(s: &str, from: usize) -> (j: usize)
    requires
        from <= s@.len(),
    ensures
        from <= j <= s@.len(),
        forall|k: int| from <= k < j ==> s@[k] != '\n',
        j < s@.len() ==> s@[j as int] == '\n',
{
    let len = s.unicode_len();
    let mut j = from;
    while j < len
        invariant
            from <= j <= len,
            len == s@.len(),
            forall|k: int| from <= k < j ==> s@[k] != '\n',
        decreases len - j,
    {
        if s.get_char(j) == '\n' {
            return j;
        }
        j = j + 1;
    }
    j
}

/// Whether the marker occurs in `s` between `lo` (inclusive) and `hi`
/// (exclusive).
fn contains_marker(s: &str, lo: usize, hi: usize) -> (r: bool)
    requires
        lo <= hi <= s@.len(),
    ensures
        r == spec_has_marker(s@.subrange(lo as int, hi as int)),
{
    let marker = "OpenGL version";
    proof {
        reveal_strlit("OpenGL version");
    }
    let mlen = marker.unicode_len();
    let ghost line = s@.subrange(lo as int, hi as int);
    if hi - lo < mlen {
        return false;
    }
    let mut i = lo;
    while i <= hi - mlen
        invariant
            lo <= i <= hi,
            mlen >= 1,
            lo + mlen <= hi <= s@.len(),
            mlen == spec_marker().len(),
            marker@ == spec_marker(),
            line == s@.subrange(lo as int, hi as int),
            forall|p: int|
                0 <= p < i - lo ==> #[trigger] line.subrange(p, p + spec_marker().len())
                    != spec_marker(),
        decreases hi - i,
    {
        let mut k: usize = 0;
        let mut matched = true;
        while k < mlen
            invariant
                0 <= k <= mlen,
                lo <= i,
                i + mlen <= hi <= s@.len(),
                mlen == spec_marker().len(),
                marker@ == spec_marker(),
                line == s@.subrange(lo as int, hi as int),
                matched ==> forall|q: int| 0 <= q < k ==> s@[i + q] == spec_marker()[q],
                !matched ==> exists|q: int| 0 <= q < k && s@[i + q] != spec_marker()[q],
            decreases mlen - k,
        {
            if s.get_char(i + k) != marker.get_char(k) {
                matched = false;
                k = mlen;
            } else {
                k = k + 1;
            }
        }
        if matched {
            proof {
                let p = i - lo;
                assert forall|q: int|
                    0 <= q < spec_marker().len() implies line.subrange(p, p + spec_marker().len())[q]
                    == spec_marker()[q] by {
                    assert(line.subrange(p, p + spec_marker().len())[q] == s@[i + q]);
                }
                assert(line.subrange(p, p + spec_marker().len()) =~= spec_marker());
            }
            return true;
        }
        proof {
            let p = i - lo;
            let q = choose|q: int| 0 <= q < mlen && s@[i + q] != spec_marker()[q];
            assert(line.subrange(p, p + spec_marker().len())[q] == s@[i + q]);
            assert(line.subrange(p, p + spec_marker().len()) != spec_marker());
        }
        i = i + 1;
    }
    proof {
        assert forall|p: int|
            0 <= p && p + spec_marker().len() <= line.len() implies #[trigger] line.subrange(
            p,
            p + spec_marker().len(),
        ) != spec_marker() by {
            assert(p < i - lo);
        }
    }
    false
}

/// Find the last colon in `s` between `lo` (inclusive) and `hi`
/// (exclusive), if any.
fn last_colon_in(s: &str, lo: usize, hi: usize) -> (r: Option<usize>)
    requires
        lo <= hi <= s@.len(),
    ensures
        r matches Some(m) ==> lo <= m < hi && last_colon(s@.subrange(lo as int, hi as int)) == m
            - lo,
        r is None ==> last_colon(s@.subrange(lo as int, hi as int)) == -1,
{
    let ghost line = s@.subrange(lo as int, hi as int);
    let mut i = hi;
    while i > lo
        invariant
            lo <= i <= hi <= s@.len(),
            line == s@.subrange(lo as int, hi as int),
            forall|k: int| i <= k < hi ==> s@[k] != ':',
        decreases i,
    {
        i = i - 1;
        if s.get_char(i) == ':' {
            proof {
                assert(line[i - lo] == s@[i as int]);
                assert forall|k: int| i - lo < k < line.len() implies line[k] != ':' by {
                    assert(line[k] == s@[lo + k]);
                }
                lemma_last_colon_of(line, i - lo);
            }
            return Some(i);
        }
    }
    proof {
        assert forall|k: int| -1 < k < line.len() implies line[k] != ':' by {
            assert(line[k] == s@[lo + k]);
        }
        lemma_last_colon_of(line, -1);
    }
    None
}

/// Narrow `[lo, hi)` to the subrange left after trimming whitespace from
/// both ends.
fn trim_range(s: &str, lo: usize, hi: usize) -> (r: (usize, usize))
    requires
        lo <= hi <= s@.len(),
    ensures
        lo <= r.0 <= r.1 <= hi,
        spec_trim(s@.subrange(lo as int, hi as int)) == s@.subrange(r.0 as int, r.1 as int),
{
    let ghost line = s@.subrange(lo as int, hi as int);
    let mut a = lo;
    while a < hi && is_whitespace(s.get_char(a))
        invariant
            lo <= a <= hi <= s@.len(),
            forall|k: int| lo <= k < a ==> spec_is_whitespace(s@[k]),
        decreases hi - a,
    {
        a = a + 1;
    }
    proof {
        assert forall|k: int| 0 <= k < a - lo implies spec_is_whitespace(line[k]) by {
            assert(line[k] == s@[lo + k]);
        }
        if a < hi {
            assert(line[a - lo] == s@[a as int]);
        }
        lemma_trim_start_at(line, a - lo);
        assert(line.skip(a - lo) =~= s@.subrange(a as int, hi as int));
    }
    let ghost started = s@.subrange(a as int, hi as int);
    let mut b = hi;
    while b > a && is_whitespace(s.get_char(b - 1))
        invariant
            a <= b <= hi <= s@.len(),
            forall|k: int| b <= k < hi ==> spec_is_whitespace(s@[k]),
        decreases b,
    {
        b = b - 1;
    }
    proof {
        assert forall|k: int| b - a <= k < started.len() implies spec_is_whitespace(started[k]) by {
            assert(started[k] == s@[a + k]);
        }
        if b > a {
            assert(started[b - 1 - a] == s@[b - 1]);
        }
        lemma_trim_end_at(started, b - a);
        assert(started.take(b - a) =~= s@.subrange(a as int, b as int));
    }
    (a, b)
}

/// Whitespace as trimming understands it.
fn is_whitespace(c: char) -> (r: bool)
    ensures
        r == spec_is_whitespace(c),
{
    let u = c as u32;
    u == 9 || u == 10 || u == 11 || u == 12 || u == 13 || u == 32 || u == 0x85 || u == 0xA0 || u
        == 0x1680 || (0x2000 <= u && u <= 0x200A) || u == 0x2028 || u == 0x2029 || u == 0x202F || u
        == 0x205F || u == 0x3000
}

/// What the extraction yields for a whole diagnostic output.
pub open spec fn spec_extracted_version(s: Seq<char>) -> Seq<char> {
    match spec_first_match(s) {
        Some(line) => spec_trim(spec_after_last_colon(line)),
        None => "unknown"@,
    }
}

/// A text in which the marker occurs nowhere has no matching line.
proof fn lemma_no_marker_no_match(s: Seq<char>)
    requires
        forall|i: int|
            0 <= i && i + spec_marker().len() <= s.len() ==> #[trigger] s.subrange(
                i,
                i + spec_marker().len(),
            ) != spec_marker(),
    ensures
        spec_first_match(s) is None,
    decreases s.len(),
{
    let m = spec_marker().len() as int;
    if s.len() == 0 {
    } else {
        lemma_first_nl_bounds(s);
        let j = first_nl(s) as int;
        if j < s.len() {
            let line = strip_cr(s.take(j));
            assert forall|i: int| 0 <= i && i + m <= line.len() implies #[trigger] line.subrange(
                i,
                i + m,
            ) != spec_marker() by {
                assert(line.subrange(i, i + m) =~= s.subrange(i, i + m));
            }
            assert(!spec_has_marker(line));
            let t = s.skip(j + 1);
            assert forall|i: int| 0 <= i && i + m <= t.len() implies #[trigger] t.subrange(i, i + m)
                != spec_marker() by {
                assert(t.subrange(i, i + m) =~= s.subrange(j + 1 + i, j + 1 + i + m));
            }
            lemma_no_marker_no_match(t);
        } else {
            assert(!spec_has_marker(s));
        }
    }
}

/// When the marker occurs nowhere in the output, the extracted version is
/// the unknown value.
pub proof fn lemma_no_marker_means_unknown(s: Seq<char>)
    requires
        forall|i: int|
            0 <= i && i + spec_marker().len() <= s.len() ==> #[trigger] s.subrange(
                i,
                i + spec_marker().len(),
            ) != spec_marker(),
    ensures
        spec_extracted_version(s) == "unknown"@,
{
    lemma_no_marker_no_match(s);
}

/// Extract the OpenGL version from diagnostic output: the trimmed text
/// after the last colon of the first line containing the marker, or
/// `unknown` when no line matches.
pub fn extract_opengl_version(out: &str) -> (r: String)
    ensures
        r@ == spec_extracted_version(out@),
{
    let len = out.unicode_len();
    let mut start: usize = 0;
    proof {
        assert(out@.skip(0) =~= out@);
    }
    loop
        invariant
            start <= len,
            len == out@.len(),
            spec_first_match(out@) == spec_first_match(out@.skip(start as int)),
        decreases len - start,
    {
        if start == len {
            proof {
                assert(out@.skip(start as int) =~= Seq::<char>::empty());
            }
            return String::from_str("unknown");
        }
        let ghost rest = out@.skip(start as int);
        let j = find_newline(out, start);
        proof {
            assert forall|k: int| 0 <= k < j - start implies rest[k] != '\n' by {
                assert(rest[k] == out@[start + k]);
            }
            if j < len {
                assert(rest[j - start] == out@[j as int]);
            }
            lemma_first_nl_of(rest, j as int - start as int);
        }
        let terminated = j < len;
        let line_end: usize = if terminated && j > start && out.get_char(j - 1) == '\r' {
            j - 1
        } else {
            j
        };
        let ghost line = if terminated {
            strip_cr(rest.take(j as int - start as int))
        } else {
            rest
        };
        proof {
            assert(rest.take(j as int - start as int) =~= out@.subrange(start as int, j as int));
            if terminated {
                if j > start && out@[j as int - 1] == '\r' {
                    assert(out@.subrange(start as int, j as int).last() == out@[j as int - 1]);
                    assert(out@.subrange(start as int, j as int).drop_last() =~= out@.subrange(
                        start as int,
                        j as int - 1,
                    ));
                } else {
                    if j > start {
                        assert(out@.subrange(start as int, j as int).last() == out@[j as int - 1]);
                    }
                }
            } else {
                assert(rest =~= out@.subrange(start as int, len as int));
            }
            assert(line == out@.subrange(start as int, line_end as int));
        }
        if contains_marker(out, start, line_end) {
            proof {
                assert(spec_first_match(rest) == Some(line));
            }
            let seg_lo: usize = match last_colon_in(out, start, line_end) {
                Some(m) => m + 1,
                None => start,
            };
            proof {
                if last_colon(line) >= 0 {
                    assert(line.skip(last_colon(line) + 1) =~= out@.subrange(
                        seg_lo as int,
                        line_end as int,
                    ));
                }
                assert(spec_after_last_colon(line) == out@.subrange(
                    seg_lo as int,
                    line_end as int,
                ));
            }
            let bounds = trim_range(out, seg_lo, line_end);
            let sub = out.substring_char(bounds.0, bounds.1);
            return String::from_str(sub);
        }
        if !terminated {
            proof {
                assert(spec_first_match(rest) is None);
            }
            return String::from_str("unknown");
        }
        proof {
            assert(spec_first_match(rest) == spec_first_match(
                rest.skip(j as int - start as int + 1),
            ));
            assert(rest.skip(j as int - start as int + 1) =~= out@.skip(j as int + 1));
        }
        start = j + 1;
    }
}

} // verus!
