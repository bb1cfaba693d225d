//! Search: glob patterns over paths and plain-text search over lines, as the
//! `glob` and `grep` atoms use them.

use vstd::prelude::*;
use crate::text::{chars_of, lines_of, string_views, text_lines};

verus! {

/// Whether `t` matches the glob pattern `p`: `**` matches any text, `*` any
/// text without `/`, `?` one character other than `/`, and every other
/// character itself.
pub open spec fn glob_match(p: Seq<char>, t: Seq<char>) -> bool
    decreases p.len(), t.len(),
{
    if p.len() == 0 {
        t.len() == 0
    } else if p[0] == '*' {
        if p.len() >= 2 && p[1] == '*' {
            glob_match(p.skip(2), t) || (t.len() > 0 && glob_match(p, t.skip(1)))
        } else {
            glob_match(p.skip(1), t) || (t.len() > 0 && t[0] != '/' && glob_match(p, t.skip(1)))
        }
    } else if p[0] == '?' {
        t.len() > 0 && t[0] != '/' && glob_match(p.skip(1), t.skip(1))
    } else {
        t.len() > 0 && t[0] == p[0] && glob_match(p.skip(1), t.skip(1))
    }
}

proof fn lemma_glob_step(p: Seq<char>, t: Seq<char>, i: int, j: int)
    requires
        0 <= i < p.len(),
        0 <= j <= t.len(),
    ensures
        glob_match(p.skip(i), t.skip(j)) == (if p[i] == '*' {
            if i + 1 < p.len() && p[i + 1] == '*' {
                glob_match(p.skip(i + 2), t.skip(j)) || (j < t.len() && glob_match(p.skip(i), t.skip(j + 1)))
            } else {
                glob_match(p.skip(i + 1), t.skip(j)) || (j < t.len() && t[j] != '/' && glob_match(
                    p.skip(i),
                    t.skip(j + 1),
                ))
            }
        } else if p[i] == '?' {
            j < t.len() && t[j] != '/' && glob_match(p.skip(i + 1), t.skip(j + 1))
        } else {
            j < t.len() && t[j] == p[i] && glob_match(p.skip(i + 1), t.skip(j + 1))
        }),
{
    let ps = p.skip(i);
    let ts = t.skip(j);
    assert(ps[0] == p[i]);
    assert(ps.skip(1) =~= p.skip(i + 1));
    if i + 1 < p.len() {
        assert(ps[1] == p[i + 1]);
        assert(ps.skip(2) =~= p.skip(i + 2));
    }
    if j < t.len() {
        assert(ts[0] == t[j]);
        assert(ts.skip(1) =~= t.skip(j + 1));
    }
}

/// Whether `path` matches the glob `pattern` (see `glob_match`).
pub fn glob_matches(pattern: &str, path: &str) -> (b: bool)
    requires
        pattern@.len() < usize::MAX,
        path@.len() < usize::MAX,
    ensures
        b == glob_match(pattern@, path@),
{
    let p = chars_of(pattern);
    let t = chars_of(path);
    let m = p.len();
    let n = t.len();
    let ghost ps = p@;
    let ghost ts = t@;
    // rows[r] holds, for i == m - r, whether p[i..] matches t[j..], for each j.
    let mut rows: Vec<Vec<bool>> = Vec::new();
    let mut last: Vec<bool> = Vec::new();
    let mut j0: usize = 0;
    while j0 <= n
        invariant
            n == ts.len(),
            m == ps.len(),
            n < usize::MAX,
            j0 <= n + 1,
            last@.len() == j0,
            forall|j: int| 0 <= j < j0 ==> last@[j] == glob_match(ps.skip(m as int), ts.skip(j)),
        decreases n + 1 - j0,
    {
        assert(ps.skip(m as int).len() == 0);
        last.push(j0 == n);
        j0 = j0 + 1;
    }
    rows.push(last);
    let mut k: usize = 1;
    while k <= m
        invariant
            n == ts.len(),
            m == ps.len(),
            ps == p@,
            ts == t@,
            n < usize::MAX,
            m < usize::MAX,
            1 <= k <= m + 1,
            rows@.len() == k,
            forall|r: int| 0 <= r < k ==> (#[trigger] rows@[r])@.len() == n + 1,
            forall|r: int, j: int|
                0 <= r < k && 0 <= j <= n ==> #[trigger] rows@[r]@[j] == glob_match(ps.skip(m - r), ts.skip(j)),
        decreases m + 1 - k,
    {
        let i = m - k;
        let mut row: Vec<bool> = Vec::new();
        let mut c: usize = 0;
        while c <= n
            invariant
                c <= n + 1,
                n < usize::MAX,
                row@.len() == c,
            decreases n + 1 - c,
        {
            row.push(false);
            c = c + 1;
        }
        let mut c: usize = n + 1;
        while c > 0
            invariant
                n == ts.len(),
                m == ps.len(),
                ps == p@,
                ts == t@,
                i == m - k,
                1 <= k <= m,
                n < usize::MAX,
                c <= n + 1,
                row@.len() == n + 1,
                rows@.len() == k,
                forall|r: int| 0 <= r < k ==> (#[trigger] rows@[r])@.len() == n + 1,
                forall|r: int, j: int|
                    0 <= r < k && 0 <= j <= n ==> #[trigger] rows@[r]@[j] == glob_match(ps.skip(m - r), ts.skip(j)),
                forall|j: int| c <= j <= n ==> row@[j] == glob_match(ps.skip(i as int), ts.skip(j)),
            decreases c,
        {
            let j = c - 1;
            proof {
                lemma_glob_step(ps, ts, i as int, j as int);
            }
            let v = if p[i] == '*' {
                if i + 1 < m && p[i + 1] == '*' {
                    let below = rows[k - 2][j];
                    below || (j < n && row[j + 1])
                } else {
                    let below = rows[k - 1][j];
                    below || (j < n && t[j] != '/' && row[j + 1])
                }
            } else if p[i] == '?' {
                j < n && t[j] != '/' && rows[k - 1][j + 1]
            } else {
                j < n && t[j] == p[i] && rows[k - 1][j + 1]
            };
            row.set(j, v);
            c = j;
        }
        rows.push(row);
        k = k + 1;
    }
    assert(ps.skip(0) =~= ps);
    assert(ts.skip(0) =~= ts);
    rows[m][0]
}

/// Whether `pattern` occurs in `line`.
pub open spec fn contains_text(line: Seq<char>, pattern: Seq<char>) -> bool {
    exists|k: int| 0 <= k && k + pattern.len() <= line.len() && #[trigger] line.subrange(k, k + pattern.len()) == pattern
}

/// The lines of `lines` that contain `pattern`, each with its line number
/// (counted from 1), in order.
pub open spec fn grep_hits(lines: Seq<Seq<char>>, pattern: Seq<char>) -> Seq<(int, Seq<char>)>
    decreases lines.len(),
{
    if lines.len() == 0 {
        Seq::empty()
    } else {
        let before = grep_hits(lines.drop_last(), pattern);
        if contains_text(lines.last(), pattern) {
            before.push((lines.len() as int, lines.last()))
        } else {
            before
        }
    }
}

/// Whether `pattern` occurs in `line`.
pub fn contains(line: &Vec<char>, pattern: &Vec<char>) -> (b: bool)
    ensures
        b == contains_text(line@, pattern@),
{
    let n = line.len();
    let m = pattern.len();
    if m > n {
        return false;
    }
    let mut k: usize = 0;
    while k <= n - m
        invariant
            n == line@.len(),
            m == pattern@.len(),
            m <= n,
            k <= n - m + 1,
            forall|q: int| 0 <= q < k ==> #[trigger] line@.subrange(q, q + m) != pattern@,
        decreases n - m + 1 - k,
    {
        let mut e: usize = 0;
        while e < m && line[k + e] == pattern[e]
            invariant
                n == line@.len(),
                m == pattern@.len(),
                m <= n,
                k <= n - m,
                e <= m,
                forall|q: int| 0 <= q < e ==> line@[k + q] == pattern@[q],
            decreases m - e,
        {
            e = e + 1;
        }
        if e == m {
            assert(line@.subrange(k as int, k + m) =~= pattern@);
            return true;
        }
        assert(line@.subrange(k as int, k + m)[e as int] == line@[k + e]);
        k = k + 1;
    }
    false
}

/// The lines of `content` that contain `pattern`, with their line numbers
/// (counted from 1), in order.
pub fn grep_lines(content: &str, pattern: &str) -> (r: Vec<(usize, String)>)
    ensures
        r@.map_values(|h: (usize, String)| (h.0 as int, h.1@)) == grep_hits(text_lines(content@), pattern@),
{
    let lines = lines_of(content);
    let pat = chars_of(pattern);
    let ghost ls = string_views(lines@);
    let mut r: Vec<(usize, String)> = Vec::new();
    let mut i: usize = 0;
    while i < lines.len()
        invariant
            i <= lines@.len(),
            ls == string_views(lines@),
            pat@ == pattern@,
            r@.map_values(|h: (usize, String)| (h.0 as int, h.1@)) == grep_hits(ls.take(i as int), pattern@),
        decreases lines@.len() - i,
    {
        let cs = chars_of(lines[i].as_str());
        let ghost old_r = r@;
        assert(ls.take(i + 1).drop_last() =~= ls.take(i as int));
        assert(ls.take(i + 1).last() == lines@[i as int]@);
        if contains(&cs, &pat) {
            r.push((i + 1, lines[i].clone()));
            assert(r@.map_values(|h: (usize, String)| (h.0 as int, h.1@)) =~= old_r.map_values(
                |h: (usize, String)| (h.0 as int, h.1@),
            ).push(((i + 1) as int, lines@[i as int]@)));
        }
        i = i + 1;
    }
    assert(ls.take(lines@.len() as int) =~= ls);
    r
}

} // verus!
