//! Character-level helpers shared by the parsers of the library: Unicode
//! whitespace, trimming, building strings from characters, and splitting a
//! text into lines.

use vstd::prelude::*;

verus! {

/// The characters that carry the Unicode `White_Space` property, which is
/// what `char::is_whitespace` and `str::trim` go by.
pub open spec fn is_white(c: char) -> bool {
    let u = c as u32;
    ||| 0x09 <= u <= 0x0D
    ||| u == 0x20
    ||| u == 0x85
    ||| u == 0xA0
    ||| u == 0x1680
    ||| 0x2000 <= u <= 0x200A
    ||| u == 0x2028
    ||| u == 0x2029
    ||| u == 0x202F
    ||| u == 0x205F
    ||| u == 0x3000
}

/// A text made of whitespace only (the empty text among them).
pub open spec fn is_blank(s: Seq<char>) -> bool {
    forall|i: int| 0 <= i < s.len() ==> is_white(#[trigger] s[i])
}

/// Decides `is_white` for one character.
pub fn white(c: char) -> (b: bool)
    ensures
        b == is_white(c),
{
    let u = c as u32;
    (0x09 <= u && u <= 0x0D) || u == 0x20 || u == 0x85 || u == 0xA0 || u == 0x1680 || (0x2000
        <= u && u <= 0x200A) || u == 0x2028 || u == 0x2029 || u == 0x202F || u == 0x205F || u
        == 0x3000
}

/// The characters of a string slice, in order.
pub fn chars_of(s: &str) -> (v: Vec<char>)
    ensures
        v@ == s@,
{
    let mut v: Vec<char> = Vec::new();
    let mut cs = s.chars();
    for c in it: cs
        invariant
            v@ == it.seq().take(it.index()),
    {
        v.push(c);
    }
    v
}


/// The text without its leading whitespace (`str::trim_start`).
pub open spec fn trim_start(s: Seq<char>) -> Seq<char>
    decreases s.len(),
{
    if s.len() > 0 && is_white(s[0]) {
        trim_start(s.drop_first())
    } else {
        s
    }
}

/// The text without its trailing whitespace (`str::trim_end`).
pub open spec fn trim_end(s: Seq<char>) -> Seq<char>
    decreases s.len(),
{
    if s.len() > 0 && is_white(s.last()) {
        trim_end(s.drop_last())
    } else {
        s
    }
}

/// The text without leading and trailing whitespace (`str::trim`).
pub open spec fn trim(s: Seq<char>) -> Seq<char> {
    trim_end(trim_start(s))
}

proof fn lemma_trim_start_at(s: Seq<char>, lo: int)
    requires
        0 <= lo <= s.len(),
        forall|k: int| 0 <= k < lo ==> is_white(#[trigger] s[k]),
        lo == s.len() || !is_white(s[lo]),
    ensures
        trim_start(s) == s.subrange(lo, s.len() as int),
    decreases lo,
{
    if lo == 0 {
        assert(s.subrange(0, s.len() as int) =~= s);
    } else {
        let t = s.drop_first();
        assert forall|k: int| 0 <= k < lo - 1 implies is_white(#[trigger] t[k]) by {
            assert(t[k] == s[k + 1]);
        }
        assert(lo - 1 == t.len() || t[lo - 1] == s[lo]);
        lemma_trim_start_at(t, lo - 1);
        assert(t.subrange(lo - 1, t.len() as int) =~= s.subrange(lo, s.len() as int));
    }
}

proof fn lemma_trim_end_at(s: Seq<char>, hi: int)
    requires
        0 <= hi <= s.len(),
        forall|k: int| hi <= k < s.len() ==> is_white(#[trigger] s[k]),
        hi == 0 || !is_white(s[hi - 1]),
    ensures
        trim_end(s) == s.subrange(0, hi),
    decreases s.len() - hi,
{
    if hi == s.len() {
        assert(s.subrange(0, hi) =~= s);
    } else {
        let t = s.drop_last();
        assert forall|k: int| hi <= k < t.len() implies is_white(#[trigger] t[k]) by {
            assert(t[k] == s[k]);
        }
        assert(hi == 0 || t[hi - 1] == s[hi - 1]);
        lemma_trim_end_at(t, hi);
        assert(t.subrange(0, hi) =~= s.subrange(0, hi));
    }
}

/// The trimmed text of `s` is `s[lo..hi]`, where `lo` skips the leading and
/// `hi` the trailing whitespace.
pub proof fn lemma_trim_bounds(s: Seq<char>, lo: int, hi: int)
    requires
        0 <= lo <= hi <= s.len(),
        forall|k: int| 0 <= k < lo ==> is_white(#[trigger] s[k]),
        forall|k: int| hi <= k < s.len() ==> is_white(#[trigger] s[k]),
        lo == hi || (!is_white(s[lo]) && !is_white(s[hi - 1])),
        lo == hi ==> lo == s.len(),
    ensures
        trim(s) == s.subrange(lo, hi),
{
    lemma_trim_start_at(s, lo);
    let t = s.subrange(lo, s.len() as int);
    assert forall|k: int| hi - lo <= k < t.len() implies is_white(#[trigger] t[k]) by {
        assert(t[k] == s[k + lo]);
    }
    if lo < hi {
        assert(t[hi - lo - 1] == s[hi - 1]);
    }
    lemma_trim_end_at(t, hi - lo);
    assert(t.subrange(0, hi - lo) =~= s.subrange(lo, hi));
}

/// The whitespace of `is_white` is the Unicode `White_Space` set, character
/// by character: tab, line feed, vertical tab, form feed, carriage return,
/// space, next line, no-break space, ogham space mark, the spaces from en
/// quad to hair space, line and paragraph separators, narrow no-break space,
/// medium mathematical space and ideographic space.
pub proof fn lemma_white_is_unicode_white_space(c: char)
    ensures
        is_white(c) <==> (c == '\t' || c == '\n' || c == '\u{0B}' || c == '\u{0C}' || c == '\r'
            || c == ' ' || c == '\u{85}' || c == '\u{A0}' || c == '\u{1680}' || c == '\u{2000}'
            || c == '\u{2001}' || c == '\u{2002}' || c == '\u{2003}' || c == '\u{2004}'
            || c == '\u{2005}' || c == '\u{2006}' || c == '\u{2007}' || c == '\u{2008}'
            || c == '\u{2009}' || c == '\u{200A}' || c == '\u{2028}' || c == '\u{2029}'
            || c == '\u{202F}' || c == '\u{205F}' || c == '\u{3000}'),
{
}

proof fn lemma_trim_end_blank_suffix(s: Seq<char>, w: Seq<char>)
    requires
        is_blank(w),
    ensures
        trim_end(s + w) == trim_end(s),
    decreases w.len(),
{
    if w.len() == 0 {
        assert(s + w =~= s);
    } else {
        assert((s + w).last() == w.last());
        assert((s + w).drop_last() =~= s + w.drop_last());
        lemma_trim_end_blank_suffix(s, w.drop_last());
    }
}

proof fn lemma_trim_start_append(s: Seq<char>, t: Seq<char>)
    ensures
        is_blank(s) ==> trim_start(s + t) == trim_start(t),
        !is_blank(s) ==> trim_start(s + t) == trim_start(s) + t,
    decreases s.len(),
{
    if s.len() == 0 {
        assert(s + t =~= t);
    } else {
        assert((s + t)[0] == s[0]);
        assert((s + t).drop_first() =~= s.drop_first() + t);
        lemma_trim_start_append(s.drop_first(), t);
        if !is_white(s[0]) {
            assert(!is_blank(s));
        } else {
            assert(is_blank(s) == is_blank(s.drop_first())) by {
                if is_blank(s.drop_first()) {
                    assert forall|i: int| 0 <= i < s.len() implies is_white(#[trigger] s[i]) by {
                        if i > 0 {
                            assert(s[i] == s.drop_first()[i - 1]);
                        }
                    }
                }
                if is_blank(s) {
                    assert forall|i: int| 0 <= i < s.drop_first().len() implies is_white(
                        #[trigger] s.drop_first()[i],
                    ) by {
                        assert(s.drop_first()[i] == s[i + 1]);
                    }
                }
            }
        }
    }
}

/// Whitespace around a text does not change it once trimmed: for any text
/// `s` and whitespace `w`, `trim(s + w)` and `trim(w + s)` are `trim(s)`. So
/// a line read with its line ending (`\n` or `\r\n`) trims to the line
/// without it.
pub proof fn lemma_trim_ignores_surrounding_white(s: Seq<char>, w: Seq<char>)
    requires
        is_blank(w),
    ensures
        trim(s + w) == trim(s),
        trim(w + s) == trim(s),
        trim(s + seq!['\n']) == trim(s),
        trim(s + seq!['\r', '\n']) == trim(s),
{
    lemma_trim_start_append(w, s);
    lemma_trim_start_append(s, w);
    lemma_trim_start_append(w, Seq::empty());
    assert(w + Seq::<char>::empty() =~= w);
    lemma_trim_start_append(s, Seq::empty());
    assert(s + Seq::<char>::empty() =~= s);
    if !is_blank(s) {
        lemma_trim_end_blank_suffix(trim_start(s), w);
    } else {
        assert(trim_start(Seq::<char>::empty()) == Seq::<char>::empty());
    }
    let nl = seq!['\n'];
    let crnl = seq!['\r', '\n'];
    assert(is_blank(nl)) by {
        assert forall|i: int| 0 <= i < nl.len() implies is_white(#[trigger] nl[i]) by {
            assert(nl[i] == '\n');
        }
    }
    assert(is_blank(crnl)) by {
        assert forall|i: int| 0 <= i < crnl.len() implies is_white(#[trigger] crnl[i]) by {
            assert(crnl[i] == '\n' || crnl[i] == '\r');
        }
    }
    lemma_trim_start_append(s, nl);
    lemma_trim_start_append(s, crnl);
    lemma_trim_start_append(nl, Seq::empty());
    lemma_trim_start_append(crnl, Seq::empty());
    assert(nl + Seq::<char>::empty() =~= nl);
    assert(crnl + Seq::<char>::empty() =~= crnl);
    if !is_blank(s) {
        lemma_trim_end_blank_suffix(trim_start(s), nl);
        lemma_trim_end_blank_suffix(trim_start(s), crnl);
    }
}

/// Appends one character to a string (`String::push`).
#[verifier::external_body]
pub fn push_char(s: &mut String, c: char)
    ensures
        final(s)@ == old(s)@.push(c),
{
    s.push(c);
}

/// The string made of `cs[lo..hi]`.
pub fn string_of(cs: &Vec<char>, lo: usize, hi: usize) -> (r: String)
    requires
        lo <= hi <= cs@.len(),
    ensures
        r@ == cs@.subrange(lo as int, hi as int),
{
    let mut r = String::new();
    let mut i = lo;
    while i < hi
        invariant
            lo <= i <= hi <= cs@.len(),
            r@ == cs@.subrange(lo as int, i as int),
        decreases hi - i,
    {
        push_char(&mut r, cs[i]);
        assert(cs@.subrange(lo as int, i + 1) =~= cs@.subrange(lo as int, i as int).push(cs@[i as int]));
        i = i + 1;
    }
    r
}

/// Whether `cs[lo..hi]` is whitespace only.
pub fn blank_range(cs: &Vec<char>, lo: usize, hi: usize) -> (b: bool)
    requires
        lo <= hi <= cs@.len(),
    ensures
        b == is_blank(cs@.subrange(lo as int, hi as int)),
{
    let mut i = lo;
    while i < hi
        invariant
            lo <= i <= hi <= cs@.len(),
            forall|k: int| lo <= k < i ==> is_white(#[trigger] cs@[k]),
        decreases hi - i,
    {
        if !white(cs[i]) {
            assert(cs@.subrange(lo as int, hi as int)[i - lo] == cs@[i as int]);
            return false;
        }
        i = i + 1;
    }
    assert forall|k: int| 0 <= k < hi - lo implies is_white(#[trigger] cs@.subrange(lo as int, hi as int)[k]) by {
        assert(cs@.subrange(lo as int, hi as int)[k] == cs@[k + lo]);
    }
    true
}

/// The bounds `(lo, hi)` of the trimmed part of `cs`.
pub fn trim_bounds(cs: &Vec<char>) -> (r: (usize, usize))
    ensures
        r.0 <= r.1 <= cs@.len(),
        trim(cs@) == cs@.subrange(r.0 as int, r.1 as int),
{
    let n = cs.len();
    let mut lo: usize = 0;
    while lo < n && white(cs[lo])
        invariant
            lo <= n == cs@.len(),
            forall|k: int| 0 <= k < lo ==> is_white(#[trigger] cs@[k]),
        decreases n - lo,
    {
        lo = lo + 1;
    }
    let mut hi: usize = n;
    while hi > lo && white(cs[hi - 1])
        invariant
            lo <= hi <= n == cs@.len(),
            forall|k: int| hi <= k < n ==> is_white(#[trigger] cs@[k]),
        decreases hi,
    {
        hi = hi - 1;
    }
    proof {
        lemma_trim_bounds(cs@, lo as int, hi as int);
    }
    (lo, hi)
}

/// The text of `s` without leading and trailing whitespace.
pub fn trimmed(s: &str) -> (r: String)
    ensures
        r@ == trim(s@),
{
    let cs = chars_of(s);
    let (lo, hi) = trim_bounds(&cs);
    string_of(&cs, lo, hi)
}


/// `prefix` followed by `rest`.
pub fn prefixed(prefix: &str, rest: &str) -> (s: String)
    ensures
        s@ == prefix@ + rest@,
{
    let mut s = prefix.to_string();
    s.append(rest);
    s
}

/// Whether two texts are equal.
pub fn same_text(a: &str, b: &str) -> (r: bool)
    ensures
        r == (a@ == b@),
{
    a.to_string() == b.to_string()
}

/// The index of the first line feed in `s`, or its length when there is none.
pub open spec fn first_newline(s: Seq<char>) -> nat
    decreases s.len(),
{
    if s.len() == 0 {
        0
    } else if s[0] == '\n' {
        0
    } else {
        1 + first_newline(s.drop_first())
    }
}

/// A line without the carriage return that ended it, if any.
pub open spec fn strip_cr(line: Seq<char>) -> Seq<char> {
    if line.len() > 0 && line.last() == '\r' {
        line.drop_last()
    } else {
        line
    }
}

/// The views of a sequence of strings.
pub open spec fn string_views(ss: Seq<String>) -> Seq<Seq<char>> {
    ss.map_values(|s: String| s@)
}

/// The first line feed of `s` is at `i` when none comes before `i` and `s`
/// has one at `i` or ends there.
pub proof fn lemma_first_newline(s: Seq<char>, i: int)
    requires
        0 <= i <= s.len(),
        forall|k: int| 0 <= k < i ==> s[k] != '\n',
        i == s.len() || s[i] == '\n',
    ensures
        first_newline(s) == i,
    decreases i,
{
    if i > 0 {
        let t = s.drop_first();
        assert forall|k: int| 0 <= k < i - 1 implies t[k] != '\n' by {
            assert(t[k] == s[k + 1]);
        }
        if i < s.len() {
            assert(t[i - 1] == s[i]);
        }
        lemma_first_newline(t, i - 1);
    }
}

/// The lines of a text, as `str::lines` splits it (at `\n` or `\r\n`, the
/// last line ending optional).
pub open spec fn text_lines(s: Seq<char>) -> Seq<Seq<char>>
    decreases s.len(),
{
    if s.len() == 0 {
        Seq::empty()
    } else {
        let i = first_newline(s);
        if i < s.len() {
            seq![strip_cr(s.take(i as int))] + text_lines(s.skip(i + 1 as int))
        } else {
            seq![s]
        }
    }
}

/// The lines of `content` (see `text_lines`), as strings.
pub fn lines_of(content: &str) -> (r: Vec<String>)
    ensures
        string_views(r@) == text_lines(content@),
{
    let cs = chars_of(content);
    let n = cs.len();
    let ghost s = cs@;
    let mut r: Vec<String> = Vec::new();
    let mut start: usize = 0;
    assert(s.skip(0) =~= s);
    assert(string_views(r@) + text_lines(s) =~= text_lines(s));
    while start < n
        invariant
            s == cs@,
            n == s.len(),
            s == content@,
            start <= n,
            text_lines(s) == string_views(r@) + text_lines(s.skip(start as int)),
        decreases n - start,
    {
        let ghost t = s.skip(start as int);
        let mut j = start;
        while j < n && cs[j] != '\n'
            invariant
                s == cs@,
                n == s.len(),
                start <= j <= n,
                forall|k: int| start <= k < j ==> s[k] != '\n',
            decreases n - j,
        {
            j = j + 1;
        }
        proof {
            assert forall|k: int| 0 <= k < j - start implies t[k] != '\n' by {
                assert(t[k] == s[k + start]);
            }
            if j < n {
                assert(t[j - start] == s[j as int]);
            }
            lemma_first_newline(t, j - start);
        }
        let ghost old_r = r@;
        if j < n {
            let end = if j > start && cs[j - 1] == '\r' { j - 1 } else { j };
            proof {
                assert(strip_cr(t.take(j - start)) =~= s.subrange(start as int, end as int));
                assert(t.skip(j - start + 1) =~= s.skip(j + 1));
            }
            let line = string_of(&cs, start, end);
            r.push(line);
            assert(string_views(r@) =~= string_views(old_r) + seq![line@]);
            start = j + 1;
        } else {
            proof {
                assert(t =~= s.subrange(start as int, n as int));
            }
            let line = string_of(&cs, start, n);
            r.push(line);
            assert(string_views(r@) =~= string_views(old_r) + seq![line@]);
            assert(s.skip(n as int) =~= Seq::<char>::empty());
            start = n;
        }
    }
    assert(s.skip(n as int) =~= Seq::<char>::empty());
    assert(string_views(r@) + Seq::<Seq<char>>::empty() =~= string_views(r@));
    r
}

} // verus!
