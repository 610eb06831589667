//! Line-oriented configuration parsing shared by the concrete checks:
//! whitespace trimming, `#` comments, and `Key Value` directive lines,
//! where the first non-comment line that sets a recognized directive wins.

use vstd::prelude::*;

verus! {

/// The whitespace characters that separate directive tokens: the Unicode
/// white-space code points, as configuration text is trimmed and split on
/// any of them.
pub open spec fn is_ws_char(c: char) -> bool {
    let n = c as u32;
    ||| n == 0x09
    ||| n == 0x0A
    ||| n == 0x0B
    ||| n == 0x0C
    ||| n == 0x0D
    ||| n == 0x20
    ||| n == 0x85
    ||| n == 0xA0
    ||| n == 0x1680
    ||| (0x2000 <= n && n <= 0x200A)
    ||| n == 0x2028
    ||| n == 0x2029
    ||| n == 0x202F
    ||| n == 0x205F
    ||| n == 0x3000
}

/// Index of the first non-whitespace character at or after `i`, looking no
/// further than `end`.
pub open spec fn skip_ws_to(s: Seq<char>, i: int, end: int) -> int
    decreases end - i,
{
    if i < end && is_ws_char(s[i]) {
        skip_ws_to(s, i + 1, end)
    } else {
        i
    }
}

/// Index just past the first maximal run of non-whitespace characters at or
/// after `i`, looking no further than `end`.
pub open spec fn skip_non_ws_to(s: Seq<char>, i: int, end: int) -> int
    decreases end - i,
{
    if i < end && !is_ws_char(s[i]) {
        skip_non_ws_to(s, i + 1, end)
    } else {
        i
    }
}

/// Index just past the last non-whitespace character before `j`, looking no
/// further back than `low`.
pub open spec fn rtrim_to(s: Seq<char>, j: int, low: int) -> int
    decreases j - low,
{
    if j > low && is_ws_char(s[j - 1]) {
        rtrim_to(s, j - 1, low)
    } else {
        j
    }
}

/// The value that a single configuration line assigns to `key`, if any:
/// after trimming, a line that is not a comment and whose trimmed text
/// starts with `key` assigns its second whitespace-separated token.
/// Comments, blank lines, non-matching lines, and matching lines with no
/// second token assign nothing.
pub open spec fn directive_value(line: Seq<char>, key: Seq<char>) -> Option<Seq<char>> {
    let a = skip_ws_to(line, 0, line.len() as int);
    let b = rtrim_to(line, line.len() as int, a);
    if a < b && line[a] == '#' {
        None
    } else if b - a >= key.len() && line.subrange(a, a + key.len()) == key {
        let p = skip_non_ws_to(line, a, b);
        let q = skip_ws_to(line, p, b);
        if q == b {
            None
        } else {
            Some(line.subrange(q, skip_non_ws_to(line, q, b)))
        }
    } else {
        None
    }
}

/// The value honored for `key` over a whole configuration: the value of the
/// first line that assigns `key` one of the recognized values `vals`.
/// Lines assigning an unrecognized value are passed over, as are lines that
/// assign nothing.
pub open spec fn first_recognized_value(
    lines: Seq<Seq<char>>,
    key: Seq<char>,
    vals: Seq<Seq<char>>,
) -> Option<Seq<char>>
    decreases lines.len(),
{
    if lines.len() == 0 {
        None
    } else {
        match directive_value(lines[0], key) {
            Some(v) => if vals.contains(v) {
                Some(v)
            } else {
                first_recognized_value(lines.drop_first(), key, vals)
            },
            None => first_recognized_value(lines.drop_first(), key, vals),
        }
    }
}

/// Whether a line assigns `key` one of the recognized values `vals`.
pub open spec fn line_recognized(line: Seq<char>, key: Seq<char>, vals: Seq<Seq<char>>) -> bool {
    match directive_value(line, key) {
        Some(v) => vals.contains(v),
        None => false,
    }
}

/// The first non-comment line that assigns a recognized value wins: if line
/// `i` assigns `key` the recognized value `v` and no earlier line assigns a
/// recognized value, the whole configuration is read as `v`, whatever the
/// later lines hold.
pub proof fn lemma_first_match_wins(
    lines: Seq<Seq<char>>,
    key: Seq<char>,
    vals: Seq<Seq<char>>,
    i: int,
    v: Seq<char>,
)
    requires
        0 <= i < lines.len(),
        directive_value(lines[i], key) == Some(v),
        vals.contains(v),
        forall|j: int| 0 <= j < i ==> !line_recognized(#[trigger] lines[j], key, vals),
    ensures
        first_recognized_value(lines, key, vals) == Some(v),
    decreases i,
{
    if i == 0 {
    } else {
        assert(!line_recognized(lines[0], key, vals));
        assert(forall|j: int|
            0 <= j < i - 1 ==> #[trigger] lines.drop_first()[j] == lines[j + 1]);
        assert(lines.drop_first()[i - 1] == lines[i]);
        lemma_first_match_wins(lines.drop_first(), key, vals, i - 1, v);
    }
}

/// A configuration in which no line assigns `key` a recognized value is
/// read as leaving `key` unset.
pub proof fn lemma_no_recognized_value(lines: Seq<Seq<char>>, key: Seq<char>, vals: Seq<Seq<char>>)
    requires
        forall|j: int| 0 <= j < lines.len() ==> !line_recognized(#[trigger] lines[j], key, vals),
    ensures
        first_recognized_value(lines, key, vals) is None,
    decreases lines.len(),
{
    if lines.len() > 0 {
        assert(!line_recognized(lines[0], key, vals));
        assert(forall|j: int|
            0 <= j < lines.len() - 1 ==> #[trigger] lines.drop_first()[j] == lines[j + 1]);
        lemma_no_recognized_value(lines.drop_first(), key, vals);
    }
}

/// Whether `needle` occurs as a contiguous subsequence of `hay`.
pub open spec fn contains_seq(hay: Seq<char>, needle: Seq<char>) -> bool {
    exists|i: int|
        0 <= i && i + needle.len() <= hay.len() && #[trigger] hay.subrange(i, i + needle.len())
            == needle
}

fn char_is_ws(c: char) -> (r: bool)
    ensures
        r == is_ws_char(c),
{
    let n = c as u32;
    n == 0x09 || n == 0x0A || n == 0x0B || n == 0x0C || n == 0x0D || n == 0x20 || n == 0x85
        || n == 0xA0 || n == 0x1680 || (0x2000 <= n && n <= 0x200A) || n == 0x2028 || n == 0x2029
        || n == 0x202F || n == 0x205F || n == 0x3000
}

fn skip_ws_exec(s: &str, from: usize, end: usize) -> (r: usize)
    requires
        from <= end <= s@.len(),
    ensures
        from <= r <= end,
        r as int == skip_ws_to(s@, from as int, end as int),
{
    let mut i: usize = from;
    while i < end
        invariant
            from <= i <= end <= s@.len(),
            skip_ws_to(s@, from as int, end as int) == skip_ws_to(s@, i as int, end as int),
        decreases end - i,
    {
        let c = s.get_char(i);
        if !char_is_ws(c) {
            return i;
        }
        i = i + 1;
    }
    i
}

fn skip_non_ws_exec(s: &str, from: usize, end: usize) -> (r: usize)
    requires
        from <= end <= s@.len(),
    ensures
        from <= r <= end,
        r as int == skip_non_ws_to(s@, from as int, end as int),
{
    let mut i: usize = from;
    while i < end
        invariant
            from <= i <= end <= s@.len(),
            skip_non_ws_to(s@, from as int, end as int) == skip_non_ws_to(s@, i as int, end as int),
        decreases end - i,
    {
        let c = s.get_char(i);
        if char_is_ws(c) {
            return i;
        }
        i = i + 1;
    }
    i
}

fn rtrim_exec(s: &str, from: usize, low: usize) -> (r: usize)
    requires
        low <= from <= s@.len(),
    ensures
        low <= r <= from,
        r as int == rtrim_to(s@, from as int, low as int),
{
    let mut j: usize = from;
    while j > low
        invariant
            low <= j <= from <= s@.len(),
            rtrim_to(s@, from as int, low as int) == rtrim_to(s@, j as int, low as int),
        decreases j,
    {
        let c = s.get_char(j - 1);
        if !char_is_ws(c) {
            return j;
        }
        j = j - 1;
    }
    j
}

/// Whether the characters of `s` between `start` and `end` are exactly `t`.
fn range_matches(s: &str, start: usize, end: usize, t: &str) -> (r: bool)
    requires
        start <= end <= s@.len(),
    ensures
        r == (s@.subrange(start as int, end as int) == t@),
{
    let n = t.unicode_len();
    if end - start != n {
        assert(s@.subrange(start as int, end as int).len() == end - start);
        return false;
    }
    let mut k: usize = 0;
    while k < n
        invariant
            0 <= k <= n,
            n == t@.len(),
            start + n == end,
            start <= end <= s@.len(),
            forall|m: int| 0 <= m < k ==> s@[start + m] == t@[m],
        decreases n - k,
    {
        let a = s.get_char(start + k);
        let b = t.get_char(k);
        if a != b {
            assert(s@.subrange(start as int, end as int)[k as int] == s@[start + k]);
            return false;
        }
        k = k + 1;
    }
    proof {
        assert(s@.subrange(start as int, end as int) =~= t@);
    }
    true
}

/// Whether `needle` occurs anywhere in `hay`.
pub fn str_contains(hay: &str, needle: &str) -> (r: bool)
    ensures
        r == contains_seq(hay@, needle@),
{
    let hl = hay.unicode_len();
    let nl = needle.unicode_len();
    if nl > hl {
        return false;
    }
    if nl == 0 {
        proof {
            assert(hay@.subrange(0, 0 + needle@.len() as int) =~= needle@);
        }
        return true;
    }
    let mut i: usize = 0;
    while i <= hl - nl
        invariant
            0 <= i <= hl - nl + 1,
            1 <= nl <= hl,
            hl == hay@.len(),
            nl == needle@.len(),
            forall|j: int| 0 <= j < i ==> #[trigger] hay@.subrange(j, j + needle@.len())
                != needle@,
        decreases hl - nl + 1 - i,
    {
        if range_matches(hay, i, i + nl, needle) {
            return true;
        }
        i = i + 1;
    }
    false
}

/// Position of the value that `line` assigns to `key`, if any, as a
/// character range within `line`.
fn directive_value_range(s: &str, key: &str) -> (r: Option<(usize, usize)>)
    ensures
        match r {
            Some(range) => {
                &&& range.0 <= range.1 <= s@.len()
                &&& directive_value(s@, key@) == Some(
                    s@.subrange(range.0 as int, range.1 as int),
                )
            },
            None => directive_value(s@, key@) is None,
        },
{
    let len = s.unicode_len();
    let a = skip_ws_exec(s, 0, len);
    let b = rtrim_exec(s, len, a);
    if a < b && s.get_char(a) == '#' {
        return None;
    }
    let kl = key.unicode_len();
    if b - a < kl {
        return None;
    }
    if !range_matches(s, a, a + kl, key) {
        return None;
    }
    let p = skip_non_ws_exec(s, a, b);
    let q = skip_ws_exec(s, p, b);
    if q == b {
        return None;
    }
    let e = skip_non_ws_exec(s, q, b);
    Some((q, e))
}

/// Scan a configuration for `key` and report which recognized value, among
/// `vals`, its first recognized assignment carries.
pub fn scan_directive(lines: &Vec<String>, key: &str, vals: &Vec<&str>) -> (r: Option<usize>)
    ensures
        match r {
            Some(i) => {
                &&& i < vals@.len()
                &&& first_recognized_value(lines.deep_view(), key@, vals.deep_view()) == Some(
                    vals@[i as int]@,
                )
            },
            None => first_recognized_value(lines.deep_view(), key@, vals.deep_view()) is None,
        },
{
    let ghost lv: Seq<Seq<char>> = lines.deep_view();
    let ghost vv: Seq<Seq<char>> = vals.deep_view();
    proof {
        assert(lv.skip(0) =~= lv);
    }
    let mut li: usize = 0;
    while li < lines.len()
        invariant
            li <= lines@.len(),
            lv == lines.deep_view(),
            vv == vals.deep_view(),
            first_recognized_value(lv, key@, vv) == first_recognized_value(
                lv.skip(li as int),
                key@,
                vv,
            ),
        decreases lines@.len() - li,
    {
        let line: &String = &lines[li];
        proof {
            assert(lv.skip(li as int).drop_first() =~= lv.skip(li as int + 1));
            assert(lv[li as int] == line@);
            assert(lv.skip(li as int)[0] == lv[li as int]);
        }
        match directive_value_range(line.as_str(), key) {
            Some((q, e)) => {
                let ghost v: Seq<char> = line@.subrange(q as int, e as int);
                let mut vi: usize = 0;
                while vi < vals.len()
                    invariant
                        li < lines@.len(),
                        lv == lines.deep_view(),
                        vv == vals.deep_view(),
                        first_recognized_value(lv, key@, vv) == first_recognized_value(
                            lv.skip(li as int),
                            key@,
                            vv,
                        ),
                        lv.skip(li as int)[0] == line@,
                        directive_value(line@, key@) == Some(v),
                        vi <= vals@.len(),
                        q <= e <= line@.len(),
                        v == line@.subrange(q as int, e as int),
                        forall|m: int| 0 <= m < vi ==> vv[m] != v,
                    decreases vals@.len() - vi,
                {
                    proof {
                        assert(vv[vi as int] == vals@[vi as int]@);
                    }
                    if range_matches(line.as_str(), q, e, vals[vi]) {
                        proof {
                            assert(vv[vi as int] == v);
                            assert(vv.contains(v));
                            assert(first_recognized_value(lv.skip(li as int), key@, vv) == Some(
                                v,
                            ));
                        }
                        return Some(vi);
                    }
                    vi = vi + 1;
                }
                proof {
                    assert(forall|m: int| 0 <= m < vv.len() ==> vv[m] != v);
                    assert(!vv.contains(v));
                    assert(lv.skip(li as int).drop_first() =~= lv.skip(li as int + 1));
                }
            },
            None => {},
        }
        li = li + 1;
    }
    proof {
        assert(lv.skip(lines@.len() as int) =~= Seq::<Seq<char>>::empty());
    }
    None
}

} // verus!
