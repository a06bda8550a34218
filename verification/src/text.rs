//! Character-level text handling: lines, trimming, searching and joining.
//!
//! Text is viewed as a sequence of `char`s. The spec functions here say what
//! `str::lines`, `str::trim`, `str::split_once` and `[..].join` give, and the
//! executable functions compute them on a `Vec<char>` by index ranges.

use vstd::prelude::*;

verus! {

/// Index of the first `c` in `s`, if there is one.
pub open spec fn find(s: Seq<char>, c: char) -> Option<int>
    decreases s.len(),
{
    if s.len() == 0 {
        None
    } else if s[0] == c {
        Some(0)
    } else {
        match find(s.drop_first(), c) {
            Some(i) => Some(i + 1),
            None => None,
        }
    }
}

/// `find` gives the first occurrence, and `None` only when there is none.
pub proof fn lemma_find(s: Seq<char>, c: char)
    ensures
        match find(s, c) {
            Some(i) => 0 <= i < s.len() && s[i] == c && forall|j: int| 0 <= j < i ==> s[j] != c,
            None => forall|j: int| 0 <= j < s.len() ==> s[j] != c,
        },
    decreases s.len(),
{
    if s.len() > 0 && s[0] != c {
        lemma_find(s.drop_first(), c);
        match find(s.drop_first(), c) {
            Some(i) => {
                assert forall|j: int| 0 <= j < i + 1 implies s[j] != c by {
                    if j > 0 {
                        assert(s[j] == s.drop_first()[j - 1]);
                    }
                }
            },
            None => {
                assert forall|j: int| 0 <= j < s.len() implies s[j] != c by {
                    if j > 0 {
                        assert(s[j] == s.drop_first()[j - 1]);
                    }
                }
            },
        }
    }
}

/// The first occurrence found by any other means is the one `find` gives.
pub proof fn lemma_find_first(s: Seq<char>, c: char, i: int)
    requires
        0 <= i < s.len(),
        s[i] == c,
        forall|j: int| 0 <= j < i ==> s[j] != c,
    ensures
        find(s, c) == Some(i),
{
    lemma_find(s, c);
}

/// `find` gives `None` exactly when `c` does not occur.
pub proof fn lemma_find_none(s: Seq<char>, c: char)
    requires
        forall|j: int| 0 <= j < s.len() ==> s[j] != c,
    ensures
        find(s, c) == None::<int>,
{
    lemma_find(s, c);
}

/// A line without its `\r`, when it ended in `\r\n`.
pub open spec fn strip_cr(l: Seq<char>) -> Seq<char> {
    if l.len() > 0 && l.last() == '\r' {
        l.drop_last()
    } else {
        l
    }
}

/// The lines of `s`, as `str::lines` gives them: split at `\n`, a `\r` just
/// before the `\n` dropped, and no empty line after a final `\n`.
pub open spec fn lines(s: Seq<char>) -> Seq<Seq<char>>
    decreases s.len(),
{
    if s.len() == 0 {
        Seq::empty()
    } else {
        match find(s, '\n') {
            Some(i) => {
                proof {
                    lemma_find(s, '\n');
                }
                seq![strip_cr(s.take(i))] + lines(s.skip(i + 1))
            },
            None => seq![s],
        }
    }
}

/// Unicode `White_Space`, which `char::is_whitespace` and `str::trim` go by.
pub open spec fn is_white(c: char) -> bool {
    let u = c as u32;
    ||| 0x09 <= u <= 0x0d
    ||| u == 0x20
    ||| u == 0x85
    ||| u == 0xa0
    ||| u == 0x1680
    ||| 0x2000 <= u <= 0x200a
    ||| u == 0x2028
    ||| u == 0x2029
    ||| u == 0x202f
    ||| u == 0x205f
    ||| u == 0x3000
}

/// `s` without its leading whitespace.
pub open spec fn trim_start(s: Seq<char>) -> Seq<char>
    decreases s.len(),
{
    if s.len() > 0 && is_white(s[0]) {
        trim_start(s.drop_first())
    } else {
        s
    }
}

/// `s` without its trailing whitespace.
pub open spec fn trim_end(s: Seq<char>) -> Seq<char>
    decreases s.len(),
{
    if s.len() > 0 && is_white(s.last()) {
        trim_end(s.drop_last())
    } else {
        s
    }
}

/// `s` without leading and trailing whitespace, as `str::trim` gives it.
pub open spec fn trim(s: Seq<char>) -> Seq<char> {
    trim_end(trim_start(s))
}

/// The pieces of `parts` with `sep` between each two, as `[..].join(sep)` gives them.
pub open spec fn join(parts: Seq<Seq<char>>, sep: Seq<char>) -> Seq<char>
    decreases parts.len(),
{
    if parts.len() == 0 {
        Seq::empty()
    } else if parts.len() == 1 {
        parts[0]
    } else {
        join(parts.drop_last(), sep) + sep + parts.last()
    }
}

/// The text of each range of `v`.
pub open spec fn range_texts(v: Seq<char>, ranges: Seq<(usize, usize)>) -> Seq<Seq<char>> {
    ranges.map_values(|r: (usize, usize)| v.subrange(r.0 as int, r.1 as int))
}

/// Every range lies within `v` and does not run backwards.
pub open spec fn ranges_within(v: Seq<char>, ranges: Seq<(usize, usize)>) -> bool {
    forall|k: int| 0 <= k < ranges.len() ==> #[trigger] ranges[k].0 <= ranges[k].1 <= v.len()
}

/// A line that holds no `\n`, followed by `\n`, is the first line.
pub proof fn lemma_lines_first(a: Seq<char>, rest: Seq<char>)
    requires
        forall|j: int| 0 <= j < a.len() ==> a[j] != '\n',
    ensures
        lines(a + seq!['\n'] + rest) == seq![strip_cr(a)] + lines(rest),
{
    let s = a + seq!['\n'] + rest;
    lemma_find_first(s, '\n', a.len() as int);
    assert(s.take(a.len() as int) =~= a);
    assert(s.skip(a.len() as int + 1) =~= rest);
}

/// Text that starts and ends with a non-whitespace character trims to itself.
pub proof fn lemma_trim_unchanged(s: Seq<char>)
    requires
        s.len() > 0,
        !is_white(s[0]),
        !is_white(s.last()),
    ensures
        trim(s) == s,
{
}

/// The characters of `s`, in order.
pub fn chars_of(s: &str) -> (v: Vec<char>)
    ensures
        v@ == s@,
{
    let mut v: Vec<char> = Vec::new();
    for c in it: s.chars()
        invariant
            v@ == it.seq().take(it.index() as int),
            it.seq() == s@,
    {
        v.push(c);
    }
    v
}

/// Whether `c` is Unicode whitespace.
pub fn is_whitespace(c: char) -> (b: bool)
    ensures
        b == is_white(c),
{
    let u = c as u32;
    (0x09 <= u && u <= 0x0d) || u == 0x20 || u == 0x85 || u == 0xa0 || u == 0x1680 || (0x2000
        <= u && u <= 0x200a) || u == 0x2028 || u == 0x2029 || u == 0x202f || u == 0x205f || u
        == 0x3000
}

/// The part of `v[a..b]` that `trim` keeps, as a range of `v`.
pub fn trim_range(v: &Vec<char>, a: usize, b: usize) -> (r: (usize, usize))
    requires
        a <= b <= v.len(),
    ensures
        a <= r.0 <= r.1 <= b,
        v@.subrange(r.0 as int, r.1 as int) == trim(v@.subrange(a as int, b as int)),
{
    let mut s = a;
    while s < b && is_whitespace(v[s])
        invariant
            a <= s <= b <= v.len(),
            trim_start(v@.subrange(s as int, b as int)) == trim_start(
                v@.subrange(a as int, b as int),
            ),
        decreases b - s,
    {
        assert(v@.subrange(s as int, b as int).drop_first() =~= v@.subrange(s + 1, b as int));
        s = s + 1;
    }
    let mut e = b;
    while e > s && is_whitespace(v[e - 1])
        invariant
            a <= s <= e <= b <= v.len(),
            trim_end(v@.subrange(s as int, e as int)) == trim_end(v@.subrange(s as int, b as int)),
        decreases e - s,
    {
        assert(v@.subrange(s as int, e as int).drop_last() =~= v@.subrange(s as int, e - 1));
        e = e - 1;
    }
    (s, e)
}

/// The index of the first `c` in `v[a..b]`, if there is one.
pub fn find_in(v: &Vec<char>, c: char, a: usize, b: usize) -> (r: Option<usize>)
    requires
        a <= b <= v.len(),
    ensures
        match r {
            Some(k) => a <= k < b && find(v@.subrange(a as int, b as int), c) == Some(k - a),
            None => find(v@.subrange(a as int, b as int), c) == None::<int>,
        },
{
    let mut i = a;
    while i < b
        invariant
            a <= i <= b <= v.len(),
            forall|j: int| a <= j < i ==> v@[j] != c,
        decreases b - i,
    {
        if v[i] == c {
            proof {
                lemma_find_first(v@.subrange(a as int, b as int), c, i - a);
            }
            return Some(i);
        }
        i = i + 1;
    }
    proof {
        lemma_find_none(v@.subrange(a as int, b as int), c);
    }
    None
}

/// Whether `v[a..b]` is the text `w`.
pub fn range_eq(v: &Vec<char>, a: usize, b: usize, w: &str) -> (r: bool)
    requires
        a <= b <= v.len(),
    ensures
        r == (v@.subrange(a as int, b as int) == w@),
{
    let wc = chars_of(w);
    if b - a != wc.len() {
        return false;
    }
    let mut i: usize = 0;
    while i < wc.len()
        invariant
            a <= b <= v.len(),
            b - a == wc.len(),
            wc@ == w@,
            i <= wc.len(),
            forall|j: int| 0 <= j < i ==> v@[a + j] == wc@[j],
        decreases wc.len() - i,
    {
        if v[a + i] != wc[i] {
            assert(v@.subrange(a as int, b as int)[i as int] != w@[i as int]);
            return false;
        }
        i = i + 1;
    }
    assert(v@.subrange(a as int, b as int) =~= w@);
    true
}

/// The line ranges of `v`: the text of each is the line that `lines` gives.
pub fn line_ranges(v: &Vec<char>) -> (r: Vec<(usize, usize)>)
    ensures
        ranges_within(v@, r@),
        range_texts(v@, r@) == lines(v@),
{
    let n = v.len();
    let mut r: Vec<(usize, usize)> = Vec::new();
    let mut start: usize = 0;
    assert(v@.skip(0) =~= v@);
    while start < n
        invariant
            n == v.len(),
            start <= n,
            ranges_within(v@, r@),
            lines(v@) == range_texts(v@, r@) + lines(v@.skip(start as int)),
        decreases n - start,
    {
        let ghost rest = v@.skip(start as int);
        let ghost old_r = r@;
        match find_in(v, '\n', start, n) {
            Some(j) => {
                assert(v@.subrange(start as int, n as int) =~= rest);
                let mut e = j;
                if e > start && v[e - 1] == '\r' {
                    e = e - 1;
                }
                assert(v@.subrange(start as int, e as int) =~= strip_cr(rest.take(j - start)));
                assert(rest.skip(j - start + 1) =~= v@.skip(j + 1));
                assert(lines(rest) == seq![strip_cr(rest.take(j - start))] + lines(
                    rest.skip(j - start + 1),
                ));
                r.push((start, e));
                assert(range_texts(v@, r@) =~= range_texts(v@, old_r) + seq![
                    v@.subrange(start as int, e as int),
                ]);
                start = j + 1;
            },
            None => {
                assert(v@.subrange(start as int, n as int) =~= rest);
                assert(lines(rest) == seq![rest]);
                r.push((start, n));
                assert(range_texts(v@, r@) =~= range_texts(v@, old_r) + seq![
                    v@.subrange(start as int, n as int),
                ]);
                start = n;
                assert(v@.skip(n as int).len() == 0);
            },
        }
    }
    assert(lines(v@.skip(n as int)) =~= Seq::<Seq<char>>::empty());
    r
}

/// The text of `text[a..b]`, counted in characters, as a `String`.
pub fn substring(text: &str, a: usize, b: usize) -> (s: String)
    requires
        a <= b <= text@.len(),
    ensures
        s@ == text@.subrange(a as int, b as int),
{
    String::from_str(text.substring_char(a, b))
}

/// The text of each string.
pub open spec fn strings_text(parts: Seq<String>) -> Seq<Seq<char>> {
    parts.map_values(|p: String| p@)
}

/// The strings of `parts` with `sep` between each two.
pub fn join_strings(parts: &Vec<String>, sep: &str) -> (s: String)
    ensures
        s@ == join(strings_text(parts@), sep@),
{
    let ghost all = strings_text(parts@);
    let mut s = String::new();
    let mut k: usize = 0;
    assert(all.take(0) =~= Seq::<Seq<char>>::empty());
    while k < parts.len()
        invariant
            k <= parts.len(),
            all == strings_text(parts@),
            s@ == join(all.take(k as int), sep@),
        decreases parts.len() - k,
    {
        assert(all.take(k + 1).drop_last() =~= all.take(k as int));
        if k > 0 {
            s.append(sep);
        }
        s.append(parts[k].as_str());
        assert(all.take(k + 1).last() == parts@[k as int]@);
        k = k + 1;
    }
    assert(all.take(parts.len() as int) =~= all);
    s
}

} // verus!
