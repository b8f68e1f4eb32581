//! Text as sequences of characters: whitespace, trimming, words, splitting
//! at a separator, and lines.
//!
//! Every operation has a mathematical definition over `Seq<char>` and an
//! executable counterpart on `&str` or `Vec<char>` that is proved to
//! compute it.

use vstd::prelude::*;

verus! {

/// Whether `c` is whitespace: the code points with the Unicode property
/// `White_Space`.
pub open spec fn is_whitespace(c: char) -> bool {
    let n = c as u32;
    ||| 0x09 <= n <= 0x0D
    ||| n == 0x20
    ||| n == 0x85
    ||| n == 0xA0
    ||| n == 0x1680
    ||| 0x2000 <= n <= 0x200A
    ||| n == 0x2028
    ||| n == 0x2029
    ||| n == 0x202F
    ||| n == 0x205F
    ||| n == 0x3000
}

/// The number of characters at the start of `s` that are whitespace
/// (`space` is true) or that are not (`space` is false).
pub open spec fn run_len(s: Seq<char>, space: bool) -> nat
    decreases s.len(),
{
    if s.len() > 0 && is_whitespace(s[0]) == space {
        1 + run_len(s.drop_first(), space)
    } else {
        0
    }
}

/// The number of whitespace characters at the end of `s`.
pub open spec fn trailing_spaces(s: Seq<char>) -> nat
    decreases s.len(),
{
    if s.len() > 0 && is_whitespace(s.last()) {
        1 + trailing_spaces(s.drop_last())
    } else {
        0
    }
}

/// `s` without the whitespace at its start.
pub open spec fn trimmed_start(s: Seq<char>) -> Seq<char> {
    s.skip(run_len(s, true) as int)
}

/// `s` without the whitespace at its end.
pub open spec fn trimmed_end(s: Seq<char>) -> Seq<char> {
    s.take(s.len() - trailing_spaces(s))
}

/// `s` without the whitespace at its start and at its end.
pub open spec fn trimmed(s: Seq<char>) -> Seq<char> {
    trimmed_end(trimmed_start(s))
}

/// The maximal runs of non-whitespace characters of `s`, in order.
pub open spec fn words(s: Seq<char>) -> Seq<Seq<char>>
    decreases s.len(),
    via words_decreases
{
    let rest = trimmed_start(s);
    if rest.len() == 0 {
        Seq::empty()
    } else {
        let n = run_len(rest, false) as int;
        seq![rest.take(n)] + words(rest.skip(n))
    }
}

#[via_fn]
proof fn words_decreases(s: Seq<char>) {
    lemma_run_len_bound(s, true);
    let rest = trimmed_start(s);
    if rest.len() != 0 {
        lemma_run_len_bound(rest, false);
        lemma_run_len_stops(s, true);
        assert(rest[0] == s[run_len(s, true) as int]);
    }
}

/// Whether `pat` occurs in `s` at index `i`.
pub open spec fn occurs_at(s: Seq<char>, pat: Seq<char>, i: int) -> bool {
    0 <= i && i + pat.len() <= s.len() && s.subrange(i, i + pat.len()) == pat
}

/// The least index at or after `from` at which `pat` occurs in `s`, or -1
/// where there is none.
pub open spec fn find_from(s: Seq<char>, pat: Seq<char>, from: int) -> int
    decreases s.len() - from + 1,
{
    if from < 0 || from + pat.len() > s.len() {
        -1
    } else if occurs_at(s, pat, from) {
        from
    } else {
        find_from(s, pat, from + 1)
    }
}

/// The least index at which `pat` occurs in `s`, or -1.
pub open spec fn find(s: Seq<char>, pat: Seq<char>) -> int {
    find_from(s, pat, 0)
}

/// `s` split at the occurrences of the separator `pat`, found from left
/// to right without overlap. There is always at least one piece. Meant
/// for a separator that is not empty.
pub open spec fn pieces(s: Seq<char>, pat: Seq<char>) -> Seq<Seq<char>>
    decreases s.len(),
    when pat.len() > 0
    via pieces_decreases
{
    let i = find(s, pat);
    if i < 0 {
        seq![s]
    } else {
        seq![s.take(i)] + pieces(s.skip(i + pat.len()), pat)
    }
}

#[via_fn]
proof fn pieces_decreases(s: Seq<char>, pat: Seq<char>) {
    lemma_find_from_bound(s, pat, 0);
}

/// `line` without one carriage return at its end, if it has one.
pub open spec fn without_cr(line: Seq<char>) -> Seq<char> {
    if line.len() > 0 && line.last() == '\r' {
        line.drop_last()
    } else {
        line
    }
}

/// The lines of `s`. A line ends at a line feed; the line feed, and a
/// carriage return just before it, are not part of the line. A last line
/// without a line feed is kept as it is, and an empty text has no lines.
pub open spec fn lines(s: Seq<char>) -> Seq<Seq<char>>
    decreases s.len(),
    via lines_decreases
{
    if s.len() == 0 {
        Seq::empty()
    } else {
        let i = find(s, seq!['\n']);
        if i < 0 {
            seq![s]
        } else {
            seq![without_cr(s.take(i))] + lines(s.skip(i + 1))
        }
    }
}

#[via_fn]
proof fn lines_decreases(s: Seq<char>) {
    lemma_find_from_bound(s, seq!['\n'], 0);
}

/// `run_len` never exceeds the length.
pub proof fn lemma_run_len_bound(s: Seq<char>, space: bool)
    ensures
        run_len(s, space) <= s.len(),
    decreases s.len(),
{
    if s.len() > 0 && is_whitespace(s[0]) == space {
        lemma_run_len_bound(s.drop_first(), space);
    }
}

/// The characters that `run_len` counts are of the kind asked for, and the
/// one after them, if there is one, is not.
pub proof fn lemma_run_len_stops(s: Seq<char>, space: bool)
    ensures
        forall|i: int| 0 <= i < run_len(s, space) ==> is_whitespace(#[trigger] s[i]) == space,
        run_len(s, space) < s.len() ==> is_whitespace(s[run_len(s, space) as int]) != space,
    decreases s.len(),
{
    if s.len() > 0 && is_whitespace(s[0]) == space {
        let t = s.drop_first();
        lemma_run_len_stops(t, space);
        lemma_run_len_bound(t, space);
        assert forall|i: int| 0 <= i < run_len(s, space) implies is_whitespace(#[trigger] s[i])
            == space by {
            if i > 0 {
                assert(s[i] == t[i - 1]);
            }
        }
        if run_len(s, space) < s.len() {
            assert(s[run_len(s, space) as int] == t[run_len(t, space) as int]);
        }
    }
}

/// `run_len(s, space)` is `k` where the first `k` characters are of the kind
/// asked for and the next one, if there is one, is not.
pub proof fn lemma_run_len_is(s: Seq<char>, space: bool, k: int)
    requires
        0 <= k <= s.len(),
        forall|i: int| 0 <= i < k ==> is_whitespace(#[trigger] s[i]) == space,
        k < s.len() ==> is_whitespace(s[k]) != space,
    ensures
        run_len(s, space) == k,
    decreases k,
{
    if k > 0 {
        let t = s.drop_first();
        assert(is_whitespace(s[0]) == space);
        assert forall|i: int| 0 <= i < k - 1 implies is_whitespace(#[trigger] t[i]) == space by {
            assert(t[i] == s[i + 1]);
        }
        if k - 1 < t.len() {
            assert(t[k - 1] == s[k]);
        }
        lemma_run_len_is(t, space, k - 1);
    }
}

/// `trailing_spaces(s)` is `k` where the last `k` characters are whitespace
/// and the one before them, if there is one, is not.
pub proof fn lemma_trailing_spaces_is(s: Seq<char>, k: int)
    requires
        0 <= k <= s.len(),
        forall|i: int| s.len() - k <= i < s.len() ==> is_whitespace(#[trigger] s[i]),
        k < s.len() ==> !is_whitespace(s[s.len() - k - 1]),
    ensures
        trailing_spaces(s) == k,
    decreases k,
{
    if k > 0 {
        let t = s.drop_last();
        assert(is_whitespace(s[s.len() - 1]));
        assert forall|i: int| t.len() - (k - 1) <= i < t.len() implies is_whitespace(
            #[trigger] t[i],
        ) by {
            assert(t[i] == s[i]);
        }
        if k - 1 < t.len() {
            assert(t[t.len() - (k - 1) - 1] == s[s.len() - k - 1]);
        }
        lemma_trailing_spaces_is(t, k - 1);
    }
}

/// `trailing_spaces` never exceeds the length, the characters it counts
/// are whitespace, and the one before them, if there is one, is not.
pub proof fn lemma_trailing_spaces_stops(s: Seq<char>)
    ensures
        trailing_spaces(s) <= s.len(),
        forall|i: int|
            s.len() - trailing_spaces(s) <= i < s.len() ==> is_whitespace(#[trigger] s[i]),
        trailing_spaces(s) < s.len() ==> !is_whitespace(s[s.len() - trailing_spaces(s) - 1]),
    decreases s.len(),
{
    if s.len() > 0 && is_whitespace(s.last()) {
        let t = s.drop_last();
        lemma_trailing_spaces_stops(t);
        assert forall|i: int| s.len() - trailing_spaces(s) <= i < s.len() implies is_whitespace(
            #[trigger] s[i],
        ) by {
            if i < s.len() - 1 {
                assert(s[i] == t[i]);
            }
        }
        if trailing_spaces(s) < s.len() {
            assert(s[s.len() - trailing_spaces(s) - 1] == t[t.len() - trailing_spaces(t) - 1]);
        }
    }
}

/// What `find_from` returns is -1, or an index from `from` on at which
/// `pat` occurs.
pub proof fn lemma_find_from_bound(s: Seq<char>, pat: Seq<char>, from: int)
    ensures
        find_from(s, pat, from) == -1 || (from <= find_from(s, pat, from) && occurs_at(
            s,
            pat,
            find_from(s, pat, from),
        )),
    decreases s.len() - from + 1,
{
    if from < 0 || from + pat.len() > s.len() {
    } else if occurs_at(s, pat, from) {
    } else {
        lemma_find_from_bound(s, pat, from + 1);
    }
}

/// `find_from` returns `at` where `pat` occurs at `at` and nowhere from
/// `from` up to `at`.
pub proof fn lemma_find_from_is(s: Seq<char>, pat: Seq<char>, from: int, at: int)
    requires
        0 <= from <= at,
        occurs_at(s, pat, at),
        forall|k: int| from <= k < at ==> !occurs_at(s, pat, k),
    ensures
        find_from(s, pat, from) == at,
    decreases at - from,
{
    if from < at {
        lemma_find_from_is(s, pat, from + 1, at);
    }
}

/// `find_from` returns -1 where `pat` occurs nowhere from `from` on.
pub proof fn lemma_find_from_none(s: Seq<char>, pat: Seq<char>, from: int)
    requires
        forall|k: int| from <= k ==> !occurs_at(s, pat, k),
    ensures
        find_from(s, pat, from) == -1,
    decreases s.len() - from + 1,
{
    if from < 0 || from + pat.len() > s.len() {
    } else {
        lemma_find_from_none(s, pat, from + 1);
    }
}

/// Where `pat` occurs in `s` from `p` on is where it occurs in `s.skip(p)`,
/// moved by `p`.
pub proof fn lemma_find_skip(s: Seq<char>, pat: Seq<char>, p: int)
    requires
        0 <= p <= s.len(),
    ensures
        find(s.skip(p), pat) == if find_from(s, pat, p) < 0 {
            -1
        } else {
            find_from(s, pat, p) - p
        },
{
    let t = s.skip(p);
    assert forall|k: int| 0 <= k implies occurs_at(t, pat, k) == occurs_at(s, pat, p + k) by {
        if k + pat.len() <= t.len() {
            assert(t.subrange(k, k + pat.len()) =~= s.subrange(p + k, p + k + pat.len()));
        }
    }
    lemma_find_from_bound(s, pat, p);
    let j = find_from(s, pat, p);
    if j < 0 {
        lemma_find_from_bound(t, pat, 0);
        if find_from(t, pat, 0) >= 0 {
            lemma_find_from_least(s, pat, p, p + find_from(t, pat, 0));
        }
    } else {
        assert forall|k: int| 0 <= k < j - p implies !occurs_at(t, pat, k) by {
            if occurs_at(t, pat, k) {
                lemma_find_from_least(s, pat, p, p + k);
            }
        }
        assert(occurs_at(t, pat, j - p));
        lemma_find_from_is(t, pat, 0, j - p);
    }
}

/// Where `pat` occurs at `k`, `find_from` from an index up to `k` finds an
/// occurrence that is not after `k`.
pub proof fn lemma_find_from_least(s: Seq<char>, pat: Seq<char>, from: int, k: int)
    requires
        0 <= from <= k,
        occurs_at(s, pat, k),
    ensures
        from <= find_from(s, pat, from) <= k,
    decreases k - from,
{
    if from < k && !occurs_at(s, pat, from) {
        lemma_find_from_least(s, pat, from + 1, k);
    }
}

/// Whether `c` is whitespace.
pub fn char_is_whitespace(c: char) -> (b: bool)
    ensures
        b == is_whitespace(c),
{
    let n: u32 = c as u32;
    (0x09 <= n && n <= 0x0D) || n == 0x20 || n == 0x85 || n == 0xA0 || n == 0x1680 || (0x2000 <= n
        && n <= 0x200A) || n == 0x2028 || n == 0x2029 || n == 0x202F || n == 0x205F || n
        == 0x3000
}

/// The characters of `s`.
pub fn to_chars(s: &str) -> (v: Vec<char>)
    ensures
        v@ == s@,
{
    let mut v: Vec<char> = Vec::new();
    for c in it: s.chars()
        invariant
            v@ == it.seq().take(it.index() as int),
            it.seq() == s@,
    {
        v.push(c);
    }
    v
}

/// Whether `x` and `y` hold the same characters.
pub fn same_chars(x: &Vec<char>, y: &Vec<char>) -> (r: bool)
    ensures
        r == (x@ == y@),
{
    if x.len() != y.len() {
        return false;
    }
    let mut i: usize = 0;
    while i < x.len()
        invariant
            i <= x.len(),
            x.len() == y.len(),
            forall|k: int| 0 <= k < i ==> x@[k] == y@[k],
        decreases x.len() - i,
    {
        if x[i] != y[i] {
            return false;
        }
        i += 1;
    }
    assert(x@ =~= y@);
    true
}

/// Whether `a` and `b` are the same text.
pub fn same_text(a: &str, b: &str) -> (r: bool)
    ensures
        r == (a@ == b@),
{
    let x = to_chars(a);
    let y = to_chars(b);
    same_chars(&x, &y)
}

/// Whether `pat` occurs in `chars` at index `i`.
pub fn occurs(chars: &Vec<char>, pat: &Vec<char>, i: usize) -> (r: bool)
    ensures
        r == occurs_at(chars@, pat@, i as int),
{
    if pat.len() > chars.len() || i > chars.len() - pat.len() {
        return false;
    }
    let mut k: usize = 0;
    while k < pat.len()
        invariant
            k <= pat.len(),
            i + pat.len() <= chars.len(),
            forall|j: int| 0 <= j < k ==> chars@[i + j] == pat@[j],
        decreases pat.len() - k,
    {
        if chars[i + k] != pat[k] {
            assert(chars@.subrange(i as int, i + pat.len())[k as int] == chars@[i + k]);
            return false;
        }
        k += 1;
    }
    assert(chars@.subrange(i as int, i + pat.len()) =~= pat@);
    true
}

/// Whether `chars` begins with `pat`.
pub fn starts_with(chars: &Vec<char>, pat: &Vec<char>) -> (r: bool)
    ensures
        r == (pat@.len() <= chars@.len() && chars@.take(pat@.len() as int) == pat@),
{
    let r = occurs(chars, pat, 0);
    proof {
        if pat@.len() <= chars@.len() {
            assert(chars@.take(pat@.len() as int) =~= chars@.subrange(0, pat@.len() as int));
        }
    }
    r
}

/// The least index from `from` on at which `pat` occurs in `chars`.
pub fn find_in(chars: &Vec<char>, pat: &Vec<char>, from: usize) -> (r: Option<usize>)
    ensures
        match r {
            Some(i) => find_from(chars@, pat@, from as int) == i && from <= i && i + pat@.len()
                <= chars@.len(),
            None => find_from(chars@, pat@, from as int) == -1,
        },
{
    if pat.len() > chars.len() || from > chars.len() - pat.len() {
        return None;
    }
    let last: usize = chars.len() - pat.len();
    let mut i: usize = from;
    loop
        invariant
            from <= i <= last,
            last == chars.len() - pat.len(),
            forall|k: int| from <= k < i ==> !occurs_at(chars@, pat@, k),
        decreases last - i,
    {
        if occurs(chars, pat, i) {
            proof {
                lemma_find_from_is(chars@, pat@, from as int, i as int);
            }
            return Some(i);
        }
        if i == last {
            proof {
                lemma_find_from_none(chars@, pat@, from as int);
            }
            return None;
        }
        i += 1;
    }
}

/// The end of the run of whitespace (`space` is true) or of other
/// characters (`space` is false) that begins at `from`.
pub fn skip_run(chars: &Vec<char>, from: usize, space: bool) -> (to: usize)
    requires
        from <= chars@.len(),
    ensures
        from <= to <= chars@.len(),
        to - from == run_len(chars@.skip(from as int), space),
{
    let mut to: usize = from;
    while to < chars.len() && char_is_whitespace(chars[to]) == space
        invariant
            from <= to <= chars.len(),
            forall|k: int| from <= k < to ==> is_whitespace(chars@[k]) == space,
        decreases chars.len() - to,
    {
        to += 1;
    }
    proof {
        lemma_run_len_is(chars@.skip(from as int), space, to - from);
    }
    to
}

/// `s` without the whitespace at its start and at its end.
pub fn trim(s: &str) -> (r: &str)
    ensures
        r@ == trimmed(s@),
{
    let chars = to_chars(s);
    let a = skip_run(&chars, 0, true);
    let mut b: usize = chars.len();
    while b > a && char_is_whitespace(chars[b - 1])
        invariant
            a <= b <= chars.len(),
            forall|k: int| b <= k < chars.len() ==> is_whitespace(chars@[k]),
        decreases b,
    {
        b -= 1;
    }
    proof {
        assert(chars@.skip(0) =~= chars@);
        let t = trimmed_start(s@);
        assert(t == s@.skip(a as int));
        if b == a {
            lemma_run_len_stops(s@, true);
            assert(forall|k: int| a <= k < chars.len() ==> is_whitespace(chars@[k]));
        }
        lemma_trailing_spaces_is(t, chars.len() - b);
        assert(trimmed_end(t) =~= s@.subrange(a as int, b as int));
    }
    s.substring_char(a, b)
}

/// The bounds in `chars` of its word number `n`, counted from 0.
pub fn word_at(chars: &Vec<char>, n: usize) -> (r: Option<(usize, usize)>)
    ensures
        r is Some <==> n < words(chars@).len(),
        r matches Some((a, b)) ==> a <= b <= chars@.len() && chars@.subrange(a as int, b as int)
            == words(chars@)[n as int],
{
    let ghost s = chars@;
    let ghost mut done: Seq<Seq<char>> = Seq::empty();
    let mut pos: usize = 0;
    let mut k: usize = 0;
    proof {
        assert(s.skip(0) =~= s);
    }
    loop
        invariant
            s == chars@,
            pos <= chars.len(),
            k <= n,
            done.len() == k,
            words(s) =~= done + words(s.skip(pos as int)),
        decreases chars.len() - pos,
    {
        let a = skip_run(chars, pos, true);
        proof {
            assert(s.skip(pos as int).skip(a - pos) =~= s.skip(a as int));
        }
        if a == chars.len() {
            return None;
        }
        let b = skip_run(chars, a, false);
        proof {
            lemma_run_len_stops(s.skip(pos as int), true);
            assert(s.skip(a as int)[0] == s.skip(pos as int)[a - pos]);
            assert(b > a);
            assert(s.skip(a as int).take(b - a) =~= s.subrange(a as int, b as int));
            assert(s.skip(a as int).skip(b - a) =~= s.skip(b as int));
        }
        if k == n {
            return Some((a, b));
        }
        proof {
            done = done.push(s.subrange(a as int, b as int));
        }
        pos = b;
        k += 1;
    }
}

/// The bounds in `chars` of piece number `n`, counted from 0, of its split
/// at the separator `pat`.
pub fn piece_at(chars: &Vec<char>, pat: &Vec<char>, n: usize) -> (r: Option<(usize, usize)>)
    requires
        pat@.len() > 0,
    ensures
        r is Some <==> n < pieces(chars@, pat@).len(),
        r matches Some((a, b)) ==> a <= b <= chars@.len() && chars@.subrange(a as int, b as int)
            == pieces(chars@, pat@)[n as int],
{
    let ghost s = chars@;
    let ghost mut done: Seq<Seq<char>> = Seq::empty();
    let mut pos: usize = 0;
    let mut k: usize = 0;
    proof {
        assert(s.skip(0) =~= s);
    }
    loop
        invariant
            s == chars@,
            pat@.len() > 0,
            pos <= chars.len(),
            k <= n,
            done.len() == k,
            pieces(s, pat@) =~= done + pieces(s.skip(pos as int), pat@),
        decreases chars.len() - pos,
    {
        let found = find_in(chars, pat, pos);
        proof {
            lemma_find_skip(s, pat@, pos as int);
        }
        match found {
            None => {
                if k == n {
                    proof {
                        assert(s.skip(pos as int) =~= s.subrange(pos as int, s.len() as int));
                    }
                    return Some((pos, chars.len()));
                }
                return None;
            },
            Some(j) => {
                proof {
                    assert(s.skip(pos as int).take(j - pos) =~= s.subrange(pos as int, j as int));
                    assert(s.skip(pos as int).skip(j - pos + pat@.len()) =~= s.skip(
                        j + pat@.len(),
                    ));
                }
                if k == n {
                    return Some((pos, j));
                }
                proof {
                    done = done.push(s.subrange(pos as int, j as int));
                }
                pos = j + pat.len();
                k += 1;
            },
        }
    }
}

/// The bounds in `chars` of each of its lines, in order.
pub fn line_bounds(chars: &Vec<char>) -> (r: Vec<(usize, usize)>)
    ensures
        r@.len() == lines(chars@).len(),
        forall|i: int|
            0 <= i < r@.len() ==> (#[trigger] r@[i]).0 <= r@[i].1 <= chars@.len() && chars@.subrange(
                r@[i].0 as int,
                r@[i].1 as int,
            ) == lines(chars@)[i],
{
    let ghost s = chars@;
    let ghost mut done: Seq<Seq<char>> = Seq::empty();
    let mut r: Vec<(usize, usize)> = Vec::new();
    let feed: Vec<char> = vec!['\n'];
    let mut pos: usize = 0;
    proof {
        assert(s.skip(0) =~= s);
        assert(feed@ =~= seq!['\n']);
    }
    while pos < chars.len()
        invariant
            s == chars@,
            feed@ == seq!['\n'],
            pos <= chars.len(),
            r@.len() == done.len(),
            lines(s) =~= done + lines(s.skip(pos as int)),
            forall|i: int|
                0 <= i < r@.len() ==> (#[trigger] r@[i]).0 <= r@[i].1 <= chars@.len()
                    && chars@.subrange(r@[i].0 as int, r@[i].1 as int) == done[i],
        decreases chars.len() - pos,
    {
        let found = find_in(chars, &feed, pos);
        proof {
            lemma_find_skip(s, feed@, pos as int);
        }
        match found {
            None => {
                proof {
                    assert(s.skip(pos as int) =~= s.subrange(pos as int, s.len() as int));
                    done = done.push(s.subrange(pos as int, s.len() as int));
                    assert(s.skip(pos as int).skip(s.len() - pos).len() == 0);
                }
                r.push((pos, chars.len()));
                pos = chars.len();
                proof {
                    assert(lines(s.skip(pos as int)) =~= Seq::<Seq<char>>::empty());
                }
            },
            Some(j) => {
                let end: usize = if j > pos && chars[j - 1] == '\r' {
                    j - 1
                } else {
                    j
                };
                proof {
                    let line = s.skip(pos as int).take(j - pos);
                    assert(line =~= s.subrange(pos as int, j as int));
                    assert(without_cr(line) =~= s.subrange(pos as int, end as int));
                    assert(s.skip(pos as int).skip(j - pos + 1) =~= s.skip(j + 1));
                    done = done.push(s.subrange(pos as int, end as int));
                }
                r.push((pos, end));
                pos = j + 1;
            },
        }
    }
    proof {
        assert(lines(s.skip(pos as int)) =~= Seq::<Seq<char>>::empty());
    }
    r
}

/// Trimming keeps the first character of a text that does not begin with
/// whitespace.
pub proof fn lemma_trimmed_first(s: Seq<char>)
    requires
        s.len() > 0,
        !is_whitespace(s[0]),
    ensures
        trimmed(s).len() > 0,
        trimmed(s)[0] == s[0],
{
    assert(s.skip(0) =~= s);
    lemma_trailing_spaces_stops(s);
}

/// `a` followed by `b`.
pub fn followed_by(a: &str, b: &str) -> (r: String)
    ensures
        r@ == a@ + b@,
{
    let mut r = a.to_owned();
    r.append(b);
    r
}

/// `head`, `middle` and `tail`, in this order.
pub fn framed(head: &str, middle: &str, tail: &str) -> (r: String)
    ensures
        r@ == head@ + middle@ + tail@,
{
    let mut r = head.to_owned();
    r.append(middle);
    r.append(tail);
    r
}

} // verus!
