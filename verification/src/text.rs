//! Character-level text operations with exact contracts over `Seq<char>`.

use vstd::prelude::*;
use vstd::string::StringExecFns;

verus! {

/// `String::push` appends one character to the string.
pub assume_specification[ String::push ](s: &mut String, c: char)
    ensures
        final(s)@ == old(s)@.push(c),
;

/// The characters of `s`, in order.
pub fn to_chars(s: &str) -> (v: Vec<char>)
    ensures
        v@ == s@,
{
    let mut v: Vec<char> = Vec::new();
    for c in it: s.chars()
        invariant
            it.seq() == s@,
            v@ == s@.subrange(0, it.index() as int),
    {
        v.push(c);
    }
    v
}

/// The string made of the characters of `v`, in order.
pub fn from_chars(v: &[char]) -> (s: String)
    ensures
        s@ == v@,
{
    let mut s = String::new();
    let mut i: usize = 0;
    while i < v.len()
        invariant
            i <= v.len(),
            s@ == v@.subrange(0, i as int),
        decreases v.len() - i,
    {
        s.push(v[i]);
        i = i + 1;
    }
    s
}

/// The characters of `v` from `lo` up to, not including, `hi`.
pub fn sub_vec(v: &[char], lo: usize, hi: usize) -> (r: Vec<char>)
    requires
        lo <= hi <= v.len(),
    ensures
        r@ == v@.subrange(lo as int, hi as int),
{
    let mut r: Vec<char> = Vec::new();
    let mut i: usize = lo;
    while i < hi
        invariant
            lo <= i <= hi <= v.len(),
            r@ == v@.subrange(lo as int, i as int),
        decreases hi - i,
    {
        r.push(v[i]);
        i = i + 1;
    }
    r
}

/// Appends the characters of `v` to `out`.
pub fn append_chars(out: &mut Vec<char>, v: &[char])
    ensures
        final(out)@ == old(out)@ + v@,
{
    let mut i: usize = 0;
    while i < v.len()
        invariant
            i <= v.len(),
            out@ == old(out)@ + v@.subrange(0, i as int),
        decreases v.len() - i,
    {
        out.push(v[i]);
        i = i + 1;
    }
    assert(v@.subrange(0, v.len() as int) == v@);
}

/// Whether `a` and `b` hold the same characters.
pub fn same_chars(a: &[char], b: &[char]) -> (r: bool)
    ensures
        r == (a@ == b@),
{
    if a.len() != b.len() {
        return false;
    }
    let mut i: usize = 0;
    while i < a.len()
        invariant
            i <= a.len(),
            a.len() == b.len(),
            a@.subrange(0, i as int) == b@.subrange(0, i as int),
        decreases a.len() - i,
    {
        if a[i] != b[i] {
            return false;
        }
        assert(a@.subrange(0, i + 1) == a@.subrange(0, i as int).push(a@[i as int]));
        assert(b@.subrange(0, i + 1) == b@.subrange(0, i as int).push(b@[i as int]));
        i = i + 1;
    }
    assert(a@.subrange(0, a.len() as int) == a@);
    assert(b@.subrange(0, b.len() as int) == b@);
    true
}

/// The characters with the Unicode property `White_Space`.
pub open spec fn is_white_space(c: char) -> bool {
    let u = c as u32;
    ||| 0x09 <= u <= 0x0D
    ||| u == 0x20
    ||| u == 0x85
    ||| u == 0xA0
    ||| u == 0x1680
    ||| 0x2000 <= u <= 0x200A
    ||| u == 0x2028
    ||| u == 0x2029
    ||| u == 0x202F
    ||| u == 0x205F
    ||| u == 0x3000
}

/// Whether `c` is white space.
pub fn is_space(c: char) -> (r: bool)
    ensures
        r == is_white_space(c),
{
    let u: u32 = c as u32;
    (0x09 <= u && u <= 0x0D) || u == 0x20 || u == 0x85 || u == 0xA0 || u == 0x1680 || (0x2000 <= u
        && u <= 0x200A) || u == 0x2028 || u == 0x2029 || u == 0x202F || u == 0x205F || u == 0x3000
}

/// `s` without its leading white space.
pub open spec fn trimmed_start(s: Seq<char>) -> Seq<char>
    decreases s.len(),
{
    if s.len() > 0 && is_white_space(s[0]) {
        trimmed_start(s.drop_first())
    } else {
        s
    }
}

/// `s` without its trailing white space.
pub open spec fn trimmed_end(s: Seq<char>) -> Seq<char>
    decreases s.len(),
{
    if s.len() > 0 && is_white_space(s.last()) {
        trimmed_end(s.drop_last())
    } else {
        s
    }
}

/// `s` without leading and trailing white space.
pub open spec fn trimmed(s: Seq<char>) -> Seq<char> {
    trimmed_end(trimmed_start(s))
}

/// The bounds of `trimmed(v@)` within `v`.
pub fn trim_bounds(v: &[char]) -> (r: (usize, usize))
    ensures
        r.0 <= r.1 <= v.len(),
        v@.subrange(r.0 as int, r.1 as int) == trimmed(v@),
{
    let n = v.len();
    let mut lo: usize = 0;
    assert(v@.subrange(0, n as int) == v@);
    while lo < n && is_space(v[lo])
        invariant
            n == v.len(),
            lo <= n,
            trimmed_start(v@) == trimmed_start(v@.subrange(lo as int, n as int)),
        decreases n - lo,
    {
        assert(v@.subrange(lo as int, n as int).drop_first() == v@.subrange(lo + 1, n as int));
        lo = lo + 1;
    }
    let mut hi: usize = n;
    while hi > lo && is_space(v[hi - 1])
        invariant
            lo <= hi <= n,
            n == v.len(),
            trimmed(v@) == trimmed_end(v@.subrange(lo as int, hi as int)),
        decreases hi - lo,
    {
        assert(v@.subrange(lo as int, hi as int).drop_last() == v@.subrange(lo as int, hi - 1));
        hi = hi - 1;
    }
    (lo, hi)
}

/// `v` without leading and trailing white space.
pub fn trim(v: &[char]) -> (r: Vec<char>)
    ensures
        r@ == trimmed(v@),
{
    let (lo, hi) = trim_bounds(v);
    sub_vec(v, lo, hi)
}

/// Whether `v` begins with `p`.
pub fn starts_with(v: &[char], p: &[char]) -> (r: bool)
    ensures
        r == p@.is_prefix_of(v@),
{
    if p.len() > v.len() {
        return false;
    }
    let head = sub_vec(v, 0, p.len());
    same_chars(&head, p)
}

/// Whether `v` ends with `p`.
pub fn ends_with(v: &[char], p: &[char]) -> (r: bool)
    ensures
        r == p@.is_suffix_of(v@),
{
    if p.len() > v.len() {
        return false;
    }
    let tail = sub_vec(v, v.len() - p.len(), v.len());
    same_chars(&tail, p)
}

/// `s` without the prefix `p`, where it begins with `p`.
pub open spec fn without_prefix(s: Seq<char>, p: Seq<char>) -> Option<Seq<char>> {
    if p.is_prefix_of(s) {
        Some(s.skip(p.len() as int))
    } else {
        None
    }
}

/// `v` without the prefix `p`, where it begins with `p`.
pub fn strip_prefix(v: &[char], p: &[char]) -> (r: Option<Vec<char>>)
    ensures
        r is Some == without_prefix(v@, p@) is Some,
        r matches Some(rest) ==> without_prefix(v@, p@) == Some(rest@),
{
    if starts_with(v, p) {
        Some(sub_vec(v, p.len(), v.len()))
    } else {
        None
    }
}

/// Whether `n` stands in `s` at index `i`.
pub open spec fn occurs_at(s: Seq<char>, n: Seq<char>, i: int) -> bool {
    0 <= i && i + n.len() <= s.len() && s.subrange(i, i + n.len()) == n
}

/// Whether `n` stands somewhere in `s`.
pub open spec fn contains_sub(s: Seq<char>, n: Seq<char>) -> bool {
    exists|i: int| occurs_at(s, n, i)
}

/// Whether `n` stands in `v` at index `i`.
pub fn matches_at(v: &[char], n: &[char], i: usize) -> (r: bool)
    ensures
        r == occurs_at(v@, n@, i as int),
{
    if i > v.len() || n.len() > v.len() - i {
        return false;
    }
    let part = sub_vec(v, i, i + n.len());
    same_chars(&part, n)
}

/// The first index at which `n` stands in `v`.
pub fn find_sub(v: &[char], n: &[char]) -> (r: Option<usize>)
    ensures
        r is Some == contains_sub(v@, n@),
        r matches Some(i) ==> occurs_at(v@, n@, i as int) && forall|j: int|
            0 <= j < i ==> !occurs_at(v@, n@, j),
{
    let mut i: usize = 0;
    while i <= v.len()
        invariant
            i <= v.len() + 1,
            forall|j: int| 0 <= j < i ==> !occurs_at(v@, n@, j),
        decreases v.len() + 1 - i,
    {
        if matches_at(v, n, i) {
            return Some(i);
        }
        if i == usize::MAX {
            return None;
        }
        i = i + 1;
    }
    None
}

/// Whether `n` stands somewhere in `v`.
pub fn contains(v: &[char], n: &[char]) -> (r: bool)
    ensures
        r == contains_sub(v@, n@),
{
    find_sub(v, n).is_some()
}

/// The index of the first `c` in `s`, or the length of `s` where there is none.
pub open spec fn first_index<T>(s: Seq<T>, c: T) -> int
    decreases s.len(),
{
    if s.len() == 0 || s[0] == c {
        0
    } else {
        1 + first_index(s.drop_first(), c)
    }
}

/// `first_index` is the one index before which no `c` stands and at which
/// one does, or the sequence ends.
pub proof fn lemma_first_index<T>(s: Seq<T>, c: T, k: int)
    requires
        0 <= k <= s.len(),
        forall|j: int| 0 <= j < k ==> s[j] != c,
        k == s.len() || s[k] == c,
    ensures
        first_index(s, c) == k,
    decreases s.len(),
{
    if s.len() == 0 || s[0] == c {
    } else {
        let t = s.drop_first();
        assert forall|j: int| 0 <= j < k - 1 implies t[j] != c by {
            assert(t[j] == s[j + 1]);
        }
        lemma_first_index(t, c, k - 1);
    }
}

/// What `first_index` returns lies within the sequence and marks the first `c`.
pub proof fn lemma_first_index_bounds<T>(s: Seq<T>, c: T)
    ensures
        0 <= first_index(s, c) <= s.len(),
        forall|j: int| 0 <= j < first_index(s, c) ==> s[j] != c,
        first_index(s, c) < s.len() ==> s[first_index(s, c)] == c,
    decreases s.len(),
{
    if s.len() == 0 || s[0] == c {
    } else {
        let t = s.drop_first();
        lemma_first_index_bounds(t, c);
        assert forall|j: int| 0 <= j < first_index(s, c) implies s[j] != c by {
            if j > 0 {
                assert(t[j - 1] == s[j]);
            }
        }
        if first_index(t, c) < t.len() {
            assert(t[first_index(t, c)] == s[first_index(t, c) + 1]);
        }
    }
}

/// The index of the first `c` in `v` at or after `from`, or the length of `v`.
pub fn find_char_from(v: &[char], c: char, from: usize) -> (r: usize)
    requires
        from <= v.len(),
    ensures
        from <= r <= v.len(),
        r - from == first_index(v@.skip(from as int), c),
        forall|j: int| from <= j < r ==> v@[j] != c,
        r < v.len() ==> v@[r as int] == c,
{
    let mut i: usize = from;
    while i < v.len() && v[i] != c
        invariant
            from <= i <= v.len(),
            forall|j: int| from <= j < i ==> v@[j] != c,
        decreases v.len() - i,
    {
        i = i + 1;
    }
    proof {
        lemma_first_index(v@.skip(from as int), c, i - from);
    }
    i
}

/// The index of the first `c` in `v`, or the length of `v`.
pub fn find_char(v: &[char], c: char) -> (r: usize)
    ensures
        r == first_index(v@, c),
        r <= v.len(),
        forall|j: int| 0 <= j < r ==> v@[j] != c,
        r < v.len() ==> v@[r as int] == c,
{
    assert(v@.skip(0) == v@);
    find_char_from(v, c, 0)
}

/// The index behind the last `c` in `s`, or 0 where there is none: where the
/// last piece of `s` begins when `c` separates.
pub open spec fn last_piece_start(s: Seq<char>, c: char) -> int
    decreases s.len(),
{
    if s.len() == 0 || s.last() == c {
        s.len() as int
    } else {
        last_piece_start(s.drop_last(), c)
    }
}

/// What stands in `s` behind its last `c`; all of `s` where it holds none.
pub open spec fn last_piece(s: Seq<char>, c: char) -> Seq<char> {
    s.skip(last_piece_start(s, c))
}

/// Where the last piece of `v` begins when `c` separates.
pub fn rfind_piece_start(v: &[char], c: char) -> (r: usize)
    ensures
        r == last_piece_start(v@, c),
        r <= v.len(),
{
    let mut i: usize = v.len();
    assert(v@.subrange(0, i as int) == v@);
    while i > 0 && v[i - 1] != c
        invariant
            i <= v.len(),
            last_piece_start(v@, c) == last_piece_start(v@.subrange(0, i as int), c),
        decreases i,
    {
        assert(v@.subrange(0, i as int).drop_last() == v@.subrange(0, i - 1));
        i = i - 1;
    }
    i
}

/// The character sequences that the vectors of `p` hold.
pub open spec fn views(p: Seq<Vec<char>>) -> Seq<Seq<char>> {
    Seq::new(p.len(), |i: int| p[i]@)
}

/// The views of the items of `s`, in order.
pub open spec fn seq_view<T: View>(s: Seq<T>) -> Seq<T::V> {
    Seq::new(s.len(), |i: int| s[i]@)
}

/// The character sequences of a list of pairs of strings.
pub open spec fn pairs_view(s: Seq<(String, String)>) -> Seq<(Seq<char>, Seq<char>)> {
    Seq::new(s.len(), |i: int| (s[i].0@, s[i].1@))
}

/// The first members of the pairs of `s`.
pub open spec fn keys_of(s: Seq<(Seq<char>, Seq<char>)>) -> Seq<Seq<char>> {
    Seq::new(s.len(), |i: int| s[i].0)
}

/// The value that the first pair with the key `key` holds.
pub open spec fn lookup(s: Seq<(Seq<char>, Seq<char>)>, key: Seq<char>) -> Option<Seq<char>> {
    let i = first_index(keys_of(s), key);
    if i < s.len() {
        Some(s[i].1)
    } else {
        None
    }
}

/// The index of the first pair of `entries` with the key `key`.
pub fn find_key(entries: &Vec<(String, String)>, key: &str) -> (r: Option<usize>)
    ensures
        match r {
            Some(i) => i == first_index(keys_of(pairs_view(entries@)), key@) && i < entries.len(),
            None => first_index(keys_of(pairs_view(entries@)), key@) == entries.len(),
        },
{
    let mut i: usize = 0;
    let ghost keys = keys_of(pairs_view(entries@));
    while i < entries.len()
        invariant
            i <= entries.len(),
            keys == keys_of(pairs_view(entries@)),
            forall|j: int| 0 <= j < i ==> keys[j] != key@,
        decreases entries.len() - i,
    {
        if str_eq(entries[i].0.as_str(), key) {
            proof {
                lemma_first_index(keys, key@, i as int);
            }
            return Some(i);
        }
        i = i + 1;
    }
    proof {
        lemma_first_index(keys, key@, i as int);
    }
    None
}

/// The characters of an optional string.
pub open spec fn opt_text(o: Option<String>) -> Option<Seq<char>> {
    match o {
        Some(s) => Some(s@),
        None => None,
    }
}

/// Whether `a` and `b` hold the same characters.
pub fn str_eq(a: &str, b: &str) -> (r: bool)
    ensures
        r == (a@ == b@),
{
    let x = to_chars(a);
    let y = to_chars(b);
    same_chars(&x, &y)
}

/// `a` followed by `b`.
pub fn concat2(a: &str, b: &str) -> (r: String)
    ensures
        r@ == a@ + b@,
{
    let mut s = a.to_owned();
    s.append(b);
    s
}

/// `a`, `b` and `c` in a row.
pub fn concat3(a: &str, b: &str, c: &str) -> (r: String)
    ensures
        r@ == a@ + b@ + c@,
{
    let mut s = a.to_owned();
    s.append(b);
    s.append(c);
    s
}

/// The pieces of `s` between the occurrences of `sep`: one more than there
/// are occurrences, empty pieces included.
pub open spec fn split_on(s: Seq<char>, sep: char) -> Seq<Seq<char>>
    decreases s.len(),
{
    let i = first_index(s, sep);
    if 0 <= i < s.len() {
        seq![s.take(i)] + split_on(s.skip(i + 1), sep)
    } else {
        seq![s]
    }
}

/// The pieces of `v` between the occurrences of `sep`.
pub fn split_char(v: &[char], sep: char) -> (r: Vec<Vec<char>>)
    ensures
        views(r@) == split_on(v@, sep),
        r.len() >= 1,
{
    let mut out: Vec<Vec<char>> = Vec::new();
    let mut start: usize = 0;
    let mut end: usize = find_char_from(v, sep, 0);
    assert(v@.skip(0) == v@);
    assert(views(out@) + split_on(v@, sep) == split_on(v@, sep));
    while end < v.len()
        invariant
            start <= end <= v.len(),
            end - start == first_index(v@.skip(start as int), sep),
            views(out@) + split_on(v@.skip(start as int), sep) == split_on(v@, sep),
        decreases v.len() - start,
    {
        let piece = sub_vec(v, start, end);
        proof {
            let t = v@.skip(start as int);
            assert(t.take(end - start) == v@.subrange(start as int, end as int));
            assert(t.skip(end - start + 1) == v@.skip(end + 1));
            assert(views(out@.push(piece)) == views(out@) + seq![piece@]);
            assert(views(out@) + (seq![piece@] + split_on(v@.skip(end + 1), sep)) == (views(out@)
                + seq![piece@]) + split_on(v@.skip(end + 1), sep));
        }
        out.push(piece);
        start = end + 1;
        end = find_char_from(v, sep, start);
    }
    let piece = sub_vec(v, start, end);
    proof {
        assert(v@.skip(start as int) == v@.subrange(start as int, end as int));
        assert(views(out@.push(piece)) == views(out@) + seq![piece@]);
    }
    out.push(piece);
    out
}

/// `s` without one carriage return at its end.
pub open spec fn without_cr(s: Seq<char>) -> Seq<char> {
    if s.len() > 0 && s.last() == '\r' {
        s.drop_last()
    } else {
        s
    }
}

/// The lines of `s`: it is cut behind each line feed, the line feed and a
/// carriage return before it are dropped, and what follows the last line
/// feed is a line only where it is not empty.
pub open spec fn lines_of(s: Seq<char>) -> Seq<Seq<char>>
    decreases s.len(),
{
    if s.len() == 0 {
        seq![]
    } else {
        let i = first_index(s, '\n');
        if 0 <= i < s.len() {
            seq![without_cr(s.take(i))] + lines_of(s.skip(i + 1))
        } else {
            seq![s]
        }
    }
}

/// The lines of `v`.
pub fn lines(v: &[char]) -> (r: Vec<Vec<char>>)
    ensures
        views(r@) == lines_of(v@),
{
    let mut out: Vec<Vec<char>> = Vec::new();
    let mut start: usize = 0;
    assert(v@.skip(0) == v@);
    assert(views(out@) + lines_of(v@) == lines_of(v@));
    while start < v.len()
        invariant
            start <= v.len(),
            views(out@) + lines_of(v@.skip(start as int)) == lines_of(v@),
        decreases v.len() - start,
    {
        let end = find_char_from(v, '\n', start);
        let ghost t = v@.skip(start as int);
        if end < v.len() {
            let stop = if end > start && v[end - 1] == '\r' {
                end - 1
            } else {
                end
            };
            let piece = sub_vec(v, start, stop);
            proof {
                assert(t.take(end - start) == v@.subrange(start as int, end as int));
                assert(t.skip(end - start + 1) == v@.skip(end + 1));
                assert(piece@ == without_cr(t.take(end - start)));
                assert(views(out@.push(piece)) == views(out@) + seq![piece@]);
                assert(views(out@) + (seq![piece@] + lines_of(v@.skip(end + 1))) == (views(out@)
                    + seq![piece@]) + lines_of(v@.skip(end + 1)));
            }
            out.push(piece);
            start = end + 1;
        } else {
            let piece = sub_vec(v, start, end);
            proof {
                assert(t == v@.subrange(start as int, end as int));
                assert(views(out@.push(piece)) == views(out@) + seq![piece@]);
                assert(v@.skip(end as int).len() == 0);
                assert(views(out@) + seq![piece@] + lines_of(v@.skip(end as int)) == views(out@)
                    + seq![piece@]);
            }
            out.push(piece);
            start = end;
        }
    }
    assert(views(out@) + lines_of(v@.skip(start as int)) == views(out@));
    out
}

/// The pieces of `parts` in one sequence, with `sep` between neighbours.
pub open spec fn joined(parts: Seq<Seq<char>>, sep: Seq<char>) -> Seq<char>
    decreases parts.len(),
{
    if parts.len() == 0 {
        seq![]
    } else if parts.len() == 1 {
        parts[0]
    } else {
        joined(parts.drop_last(), sep) + sep + parts.last()
    }
}

/// The strings of `parts` in one, with `sep` between neighbours.
pub fn join(parts: &Vec<String>, sep: &str) -> (r: String)
    ensures
        r@ == joined(string_views(parts@), sep@),
{
    let mut out: Vec<char> = Vec::new();
    let sep_chars = to_chars(sep);
    let mut i: usize = 0;
    while i < parts.len()
        invariant
            i <= parts.len(),
            sep_chars@ == sep@,
            out@ == joined(string_views(parts@).take(i as int), sep@),
        decreases parts.len() - i,
    {
        let piece = to_chars(parts[i].as_str());
        proof {
            let all = string_views(parts@);
            assert(all.take(i + 1).drop_last() == all.take(i as int));
            assert(all.take(i + 1).last() == piece@);
        }
        if i > 0 {
            append_chars(&mut out, &sep_chars);
        }
        append_chars(&mut out, &piece);
        i = i + 1;
    }
    assert(string_views(parts@).take(parts.len() as int) == string_views(parts@));
    from_chars(&out)
}

/// The character sequences of the strings of `p`.
pub open spec fn string_views(p: Seq<String>) -> Seq<Seq<char>> {
    Seq::new(p.len(), |i: int| p[i]@)
}

/// Filtering a sequence with one more item at its end filters what came
/// before and keeps the item where it passes.
pub proof fn lemma_filter_push<T>(s: Seq<T>, x: T, pred: spec_fn(T) -> bool)
    ensures
        s.push(x).filter(pred) == if pred(x) {
            s.filter(pred).push(x)
        } else {
            s.filter(pred)
        },
{
    reveal(Seq::filter);
    assert(s.push(x).drop_last() == s);
}

/// An item that passes the filter leaves the filtered sequence non-empty.
pub proof fn lemma_filter_keeps<T>(s: Seq<T>, pred: spec_fn(T) -> bool, i: int)
    requires
        0 <= i < s.len(),
        pred(s[i]),
    ensures
        s.filter(pred).len() > 0,
        s.filter(pred).contains(s[i]),
{
    s.lemma_filter_contains(pred, i);
    let f = s.filter(pred);
    let j = choose|j: int| 0 <= j < f.len() && f[j] == s[i];
    assert(0 <= j < f.len());
}

/// `s` without the characters `c` at its beginning.
pub open spec fn without_leading(s: Seq<char>, c: char) -> Seq<char>
    decreases s.len(),
{
    if s.len() > 0 && s[0] == c {
        without_leading(s.drop_first(), c)
    } else {
        s
    }
}

/// `s` without the characters `c` at its end.
pub open spec fn without_trailing(s: Seq<char>, c: char) -> Seq<char>
    decreases s.len(),
{
    if s.len() > 0 && s.last() == c {
        without_trailing(s.drop_last(), c)
    } else {
        s
    }
}

/// `s` without the characters `c` at its beginning and at its end.
pub open spec fn trimmed_of(s: Seq<char>, c: char) -> Seq<char> {
    without_trailing(without_leading(s, c), c)
}

/// `v` without the characters `c` at its beginning and at its end.
pub fn trim_char(v: &[char], c: char) -> (r: Vec<char>)
    ensures
        r@ == trimmed_of(v@, c),
{
    let n = v.len();
    let mut lo: usize = 0;
    assert(v@.subrange(0, n as int) == v@);
    while lo < n && v[lo] == c
        invariant
            n == v.len(),
            lo <= n,
            without_leading(v@, c) == without_leading(v@.subrange(lo as int, n as int), c),
        decreases n - lo,
    {
        assert(v@.subrange(lo as int, n as int).drop_first() == v@.subrange(lo + 1, n as int));
        lo = lo + 1;
    }
    let mut hi: usize = n;
    while hi > lo && v[hi - 1] == c
        invariant
            lo <= hi <= n,
            n == v.len(),
            trimmed_of(v@, c) == without_trailing(v@.subrange(lo as int, hi as int), c),
        decreases hi - lo,
    {
        assert(v@.subrange(lo as int, hi as int).drop_last() == v@.subrange(lo as int, hi - 1));
        hi = hi - 1;
    }
    sub_vec(v, lo, hi)
}

/// The lowercase form of a text, as `str::to_lowercase` gives it: every
/// character in its Unicode lowercase.
pub uninterp spec fn lowercase(s: Seq<char>) -> Seq<char>;

/// `str::to_lowercase`: the lowercase form of `s`.
#[verifier::external_body]
pub(crate) fn to_lowercase(s: &str) -> (r: String)
    ensures
        r@ == lowercase(s@),
{
    s.to_lowercase()
}

/// `s` without the suffix `p`, as often as it ends with it.
pub open spec fn without_suffixes(s: Seq<char>, p: Seq<char>) -> Seq<char>
    decreases s.len(),
{
    if p.len() > 0 && p.is_suffix_of(s) {
        without_suffixes(s.take(s.len() - p.len()), p)
    } else {
        s
    }
}

/// `v` without the suffix `p`, as often as it ends with it.
pub fn trim_end_matches(v: &[char], p: &[char]) -> (r: Vec<char>)
    ensures
        r@ == without_suffixes(v@, p@),
{
    let mut end: usize = v.len();
    assert(v@.take(end as int) == v@);
    if p.len() == 0 {
        return sub_vec(v, 0, end);
    }
    loop
        invariant
            end <= v.len(),
            p.len() > 0,
            without_suffixes(v@, p@) == without_suffixes(v@.take(end as int), p@),
        decreases end,
    {
        let head = sub_vec(v, 0, end);
        assert(head@ == v@.take(end as int));
        if !ends_with(&head, p) {
            return head;
        }
        assert(v@.take(end as int).take(end - p.len()) == v@.take(end - p.len()));
        end = end - p.len();
    }
}

/// The index at which `p` first stands in `s`, or -1 where it stands
/// nowhere.
pub open spec fn find_first(s: Seq<char>, p: Seq<char>) -> int
    decreases s.len(),
{
    if p.len() > s.len() {
        -1
    } else if p.is_prefix_of(s) {
        0
    } else {
        let r = find_first(s.drop_first(), p);
        if r < 0 {
            -1
        } else {
            r + 1
        }
    }
}

/// `find_first` gives the first index at which the pattern stands, and -1
/// exactly where it stands nowhere.
pub proof fn lemma_find_first(s: Seq<char>, p: Seq<char>)
    ensures
        -1 <= find_first(s, p),
        find_first(s, p) >= 0 ==> occurs_at(s, p, find_first(s, p)),
        forall|j: int|
            0 <= j && (j < find_first(s, p) || find_first(s, p) < 0) ==> !occurs_at(s, p, j),
    decreases s.len(),
{
    if p.len() > s.len() {
    } else if p.is_prefix_of(s) {
        assert(s.subrange(0, p.len() as int) == p);
    } else {
        let t = s.drop_first();
        lemma_find_first(t, p);
        let r = find_first(t, p);
        if r >= 0 {
            assert(s.subrange(r + 1, r + 1 + p.len()) == t.subrange(r, r + p.len()));
        }
        assert forall|j: int| 0 <= j && (j < find_first(s, p) || find_first(s, p) < 0) implies !occurs_at(
            s,
            p,
            j,
        ) by {
            if j == 0 {
                if occurs_at(s, p, 0) {
                    assert(s.subrange(0, p.len() as int) == p);
                }
            } else {
                if j + p.len() <= s.len() {
                    assert(s.subrange(j, j + p.len()) == t.subrange(j - 1, j - 1 + p.len()));
                }
                assert(!occurs_at(t, p, j - 1));
            }
        }
    }
}

/// The first index at which `n` stands in `v`.
pub fn find_first_of(v: &[char], n: &[char]) -> (r: Option<usize>)
    ensures
        match r {
            Some(i) => i == find_first(v@, n@) && i + n.len() <= v.len(),
            None => find_first(v@, n@) == -1,
        },
{
    let r = find_sub(v, n);
    proof {
        lemma_find_first(v@, n@);
        let f = find_first(v@, n@);
        match r {
            Some(i) => {
                if f < 0 {
                    assert(!occurs_at(v@, n@, i as int));
                } else if f < i {
                    assert(!occurs_at(v@, n@, f));
                } else if i < f {
                    assert(!occurs_at(v@, n@, i as int));
                }
            },
            None => {
                if f >= 0 {
                    assert(occurs_at(v@, n@, f));
                }
            },
        }
    }
    r
}

/// `s` with `w` in the place of `p`, wherever `p` stands, from left to
/// right; a pattern without characters stands nowhere.
pub open spec fn replaced(s: Seq<char>, p: Seq<char>, w: Seq<char>) -> Seq<char>
    decreases s.len(),
{
    let i = find_first(s, p);
    if p.len() == 0 || i < 0 {
        s
    } else {
        proof {
            lemma_find_first(s, p);
        }
        s.take(i) + w + replaced(s.skip(i + p.len()), p, w)
    }
}

/// `v` with `w` in the place of `p`, wherever `p` stands.
pub fn replace_all(v: &[char], p: &[char], w: &[char]) -> (r: Vec<char>)
    ensures
        r@ == replaced(v@, p@, w@),
{
    if p.len() == 0 {
        return sub_vec(v, 0, v.len());
    }
    let mut out: Vec<char> = Vec::new();
    let mut pos: usize = 0;
    assert(v@.skip(0) == v@);
    loop
        invariant
            pos <= v.len(),
            p.len() > 0,
            replaced(v@, p@, w@) == out@ + replaced(v@.skip(pos as int), p@, w@),
        decreases v.len() - pos,
    {
        let rest = sub_vec(v, pos, v.len());
        assert(rest@ == v@.skip(pos as int));
        match find_first_of(&rest, p) {
            None => {
                append_chars(&mut out, &rest);
                return out;
            },
            Some(i) => {
                let ghost before = out@;
                append_chars(&mut out, &sub_vec(&rest, 0, i));
                append_chars(&mut out, w);
                proof {
                    assert(rest@.skip(i + p.len()) == v@.skip(pos + i + p.len()));
                    assert(before + (rest@.take(i as int) + w@ + replaced(
                        rest@.skip(i + p.len()),
                        p@,
                        w@,
                    )) == out@ + replaced(v@.skip(pos + i + p.len()), p@, w@));
                }
                pos = pos + i + p.len();
            },
        }
    }
}

/// The index of the first white space in `s`, or the length of `s` where
/// it holds none.
pub open spec fn first_space(s: Seq<char>) -> int
    decreases s.len(),
{
    if s.len() == 0 || is_white_space(s[0]) {
        0
    } else {
        1 + first_space(s.drop_first())
    }
}

/// The first word of `s`: what stands between its leading white space and
/// the next white space.
pub open spec fn first_word(s: Seq<char>) -> Seq<char> {
    trimmed_start(s).take(first_space(trimmed_start(s)))
}

/// The first word of `v`.
pub fn first_word_of(v: &[char]) -> (r: Vec<char>)
    ensures
        r@ == first_word(v@),
{
    let n = v.len();
    let mut lo: usize = 0;
    assert(v@.subrange(0, n as int) == v@);
    while lo < n && is_space(v[lo])
        invariant
            n == v.len(),
            lo <= n,
            trimmed_start(v@) == trimmed_start(v@.subrange(lo as int, n as int)),
        decreases n - lo,
    {
        assert(v@.subrange(lo as int, n as int).drop_first() == v@.subrange(lo + 1, n as int));
        lo = lo + 1;
    }
    let ghost t = v@.subrange(lo as int, n as int);
    let mut hi: usize = lo;
    assert(t.skip(0) == t);
    while hi < n && !is_space(v[hi])
        invariant
            lo <= hi <= n,
            n == v.len(),
            t == v@.subrange(lo as int, n as int),
            first_space(t) == (hi - lo) + first_space(t.skip(hi - lo)),
        decreases n - hi,
    {
        assert(t.skip(hi - lo)[0] == v@[hi as int]);
        assert(t.skip(hi - lo).drop_first() == t.skip(hi - lo + 1));
        hi = hi + 1;
    }
    proof {
        if hi < n {
            assert(t.skip(hi - lo)[0] == v@[hi as int]);
        }
        assert(t.take(hi - lo) == v@.subrange(lo as int, hi as int));
    }
    sub_vec(v, lo, hi)
}

} // verus!
