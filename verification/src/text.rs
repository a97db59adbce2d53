//! Character-sequence specifications and verified string helpers.
//!
//! Strings are reasoned about through their view, a `Seq<char>`.  The exec
//! helpers below work on `Vec<char>` and convert at the edges.
use vstd::prelude::*;

verus! {

broadcast use vstd::string::group_string_axioms;

// ---------------------------------------------------------------------------
// Specifications
// ---------------------------------------------------------------------------

/// `p` is a prefix of `s`.
pub open spec fn has_prefix(s: Seq<char>, p: Seq<char>) -> bool {
    p.len() <= s.len() && s.take(p.len() as int) == p
}

/// `p` is a suffix of `s`.
pub open spec fn has_suffix(s: Seq<char>, p: Seq<char>) -> bool {
    p.len() <= s.len() && s.skip(s.len() - p.len()) == p
}

/// `p` occurs in `s` starting at position `i`.
pub open spec fn occurs_at(s: Seq<char>, p: Seq<char>, i: int) -> bool {
    0 <= i && i + p.len() <= s.len() && s.subrange(i, i + p.len()) == p
}

/// `p` occurs somewhere in `s`.
pub open spec fn contains_seq(s: Seq<char>, p: Seq<char>) -> bool {
    exists|i: int| occurs_at(s, p, i)
}

/// Every non-overlapping occurrence of `p` in `s`, scanned from the left,
/// replaced by `r` (the behaviour of `str::replace` for a non-empty pattern).
pub open spec fn replace_all(s: Seq<char>, p: Seq<char>, r: Seq<char>) -> Seq<char>
    decreases s.len(),
{
    if p.len() == 0 || s.len() < p.len() {
        s
    } else if has_prefix(s, p) {
        r + replace_all(s.skip(p.len() as int), p, r)
    } else {
        seq![s[0]] + replace_all(s.skip(1), p, r)
    }
}

/// The first occurrence of `p` in `s` replaced by `r`
/// (the behaviour of `str::replacen(p, r, 1)` for a non-empty pattern).
pub open spec fn replace_first(s: Seq<char>, p: Seq<char>, r: Seq<char>) -> Seq<char>
    decreases s.len(),
{
    if p.len() == 0 || s.len() < p.len() {
        s
    } else if has_prefix(s, p) {
        r + s.skip(p.len() as int)
    } else {
        seq![s[0]] + replace_first(s.skip(1), p, r)
    }
}

/// The character `c` occurs in `s`.
pub open spec fn has_char(s: Seq<char>, c: char) -> bool {
    exists|i: int| 0 <= i < s.len() && s[i] == c
}

/// Concatenation of a sequence of strings.
pub open spec fn concat_all(parts: Seq<Seq<char>>) -> Seq<char>
    decreases parts.len(),
{
    if parts.len() == 0 {
        Seq::empty()
    } else {
        concat_all(parts.drop_last()) + parts.last()
    }
}

/// The parts joined with `sep` between consecutive parts.
pub open spec fn join_with(parts: Seq<Seq<char>>, sep: Seq<char>) -> Seq<char>
    decreases parts.len(),
{
    if parts.len() == 0 {
        Seq::empty()
    } else if parts.len() == 1 {
        parts[0]
    } else {
        join_with(parts.drop_last(), sep) + sep + parts.last()
    }
}

/// The pieces of `s` between occurrences of `sep`, empty pieces included
/// (the behaviour of `str::split` with a character pattern).
pub open spec fn split_char(s: Seq<char>, sep: char) -> Seq<Seq<char>>
    decreases s.len(),
{
    if s.len() == 0 {
        seq![Seq::empty()]
    } else {
        let rest = split_char(s.drop_last(), sep);
        if s.last() == sep {
            rest.push(Seq::empty())
        } else {
            rest.update(rest.len() - 1, rest.last().push(s.last()))
        }
    }
}

/// Only the non-empty pieces of `parts`, in order.
pub open spec fn non_empty(parts: Seq<Seq<char>>) -> Seq<Seq<char>>
    decreases parts.len(),
{
    if parts.len() == 0 {
        Seq::empty()
    } else if parts.last().len() > 0 {
        non_empty(parts.drop_last()).push(parts.last())
    } else {
        non_empty(parts.drop_last())
    }
}

/// The non-empty segments of a path split at `sep`.
pub open spec fn segments(s: Seq<char>, sep: char) -> Seq<Seq<char>> {
    non_empty(split_char(s, sep))
}

/// The views of a sequence of strings.
pub open spec fn views(v: Seq<String>) -> Seq<Seq<char>> {
    v.map_values(|s: String| s@)
}

/// The white-space characters of Unicode (`char::is_whitespace`).
pub open spec fn is_white_space(c: char) -> bool {
    ||| ('\u{9}' <= c && c <= '\u{d}')
    ||| c == ' '
    ||| c == '\u{85}'
    ||| c == '\u{a0}'
    ||| c == '\u{1680}'
    ||| ('\u{2000}' <= c && c <= '\u{200a}')
    ||| c == '\u{2028}'
    ||| c == '\u{2029}'
    ||| c == '\u{202f}'
    ||| c == '\u{205f}'
    ||| c == '\u{3000}'
}

/// `s` without its leading white space.
pub open spec fn trim_start(s: Seq<char>) -> Seq<char>
    decreases s.len(),
{
    if s.len() > 0 && is_white_space(s[0]) {
        trim_start(s.skip(1))
    } else {
        s
    }
}

/// `s` without its trailing white space.
pub open spec fn trim_end(s: Seq<char>) -> Seq<char>
    decreases s.len(),
{
    if s.len() > 0 && is_white_space(s.last()) {
        trim_end(s.drop_last())
    } else {
        s
    }
}

/// `s` without leading and trailing white space (`str::trim`).
pub open spec fn trim(s: Seq<char>) -> Seq<char> {
    trim_end(trim_start(s))
}

// ---------------------------------------------------------------------------
// Conversions
// ---------------------------------------------------------------------------

/// The characters of a string slice, in order.
pub fn chars_of(s: &str) -> (res: Vec<char>)
    ensures
        res@ == s@,
{
    let mut res: Vec<char> = Vec::new();
    for c in it: s.chars()
        invariant
            res@ == it.seq().take(it.index() as int),
            it.seq() == s@,
    {
        res.push(c);
    }
    res
}

/// `String::from_iter` over a slice of characters: a string with exactly
/// these characters, in order.
#[verifier::external_body]
pub fn string_from_chars(v: &[char]) -> (res: String)
    ensures
        res@ == v@,
{
    v.iter().collect()
}

/// A fresh copy of a string slice as an owned string.
pub fn owned(s: &str) -> (res: String)
    ensures
        res@ == s@,
{
    s.to_string()
}

/// A copy of a sequence of strings.
pub fn clone_strings(v: &Vec<String>) -> (res: Vec<String>)
    ensures
        views(res@) == views(v@),
{
    let mut res: Vec<String> = Vec::new();
    for i in 0..v.len()
        invariant
            res@.len() == i,
            views(res@) == views(v@).take(i as int),
    {
        let c = v[i].clone();
        assert(c@ == v@[i as int]@);
        let ghost before = res@;
        res.push(c);
        assert(res@ == before.push(c));
        assert(views(res@)[i as int] == v@[i as int]@);
        assert(views(res@) =~= views(v@).take(i + 1));
    }
    assert(views(v@).take(v.len() as int) =~= views(v@));
    res
}

/// Appends copies of the strings of `other` to `v`.
pub fn extend_strings(v: &mut Vec<String>, other: &Vec<String>)
    ensures
        views(final(v)@) == views(old(v)@) + views(other@),
{
    let ghost start = views(v@);
    for i in 0..other.len()
        invariant
            v@.len() == start.len() + i,
            views(v@) == start + views(other@).take(i as int),
    {
        let c = other[i].clone();
        assert(c@ == other@[i as int]@);
        let ghost before = v@;
        assert(views(before).len() == before.len());
        v.push(c);
        assert(v@ == before.push(c));
        assert(views(v@) =~= views(before).push(c@));
        assert(views(v@) =~= start + views(other@).take(i + 1));
    }
    assert(views(other@).take(other.len() as int) =~= views(other@));
}

// ---------------------------------------------------------------------------
// Comparisons
// ---------------------------------------------------------------------------

/// Whether `p` occurs in `s` at position `i`.
pub fn occurs_at_exec(s: &Vec<char>, p: &Vec<char>, i: usize) -> (res: bool)
    ensures
        res == occurs_at(s@, p@, i as int),
{
    if i > s.len() || p.len() > s.len() - i {
        return false;
    }
    let mut k: usize = 0;
    while k < p.len()
        invariant
            i + p.len() <= s.len(),
            k <= p.len(),
            forall|j: int| 0 <= j < k ==> s@[i + j] == p@[j],
        decreases p.len() - k,
    {
        if s[i + k] != p[k] {
            assert(s@.subrange(i as int, i + p.len())[k as int] != p@[k as int]);
            return false;
        }
        k = k + 1;
    }
    assert(s@.subrange(i as int, i + p.len()) =~= p@);
    true
}

/// Whether two strings have the same characters.
pub fn str_eq(a: &str, b: &str) -> (res: bool)
    ensures
        res == (a@ == b@),
{
    let x = chars_of(a);
    let y = chars_of(b);
    if x.len() != y.len() {
        return false;
    }
    let r = occurs_at_exec(&x, &y, 0);
    assert(x@.subrange(0, y@.len() as int) =~= x@);
    r
}

/// `str::starts_with` with a string pattern.
pub fn starts_with(s: &str, p: &str) -> (res: bool)
    ensures
        res == has_prefix(s@, p@),
{
    let x = chars_of(s);
    let y = chars_of(p);
    let r = occurs_at_exec(&x, &y, 0);
    assert(r ==> x@.take(y@.len() as int) =~= x@.subrange(0, y@.len() as int));
    assert(has_prefix(x@, y@) ==> x@.take(y@.len() as int) =~= x@.subrange(0, y@.len() as int));
    r
}

/// `str::ends_with` with a string pattern.
pub fn ends_with(s: &str, p: &str) -> (res: bool)
    ensures
        res == has_suffix(s@, p@),
{
    let x = chars_of(s);
    let y = chars_of(p);
    if y.len() > x.len() {
        return false;
    }
    let r = occurs_at_exec(&x, &y, x.len() - y.len());
    assert(x@.skip(x@.len() - y@.len()) =~= x@.subrange(x@.len() - y@.len(), x@.len() as int));
    r
}

/// `str::contains` with a string pattern.
pub fn contains_str(s: &str, p: &str) -> (res: bool)
    ensures
        res == contains_seq(s@, p@),
{
    let x = chars_of(s);
    let y = chars_of(p);
    assert(x@ == s@ && y@ == p@);
    if y.len() == 0 {
        assert(x@.subrange(0, 0) =~= y@);
        assert(occurs_at(s@, p@, 0));
        return true;
    }
    if y.len() > x.len() {
        return false;
    }
    let last = x.len() - y.len();
    let mut i: usize = 0;
    while i <= last
        invariant
            last + y@.len() == x@.len(),
            last < usize::MAX,
            x@ == s@,
            y@ == p@,
            y@.len() > 0,
            i <= last + 1,
            forall|j: int| 0 <= j < i ==> !occurs_at(x@, y@, j),
        decreases last + 1 - i,
    {
        if occurs_at_exec(&x, &y, i) {
            assert(occurs_at(s@, p@, i as int));
            return true;
        }
        i = i + 1;
    }
    assert forall|j: int| !occurs_at(x@, y@, j) by {
        if 0 <= j && j + y@.len() <= x@.len() {
            assert(j < i);
        }
    }
    false
}

/// Whether the character `c` occurs in `s`.
pub fn has_char_exec(s: &Vec<char>, c: char) -> (res: bool)
    ensures
        res == has_char(s@, c),
{
    for i in 0..s.len()
        invariant
            forall|j: int| 0 <= j < i ==> s@[j] != c,
    {
        if s[i] == c {
            return true;
        }
    }
    false
}

// ---------------------------------------------------------------------------
// Replacement
// ---------------------------------------------------------------------------

proof fn lemma_skip_prefix(s: Seq<char>, p: Seq<char>, i: int)
    requires
        0 <= i <= s.len(),
    ensures
        has_prefix(s.skip(i), p) == occurs_at(s, p, i),
{
    if i + p.len() <= s.len() {
        assert(s.skip(i).take(p.len() as int) =~= s.subrange(i, i + p.len()));
    }
}

/// A pattern that does not occur in a text leaves it unchanged.
pub proof fn lemma_replace_all_absent(s: Seq<char>, p: Seq<char>, r: Seq<char>)
    requires
        !contains_seq(s, p),
    ensures
        replace_all(s, p, r) == s,
    decreases s.len(),
{
    if p.len() == 0 {
        assert(s.subrange(0, 0) =~= p);
        assert(occurs_at(s, p, 0));
    } else if s.len() >= p.len() {
        lemma_skip_prefix(s, p, 0);
        assert(s.skip(0) =~= s);
        assert forall|i: int| !occurs_at(s.skip(1), p, i) by {
            if occurs_at(s.skip(1), p, i) {
                assert(s.skip(1).subrange(i, i + p.len()) =~= s.subrange(i + 1, i + 1 + p.len()));
                assert(occurs_at(s, p, i + 1));
            }
        }
        lemma_replace_all_absent(s.skip(1), p, r);
        assert(seq![s[0]] + s.skip(1) =~= s);
    }
}

/// A text in which the pattern's first character does not occur is kept
/// whole in front of whatever follows it.
pub proof fn lemma_replace_all_free_prefix(s: Seq<char>, t: Seq<char>, p: Seq<char>, r: Seq<char>)
    requires
        p.len() > 0,
        !has_char(s, p[0]),
    ensures
        replace_all(s + t, p, r) == s + replace_all(t, p, r),
    decreases s.len(),
{
    if s.len() == 0 {
        assert(s + t =~= t);
        assert(s + replace_all(t, p, r) =~= replace_all(t, p, r));
    } else if (s + t).len() < p.len() {
        assert(s + t =~= s + replace_all(t, p, r));
    } else {
        assert((s + t)[0] == s[0]);
        assert(!has_prefix(s + t, p)) by {
            if has_prefix(s + t, p) {
                assert((s + t).take(p.len() as int)[0] == p[0]);
            }
        }
        assert(!has_char(s.skip(1), p[0])) by {
            if has_char(s.skip(1), p[0]) {
                let i = choose|i: int| 0 <= i < s.skip(1).len() && s.skip(1)[i] == p[0];
                assert(s[i + 1] == p[0]);
            }
        }
        assert((s + t).skip(1) =~= s.skip(1) + t);
        lemma_replace_all_free_prefix(s.skip(1), t, p, r);
        assert(seq![s[0]] + (s.skip(1) + replace_all(t, p, r)) =~= s + replace_all(t, p, r));
    }
}

/// A text that starts with the pattern has that occurrence replaced.
pub proof fn lemma_replace_all_leading(p: Seq<char>, t: Seq<char>, r: Seq<char>)
    requires
        p.len() > 0,
    ensures
        replace_all(p + t, p, r) == r + replace_all(t, p, r),
{
    assert((p + t).take(p.len() as int) =~= p);
    assert((p + t).skip(p.len() as int) =~= t);
}

/// A character in neither of two texts is not in their concatenation.
pub proof fn lemma_no_char_concat(a: Seq<char>, b: Seq<char>, c: char)
    requires
        !has_char(a, c),
        !has_char(b, c),
    ensures
        !has_char(a + b, c),
{
    assert forall|i: int| 0 <= i < (a + b).len() implies (a + b)[i] != c by {
        if i < a.len() {
            assert((a + b)[i] == a[i]);
        } else {
            assert((a + b)[i] == b[i - a.len()]);
        }
    }
}

/// Dropping an extension pattern from `x + y`, where the pattern's first
/// character is not in `x`: `y` is either the pattern itself, or empty, or
/// a text that does not start with the pattern and has its first
/// character only in front.
pub proof fn lemma_drop_pattern(x: Seq<char>, y: Seq<char>, pat: Seq<char>)
    requires
        pat.len() > 0,
        !has_char(x, pat[0]),
        y.len() == 0 || y == pat || (!has_prefix(y, pat) && !has_char(y.skip(1), pat[0])),
    ensures
        replace_all(x + y, pat, Seq::empty()) == x + (if y == pat {
            Seq::empty()
        } else {
            y
        }),
{
    lemma_replace_all_free_prefix(x, y, pat, Seq::empty());
    if y == pat {
        lemma_replace_all_leading(pat, Seq::empty(), Seq::empty());
        assert(pat + Seq::<char>::empty() =~= pat);
        assert(Seq::<char>::empty() + Seq::<char>::empty() =~= Seq::<char>::empty());
    } else if y.len() > 0 && y.len() >= pat.len() {
        lemma_replace_all_free_prefix(y.skip(1), Seq::empty(), pat, Seq::empty());
        assert(y.skip(1) + Seq::<char>::empty() =~= y.skip(1));
        assert(seq![y[0]] + y.skip(1) =~= y);
    }
}

/// `replace_all` over character vectors.
pub fn replace_chars(s: &Vec<char>, p: &Vec<char>, r: &Vec<char>) -> (res: Vec<char>)
    requires
        p@.len() > 0,
    ensures
        res@ == replace_all(s@, p@, r@),
{
    let mut out: Vec<char> = Vec::new();
    let mut i: usize = 0;
    assert(s@.skip(0) =~= s@);
    while i < s.len()
        invariant
            i <= s.len(),
            p@.len() > 0,
            replace_all(s@, p@, r@) == out@ + replace_all(s@.skip(i as int), p@, r@),
        decreases s.len() - i,
    {
        let ghost rest = s@.skip(i as int);
        proof {
            lemma_skip_prefix(s@, p@, i as int);
        }
        if occurs_at_exec(s, p, i) {
            let ghost before = out@;
            for k in 0..r.len()
                invariant
                    out@ == before + r@.take(k as int),
            {
                out.push(r[k]);
                assert(out@ =~= before + r@.take(k + 1));
            }
            assert(r@.take(r.len() as int) =~= r@);
            assert(rest.skip(p@.len() as int) =~= s@.skip(i + p@.len()));
            assert(out@ + replace_all(s@.skip(i + p@.len()), p@, r@) =~= before + (r@
                + replace_all(rest.skip(p@.len() as int), p@, r@)));
            i = i + p.len();
        } else {
            let ghost before = out@;
            out.push(s[i]);
            assert(rest.skip(1) =~= s@.skip(i + 1));
            assert(rest[0] == s@[i as int]);
            assert(out@ + replace_all(s@.skip(i + 1), p@, r@) =~= before + (seq![rest[0]]
                + replace_all(rest.skip(1), p@, r@)));
            i = i + 1;
        }
    }
    assert(s@.skip(i as int) =~= Seq::<char>::empty());
    assert(out@ + Seq::<char>::empty() =~= out@);
    out
}

/// `replace_first` over character vectors.
pub fn replace_first_chars(s: &Vec<char>, p: &Vec<char>, r: &Vec<char>) -> (res: Vec<char>)
    requires
        p@.len() > 0,
    ensures
        res@ == replace_first(s@, p@, r@),
{
    let mut out: Vec<char> = Vec::new();
    let mut i: usize = 0;
    assert(s@.skip(0) =~= s@);
    while i < s.len()
        invariant
            i <= s.len(),
            p@.len() > 0,
            replace_first(s@, p@, r@) == out@ + replace_first(s@.skip(i as int), p@, r@),
        decreases s.len() - i,
    {
        let ghost rest = s@.skip(i as int);
        proof {
            lemma_skip_prefix(s@, p@, i as int);
        }
        if occurs_at_exec(s, p, i) {
            let ghost before = out@;
            for k in 0..r.len()
                invariant
                    out@ == before + r@.take(k as int),
            {
                out.push(r[k]);
                assert(out@ =~= before + r@.take(k + 1));
            }
            assert(r@.take(r.len() as int) =~= r@);
            let mut j: usize = i + p.len();
            let ghost mid = out@;
            while j < s.len()
                invariant
                    i + p@.len() <= j <= s.len(),
                    out@ == mid + s@.subrange(i + p@.len(), j as int),
                decreases s.len() - j,
            {
                out.push(s[j]);
                assert(out@ =~= mid + s@.subrange(i + p@.len(), j + 1));
                j = j + 1;
            }
            assert(rest.skip(p@.len() as int) =~= s@.subrange(i + p@.len(), s@.len() as int));
            assert(out@ =~= before + (r@ + rest.skip(p@.len() as int)));
            return out;
        } else {
            let ghost before = out@;
            out.push(s[i]);
            assert(rest.skip(1) =~= s@.skip(i + 1));
            assert(rest[0] == s@[i as int]);
            assert(out@ + replace_first(s@.skip(i + 1), p@, r@) =~= before + (seq![rest[0]]
                + replace_first(rest.skip(1), p@, r@)));
            i = i + 1;
        }
    }
    assert(s@.skip(i as int) =~= Seq::<char>::empty());
    assert(out@ + Seq::<char>::empty() =~= out@);
    out
}

/// `str::replace(from, to)` for a non-empty pattern.
pub fn replace_str(s: &str, from: &str, to: &str) -> (res: String)
    requires
        from@.len() > 0,
    ensures
        res@ == replace_all(s@, from@, to@),
{
    let x = chars_of(s);
    let p = chars_of(from);
    let r = chars_of(to);
    let out = replace_chars(&x, &p, &r);
    string_from_chars(out.as_slice())
}

/// `str::replacen(from, to, 1)` for a non-empty pattern.
pub fn replace_first_str(s: &str, from: &str, to: &str) -> (res: String)
    requires
        from@.len() > 0,
    ensures
        res@ == replace_first(s@, from@, to@),
{
    let x = chars_of(s);
    let p = chars_of(from);
    let r = chars_of(to);
    let out = replace_first_chars(&x, &p, &r);
    string_from_chars(out.as_slice())
}

proof fn lemma_split_char_len(s: Seq<char>, sep: char)
    ensures
        split_char(s, sep).len() > 0,
    decreases s.len(),
{
    if s.len() > 0 {
        lemma_split_char_len(s.drop_last(), sep);
    }
}

/// The non-empty segments of `s` between occurrences of `sep`
/// (`s.split(sep).filter(|p| !p.is_empty())`).
pub fn split_segments(s: &str, sep: char) -> (res: Vec<String>)
    ensures
        views(res@) == segments(s@, sep),
{
    let x = chars_of(s);
    let mut parts: Vec<String> = Vec::new();
    let mut cur: Vec<char> = Vec::new();
    assert(x@.take(0) =~= Seq::<char>::empty());
    for i in 0..x.len()
        invariant
            x@ == s@,
            split_char(x@.take(i as int), sep).len() > 0,
            views(parts@) == non_empty(split_char(x@.take(i as int), sep).drop_last()),
            cur@ == split_char(x@.take(i as int), sep).last(),
    {
        let ghost sp = split_char(x@.take(i as int), sep);
        assert(x@.take(i + 1).drop_last() =~= x@.take(i as int));
        assert(x@.take(i + 1).last() == x@[i as int]);
        if x[i] == sep {
            if cur.len() > 0 {
                let piece = string_from_chars(cur.as_slice());
                let ghost before = parts@;
                parts.push(piece);
                assert(views(parts@) =~= views(before).push(piece@));
            }
            assert(sp.push(Seq::empty()).drop_last() =~= sp);
            assert(sp =~= sp.drop_last().push(sp.last()));
            cur = Vec::new();
            assert(cur@ =~= Seq::<char>::empty());
        } else {
            let ghost sp2 = sp.update(sp.len() - 1, sp.last().push(x@[i as int]));
            assert(sp2.drop_last() =~= sp.drop_last());
            cur.push(x[i]);
        }
    }
    let ghost sp = split_char(x@.take(x@.len() as int), sep);
    assert(x@.take(x@.len() as int) =~= x@);
    assert(sp =~= sp.drop_last().push(sp.last()));
    if cur.len() > 0 {
        let piece = string_from_chars(cur.as_slice());
        let ghost before = parts@;
        parts.push(piece);
        assert(views(parts@) =~= views(before).push(piece@));
    }
    parts
}

/// The first `n` strings of `parts` joined with `sep`.
pub fn join_strings(parts: &Vec<String>, n: usize, sep: &str) -> (res: String)
    requires
        n <= parts@.len(),
    ensures
        res@ == join_with(views(parts@).take(n as int), sep@),
{
    let mut res = String::new();
    assert(views(parts@).take(0) =~= Seq::<Seq<char>>::empty());
    for i in 0..n
        invariant
            n <= parts@.len(),
            res@ == join_with(views(parts@).take(i as int), sep@),
    {
        let ghost t = views(parts@).take(i + 1);
        assert(t.drop_last() =~= views(parts@).take(i as int));
        assert(t.last() == parts@[i as int]@);
        if i == 0 {
            assert(t.len() == 1);
            res.append(parts[i].as_str());
            assert(res@ =~= t[0]);
        } else {
            res.append(sep);
            res.append(parts[i].as_str());
        }
    }
    res
}

/// `a` followed by `b`.
pub fn concat_str(a: &str, b: &str) -> (res: String)
    ensures
        res@ == a@ + b@,
{
    let mut s = owned(a);
    s.append(b);
    s
}


// ---------------------------------------------------------------------------
// Lines, splitting once, trimming
// ---------------------------------------------------------------------------

/// A line without the carriage return that ended it.
pub open spec fn strip_cr(line: Seq<char>) -> Seq<char> {
    if line.len() > 0 && line.last() == '\r' {
        line.drop_last()
    } else {
        line
    }
}

/// The lines of `s` (`str::lines`): pieces ended by a line feed lose it and
/// a carriage return before it; a final piece without a line feed is kept
/// as it is; there is no final empty line.
pub open spec fn lines(s: Seq<char>) -> Seq<Seq<char>> {
    let parts = split_char(s, '\n');
    if parts.last().len() == 0 {
        parts.drop_last().map_values(|l: Seq<char>| strip_cr(l))
    } else {
        parts.drop_last().map_values(|l: Seq<char>| strip_cr(l)).push(parts.last())
    }
}

/// The position of the first `c` in `s`, or `s.len()` when there is none.
pub open spec fn first_index(s: Seq<char>, c: char) -> int
    decreases s.len(),
{
    if s.len() == 0 {
        0
    } else if s[0] == c {
        0
    } else {
        1 + first_index(s.skip(1), c)
    }
}

/// The parts of `s` before and after its first `c` (`str::split_once`).
pub open spec fn split_once_char(s: Seq<char>, c: char) -> Option<(Seq<char>, Seq<char>)> {
    if has_char(s, c) {
        let i = first_index(s, c);
        Some((s.take(i), s.skip(i + 1)))
    } else {
        None
    }
}

proof fn lemma_first_index(s: Seq<char>, c: char, i: int)
    requires
        0 <= i <= s.len(),
        forall|j: int| 0 <= j < i ==> s[j] != c,
        i < s.len() ==> s[i] == c,
    ensures
        first_index(s, c) == i,
    decreases i,
{
    if i > 0 {
        assert(s[0] != c);
        lemma_first_index(s.skip(1), c, i - 1);
    }
}

/// A text split at the first `c` after a part without `c`.
pub proof fn lemma_split_once_at(k: Seq<char>, rest: Seq<char>, c: char)
    requires
        !has_char(k, c),
    ensures
        split_once_char(k + seq![c] + rest, c) == Some((k, rest)),
{
    let s = k + seq![c] + rest;
    assert(s[k.len() as int] == c);
    assert forall|j: int| 0 <= j < k.len() implies s[j] != c by {
        assert(s[j] == k[j]);
    }
    lemma_first_index(s, c, k.len() as int);
    assert(s.take(k.len() as int) =~= k);
    assert(s.skip(k.len() as int + 1) =~= rest);
}

/// The lines of `s`, as `lines` gives them.
pub fn lines_of(s: &str) -> (res: Vec<String>)
    ensures
        views(res@) == lines(s@),
{
    let x = chars_of(s);
    let mut out: Vec<String> = Vec::new();
    let mut cur: Vec<char> = Vec::new();
    assert(x@.take(0) =~= Seq::<char>::empty());
    for i in 0..x.len()
        invariant
            x@ == s@,
            split_char(x@.take(i as int), '\n').len() > 0,
            views(out@) == split_char(x@.take(i as int), '\n').drop_last().map_values(
                |l: Seq<char>| strip_cr(l),
            ),
            cur@ == split_char(x@.take(i as int), '\n').last(),
    {
        let ghost sp = split_char(x@.take(i as int), '\n');
        assert(x@.take(i + 1).drop_last() =~= x@.take(i as int));
        assert(x@.take(i + 1).last() == x@[i as int]);
        if x[i] == '\n' {
            let mut line = cur;
            if line.len() > 0 && line[line.len() - 1] == '\r' {
                line.pop();
            }
            assert(line@ == strip_cr(sp.last()));
            let piece = string_from_chars(line.as_slice());
            let ghost before = out@;
            out.push(piece);
            assert(views(out@) =~= views(before).push(piece@));
            assert(sp.push(Seq::empty()).drop_last() =~= sp);
            assert(sp =~= sp.drop_last().push(sp.last()));
            assert(sp.map_values(|l: Seq<char>| strip_cr(l)) =~= sp.drop_last().map_values(
                |l: Seq<char>| strip_cr(l),
            ).push(strip_cr(sp.last())));
            cur = Vec::new();
            assert(cur@ =~= Seq::<char>::empty());
        } else {
            let ghost sp2 = sp.update(sp.len() - 1, sp.last().push(x@[i as int]));
            assert(sp2.drop_last() =~= sp.drop_last());
            cur.push(x[i]);
        }
    }
    assert(x@.take(x@.len() as int) =~= x@);
    if cur.len() > 0 {
        let piece = string_from_chars(cur.as_slice());
        let ghost before = out@;
        out.push(piece);
        assert(views(out@) =~= views(before).push(piece@));
    }
    out
}

/// The parts of `s` before and after its first `c`, if it holds one.
pub fn split_once(s: &str, c: char) -> (res: Option<(String, String)>)
    ensures
        match split_once_char(s@, c) {
            Some((a, b)) => res matches Some((x, y)) && x@ == a && y@ == b,
            None => res is None,
        },
{
    let x = chars_of(s);
    let mut i: usize = 0;
    while i < x.len()
        invariant
            x@ == s@,
            i <= x.len(),
            forall|j: int| 0 <= j < i ==> x@[j] != c,
        decreases x.len() - i,
    {
        if x[i] == c {
            proof {
                lemma_first_index(x@, c, i as int);
            }
            let mut a: Vec<char> = Vec::new();
            for k in 0..i
                invariant
                    i < x@.len(),
                    a@ == x@.take(k as int),
            {
                a.push(x[k]);
                assert(a@ =~= x@.take(k + 1));
            }
            let mut b: Vec<char> = Vec::new();
            let mut k: usize = i + 1;
            while k < x.len()
                invariant
                    i + 1 <= k <= x@.len(),
                    b@ == x@.subrange(i + 1, k as int),
                decreases x.len() - k,
            {
                b.push(x[k]);
                assert(b@ =~= x@.subrange(i + 1, k + 1));
                k = k + 1;
            }
            assert(b@ =~= x@.skip(i + 1));
            return Some((string_from_chars(a.as_slice()), string_from_chars(b.as_slice())));
        }
        i = i + 1;
    }
    None
}

/// Whether `c` is white space (`char::is_whitespace`).
pub fn is_white_space_exec(c: char) -> (res: bool)
    ensures
        res == is_white_space(c),
{
    ('\u{9}' <= c && c <= '\u{d}') || c == ' ' || c == '\u{85}' || c == '\u{a0}' || c
        == '\u{1680}' || ('\u{2000}' <= c && c <= '\u{200a}') || c == '\u{2028}' || c
        == '\u{2029}' || c == '\u{202f}' || c == '\u{205f}' || c == '\u{3000}'
}

proof fn lemma_trim_start(s: Seq<char>, a: int)
    requires
        0 <= a <= s.len(),
        forall|j: int| 0 <= j < a ==> is_white_space(s[j]),
        a < s.len() ==> !is_white_space(s[a]),
    ensures
        trim_start(s) == s.skip(a),
    decreases a,
{
    if a == 0 {
        assert(s.skip(0) =~= s);
    } else {
        lemma_trim_start(s.skip(1), a - 1);
        assert(s.skip(1).skip(a - 1) =~= s.skip(a));
    }
}

proof fn lemma_trim_end(s: Seq<char>, b: int)
    requires
        0 <= b <= s.len(),
        forall|j: int| b <= j < s.len() ==> is_white_space(s[j]),
        b > 0 ==> !is_white_space(s[b - 1]),
    ensures
        trim_end(s) == s.take(b),
    decreases s.len() - b,
{
    if b == s.len() {
        assert(s.take(b) =~= s);
    } else {
        lemma_trim_end(s.drop_last(), b);
        assert(s.drop_last().take(b) =~= s.take(b));
    }
}

/// `s` without leading and trailing white space (`str::trim`).
pub fn trim_str(s: &str) -> (res: String)
    ensures
        res@ == trim(s@),
{
    let x = chars_of(s);
    let mut a: usize = 0;
    while a < x.len() && is_white_space_exec(x[a])
        invariant
            a <= x@.len(),
            forall|j: int| 0 <= j < a ==> is_white_space(x@[j]),
        decreases x.len() - a,
    {
        a = a + 1;
    }
    proof {
        lemma_trim_start(x@, a as int);
    }
    let ghost t = x@.skip(a as int);
    let mut b: usize = x.len();
    while b > a && is_white_space_exec(x[b - 1])
        invariant
            a <= b <= x@.len(),
            t == x@.skip(a as int),
            forall|j: int| b <= j < x@.len() ==> is_white_space(x@[j]),
        decreases b - a,
    {
        b = b - 1;
    }
    proof {
        assert forall|j: int| (b - a) <= j < t.len() implies is_white_space(t[j]) by {
            assert(t[j] == x@[a + j]);
        }
        if b > a {
            assert(t[b - a - 1] == x@[b - 1]);
        }
        lemma_trim_end(t, b - a);
    }
    let mut out: Vec<char> = Vec::new();
    let mut k: usize = a;
    while k < b
        invariant
            a <= k <= b,
            b <= x@.len(),
            out@ == x@.subrange(a as int, k as int),
        decreases b - k,
    {
        out.push(x[k]);
        assert(out@ =~= x@.subrange(a as int, k + 1));
        k = k + 1;
    }
    assert(t.take(b - a) =~= x@.subrange(a as int, b as int));
    string_from_chars(out.as_slice())
}

} // verus!
