//! Splitting and trimming of sequences, as the parsers of this crate need it.

use vstd::prelude::*;

verus! {

/// The pieces of `s` between the occurrences of `sep`, in order. A sequence
/// with `n` occurrences has `n + 1` pieces; a piece is empty where two
/// occurrences are adjacent or one stands at either end.
pub open spec fn split<T>(s: Seq<T>, sep: T) -> Seq<Seq<T>>
    decreases s.len(),
{
    if s.len() == 0 {
        seq![Seq::empty()]
    } else {
        let before = split(s.drop_last(), sep);
        if s.last() == sep {
            before.push(Seq::empty())
        } else {
            before.update(before.len() - 1, before.last().push(s.last()))
        }
    }
}

/// The pieces put together again, with `sep` between neighbours.
pub open spec fn join<T>(parts: Seq<Seq<T>>, sep: T) -> Seq<T>
    decreases parts.len(),
{
    if parts.len() == 0 {
        Seq::empty()
    } else if parts.len() == 1 {
        parts[0]
    } else {
        join(parts.drop_last(), sep).push(sep) + parts.last()
    }
}

/// The `n`-th element, where there is one.
pub open spec fn nth<T>(parts: Seq<T>, n: nat) -> Option<T> {
    if n < parts.len() {
        Some(parts[n as int])
    } else {
        None
    }
}

/// Splitting always yields at least one piece.
pub proof fn lemma_split_nonempty<T>(s: Seq<T>, sep: T)
    ensures
        split(s, sep).len() >= 1,
    decreases s.len(),
{
    if s.len() > 0 {
        lemma_split_nonempty(s.drop_last(), sep);
    }
}

/// Splitting loses nothing and leaves no separator inside a piece: the
/// pieces joined by the separator are the sequence that was split.
pub proof fn lemma_split_join<T>(s: Seq<T>, sep: T)
    ensures
        join(split(s, sep), sep) == s,
        forall|j: int, k: int|
            0 <= j < split(s, sep).len() && 0 <= k < split(s, sep)[j].len() ==> split(
                s,
                sep,
            )[j][k] != sep,
    decreases s.len(),
{
    lemma_split_nonempty(s, sep);
    if s.len() == 0 {
        assert(join(split(s, sep), sep) =~= s);
    } else {
        let before = split(s.drop_last(), sep);
        lemma_split_nonempty(s.drop_last(), sep);
        lemma_split_join(s.drop_last(), sep);
        let parts = split(s, sep);
        if s.last() == sep {
            assert(parts.drop_last() =~= before);
            assert(join(parts, sep) =~= s.drop_last().push(sep) + Seq::<T>::empty());
            assert(s.drop_last().push(sep) + Seq::<T>::empty() =~= s);
        } else {
            if before.len() == 1 {
                assert(before[0] == s.drop_last());
                assert(parts[0] =~= s);
            } else {
                assert(parts.drop_last() =~= before.drop_last());
                assert(join(before, sep) == join(before.drop_last(), sep).push(sep)
                    + before.last());
                assert(join(parts, sep) =~= (join(before.drop_last(), sep).push(sep)
                    + before.last()).push(s.last()));
                assert(s =~= s.drop_last().push(s.last()));
            }
        }
    }
}

/// Reading further never changes a piece that a separator has closed: every
/// piece of a prefix but its last is a piece of the whole, at the same place.
pub proof fn lemma_split_prefix<T>(s: Seq<T>, sep: T, k: int)
    requires
        0 <= k <= s.len(),
    ensures
        1 <= split(s.take(k), sep).len() <= split(s, sep).len(),
        forall|j: int|
            0 <= j < split(s.take(k), sep).len() - 1 ==> split(s, sep)[j] == split(
                s.take(k),
                sep,
            )[j],
    decreases s.len() - k,
{
    lemma_split_nonempty(s.take(k), sep);
    if k == s.len() {
        assert(s.take(k) =~= s);
    } else {
        lemma_split_prefix(s, sep, k + 1);
        assert(s.take(k + 1).drop_last() =~= s.take(k));
    }
}

/// A sequence that holds no separator is its own single piece.
pub proof fn lemma_split_plain<T>(s: Seq<T>, sep: T)
    requires
        forall|i: int| 0 <= i < s.len() ==> s[i] != sep,
    ensures
        split(s, sep) == seq![s],
    decreases s.len(),
{
    if s.len() == 0 {
        assert(split(s, sep) =~~= seq![s]);
    } else {
        lemma_split_plain(s.drop_last(), sep);
        assert(s.drop_last().push(s.last()) =~= s);
        assert(split(s, sep) =~~= seq![s]);
    }
}

/// Splitting goes piece by piece: what stands before a separator and what
/// stands behind it are split on their own.
pub proof fn lemma_split_at_separator<T>(a: Seq<T>, b: Seq<T>, sep: T)
    ensures
        split(a.push(sep) + b, sep) == split(a, sep) + split(b, sep),
    decreases b.len(),
{
    let s = a.push(sep) + b;
    if b.len() == 0 {
        assert(s.drop_last() =~= a);
        assert(split(s, sep) =~~= split(a, sep) + split(b, sep));
    } else {
        lemma_split_at_separator(a, b.drop_last(), sep);
        lemma_split_nonempty(b.drop_last(), sep);
        assert(s.drop_last() =~= a.push(sep) + b.drop_last());
        assert(s.last() == b.last());
        assert(split(s, sep) =~~= split(a, sep) + split(b, sep));
    }
}

/// Splitting is the only way to cut a sequence at its separators: pieces
/// that hold no separator and that give the sequence when joined are the
/// pieces that splitting yields.
pub proof fn lemma_split_unique<T>(parts: Seq<Seq<T>>, sep: T)
    requires
        parts.len() >= 1,
        forall|j: int, k: int|
            0 <= j < parts.len() && 0 <= k < parts[j].len() ==> parts[j][k] != sep,
    ensures
        split(join(parts, sep), sep) == parts,
    decreases parts.len(),
{
    if parts.len() == 1 {
        lemma_split_plain(parts[0], sep);
        assert(seq![parts[0]] =~= parts);
    } else {
        let front = parts.drop_last();
        assert forall|j: int, k: int|
            0 <= j < front.len() && 0 <= k < front[j].len() implies front[j][k] != sep by {
            assert(front[j] == parts[j]);
        }
        lemma_split_unique(front, sep);
        lemma_split_at_separator(join(front, sep), parts.last(), sep);
        lemma_split_plain(parts.last(), sep);
        assert(front + seq![parts.last()] =~= parts);
    }
}

/// Unicode white space: the characters that trimming removes.
pub open spec fn spec_is_whitespace(c: char) -> bool {
    let n = c as u32;
    ||| 0x09 <= n <= 0x0d
    ||| n == 0x20
    ||| n == 0x85
    ||| n == 0xa0
    ||| n == 0x1680
    ||| 0x2000 <= n <= 0x200a
    ||| n == 0x2028
    ||| n == 0x2029
    ||| n == 0x202f
    ||| n == 0x205f
    ||| n == 0x3000
}

/// `s` without the white space at its start.
pub open spec fn trim_start(s: Seq<char>) -> Seq<char>
    decreases s.len(),
{
    if s.len() > 0 && spec_is_whitespace(s[0]) {
        trim_start(s.drop_first())
    } else {
        s
    }
}

/// `s` without the white space at its end.
pub open spec fn trim_end(s: Seq<char>) -> Seq<char>
    decreases s.len(),
{
    if s.len() > 0 && spec_is_whitespace(s.last()) {
        trim_end(s.drop_last())
    } else {
        s
    }
}

/// `s` without the white space at either end.
pub open spec fn trim(s: Seq<char>) -> Seq<char> {
    trim_end(trim_start(s))
}

/// Where white space ends at the start of `s`: the stretch up to `a` is white
/// space and the character at `a`, if there is one, is not.
pub proof fn lemma_trim_start_at(s: Seq<char>, a: int)
    requires
        0 <= a <= s.len(),
        forall|i: int| 0 <= i < a ==> spec_is_whitespace(s[i]),
        a < s.len() ==> !spec_is_whitespace(s[a]),
    ensures
        trim_start(s) == s.skip(a),
    decreases a,
{
    if a == 0 {
        assert(s.skip(0) =~= s);
    } else {
        let rest = s.drop_first();
        assert forall|i: int| 0 <= i < a - 1 implies spec_is_whitespace(rest[i]) by {
            assert(rest[i] == s[i + 1]);
        }
        lemma_trim_start_at(rest, a - 1);
        assert(rest.skip(a - 1) =~= s.skip(a));
    }
}

/// Where white space begins at the end of `s`: the stretch from `b` on is
/// white space and the character before `b`, if there is one, is not.
pub proof fn lemma_trim_end_at(s: Seq<char>, b: int)
    requires
        0 <= b <= s.len(),
        forall|i: int| b <= i < s.len() ==> spec_is_whitespace(s[i]),
        0 < b ==> !spec_is_whitespace(s[b - 1]),
    ensures
        trim_end(s) == s.take(b),
    decreases s.len() - b,
{
    if b == s.len() {
        assert(s.take(b) =~= s);
    } else {
        let rest = s.drop_last();
        lemma_trim_end_at(rest, b);
        assert(rest.take(b) =~= s.take(b));
    }
}

/// Trimming cuts white space off both ends and nothing else: what is left
/// is the stretch of `s` between two places, all that stands outside the
/// stretch is white space, and the stretch neither starts nor ends with
/// white space. The places are handed back.
pub proof fn lemma_trim_shape(s: Seq<char>) -> (bounds: (int, int))
    ensures
        0 <= bounds.0 <= bounds.1 <= s.len(),
        trim(s) == s.subrange(bounds.0, bounds.1),
        forall|i: int| 0 <= i < bounds.0 ==> spec_is_whitespace(s[i]),
        forall|i: int| bounds.1 <= i < s.len() ==> spec_is_whitespace(s[i]),
        bounds.0 < bounds.1 ==> !spec_is_whitespace(s[bounds.0]) && !spec_is_whitespace(
            s[bounds.1 - 1],
        ),
{
    let a = lemma_trim_start_shape(s);
    let t = s.skip(a);
    let b = lemma_trim_end_shape(t);
    assert(t.take(b) =~= s.subrange(a, a + b));
    assert forall|i: int| a + b <= i < s.len() implies spec_is_whitespace(s[i]) by {
        assert(t[i - a] == s[i]);
    }
    if b > 0 {
        assert(t[b - 1] == s[a + b - 1]);
    }
    (a, a + b)
}

/// Where trimming at the start ends: the place up to which `s` is white space.
pub proof fn lemma_trim_start_shape(s: Seq<char>) -> (a: int)
    ensures
        0 <= a <= s.len(),
        trim_start(s) == s.skip(a),
        forall|i: int| 0 <= i < a ==> spec_is_whitespace(s[i]),
        a < s.len() ==> !spec_is_whitespace(s[a]),
    decreases s.len(),
{
    if s.len() > 0 && spec_is_whitespace(s[0]) {
        let rest = s.drop_first();
        let inner = lemma_trim_start_shape(rest);
        assert(rest.skip(inner) =~= s.skip(inner + 1));
        assert forall|i: int| 0 <= i < inner + 1 implies spec_is_whitespace(s[i]) by {
            if i > 0 {
                assert(rest[i - 1] == s[i]);
            }
        }
        if inner + 1 < s.len() {
            assert(rest[inner] == s[inner + 1]);
        }
        inner + 1
    } else {
        assert(s.skip(0) =~= s);
        0
    }
}

/// Where trimming at the end begins: the place from which on `s` is white space.
pub proof fn lemma_trim_end_shape(s: Seq<char>) -> (b: int)
    ensures
        0 <= b <= s.len(),
        trim_end(s) == s.take(b),
        forall|i: int| b <= i < s.len() ==> spec_is_whitespace(s[i]),
        b > 0 ==> !spec_is_whitespace(s[b - 1]),
    decreases s.len(),
{
    if s.len() > 0 && spec_is_whitespace(s.last()) {
        let rest = s.drop_last();
        let inner = lemma_trim_end_shape(rest);
        assert(rest.take(inner) =~= s.take(inner));
        inner
    } else {
        assert(s.take(s.len() as int) =~= s);
        s.len() as int
    }
}

/// Whether `c` is Unicode white space.
pub fn is_whitespace(c: char) -> (r: bool)
    ensures
        r == spec_is_whitespace(c),
{
    let n: u32 = c as u32;
    (0x09 <= n && n <= 0x0d) || n == 0x20 || n == 0x85 || n == 0xa0 || n == 0x1680 || (0x2000
        <= n && n <= 0x200a) || n == 0x2028 || n == 0x2029 || n == 0x202f || n == 0x205f || n
        == 0x3000
}

/// The characters of `text`, in order.
pub fn chars_of(text: &str) -> (r: Vec<char>)
    ensures
        r@ == text@,
{
    let mut out: Vec<char> = Vec::new();
    for c in it: text.chars()
        invariant
            out@ == it.seq().take(it.index() as int),
            it.seq() == text@,
    {
        out.push(c);
    }
    out
}

/// The bounds of the stretch from `lo` to `hi` without the white space at
/// either end: the place of the first character of the stretch that is no
/// white space and the place behind the last one, or twice `hi` where
/// there is none.
pub fn trim_stretch(cs: &Vec<char>, lo: usize, hi: usize) -> (r: (usize, usize))
    requires
        lo <= hi <= cs.len(),
    ensures
        lo <= r.0 <= r.1 <= hi,
        cs@.subrange(r.0 as int, r.1 as int) == trim(cs@.subrange(lo as int, hi as int)),
        forall|i: int| lo <= i < r.0 ==> spec_is_whitespace(cs@[i]),
        forall|i: int| r.1 <= i < hi ==> spec_is_whitespace(cs@[i]),
        r.0 < hi ==> !spec_is_whitespace(cs@[r.0 as int]),
        r.0 < r.1 ==> !spec_is_whitespace(cs@[r.1 - 1]),
{
    let mut a: usize = lo;
    while a < hi && is_whitespace(cs[a])
        invariant
            lo <= a <= hi <= cs.len(),
            forall|i: int| lo <= i < a ==> spec_is_whitespace(cs@[i]),
        decreases hi - a,
    {
        a += 1;
    }
    let mut b: usize = hi;
    while b > a && is_whitespace(cs[b - 1])
        invariant
            a <= b <= hi <= cs.len(),
            forall|i: int| b <= i < hi ==> spec_is_whitespace(cs@[i]),
        decreases b,
    {
        b -= 1;
    }
    proof {
        let s = cs@.subrange(lo as int, hi as int);
        assert forall|i: int| 0 <= i < a - lo implies spec_is_whitespace(s[i]) by {
            assert(s[i] == cs@[lo + i]);
        }
        if a < hi {
            assert(s[a - lo] == cs@[a as int]);
        }
        lemma_trim_start_at(s, a - lo);
        let t = s.skip(a - lo);
        assert forall|i: int| b - a <= i < t.len() implies spec_is_whitespace(t[i]) by {
            assert(t[i] == cs@[a + i]);
        }
        if b > a {
            assert(t[b - a - 1] == cs@[b - 1]);
        }
        lemma_trim_end_at(t, b - a);
        assert(t.take(b - a) =~= cs@.subrange(a as int, b as int));
    }
    (a, b)
}

/// The bounds of `cs` without the white space at either end: the place of
/// the first character that is no white space and the place behind the
/// last one, or twice the length where there is none.
pub fn trim_bounds(cs: &Vec<char>) -> (r: (usize, usize))
    ensures
        r.0 <= r.1 <= cs.len(),
        cs@.subrange(r.0 as int, r.1 as int) == trim(cs@),
        forall|i: int| 0 <= i < r.0 ==> spec_is_whitespace(cs@[i]),
        forall|i: int| r.1 <= i < cs.len() ==> spec_is_whitespace(cs@[i]),
        r.0 < cs.len() ==> !spec_is_whitespace(cs@[r.0 as int]),
        r.0 < r.1 ==> !spec_is_whitespace(cs@[r.1 - 1]),
{
    assert(cs@.subrange(0, cs@.len() as int) =~= cs@);
    trim_stretch(cs, 0, cs.len())
}

/// The bounds of the `n`-th piece of the stretch from `lo` to `hi`, split at
/// `sep`; `None` where the stretch has no more than `n` pieces. The piece
/// ends where the stretch ends or at the separator that closes it, and
/// with it the stretch has had `n + 1` pieces.
pub fn piece_bounds(cs: &Vec<char>, lo: usize, hi: usize, sep: char, n: usize) -> (r: Option<
    (usize, usize),
>)
    requires
        lo <= hi <= cs.len(),
    ensures
        match r {
            Some((a, b)) => {
                &&& lo <= a <= b <= hi
                &&& n < split(cs@.subrange(lo as int, hi as int), sep).len()
                &&& (b < hi) == (n + 1 < split(cs@.subrange(lo as int, hi as int), sep).len())
                &&& b < hi ==> cs@[b as int] == sep
                &&& split(cs@.subrange(lo as int, b as int), sep).len() == n + 1
                &&& cs@.subrange(a as int, b as int) == split(
                    cs@.subrange(lo as int, hi as int),
                    sep,
                )[n as int]
            },
            None => n >= split(cs@.subrange(lo as int, hi as int), sep).len(),
        },
{
    let ghost s = cs@.subrange(lo as int, hi as int);
    let mut start: usize = lo;
    let mut seen: usize = 0;
    let mut i: usize = lo;
    assert(s.take(0) =~= Seq::<char>::empty());
    assert(cs@.subrange(lo as int, lo as int) =~= Seq::<char>::empty());
    while i < hi
        invariant
            lo <= start <= i <= hi <= cs.len(),
            s == cs@.subrange(lo as int, hi as int),
            seen <= n,
            seen <= i - lo,
            split(s.take(i - lo), sep).len() == seen + 1,
            split(s.take(i - lo), sep).last() == cs@.subrange(start as int, i as int),
        decreases hi - i,
    {
        proof {
            assert(s.take(i - lo + 1).drop_last() =~= s.take(i - lo));
            assert(s.take(i - lo + 1).last() == cs@[i as int]);
        }
        if cs[i] == sep {
            if seen == n {
                proof {
                    lemma_split_prefix(s, sep, i - lo + 1);
                    assert(s.take(i - lo) =~= cs@.subrange(lo as int, i as int));
                }
                return Some((start, i));
            }
            seen += 1;
            start = i + 1;
            assert(cs@.subrange(start as int, start as int) =~= Seq::<char>::empty());
        } else {
            assert(cs@.subrange(start as int, i as int).push(cs@[i as int]) =~= cs@.subrange(
                start as int,
                i + 1,
            ));
        }
        i += 1;
    }
    assert(s.take(hi - lo) =~= s);
    if seen == n {
        Some((start, hi))
    } else {
        None
    }
}

} // verus!
