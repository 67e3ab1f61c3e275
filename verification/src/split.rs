//! Splitting text at a separator character, joining it again, and replacing
//! every occurrence of a pattern.
use vstd::prelude::*;

verus! {

/// The position of the first `c` in `s`, or `s.len()` where `s` holds none.
pub open spec fn first_index(s: Seq<char>, c: char) -> int
    decreases s.len(),
{
    if s.len() == 0 || s[0] == c {
        0
    } else {
        1 + first_index(s.drop_first(), c)
    }
}

/// The pieces of `s` between occurrences of `sep`: one more piece than there
/// are separators, empty pieces included.
pub open spec fn split(s: Seq<char>, sep: char) -> Seq<Seq<char>>
    decreases s.len(),
{
    if s.len() == 0 {
        seq![Seq::<char>::empty()]
    } else {
        let before = split(s.drop_last(), sep);
        if s.last() == sep {
            before.push(Seq::<char>::empty())
        } else {
            before.update(before.len() - 1, before.last().push(s.last()))
        }
    }
}

/// The pieces with `sep` put between each two neighbours.
pub open spec fn join(parts: Seq<Seq<char>>, sep: char) -> Seq<char>
    decreases parts.len(),
{
    if parts.len() == 0 {
        Seq::<char>::empty()
    } else if parts.len() == 1 {
        parts[0]
    } else {
        join(parts.drop_last(), sep).push(sep) + parts.last()
    }
}

/// The pieces one after another, with nothing between them.
pub open spec fn concat(parts: Seq<Seq<char>>) -> Seq<char>
    decreases parts.len(),
{
    if parts.len() == 0 {
        Seq::<char>::empty()
    } else {
        concat(parts.drop_last()) + parts.last()
    }
}

/// `s` with every occurrence of `pat` replaced by `rep`, scanning from the
/// left and never looking again at text already replaced. An empty `pat`
/// matches before every character and at the end.
pub open spec fn replace_all(s: Seq<char>, pat: Seq<char>, rep: Seq<char>) -> Seq<char>
    decreases s.len(),
{
    if pat.len() == 0 {
        if s.len() == 0 {
            rep
        } else {
            (rep + seq![s[0]]) + replace_all(s.drop_first(), pat, rep)
        }
    } else if s.len() < pat.len() {
        s
    } else if s.subrange(0, pat.len() as int) == pat {
        rep + replace_all(s.subrange(pat.len() as int, s.len() as int), pat, rep)
    } else {
        seq![s[0]] + replace_all(s.drop_first(), pat, rep)
    }
}

/// A split always yields at least one piece.
pub proof fn lemma_split_nonempty(s: Seq<char>, sep: char)
    ensures
        split(s, sep).len() >= 1,
    decreases s.len(),
{
    if s.len() > 0 {
        lemma_split_nonempty(s.drop_last(), sep);
    }
}

/// Joining the pieces of a split with the separator gives the text back.
pub proof fn lemma_join_split(s: Seq<char>, sep: char)
    ensures
        join(split(s, sep), sep) == s,
    decreases s.len(),
{
    if s.len() == 0 {
        assert(join(split(s, sep), sep) =~= s);
    } else {
        let t = s.drop_last();
        let before = split(t, sep);
        lemma_split_nonempty(t, sep);
        lemma_join_split(t, sep);
        if s.last() == sep {
            let all = before.push(Seq::<char>::empty());
            assert(all.drop_last() =~= before);
            assert(join(all, sep) =~= t.push(sep));
            assert(t.push(sep) =~= s);
        } else {
            let all = before.update(before.len() - 1, before.last().push(s.last()));
            if before.len() == 1 {
                assert(join(all, sep) =~= t.push(s.last()));
            } else {
                assert(all.drop_last() =~= before.drop_last());
                assert(join(all, sep) =~= join(before, sep).push(s.last()));
            }
            assert(t.push(s.last()) =~= s);
        }
    }
}

/// Where the first `k` characters differ from `c` and either the text ends at
/// `k` or holds `c` there, `k` is the first index of `c`.
pub proof fn lemma_first_index_at(s: Seq<char>, c: char, k: int)
    requires
        0 <= k <= s.len(),
        forall|j: int| 0 <= j < k ==> #[trigger] s[j] != c,
        k == s.len() || s[k] == c,
    ensures
        first_index(s, c) == k,
    decreases k,
{
    if k > 0 {
        let t = s.drop_first();
        assert forall|j: int| 0 <= j < k - 1 implies #[trigger] t[j] != c by {
            assert(t[j] == s[j + 1]);
        }
        lemma_first_index_at(t, c, k - 1);
    }
}

/// The first index lies within the text or just behind it, and `c` does not
/// occur before it.
pub proof fn lemma_first_index_bounds(s: Seq<char>, c: char)
    ensures
        0 <= first_index(s, c) <= s.len(),
        first_index(s, c) < s.len() ==> s[first_index(s, c)] == c,
        first_index(s, c) < s.len() <==> s.contains(c),
        forall|j: int| 0 <= j < first_index(s, c) ==> #[trigger] s[j] != c,
    decreases s.len(),
{
    if s.len() == 0 || s[0] == c {
        if s.len() > 0 {
            assert(s.contains(c));
        }
    } else {
        let t = s.drop_first();
        lemma_first_index_bounds(t, c);
        let k = first_index(t, c);
        assert forall|j: int| 0 <= j < k + 1 implies #[trigger] s[j] != c by {
            if j > 0 {
                assert(s[j] == t[j - 1]);
            }
        }
        if k < t.len() {
            assert(s[k + 1] == c);
            assert(s.contains(c));
        }
        if s.contains(c) {
            let j = choose|j: int| 0 <= j < s.len() && s[j] == c;
            assert(t[j - 1] == c);
            assert(t.contains(c));
        }
    }
}


/// What a vector of character vectors holds, as a sequence of texts.
pub open spec fn pieces(parts: Seq<Vec<char>>) -> Seq<Seq<char>> {
    Seq::new(parts.len(), |i: int| parts[i]@)
}

/// The position of the first `c` in `v`, or `v.len()` where there is none.
pub fn find_char(v: &Vec<char>, c: char) -> (k: usize)
    ensures
        k == first_index(v@, c),
        k <= v.len(),
        k < v.len() <==> v@.contains(c),
{
    let mut k: usize = 0;
    while k < v.len() && v[k] != c
        invariant
            k <= v.len(),
            forall|j: int| 0 <= j < k ==> #[trigger] v@[j] != c,
        decreases v.len() - k,
    {
        k += 1;
    }
    proof {
        lemma_first_index_at(v@, c, k as int);
        lemma_first_index_bounds(v@, c);
    }
    k
}

/// The characters of `v` from `from` up to, not including, `to`.
pub fn slice_of(v: &Vec<char>, from: usize, to: usize) -> (r: Vec<char>)
    requires
        from <= to <= v.len(),
    ensures
        r@ == v@.subrange(from as int, to as int),
{
    let mut r: Vec<char> = Vec::new();
    let mut i: usize = from;
    while i < to
        invariant
            from <= i <= to <= v.len(),
            r@ == v@.subrange(from as int, i as int),
        decreases to - i,
    {
        r.push(v[i]);
        i += 1;
    }
    r
}

/// The pieces of `v` between occurrences of `sep`.
pub fn split_on(v: &Vec<char>, sep: char) -> (parts: Vec<Vec<char>>)
    ensures
        pieces(parts@) == split(v@, sep),
        parts.len() >= 1,
{
    let mut parts: Vec<Vec<char>> = Vec::new();
    let mut current: Vec<char> = Vec::new();
    let mut i: usize = 0;
    while i < v.len()
        invariant
            i <= v.len(),
            pieces(parts@).push(current@) == split(v@.take(i as int), sep),
        decreases v.len() - i,
    {
        let c = v[i];
        proof {
            let prefix = v@.take(i as int);
            let next = v@.take(i + 1);
            assert(next.drop_last() =~= prefix);
            assert(next.last() == c);
        }
        if c == sep {
            let ghost before = pieces(parts@);
            parts.push(current);
            assert(pieces(parts@) =~= before.push(current@));
            current = Vec::new();
        } else {
            let ghost before = pieces(parts@).push(current@);
            current.push(c);
            assert(pieces(parts@).push(current@) =~= before.update(
                before.len() - 1,
                before.last().push(c),
            ));
        }
        i += 1;
    }
    let ghost before = pieces(parts@);
    parts.push(current);
    proof {
        assert(pieces(parts@) =~= before.push(current@));
        assert(v@.take(v.len() as int) =~= v@);
    }
    parts
}

/// Whether `pat` stands in `v` at position `at`.
pub fn matches_at(v: &Vec<char>, at: usize, pat: &Vec<char>) -> (b: bool)
    requires
        at <= v.len(),
    ensures
        b == (at + pat.len() <= v.len() && v@.subrange(at as int, at + pat.len()) == pat@),
{
    if pat.len() > v.len() - at {
        return false;
    }
    let mut j: usize = 0;
    while j < pat.len()
        invariant
            j <= pat.len(),
            at + pat.len() <= v.len(),
            forall|k: int| 0 <= k < j ==> v@[at + k] == pat@[k],
        decreases pat.len() - j,
    {
        if v[at + j] != pat[j] {
            proof {
                let window = v@.subrange(at as int, at + pat.len());
                assert(window[j as int] != pat@[j as int]);
            }
            return false;
        }
        j += 1;
    }
    assert(v@.subrange(at as int, at + pat.len()) =~= pat@);
    true
}

/// Appends the characters of `more` to `out`.
pub fn append_chars(out: &mut Vec<char>, more: &Vec<char>)
    ensures
        final(out)@ == old(out)@ + more@,
{
    let mut i: usize = 0;
    while i < more.len()
        invariant
            i <= more.len(),
            out@ == old(out)@ + more@.take(i as int),
        decreases more.len() - i,
    {
        out.push(more[i]);
        assert(more@.take(i + 1) =~= more@.take(i as int).push(more@[i as int]));
        i += 1;
    }
    assert(more@.take(more.len() as int) =~= more@);
}

/// `v` with every occurrence of `pat` replaced by `rep`.
pub fn replaced(v: &Vec<char>, pat: &Vec<char>, rep: &Vec<char>) -> (r: Vec<char>)
    ensures
        r@ == replace_all(v@, pat@, rep@),
{
    let n = v.len();
    let mut r: Vec<char> = Vec::new();
    let mut i: usize = 0;
    assert(v@.subrange(0, n as int) =~= v@);
    if pat.len() == 0 {
        while i < n
            invariant
                i <= n,
                n == v.len(),
                pat.len() == 0,
                r@ + replace_all(v@.subrange(i as int, n as int), pat@, rep@) == replace_all(
                    v@,
                    pat@,
                    rep@,
                ),
            decreases n - i,
        {
            let ghost rest = v@.subrange(i as int, n as int);
            let ghost done = r@;
            append_chars(&mut r, rep);
            r.push(v[i]);
            proof {
                assert(rest.drop_first() =~= v@.subrange(i + 1, n as int));
                assert(r@ + replace_all(rest.drop_first(), pat@, rep@) =~= done + replace_all(
                    rest,
                    pat@,
                    rep@,
                ));
            }
            i += 1;
        }
        let ghost done = r@;
        append_chars(&mut r, rep);
        assert(v@.subrange(n as int, n as int) =~= Seq::<char>::empty());
        return r;
    }
    while i < n
        invariant
            i <= n,
            n == v.len(),
            pat.len() > 0,
            r@ + replace_all(v@.subrange(i as int, n as int), pat@, rep@) == replace_all(
                v@,
                pat@,
                rep@,
            ),
        decreases n - i,
    {
        let ghost rest = v@.subrange(i as int, n as int);
        let ghost done = r@;
        if matches_at(v, i, pat) {
            append_chars(&mut r, rep);
            proof {
                assert(rest.subrange(0, pat.len() as int) =~= v@.subrange(
                    i as int,
                    i + pat.len(),
                ));
                assert(rest.subrange(pat.len() as int, rest.len() as int) =~= v@.subrange(
                    i + pat.len(),
                    n as int,
                ));
                assert(r@ + replace_all(
                    rest.subrange(pat.len() as int, rest.len() as int),
                    pat@,
                    rep@,
                ) =~= done + replace_all(rest, pat@, rep@));
            }
            i += pat.len();
        } else {
            r.push(v[i]);
            proof {
                if rest.len() >= pat.len() {
                    assert(rest.subrange(0, pat.len() as int) =~= v@.subrange(
                        i as int,
                        i + pat.len(),
                    ));
                    assert(rest.drop_first() =~= v@.subrange(i + 1, n as int));
                    assert(r@ + replace_all(rest.drop_first(), pat@, rep@) =~= done + replace_all(
                        rest,
                        pat@,
                        rep@,
                    ));
                } else {
                    // fewer characters left than the pattern has: the rest is kept as it is
                    assert(replace_all(rest, pat@, rep@) == rest);
                    let tail = v@.subrange(i + 1, n as int);
                    assert(replace_all(tail, pat@, rep@) == tail);
                    assert(r@ + tail =~= done + rest);
                }
            }
            i += 1;
        }
    }
    assert(v@.subrange(n as int, n as int) =~= Seq::<char>::empty());
    assert(r@ + Seq::<char>::empty() =~= r@);
    r
}

} // verus!
