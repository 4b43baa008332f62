//! Character-sequence models of the text operations the library performs:
//! splitting at a separator, removing every occurrence of a pattern,
//! decimal rendering, and the verified builders that produce them.
use vstd::prelude::*;

verus! {

/// Appends one character to a `String` (std's `String::push`).
/// Claims: the new text is the old text followed by `c`.
#[verifier::external_body]
pub(crate) fn push_char(s: &mut String, c: char)
    ensures
        final(s)@ == old(s)@.push(c),
{
    s.push(c);
}

/// The decimal digit character for `d` (which is below ten).
pub open spec fn digit_char(d: nat) -> char {
    if d == 0 { '0' } else if d == 1 { '1' } else if d == 2 { '2' } else if d == 3 { '3' }
    else if d == 4 { '4' } else if d == 5 { '5' } else if d == 6 { '6' } else if d == 7 { '7' }
    else if d == 8 { '8' } else { '9' }
}

/// The decimal rendering of `n`, without leading zeros (`0` renders as "0").
pub open spec fn decimal(n: nat) -> Seq<char>
    decreases n,
{
    if n < 10 {
        seq![digit_char(n)]
    } else {
        decimal(n / 10).push(digit_char(n % 10))
    }
}

fn digit(d: u32) -> (c: char)
    requires
        d < 10,
    ensures
        c == digit_char(d as nat),
{
    match d {
        0 => '0',
        1 => '1',
        2 => '2',
        3 => '3',
        4 => '4',
        5 => '5',
        6 => '6',
        7 => '7',
        8 => '8',
        _ => '9',
    }
}

/// Appends the decimal rendering of `n` to `s`.
pub fn push_decimal(s: &mut String, n: u32)
    ensures
        final(s)@ == old(s)@ + decimal(n as nat),
    decreases n,
{
    if n >= 10 {
        push_decimal(s, n / 10);
    }
    push_char(s, digit(n % 10));
    proof {
        assert(old(s)@ + decimal(n as nat) =~= s@);
    }
}


/// The pieces of `s` between occurrences of `sep`, in order; `sep` itself
/// belongs to no piece. There is always one piece more than there are
/// separators, so the empty text has a single, empty piece.
pub open spec fn split_on(s: Seq<char>, sep: char) -> Seq<Seq<char>>
    decreases s.len(),
{
    if s.len() == 0 {
        seq![Seq::<char>::empty()]
    } else {
        let init = split_on(s.drop_last(), sep);
        if s.last() == sep {
            init.push(Seq::<char>::empty())
        } else {
            init.update(init.len() - 1, init.last().push(s.last()))
        }
    }
}

/// The pieces joined back together with `sep` between neighbours.
pub open spec fn join_with(pieces: Seq<Seq<char>>, sep: char) -> Seq<char>
    decreases pieces.len(),
{
    if pieces.len() == 0 {
        Seq::<char>::empty()
    } else if pieces.len() == 1 {
        pieces[0]
    } else {
        join_with(pieces.drop_last(), sep).push(sep) + pieces.last()
    }
}

/// The pieces written one after the other, with nothing between them.
pub open spec fn concat_all(pieces: Seq<Seq<char>>) -> Seq<char>
    decreases pieces.len(),
{
    if pieces.len() == 0 {
        Seq::<char>::empty()
    } else {
        concat_all(pieces.drop_last()) + pieces.last()
    }
}

/// How many times `c` occurs in `s`.
pub open spec fn count_char(s: Seq<char>, c: char) -> nat
    decreases s.len(),
{
    if s.len() == 0 {
        0
    } else {
        count_char(s.drop_last(), c) + if s.last() == c { 1nat } else { 0nat }
    }
}

/// `s` with every occurrence of `pat` taken out, scanning from the left and
/// never letting two removed occurrences overlap (the behaviour of std's
/// `str::replace(pat, "")`). An empty pattern removes nothing.
pub open spec fn remove_all(s: Seq<char>, pat: Seq<char>) -> Seq<char>
    decreases s.len(),
{
    if pat.len() == 0 || s.len() < pat.len() {
        s
    } else if s.take(pat.len() as int) == pat {
        remove_all(s.skip(pat.len() as int), pat)
    } else {
        seq![s[0]] + remove_all(s.skip(1), pat)
    }
}

/// `pat` occurs in `s` starting at index `i`.
pub open spec fn occurs_at(s: Seq<char>, pat: Seq<char>, i: int) -> bool {
    0 <= i && i + pat.len() <= s.len() && s.subrange(i, i + pat.len()) == pat
}

/// `pat` occurs nowhere in `s`.
pub open spec fn free_of(s: Seq<char>, pat: Seq<char>) -> bool {
    forall|i: int| !#[trigger] occurs_at(s, pat, i)
}

/// Splitting never yields an empty list of pieces, and yields one piece per
/// separator plus one.
pub proof fn lemma_split_len(s: Seq<char>, sep: char)
    ensures
        split_on(s, sep).len() == count_char(s, sep) + 1,
    decreases s.len(),
{
    if s.len() > 0 {
        lemma_split_len(s.drop_last(), sep);
    }
}

/// Joining the pieces of a split with the same separator gives back the text.
pub proof fn lemma_join_split(s: Seq<char>, sep: char)
    ensures
        join_with(split_on(s, sep), sep) == s,
    decreases s.len(),
{
    if s.len() == 0 {
    } else {
        let t = s.drop_last();
        lemma_join_split(t, sep);
        lemma_split_len(t, sep);
        let init = split_on(t, sep);
        if s.last() == sep {
            let r = init.push(Seq::<char>::empty());
            assert(r.drop_last() =~= init);
            assert(join_with(r, sep) =~= t.push(sep));
            assert(s =~= t.push(sep));
        } else {
            let r = init.update(init.len() - 1, init.last().push(s.last()));
            lemma_join_last_grows(init, sep, s.last());
            assert(s =~= t.push(s.last()));
        }
    }
}

/// Extending the last piece by one character extends the joined text by it.
proof fn lemma_join_last_grows(pieces: Seq<Seq<char>>, sep: char, c: char)
    requires
        pieces.len() >= 1,
    ensures
        join_with(pieces.update(pieces.len() - 1, pieces.last().push(c)), sep)
            == join_with(pieces, sep).push(c),
{
    let r = pieces.update(pieces.len() - 1, pieces.last().push(c));
    if pieces.len() == 1 {
        assert(r[0] == pieces[0].push(c));
    } else {
        assert(r.drop_last() =~= pieces.drop_last());
        assert(join_with(r, sep) == join_with(pieces.drop_last(), sep).push(sep) + pieces.last().push(c));
        assert(join_with(pieces.drop_last(), sep).push(sep) + pieces.last().push(c)
            =~= (join_with(pieces.drop_last(), sep).push(sep) + pieces.last()).push(c));
    }
}

/// Splits `s` at every `sep`, as `split_on` describes.
pub fn split_text(s: &str, sep: char) -> (pieces: Vec<String>)
    ensures
        pieces.deep_view() == split_on(s@, sep),
{
    let n = s.unicode_len();
    let mut pieces: Vec<String> = Vec::new();
    let mut cur = String::new();
    let mut i: usize = 0;
    assert(s@.take(0) =~= Seq::<char>::empty());
    while i < n
        invariant
            n == s@.len(),
            i <= n,
            pieces.deep_view().push(cur@) == split_on(s@.take(i as int), sep),
        decreases n - i,
    {
        let c = s.get_char(i);
        let ghost before = pieces.deep_view().push(cur@);
        proof {
            lemma_split_len(s@.take(i as int), sep);
            assert(s@.take(i + 1).drop_last() =~= s@.take(i as int));
            assert(s@.take(i + 1).last() == c);
        }
        if c == sep {
            pieces.push(cur);
            cur = String::new();
            assert(pieces.deep_view().push(cur@) =~= before.push(Seq::<char>::empty()));
        } else {
            push_char(&mut cur, c);
            assert(pieces.deep_view().push(cur@) =~= before.update(before.len() - 1, before.last().push(c)));
        }
        i = i + 1;
    }
    assert(s@.take(n as int) =~= s@);
    pieces.push(cur);
    pieces
}


/// `s` with every `c` left out.
pub open spec fn without_char(s: Seq<char>, c: char) -> Seq<char>
    decreases s.len(),
{
    if s.len() == 0 {
        Seq::<char>::empty()
    } else {
        without_char(s.drop_last(), c) + if s.last() == c {
            Seq::<char>::empty()
        } else {
            seq![s.last()]
        }
    }
}

/// Writing the pieces of a split back to back gives the text without its
/// separators.
pub proof fn lemma_concat_split(s: Seq<char>, sep: char)
    ensures
        concat_all(split_on(s, sep)) == without_char(s, sep),
    decreases s.len(),
{
    if s.len() > 0 {
        let t = s.drop_last();
        lemma_concat_split(t, sep);
        lemma_split_len(t, sep);
        let init = split_on(t, sep);
        if s.last() == sep {
            let r = init.push(Seq::<char>::empty());
            assert(r.drop_last() =~= init);
            assert(concat_all(r) =~= concat_all(init));
            assert(without_char(s, sep) =~= without_char(t, sep));
        } else {
            let r = init.update(init.len() - 1, init.last().push(s.last()));
            assert(r.drop_last() =~= init.drop_last());
            assert(concat_all(init) == concat_all(init.drop_last()) + init.last());
            assert(concat_all(r) =~= concat_all(init).push(s.last()));
            assert(without_char(s, sep) =~= without_char(t, sep).push(s.last()));
        }
    } else {
        let e = Seq::<char>::empty();
        assert(seq![e].drop_last() =~= Seq::<Seq<char>>::empty());
        assert(seq![e].last() == e);
        assert(seq![e].len() == 1);
        assert(concat_all(Seq::<Seq<char>>::empty()) == e);
        assert(concat_all(seq![e]) == concat_all(seq![e].drop_last()) + seq![e].last());
        assert(e + e =~= e);
    }
}

/// Text without any occurrence of the pattern is left as it is.
pub proof fn lemma_remove_free(s: Seq<char>, pat: Seq<char>)
    requires
        free_of(s, pat),
    ensures
        remove_all(s, pat) == s,
    decreases s.len(),
{
    if pat.len() == 0 || s.len() < pat.len() {
    } else {
        assert(!occurs_at(s, pat, 0));
        assert(s.subrange(0, pat.len() as int) =~= s.take(pat.len() as int));
        let t = s.skip(1);
        assert forall|i: int| !#[trigger] occurs_at(t, pat, i) by {
            if occurs_at(t, pat, i) {
                assert(s.subrange(i + 1, i + 1 + pat.len()) =~= t.subrange(i, i + pat.len()));
                assert(occurs_at(s, pat, i + 1));
            }
        }
        lemma_remove_free(t, pat);
        assert(seq![s[0]] + t =~= s);
    }
}

/// An occurrence at the very front is removed, and the scan goes on after it.
pub proof fn lemma_remove_front(pat: Seq<char>, t: Seq<char>)
    requires
        pat.len() > 0,
    ensures
        remove_all(pat + t, pat) == remove_all(t, pat),
{
    assert((pat + t).take(pat.len() as int) =~= pat);
    assert((pat + t).skip(pat.len() as int) =~= t);
}

/// When no occurrence starts inside `a`, the scan copies `a` unchanged and
/// then goes on with `b`.
pub proof fn lemma_remove_prefix_free(a: Seq<char>, b: Seq<char>, pat: Seq<char>)
    requires
        pat.len() > 0,
        forall|i: int| 0 <= i < a.len() ==> !#[trigger] occurs_at(a + b, pat, i),
    ensures
        remove_all(a + b, pat) == a + remove_all(b, pat),
    decreases a.len(),
{
    if a.len() == 0 {
        assert(a + b =~= b);
    } else {
        let s = a + b;
        let t = a.skip(1);
        assert(s.skip(1) =~= t + b);
        if s.len() < pat.len() {
            assert forall|i: int| 0 <= i < t.len() implies !#[trigger] occurs_at(t + b, pat, i) by {
            }
            lemma_remove_prefix_free(t, b, pat);
            assert(remove_all(b, pat) == b);
            assert(remove_all(t + b, pat) == t + b);
            assert(a + remove_all(b, pat) =~= s);
        } else {
            assert(!occurs_at(s, pat, 0));
            assert(s.subrange(0, pat.len() as int) =~= s.take(pat.len() as int));
            assert forall|i: int| 0 <= i < t.len() implies !#[trigger] occurs_at(t + b, pat, i) by {
                if occurs_at(t + b, pat, i) {
                    assert(s.subrange(i + 1, i + 1 + pat.len()) =~= (t + b).subrange(i, i + pat.len()));
                    assert(occurs_at(s, pat, i + 1));
                }
            }
            lemma_remove_prefix_free(t, b, pat);
            assert(seq![s[0]] + (t + remove_all(b, pat)) =~= a + remove_all(b, pat));
        }
    }
}

/// If `x` holds no occurrence of `pat`, and no character of `pat` after its
/// first equals the first character of `tail`, then no occurrence of `pat`
/// in `x + tail` starts inside `x`.
pub proof fn lemma_no_straddle(x: Seq<char>, tail: Seq<char>, pat: Seq<char>)
    requires
        free_of(x, pat),
        tail.len() > 0,
        forall|k: int| 1 <= k < pat.len() ==> pat[k] != tail[0],
    ensures
        forall|i: int| 0 <= i < x.len() ==> !#[trigger] occurs_at(x + tail, pat, i),
{
    assert forall|i: int| 0 <= i < x.len() implies !#[trigger] occurs_at(x + tail, pat, i) by {
        if occurs_at(x + tail, pat, i) {
            let s = x + tail;
            if i + pat.len() <= x.len() {
                assert(x.subrange(i, i + pat.len()) =~= s.subrange(i, i + pat.len()));
                assert(occurs_at(x, pat, i));
            } else {
                let k = x.len() - i;
                assert(s.subrange(i, i + pat.len())[k] == s[x.len() as int]);
                assert(pat[k] == tail[0]);
            }
        }
    }
}

/// Whether `pat` (of `m` characters) occurs in `s` (of `n` characters) at `i`.
fn occurs_here(s: &str, n: usize, i: usize, pat: &str, m: usize) -> (r: bool)
    requires
        n == s@.len(),
        m == pat@.len(),
        i <= n,
    ensures
        r == occurs_at(s@, pat@, i as int),
{
    if m > n - i {
        return false;
    }
    let mut j: usize = 0;
    while j < m
        invariant
            n == s@.len(),
            m == pat@.len(),
            i + m <= n,
            j <= m,
            forall|k: int| 0 <= k < j ==> s@[i + k] == pat@[k],
        decreases m - j,
    {
        if s.get_char(i + j) != pat.get_char(j) {
            assert(s@.subrange(i as int, i + m)[j as int] != pat@[j as int]);
            return false;
        }
        j = j + 1;
    }
    assert(s@.subrange(i as int, i + m) =~= pat@);
    true
}

/// `s` with every occurrence of `pat` removed, as `remove_all` describes.
pub fn remove_pattern(s: &str, pat: &str) -> (r: String)
    ensures
        r@ == remove_all(s@, pat@),
{
    let n = s.unicode_len();
    let m = pat.unicode_len();
    let mut res = String::new();
    if m == 0 {
        res.append(s);
        return res;
    }
    let mut i: usize = 0;
    assert(s@.skip(0) =~= s@);
    while i < n
        invariant
            n == s@.len(),
            m == pat@.len(),
            m > 0,
            i <= n,
            remove_all(s@, pat@) == res@ + remove_all(s@.skip(i as int), pat@),
        decreases n - i,
    {
        let ghost rest = s@.skip(i as int);
        if occurs_here(s, n, i, pat, m) {
            assert(rest.take(m as int) =~= s@.subrange(i as int, i + m));
            assert(rest.skip(m as int) =~= s@.skip(i + m));
            i = i + m;
        } else {
            let c = s.get_char(i);
            proof {
                assert(rest.skip(1) =~= s@.skip(i + 1));
                if rest.len() >= pat@.len() {
                    assert(rest.take(m as int) =~= s@.subrange(i as int, i + m));
                } else {
                    assert(remove_all(rest.skip(1), pat@) == rest.skip(1));
                }
                assert(seq![c] + rest.skip(1) =~= rest);
                assert(res@.push(c) + remove_all(rest.skip(1), pat@) =~= res@ + (seq![c] + remove_all(rest.skip(1), pat@)));
            }
            push_char(&mut res, c);
            i = i + 1;
        }
    }
    assert(s@.skip(n as int) =~= Seq::<char>::empty());
    assert(res@ + Seq::<char>::empty() =~= res@);
    res
}

/// All the pieces written one after the other.
pub fn concat_strings(pieces: &Vec<String>) -> (r: String)
    ensures
        r@ == concat_all(pieces.deep_view()),
{
    let mut res = String::new();
    let mut i: usize = 0;
    assert(pieces.deep_view().take(0) =~= Seq::<Seq<char>>::empty());
    while i < pieces.len()
        invariant
            i <= pieces.len(),
            res@ == concat_all(pieces.deep_view().take(i as int)),
        decreases pieces.len() - i,
    {
        res.append(pieces[i].as_str());
        assert(pieces.deep_view().take(i + 1).drop_last() =~= pieces.deep_view().take(i as int));
        i = i + 1;
    }
    assert(pieces.deep_view().take(pieces.len() as int) =~= pieces.deep_view());
    res
}


/// Whether two texts hold the same characters.
pub fn text_eq(a: &str, b: &str) -> (r: bool)
    ensures
        r == (a@ == b@),
{
    let n = a.unicode_len();
    if n != b.unicode_len() {
        return false;
    }
    let mut i: usize = 0;
    while i < n
        invariant
            n == a@.len(),
            n == b@.len(),
            i <= n,
            forall|k: int| 0 <= k < i ==> a@[k] == b@[k],
        decreases n - i,
    {
        if a.get_char(i) != b.get_char(i) {
            return false;
        }
        i = i + 1;
    }
    assert(a@ =~= b@);
    true
}

} // verus!
