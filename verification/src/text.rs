//! Small string operations with their meaning stated over character sequences.
use vstd::prelude::*;

verus! {

/// `s` with every leading `c` removed (the meaning of `str::trim_start_matches(c)`).
pub open spec fn trim_start_char(s: Seq<char>, c: char) -> Seq<char>
    decreases s.len(),
{
    if s.len() > 0 && s[0] == c {
        trim_start_char(s.drop_first(), c)
    } else {
        s
    }
}

/// `s` with every occurrence of `pat`, taken left to right without overlap,
/// replaced by `rep` (the meaning of `str::replace`). An empty pattern matches
/// before every character and at the end.
pub open spec fn replace_all(s: Seq<char>, pat: Seq<char>, rep: Seq<char>) -> Seq<char>
    decreases s.len(),
{
    if s.len() == 0 {
        if pat.len() == 0 {
            rep
        } else {
            seq![]
        }
    } else if pat.len() > 0 && pat.is_prefix_of(s) {
        rep + replace_all(s.skip(pat.len() as int), pat, rep)
    } else if pat.len() == 0 {
        rep + seq![s[0]] + replace_all(s.drop_first(), pat, rep)
    } else {
        seq![s[0]] + replace_all(s.drop_first(), pat, rep)
    }
}

/// The position of the last `c` in `s`, if there is one.
pub open spec fn last_index_of(s: Seq<char>, c: char) -> Option<int>
    decreases s.len(),
{
    if s.len() == 0 {
        None
    } else if s.last() == c {
        Some(s.len() - 1)
    } else {
        last_index_of(s.drop_last(), c)
    }
}

/// The position `last_index_of` gives holds `c`, and no later one does;
/// where it gives none, no position holds `c`.
pub proof fn lemma_last_index_of_bounds(s: Seq<char>, c: char)
    ensures
        last_index_of(s, c) matches Some(k) ==> 0 <= k < s.len() && s[k] == c && (forall|j: int|
            k < j < s.len() ==> s[j] != c),
        last_index_of(s, c) is None ==> forall|j: int| 0 <= j < s.len() ==> s[j] != c,
    decreases s.len(),
{
    if s.len() > 0 {
        let t = s.drop_last();
        lemma_last_index_of_bounds(t, c);
        assert(forall|j: int| 0 <= j < t.len() ==> t[j] == s[j]);
    }
}

/// The position of the last `c` in `s`.
pub fn last_index_of_char(s: &Vec<char>, c: char) -> (r: Option<usize>)
    ensures
        match r {
            Some(k) => last_index_of(s@, c) == Some(k as int),
            None => last_index_of(s@, c) is None,
        },
{
    let mut i: usize = s.len();
    assert(s@.take(i as int) =~= s@);
    while i > 0
        invariant
            i <= s.len(),
            last_index_of(s@, c) == last_index_of(s@.take(i as int), c),
        decreases i,
    {
        if s[i - 1] == c {
            assert(s@.take(i as int).last() == c);
            return Some(i - 1);
        }
        assert(s@.take(i as int).drop_last() =~= s@.take(i - 1));
        i = i - 1;
    }
    assert(s@.take(0).len() == 0);
    None
}

/// The characters of `s`, in order.
pub fn chars_of(s: &str) -> (r: Vec<char>)
    ensures
        r@ == s@,
{
    let mut r: Vec<char> = Vec::new();
    for c in it: s.chars()
        invariant
            r@ == it.seq().take(it.index() as int),
    {
        r.push(c);
    }
    r
}

/// Whether `pat` occurs in `s` at position `i`.
pub fn matches_at(s: &Vec<char>, i: usize, pat: &Vec<char>) -> (r: bool)
    requires
        i <= s.len(),
    ensures
        r == pat@.is_prefix_of(s@.skip(i as int)),
{
    if pat.len() > s.len() - i {
        return false;
    }
    let mut j: usize = 0;
    while j < pat.len()
        invariant
            i <= s.len(),
            pat.len() <= s.len() - i,
            j <= pat.len(),
            forall|k: int| 0 <= k < j ==> pat@[k] == s@[i + k],
        decreases pat.len() - j,
    {
        if pat[j] != s[i + j] {
            assert(s@.skip(i as int)[j as int] == s@[i + j]);
            return false;
        }
        j = j + 1;
    }
    proof {
        r_is_prefix(s@, i as int, pat@);
    }
    true
}

proof fn r_is_prefix(s: Seq<char>, i: int, pat: Seq<char>)
    requires
        0 <= i <= s.len(),
        pat.len() <= s.len() - i,
        forall|k: int| 0 <= k < pat.len() ==> pat[k] == s[i + k],
    ensures
        pat.is_prefix_of(s.skip(i)),
{
    assert(pat =~= s.skip(i).take(pat.len() as int));
}

/// Whether `s` begins with `prefix` (`str::starts_with`).
pub fn starts_with(s: &str, prefix: &str) -> (r: bool)
    ensures
        r == prefix@.is_prefix_of(s@),
{
    let cs = chars_of(s);
    let ps = chars_of(prefix);
    let r = matches_at(&cs, 0, &ps);
    assert(s@.skip(0) =~= s@);
    r
}

/// The concatenation of `a` and `b`.
pub fn concat_str(a: &str, b: &str) -> (r: String)
    ensures
        r@ == a@ + b@,
{
    let mut r = a.to_owned();
    r.append(b);
    r
}

proof fn lemma_trim_start_char_skip(s: Seq<char>, c: char, i: int)
    requires
        0 <= i <= s.len(),
        forall|k: int| 0 <= k < i ==> s[k] == c,
    ensures
        trim_start_char(s, c) == trim_start_char(s.skip(i), c),
    decreases i,
{
    if i > 0 {
        assert(s.skip(1) =~= s.drop_first());
        lemma_trim_start_char_skip(s.drop_first(), c, i - 1);
        assert(s.drop_first().skip(i - 1) =~= s.skip(i));
    } else {
        assert(s.skip(0) =~= s);
    }
}

/// `s` with every leading `c` removed (`str::trim_start_matches` with a char).
pub fn trim_start_char_str(s: &str, c: char) -> (r: &str)
    ensures
        r@ == trim_start_char(s@, c),
{
    let n = s.unicode_len();
    let mut i: usize = 0;
    while i < n && s.get_char(i) == c
        invariant
            n == s@.len(),
            i <= n,
            forall|k: int| 0 <= k < i ==> s@[k] == c,
        decreases n - i,
    {
        i = i + 1;
    }
    proof {
        lemma_trim_start_char_skip(s@, c, i as int);
        if i < n {
            assert(s@.skip(i as int)[0] == s@[i as int]);
        }
    }
    let r = s.substring_char(i, n);
    assert(r@ =~= s@.skip(i as int));
    r
}

/// `s` with every occurrence of `pat` replaced by `rep` (`str::replace`).
pub fn replace_all_str(s: &str, pat: &str, rep: &str) -> (r: String)
    ensures
        r@ == replace_all(s@, pat@, rep@),
{
    let cs = chars_of(s);
    let ps = chars_of(pat);
    let n = cs.len();
    let mut out = String::new();
    let mut i: usize = 0;
    assert(s@.skip(0) =~= s@);
    while i < n
        invariant
            cs@ == s@,
            ps@ == pat@,
            n == s@.len(),
            i <= n,
            out@ + replace_all(s@.skip(i as int), pat@, rep@) == replace_all(s@, pat@, rep@),
        decreases n - i,
    {
        let ghost rest = s@.skip(i as int);
        if ps.len() > 0 && matches_at(&cs, i, &ps) {
            proof {
                assert(rest.skip(pat@.len() as int) =~= s@.skip(i + pat@.len()));
                assert(out@ + (rep@ + replace_all(rest.skip(pat@.len() as int), pat@, rep@))
                    =~= (out@ + rep@) + replace_all(rest.skip(pat@.len() as int), pat@, rep@));
            }
            out.append(rep);
            i = i + ps.len();
        } else {
            proof {
                assert(rest.drop_first() =~= s@.skip(i + 1));
                assert(rest[0] == s@[i as int]);
            }
            if ps.len() == 0 {
                proof {
                    assert(out@ + (rep@ + seq![rest[0]] + replace_all(rest.drop_first(), pat@, rep@))
                        =~= (out@ + rep@ + seq![rest[0]]) + replace_all(
                        rest.drop_first(),
                        pat@,
                        rep@,
                    ));
                }
                out.append(rep);
            } else {
                proof {
                    assert(out@ + (seq![rest[0]] + replace_all(rest.drop_first(), pat@, rep@))
                        =~= (out@ + seq![rest[0]]) + replace_all(rest.drop_first(), pat@, rep@));
                }
            }
            let piece = s.substring_char(i, i + 1);
            assert(piece@ =~= seq![rest[0]]);
            out.append(piece);
            i = i + 1;
        }
    }
    proof {
        assert(s@.skip(n as int).len() == 0);
    }
    if ps.len() == 0 {
        out.append(rep);
    }
    proof {
        assert(out@ =~= replace_all(s@, pat@, rep@));
    }
    out
}

} // verus!

verus! {

/// Characters after the last `c` do not move it.
pub proof fn lemma_last_index_of_tail(a: Seq<char>, b: Seq<char>, c: char)
    requires
        !b.contains(c),
    ensures
        last_index_of(a + b, c) == last_index_of(a, c),
    decreases b.len(),
{
    if b.len() > 0 {
        let g = b.drop_last();
        assert(!g.contains(c)) by {
            if g.contains(c) {
                let i = choose|i: int| 0 <= i < g.len() && g[i] == c;
                assert(b[i] == c);
            }
        }
        assert(b[b.len() - 1] == b.last());
        assert((a + b).last() == b.last());
        assert((a + b).drop_last() =~= a + g);
        lemma_last_index_of_tail(a, g, c);
    } else {
        assert(a + b =~= a);
    }
}

/// Where `pat` occurs nowhere in `s`, replacing it changes nothing.
pub proof fn lemma_replace_absent(s: Seq<char>, pat: Seq<char>, rep: Seq<char>)
    requires
        pat.len() > 0,
        forall|i: int| 0 <= i <= s.len() ==> !pat.is_prefix_of(#[trigger] s.skip(i)),
    ensures
        replace_all(s, pat, rep) == s,
    decreases s.len(),
{
    if s.len() > 0 {
        assert(s.skip(0) =~= s);
        let t = s.drop_first();
        assert forall|i: int| 0 <= i <= t.len() implies !pat.is_prefix_of(#[trigger] t.skip(i)) by {
            assert(t.skip(i) =~= s.skip(i + 1));
        }
        lemma_replace_absent(t, pat, rep);
        assert(seq![s[0]] + t =~= s);
    }
}

/// Replacing the empty pattern by nothing changes nothing.
pub proof fn lemma_replace_empty_by_empty(s: Seq<char>)
    ensures
        replace_all(s, Seq::empty(), Seq::empty()) == s,
    decreases s.len(),
{
    if s.len() > 0 {
        lemma_replace_empty_by_empty(s.drop_first());
        assert(Seq::<char>::empty() + seq![s[0]] + s.drop_first() =~= s);
    }
}

/// Replacing `pat` in a text that starts with it replaces that occurrence
/// first and goes on behind it.
pub proof fn lemma_replace_leading(pat: Seq<char>, t: Seq<char>, rep: Seq<char>)
    requires
        pat.len() > 0,
    ensures
        replace_all(pat + t, pat, rep) == rep + replace_all(t, pat, rep),
{
    let s = pat + t;
    assert(pat.is_prefix_of(s)) by {
        assert(s.take(pat.len() as int) =~= pat);
    }
    assert(s.skip(pat.len() as int) =~= t);
}

/// Trimming the leading `c`s drops a run of `c`s from the front, all of them
/// and nothing else.
pub proof fn lemma_trim_start_char_shape(s: Seq<char>, c: char)
    ensures
        exists|k: int|
            #![trigger s.skip(k)]
            0 <= k <= s.len() && (forall|i: int| 0 <= i < k ==> s[i] == c) && (k < s.len() ==> s[k]
                != c) && trim_start_char(s, c) == s.skip(k),
    decreases s.len(),
{
    if s.len() > 0 && s[0] == c {
        let t = s.drop_first();
        lemma_trim_start_char_shape(t, c);
        let k = choose|k: int|
            #![trigger t.skip(k)]
            0 <= k <= t.len() && (forall|i: int| 0 <= i < k ==> t[i] == c) && (k < t.len() ==> t[k]
                != c) && trim_start_char(t, c) == t.skip(k);
        assert(t.skip(k) =~= s.skip(k + 1));
        assert forall|i: int| 0 <= i < k + 1 implies s[i] == c by {
            if i > 0 {
                assert(s[i] == t[i - 1]);
            }
        }
        if k + 1 < s.len() {
            assert(s[k + 1] == t[k]);
        }
    } else {
        assert(s.skip(0) =~= s);
    }
}

} // verus!
