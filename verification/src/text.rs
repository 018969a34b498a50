//! Small string helpers with exact contracts.
use vstd::prelude::*;
use vstd::string::StrSliceExecFns;
use vstd::string::StringExecFns;

verus! {

/// Whether two strings hold the same characters.
pub fn str_eq(a: &str, b: &str) -> (r: bool)
    ensures
        r == (a@ == b@),
{
    a.to_owned() == b.to_owned()
}

/// `prefix` is a prefix of `s`.
pub open spec fn spec_starts_with(s: Seq<char>, prefix: Seq<char>) -> bool {
    prefix.len() <= s.len() && s.subrange(0, prefix.len() as int) == prefix
}

/// Whether `s` starts with `prefix`.
pub fn starts_with(s: &str, prefix: &str) -> (r: bool)
    ensures
        r == spec_starts_with(s@, prefix@),
{
    let plen = prefix.unicode_len();
    let slen = s.unicode_len();
    if plen > slen {
        return false;
    }
    let head = s.substring_char(0, plen);
    str_eq(head, prefix)
}

/// The view of an optional string.
pub open spec fn opt_view(o: Option<String>) -> Option<Seq<char>> {
    match o {
        Some(s) => Some(s@),
        None => None,
    }
}

/// A copy of an optional string.
pub fn clone_opt_string(o: &Option<String>) -> (r: Option<String>)
    ensures
        opt_view(r) == opt_view(*o),
{
    match o {
        Some(s) => Some(s.clone()),
        None => None,
    }
}

/// The views of a sequence of strings.
pub open spec fn seq_views(v: Seq<String>) -> Seq<Seq<char>> {
    v.map_values(|s: String| s@)
}

/// Pushing a string pushes its view.
pub proof fn lemma_seq_views_push(v: Seq<String>, x: String)
    ensures
        seq_views(v.push(x)) == seq_views(v).push(x@),
        forall|s: Seq<char>| seq_views(v.push(x)).contains(s) <==> (seq_views(v).contains(s) || s == x@),
{
    assert(seq_views(v.push(x)) =~= seq_views(v).push(x@));
    assert forall|s: Seq<char>| seq_views(v.push(x)).contains(s) <==> (seq_views(v).contains(s) || s == x@) by {
        let w = seq_views(v);
        if w.push(x@).contains(s) {
            let k = choose|k: int| 0 <= k < w.push(x@).len() && w.push(x@)[k] == s;
            if k < w.len() {
                assert(w[k] == s);
            }
        }
        if w.contains(s) {
            let k = choose|k: int| 0 <= k < w.len() && w[k] == s;
            assert(w.push(x@)[k] == s);
        }
        if s == x@ {
            assert(w.push(x@)[w.len() as int] == s);
        }
    }
}

/// Two sequences with the same elements, counted with multiplicity, contain the same
/// elements.
pub proof fn lemma_same_multiset_contains<A>(a: Seq<A>, b: Seq<A>)
    requires
        a.to_multiset() == b.to_multiset(),
    ensures
        forall|c: A| a.contains(c) <==> b.contains(c),
{
    a.to_multiset_ensures();
    b.to_multiset_ensures();
    assert forall|c: A| a.contains(c) <==> b.contains(c) by {
        assert(a.to_multiset().count(c) == b.to_multiset().count(c));
        assert(a.contains(c) <==> a.to_multiset().count(c) > 0);
        assert(b.contains(c) <==> b.to_multiset().count(c) > 0);
    }
}

/// A copy of a list of strings.
pub fn clone_strings(v: &Vec<String>) -> (r: Vec<String>)
    ensures
        seq_views(r@) == seq_views(v@),
{
    let n = v.len();
    let mut out: Vec<String> = Vec::new();
    let mut i: usize = 0;
    while i < n
        invariant
            n == v@.len(),
            i <= n,
            seq_views(out@) == seq_views(v@.take(i as int)),
        decreases n - i,
    {
        let ghost before = out@;
        let item = v[i].clone();
        out.push(item);
        proof {
            lemma_seq_views_push(before, item);
            assert(v@.take(i + 1) =~= v@.take(i as int).push(v@[i as int]));
            assert(seq_views(v@.take(i + 1)) =~= seq_views(v@.take(i as int)).push(v@[i as int]@));
        }
        i = i + 1;
    }
    proof {
        assert(v@.take(n as int) =~= v@);
    }
    out
}

/// The strings of `s` with `sep` between neighbours.
pub open spec fn joined(s: Seq<Seq<char>>, sep: Seq<char>) -> Seq<char>
    decreases s.len(),
{
    if s.len() == 0 {
        Seq::empty()
    } else if s.len() == 1 {
        s[0]
    } else {
        joined(s.drop_last(), sep) + sep + s.last()
    }
}

/// The strings of `v` with `sep` between neighbours.
pub fn join_strings(v: &Vec<String>, sep: &str) -> (r: String)
    ensures
        r@ == joined(seq_views(v@), sep@),
{
    let n = v.len();
    let mut out = String::new();
    let mut i: usize = 0;
    proof {
        assert(seq_views(v@).take(0) =~= Seq::<Seq<char>>::empty());
    }
    while i < n
        invariant
            n == v@.len(),
            i <= n,
            out@ == joined(seq_views(v@).take(i as int), sep@),
        decreases n - i,
    {
        let ghost w = seq_views(v@);
        proof {
            assert(w.take(i + 1).drop_last() =~= w.take(i as int));
            assert(w.take(i + 1).last() == v@[i as int]@);
            if i == 0 {
                assert(w.take(1) =~= seq![v@[0]@]);
            }
        }
        if i > 0 {
            out.append(sep);
        }
        out.append(v[i].as_str());
        i = i + 1;
    }
    proof {
        assert(seq_views(v@).take(n as int) =~= seq_views(v@));
    }
    out
}

/// `s` with every occurrence of `pat` replaced by `rep`, scanning from the left.
pub open spec fn replaced(s: Seq<char>, pat: Seq<char>, rep: Seq<char>) -> Seq<char>
    decreases s.len(),
{
    if s.len() == 0 {
        Seq::empty()
    } else if 0 < pat.len() <= s.len() && s.take(pat.len() as int) == pat {
        rep + replaced(s.skip(pat.len() as int), pat, rep)
    } else {
        seq![s[0]] + replaced(s.skip(1), pat, rep)
    }
}

/// `s` with every occurrence of the non-empty `pat` replaced by `rep`.
pub fn replace_all(s: &str, pat: &str, rep: &str) -> (r: String)
    requires
        pat@.len() > 0,
    ensures
        r@ == replaced(s@, pat@, rep@),
{
    let n = s.unicode_len();
    let plen = pat.unicode_len();
    let mut out = String::new();
    let mut i: usize = 0;
    proof {
        assert(s@.skip(0) =~= s@);
    }
    while i < n
        invariant
            n == s@.len(),
            plen == pat@.len(),
            plen > 0,
            i <= n,
            replaced(s@, pat@, rep@) == out@ + replaced(s@.skip(i as int), pat@, rep@),
        decreases n - i,
    {
        let ghost t = s@.skip(i as int);
        if plen <= n - i && str_eq(s.substring_char(i, i + plen), pat) {
            proof {
                assert(t.take(plen as int) =~= s@.subrange(i as int, i + plen));
                assert(t.skip(plen as int) =~= s@.skip(i + plen));
            }
            out.append(rep);
            i = i + plen;
        } else {
            proof {
                if plen <= n - i {
                    assert(t.take(plen as int) =~= s@.subrange(i as int, i + plen));
                }
                assert(t.skip(1) =~= s@.skip(i + 1));
                assert(s@.subrange(i as int, i + 1) =~= seq![t[0]]);
            }
            out.append(s.substring_char(i, i + 1));
            i = i + 1;
        }
    }
    proof {
        assert(out@ + Seq::<char>::empty() =~= out@);
    }
    out
}

/// `pat` occurs in `s`.
pub open spec fn has_substring(s: Seq<char>, pat: Seq<char>) -> bool {
    exists|i: int| 0 <= i && i + pat.len() <= s.len() && #[trigger] s.subrange(i, i + pat.len()) == pat
}

/// Whether `pat` occurs in `s`.
pub fn contains_substring(s: &str, pat: &str) -> (r: bool)
    ensures
        r == has_substring(s@, pat@),
{
    let n = s.unicode_len();
    let plen = pat.unicode_len();
    if plen > n {
        return false;
    }
    let last = n - plen;
    let mut i: usize = 0;
    while i < last
        invariant
            n == s@.len(),
            plen == pat@.len(),
            last == n - plen,
            i <= last,
            forall|j: int| 0 <= j < i ==> #[trigger] s@.subrange(j, j + plen) != pat@,
        decreases last - i,
    {
        if str_eq(s.substring_char(i, i + plen), pat) {
            return true;
        }
        i = i + 1;
    }
    let r = str_eq(s.substring_char(last, n), pat);
    proof {
        assert(s@.subrange(last as int, last + plen) == s@.subrange(last as int, n as int));
        if has_substring(s@, pat@) {
            let j = choose|j: int| 0 <= j && j + pat@.len() <= s@.len() && #[trigger] s@.subrange(j, j + pat@.len()) == pat@;
            if j < last {
                assert(s@.subrange(j, j + plen) != pat@);
            }
        }
    }
    r
}

/// The concatenation of `a` and `b`.
pub fn concat2(a: &str, b: &str) -> (r: String)
    ensures
        r@ == a@ + b@,
{
    let mut out = a.to_owned();
    out.append(b);
    out
}

} // verus!
