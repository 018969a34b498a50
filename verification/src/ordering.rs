//! The order of strings, and sorting lists of strings in it.
//!
//! Strings compare character by character, by code point; a proper prefix comes first.
//! This is the order of `String` in Rust, which compares the UTF-8 bytes.
use vstd::prelude::*;
use vstd::relations::{sorted_by, total_ordering};
use vstd::string::StrSliceExecFns;

use crate::text::seq_views;

verus! {

/// `a` comes before `b` or equals it.
pub open spec fn chars_le(a: Seq<char>, b: Seq<char>) -> bool
    decreases a.len(),
{
    if a.len() == 0 {
        true
    } else if b.len() == 0 {
        false
    } else if a[0] != b[0] {
        a[0] < b[0]
    } else {
        chars_le(a.drop_first(), b.drop_first())
    }
}

/// [`chars_le`] as a relation.
pub open spec fn string_order() -> spec_fn(Seq<char>, Seq<char>) -> bool {
    |a: Seq<char>, b: Seq<char>| chars_le(a, b)
}

pub proof fn lemma_le_reflexive(a: Seq<char>)
    ensures
        chars_le(a, a),
    decreases a.len(),
{
    if a.len() > 0 {
        lemma_le_reflexive(a.drop_first());
    }
}

pub proof fn lemma_le_antisymmetric(a: Seq<char>, b: Seq<char>)
    requires
        chars_le(a, b),
        chars_le(b, a),
    ensures
        a == b,
    decreases a.len(),
{
    if a.len() > 0 && b.len() > 0 {
        assert(a[0] == b[0]);
        lemma_le_antisymmetric(a.drop_first(), b.drop_first());
        assert(a =~= seq![a[0]] + a.drop_first());
        assert(b =~= seq![b[0]] + b.drop_first());
    }
}

proof fn lemma_le_transitive(a: Seq<char>, b: Seq<char>, c: Seq<char>)
    requires
        chars_le(a, b),
        chars_le(b, c),
    ensures
        chars_le(a, c),
    decreases a.len(),
{
    if a.len() > 0 && b.len() > 0 && c.len() > 0 {
        if a[0] == b[0] && b[0] == c[0] {
            lemma_le_transitive(a.drop_first(), b.drop_first(), c.drop_first());
        }
    }
}

pub proof fn lemma_le_total(a: Seq<char>, b: Seq<char>)
    ensures
        chars_le(a, b) || chars_le(b, a),
    decreases a.len(),
{
    if a.len() > 0 && b.len() > 0 && a[0] == b[0] {
        lemma_le_total(a.drop_first(), b.drop_first());
    }
}

/// The order of strings is a total order.
pub proof fn lemma_string_order_total()
    ensures
        total_ordering(string_order()),
{
    assert forall|a: Seq<char>| #[trigger] string_order()(a, a) by {
        lemma_le_reflexive(a);
    }
    assert forall|a: Seq<char>, b: Seq<char>|
        #[trigger] string_order()(a, b) && #[trigger] string_order()(b, a) implies a == b by {
        lemma_le_antisymmetric(a, b);
    }
    assert forall|a: Seq<char>, b: Seq<char>, c: Seq<char>|
        #[trigger] string_order()(a, b) && #[trigger] string_order()(b, c) implies string_order()(a, c) by {
        lemma_le_transitive(a, b, c);
    }
    assert forall|a: Seq<char>, b: Seq<char>| #[trigger] string_order()(a, b) || #[trigger] string_order()(b, a) by {
        lemma_le_total(a, b);
    }
}

/// Whether `a` comes before `b` or equals it.
pub fn str_le(a: &str, b: &str) -> (r: bool)
    ensures
        r == chars_le(a@, b@),
{
    let la = a.unicode_len();
    let lb = b.unicode_len();
    let mut i: usize = 0;
    proof {
        assert(a@.skip(0) =~= a@);
        assert(b@.skip(0) =~= b@);
    }
    while i < la && i < lb
        invariant
            la == a@.len(),
            lb == b@.len(),
            i <= la,
            i <= lb,
            chars_le(a@, b@) == chars_le(a@.skip(i as int), b@.skip(i as int)),
        decreases la - i,
    {
        let ca = a.get_char(i);
        let cb = b.get_char(i);
        proof {
            let sa = a@.skip(i as int);
            let sb = b@.skip(i as int);
            assert(sa[0] == ca);
            assert(sb[0] == cb);
            assert(sa.drop_first() =~= a@.skip(i + 1));
            assert(sb.drop_first() =~= b@.skip(i + 1));
        }
        if ca != cb {
            return ca < cb;
        }
        i = i + 1;
    }
    proof {
        assert(a@.skip(i as int).len() == 0 || b@.skip(i as int).len() == 0);
    }
    i == la
}

/// The list sorted in the order of strings.
pub fn sort_strings(v: &Vec<String>) -> (r: Vec<String>)
    ensures
        seq_views(r@) == seq_views(v@).sort_by(string_order()),
{
    let n = v.len();
    let mut out: Vec<String> = Vec::new();
    let mut i: usize = 0;
    proof {
        lemma_string_order_total();
        assert(seq_views(out@) =~= seq_views(v@.take(0)));
    }
    while i < n
        invariant
            n == v@.len(),
            i <= n,
            total_ordering(string_order()),
            sorted_by(seq_views(out@), string_order()),
            seq_views(out@).to_multiset() == seq_views(v@.take(i as int)).to_multiset(),
        decreases n - i,
    {
        let x = &v[i];
        let m = out.len();
        let mut p: usize = 0;
        while p < m && str_le(out[p].as_str(), x.as_str())
            invariant
                m == out@.len(),
                p <= m,
                forall|k: int| 0 <= k < p ==> chars_le(#[trigger] out@[k]@, x@),
            decreases m - p,
        {
            p = p + 1;
        }
        let ghost before = out@;
        out.insert(p, x.clone());
        proof {
            let w = seq_views(before);
            assert(seq_views(out@) =~= w.insert(p as int, x@));
            assert(p < m ==> !chars_le(w[p as int], x@));
            assert forall|a: int, b: int| 0 <= a < b < seq_views(out@).len() implies #[trigger] string_order()(
                seq_views(out@)[a],
                seq_views(out@)[b],
            ) by {
                let o = seq_views(out@);
                if b < p {
                    assert(o[a] == w[a] && o[b] == w[b]);
                } else if b == p {
                    assert(o[a] == w[a]);
                } else if a == p {
                    assert(o[b] == w[b - 1]);
                    lemma_le_total(w[p as int], x@);
                    if b - 1 > p {
                        assert(string_order()(w[p as int], w[b - 1]));
                        lemma_le_transitive(x@, w[p as int], w[b - 1]);
                    }
                } else if a < p {
                    assert(o[a] == w[a] && o[b] == w[b - 1]);
                    assert(string_order()(w[a], w[b - 1]));
                } else {
                    assert(o[a] == w[a - 1] && o[b] == w[b - 1]);
                    assert(string_order()(w[a - 1], w[b - 1]));
                }
            }
            vstd::seq_lib::to_multiset_insert(w, p as int, x@);
            assert(v@.take(i + 1) =~= v@.take(i as int).push(v@[i as int]));
            assert(seq_views(v@.take(i + 1)) =~= seq_views(v@.take(i as int)).push(x@));
            seq_views(v@.take(i as int)).to_multiset_ensures();
        }
        i = i + 1;
    }
    proof {
        assert(v@.take(n as int) =~= v@);
        seq_views(v@).lemma_sort_by_ensures(string_order());
        vstd::seq_lib::lemma_sorted_unique(seq_views(out@), seq_views(v@).sort_by(string_order()), string_order());
    }
    out
}

} // verus!
