//! The human-friendly order of names ("file2" before "file10"), from the `human_sort`
//! crate, and sorting lists of names in it.
use vstd::prelude::*;

use crate::text::{lemma_seq_views_push, seq_views};

verus! {

/// Whether `c` is one of the digits `0` to `9`.
pub open spec fn is_ascii_digit(c: char) -> bool {
    '0' <= c && c <= '9'
}

/// The value of the run of ASCII digits of `s` that ends just before position `k`, read
/// as a decimal number (`0` where no digit ends there).
pub open spec fn digit_run_value(s: Seq<char>, k: int) -> int
    decreases k,
{
    if k <= 0 || k > s.len() || !is_ascii_digit(s[k - 1]) {
        0
    } else {
        digit_run_value(s, k - 1) * 10 + (s[k - 1] as int - '0' as int)
    }
}

/// Every run of ASCII digits of `s`, read as a decimal number at each of its digits, fits
/// in a `u32`. `human_sort` adds up a run of digits in a `u32`, and a run that does not
/// fit overflows it.
pub open spec fn fitting_digit_runs(s: Seq<char>) -> bool {
    forall|k: int| 0 <= k <= s.len() ==> #[trigger] digit_run_value(s, k) <= u32::MAX
}

/// How `human_sort::compare` orders `a` and `b`: `-1` for less, `0` for equal, `1` for
/// greater.
pub uninterp spec fn human_order(a: Seq<char>, b: Seq<char>) -> i8;

/// `human_sort::compare(a, b)`, as `-1`, `0` or `1`. The contract names the result, states
/// its range, that swapping the arguments reverses it (the crate compares both strings in
/// the same way, character by character and number by number), and that it is `0` only
/// for equal strings (a difference it finds is never equal, and otherwise it falls back
/// to the order of `str`); how it orders digits and other characters is left unsaid.
/// The requirement rules out an overflow in the crate's `take_numeric`, which adds up in a
/// `u32` the digits it reads, always the rest of a digit run of one of the arguments.
#[verifier::external_body]
pub(crate) fn human_compare(a: &str, b: &str) -> (r: i8)
    requires
        fitting_digit_runs(a@),
        fitting_digit_runs(b@),
    ensures
        r == human_order(a@, b@),
        -1 <= r <= 1,
        human_order(b@, a@) == -r,
        (r == 0) == (a@ == b@),
{
    match human_sort::compare(a, b) {
        std::cmp::Ordering::Less => -1,
        std::cmp::Ordering::Equal => 0,
        std::cmp::Ordering::Greater => 1,
    }
}

/// No neighbours of `s` are out of the human order.
pub open spec fn human_sorted(s: Seq<Seq<char>>) -> bool {
    forall|i: int| 0 <= i && i + 1 < s.len() ==> human_order(#[trigger] s[i], s[i + 1]) != 1
}

/// Every digit run of every name of `s` fits in a `u32`.
pub open spec fn all_fitting_digit_runs(s: Seq<Seq<char>>) -> bool {
    forall|i: int| 0 <= i < s.len() ==> fitting_digit_runs(#[trigger] s[i])
}

/// Whether every run of ASCII digits of `s` fits in a `u32`.
pub fn has_fitting_digit_runs(s: &str) -> (r: bool)
    ensures
        r == fitting_digit_runs(s@),
{
    let n = vstd::string::StrSliceExecFns::unicode_len(s);
    let mut value: u64 = 0;
    let mut i: usize = 0;
    while i < n
        invariant
            n == s@.len(),
            i <= n,
            value == digit_run_value(s@, i as int),
            forall|k: int| 0 <= k <= i ==> #[trigger] digit_run_value(s@, k) <= u32::MAX,
        decreases n - i,
    {
        let c = vstd::string::StrSliceExecFns::get_char(s, i);
        if '0' <= c && c <= '9' {
            let d = (c as u32 - '0' as u32) as u64;
            value = value * 10 + d;
            if value > 4294967295u64 {
                proof {
                    assert(digit_run_value(s@, i + 1) == value);
                }
                return false;
            }
        } else {
            value = 0;
        }
        proof {
            assert(digit_run_value(s@, i + 1) == value);
        }
        i = i + 1;
    }
    true
}

/// The names sorted in human order: the same names, each as often as before, where a name
/// is placed after the names before it that do not come after it.
pub fn human_sort_strings(v: &Vec<String>) -> (r: Vec<String>)
    requires
        all_fitting_digit_runs(seq_views(v@)),
    ensures
        seq_views(r@).to_multiset() == seq_views(v@).to_multiset(),
        human_sorted(seq_views(r@)),
        all_fitting_digit_runs(seq_views(r@)),
{
    let n = v.len();
    let mut out: Vec<String> = Vec::new();
    let mut i: usize = 0;
    proof {
        assert(seq_views(out@) =~= seq_views(v@.take(0)));
    }
    while i < n
        invariant
            n == v@.len(),
            i <= n,
            all_fitting_digit_runs(seq_views(v@)),
            all_fitting_digit_runs(seq_views(out@)),
            human_sorted(seq_views(out@)),
            seq_views(out@).to_multiset() == seq_views(v@.take(i as int)).to_multiset(),
        decreases n - i,
    {
        let x = &v[i];
        proof {
            assert(fitting_digit_runs(seq_views(v@)[i as int]));
            assert forall|k: int| 0 <= k < out@.len() implies fitting_digit_runs(#[trigger] out@[k]@) by {
                assert(fitting_digit_runs(seq_views(out@)[k]));
            }
        }
        let m = out.len();
        let mut p: usize = 0;
        while p < m && human_compare(out[p].as_str(), x.as_str()) != 1
            invariant
                m == out@.len(),
                p <= m,
                fitting_digit_runs(x@),
                forall|k: int| 0 <= k < m ==> fitting_digit_runs(#[trigger] out@[k]@),
                p > 0 ==> human_order(out@[p - 1]@, x@) != 1,
            decreases m - p,
        {
            p = p + 1;
        }
        let ghost before = out@;
        let ghost gt = p < m && human_order(before[p as int]@, x@) == 1;
        out.insert(p, x.clone());
        proof {
            let w = seq_views(before);
            let o = seq_views(out@);
            assert(o =~= w.insert(p as int, x@));
            assert forall|a: int| 0 <= a && a + 1 < o.len() implies human_order(#[trigger] o[a], o[a + 1]) != 1 by {
                if a + 1 < p {
                    assert(o[a] == w[a] && o[a + 1] == w[a + 1]);
                } else if a + 1 == p {
                    assert(o[a] == w[a]);
                } else if a == p {
                    assert(o[a + 1] == w[a]);
                    assert(gt);
                } else {
                    assert(o[a] == w[a - 1] && o[a + 1] == w[a]);
                }
            }
            assert forall|a: int| 0 <= a < o.len() implies fitting_digit_runs(#[trigger] o[a]) by {
                if a < p {
                    assert(o[a] == w[a]);
                } else if a > p {
                    assert(o[a] == w[a - 1]);
                }
            }
            vstd::seq_lib::to_multiset_insert(w, p as int, x@);
            assert(v@.take(i + 1) =~= v@.take(i as int).push(v@[i as int]));
            lemma_seq_views_push(v@.take(i as int), v@[i as int]);
            seq_views(v@.take(i as int)).to_multiset_ensures();
        }
        i = i + 1;
    }
    proof {
        assert(v@.take(n as int) =~= v@);
    }
    out
}

} // verus!
