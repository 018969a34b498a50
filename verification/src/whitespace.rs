//! White space as Rust's `char::is_whitespace` sees it (the Unicode `White_Space`
//! property), trimming, and splitting into words.
use vstd::prelude::*;
use vstd::string::StrSliceExecFns;

verus! {

/// The characters with the Unicode `White_Space` property.
pub open spec fn is_white_space(c: char) -> bool {
    ||| ('\u{9}' <= c && c <= '\u{d}')
    ||| c == ' '
    ||| c == '\u{85}'
    ||| c == '\u{a0}'
    ||| c == '\u{1680}'
    ||| ('\u{2000}' <= c && c <= '\u{200a}')
    ||| c == '\u{2028}'
    ||| c == '\u{2029}'
    ||| c == '\u{202f}'
    ||| c == '\u{205f}'
    ||| c == '\u{3000}'
}

/// Whether `c` is white space.
pub fn white_space(c: char) -> (r: bool)
    ensures
        r == is_white_space(c),
{
    ('\u{9}' <= c && c <= '\u{d}') || c == ' ' || c == '\u{85}' || c == '\u{a0}' || c == '\u{1680}' || ('\u{2000}'
        <= c && c <= '\u{200a}') || c == '\u{2028}' || c == '\u{2029}' || c == '\u{202f}' || c == '\u{205f}' || c
        == '\u{3000}'
}

/// `s` without its leading white space.
pub open spec fn trim_start(s: Seq<char>) -> Seq<char>
    decreases s.len(),
{
    if s.len() > 0 && is_white_space(s[0]) {
        trim_start(s.drop_first())
    } else {
        s
    }
}

/// `s` without its trailing white space.
pub open spec fn trim_end(s: Seq<char>) -> Seq<char>
    decreases s.len(),
{
    if s.len() > 0 && is_white_space(s.last()) {
        trim_end(s.drop_last())
    } else {
        s
    }
}

/// `s` without leading and trailing white space, as `str::trim` gives it.
pub open spec fn trimmed(s: Seq<char>) -> Seq<char> {
    trim_end(trim_start(s))
}

/// The length of the run of characters that are not white space at the start of `s`.
pub open spec fn word_len(s: Seq<char>) -> nat
    decreases s.len(),
{
    if s.len() == 0 || is_white_space(s[0]) {
        0
    } else {
        1 + word_len(s.drop_first())
    }
}

/// The words of `s`, the runs of characters that are not white space, as
/// `str::split_whitespace` gives them.
pub open spec fn words(s: Seq<char>) -> Seq<Seq<char>>
    decreases s.len(),
{
    let t = trim_start(s);
    if t.len() == 0 {
        Seq::empty()
    } else {
        proof {
            lemma_trim_start_len(s);
            lemma_trim_start_head(s);
            lemma_word_len_bounds(t);
        }
        seq![t.take(word_len(t) as int)] + words(t.skip(word_len(t) as int))
    }
}

/// What trimming leaves does not start with white space.
pub proof fn lemma_trim_start_head(s: Seq<char>)
    ensures
        trim_start(s).len() > 0 ==> !is_white_space(trim_start(s)[0]),
    decreases s.len(),
{
    if s.len() > 0 && is_white_space(s[0]) {
        lemma_trim_start_head(s.drop_first());
    }
}

/// Trimming never lengthens.
pub proof fn lemma_trim_start_len(s: Seq<char>)
    ensures
        trim_start(s).len() <= s.len(),
    decreases s.len(),
{
    if s.len() > 0 && is_white_space(s[0]) {
        lemma_trim_start_len(s.drop_first());
    }
}

/// A word fits in the text it starts, and is not empty when the text starts with a
/// character that is not white space.
pub proof fn lemma_word_len_bounds(s: Seq<char>)
    ensures
        word_len(s) <= s.len(),
        s.len() > 0 && !is_white_space(s[0]) ==> word_len(s) > 0,
    decreases s.len(),
{
    if s.len() > 0 && !is_white_space(s[0]) {
        lemma_word_len_bounds(s.drop_first());
    }
}

/// The position of the first character of `s` at or after `i` that is not white space.
fn skip_white_space(s: &str, i: usize) -> (r: usize)
    requires
        i <= s@.len(),
    ensures
        i <= r <= s@.len(),
        trim_start(s@.skip(i as int)) == s@.skip(r as int),
{
    let n = s.unicode_len();
    let mut k: usize = i;
    while k < n && white_space(s.get_char(k))
        invariant
            n == s@.len(),
            i <= k <= n,
            trim_start(s@.skip(i as int)) == trim_start(s@.skip(k as int)),
        decreases n - k,
    {
        proof {
            assert(s@.skip(k as int).drop_first() =~= s@.skip(k + 1));
        }
        k = k + 1;
    }
    proof {
        if k == n {
            assert(s@.skip(k as int).len() == 0);
        }
    }
    k
}

/// `s` without leading and trailing white space.
pub fn trim(s: &str) -> (r: String)
    ensures
        r@ == trimmed(s@),
{
    proof {
        assert(s@.skip(0) =~= s@);
    }
    let a = skip_white_space(s, 0);
    let mut b: usize = s.unicode_len();
    proof {
        assert(s@.skip(a as int).subrange(0, (b - a) as int) =~= s@.skip(a as int));
    }
    while b > a && white_space(s.get_char(b - 1))
        invariant
            a <= b <= s@.len(),
            trim_end(s@.skip(a as int)) == trim_end(s@.subrange(a as int, b as int)),
        decreases b,
    {
        proof {
            assert(s@.subrange(a as int, b as int).drop_last() =~= s@.subrange(a as int, b - 1));
        }
        b = b - 1;
    }
    s.substring_char(a, b).to_owned()
}

/// The words of `s`.
pub fn split_words(s: &str) -> (r: Vec<String>)
    ensures
        r@.map_values(|w: String| w@) == words(s@),
{
    let n = s.unicode_len();
    let mut out: Vec<String> = Vec::new();
    let mut i: usize = 0;
    proof {
        assert(s@.skip(0) =~= s@);
        assert(out@.map_values(|w: String| w@) + words(s@) =~= words(s@));
    }
    while i < n
        invariant
            n == s@.len(),
            i <= n,
            out@.map_values(|w: String| w@) + words(s@.skip(i as int)) == words(s@),
        decreases n - i,
    {
        let start = skip_white_space(s, i);
        if start == n {
            proof {
                assert(trim_start(s@.skip(i as int)).len() == 0);
                assert(words(s@.skip(i as int)) =~= Seq::<Seq<char>>::empty());
            }
            i = n;
        } else {
            let mut end: usize = start;
            proof {
                assert(s@.skip(start as int).len() > 0);
                lemma_trim_start_head(s@.skip(i as int));
                assert(!is_white_space(s@.skip(start as int)[0]));
            }
            while end < n && !white_space(s.get_char(end))
                invariant
                    n == s@.len(),
                    start <= end <= n,
                    word_len(s@.skip(start as int)) == (end - start) + word_len(s@.skip(end as int)),
                decreases n - end,
            {
                proof {
                    assert(s@.skip(end as int).drop_first() =~= s@.skip(end + 1));
                }
                end = end + 1;
            }
            proof {
                assert(word_len(s@.skip(end as int)) == 0);
            }
            let word = s.substring_char(start, end).to_owned();
            let ghost before = out@;
            out.push(word);
            proof {
                let t = s@.skip(start as int);
                assert(trim_start(s@.skip(i as int)) == t);
                assert(t.len() > 0);
                assert(t.take(word_len(t) as int) =~= word@);
                assert(t.skip(word_len(t) as int) =~= s@.skip(end as int));
                assert(words(s@.skip(i as int)) == seq![word@] + words(s@.skip(end as int)));
                assert(out@.map_values(|w: String| w@) =~= before.map_values(|w: String| w@).push(word@));
                assert(out@.map_values(|w: String| w@) + words(s@.skip(end as int)) =~= before.map_values(
                    |w: String| w@,
                ) + words(s@.skip(i as int)));
            }
            i = end;
        }
    }
    proof {
        assert(s@.skip(n as int).len() == 0);
        assert(words(s@.skip(n as int)) =~= Seq::<Seq<char>>::empty());
        assert(out@.map_values(|w: String| w@) + Seq::<Seq<char>>::empty() =~= out@.map_values(|w: String| w@));
    }
    out
}

} // verus!
