//! Paths held as text, read the way `std::path::Path` reads them on Unix: as a list of
//! components. Two paths are the same when their components are, and paths sort by their
//! components, so `/a/b`, `/a//b`, `/a/./b` and `/a/b/` all name one directory.
use vstd::prelude::*;
use vstd::string::StrSliceExecFns;

use crate::archive_paths::PathPart;
use crate::ordering::{chars_le, lemma_le_total, str_le};
use crate::text::str_eq;

verus! {

/// One component of a path; the variants are listed in the order in which they sort.
pub enum PathComponent {
    /// A Windows drive or share prefix (never read from a Unix path).
    Prefix,
    /// The root `/`.
    RootDir,
    /// A leading `.`.
    CurDir,
    /// `..`
    ParentDir,
    /// A plain name.
    Normal(Seq<char>),
}

/// The component that a [`PathPart`] stands for.
pub open spec fn part_view(p: PathPart) -> PathComponent {
    match p {
        PathPart::Normal(s) => PathComponent::Normal(s@),
        PathPart::ParentDir => PathComponent::ParentDir,
        PathPart::CurDir => PathComponent::CurDir,
        PathPart::RootDir => PathComponent::RootDir,
        PathPart::Prefix => PathComponent::Prefix,
    }
}

/// The components that a list of [`PathPart`]s stands for.
pub open spec fn part_views(v: Seq<PathPart>) -> Seq<PathComponent> {
    v.map_values(|p: PathPart| part_view(p))
}

/// The length of the first `/`-separated segment of `s`.
pub open spec fn segment_len(s: Seq<char>) -> nat
    decreases s.len(),
{
    if s.len() == 0 || s[0] == '/' {
        0
    } else {
        1 + segment_len(s.drop_first())
    }
}

/// The first segment fits in `s`, holds no `/`, and is followed by one where it ends
/// before `s` does.
pub proof fn lemma_segment_len(s: Seq<char>)
    ensures
        segment_len(s) <= s.len(),
        segment_len(s) < s.len() ==> s[segment_len(s) as int] == '/',
        forall|k: int| 0 <= k < segment_len(s) ==> s[k] != '/',
    decreases s.len(),
{
    if s.len() > 0 && s[0] != '/' {
        lemma_segment_len(s.drop_first());
        assert forall|k: int| 0 <= k < segment_len(s) implies s[k] != '/' by {
            if k > 0 {
                assert(s[k] == s.drop_first()[k - 1]);
            }
        }
    }
}

/// What a segment adds to the components: nothing when it is empty or `.`.
pub open spec fn segment_components(g: Seq<char>) -> Seq<PathComponent> {
    if g.len() == 0 || g == seq!['.'] {
        Seq::empty()
    } else if g == seq!['.', '.'] {
        seq![PathComponent::ParentDir]
    } else {
        seq![PathComponent::Normal(g)]
    }
}

/// The components of the segments of `s`, read from its start.
pub open spec fn body_components(s: Seq<char>) -> Seq<PathComponent>
    decreases s.len(),
{
    let k = segment_len(s);
    if k < s.len() {
        proof {
            lemma_segment_len(s);
        }
        segment_components(s.take(k as int)) + body_components(s.skip(k + 1 as int))
    } else {
        segment_components(s)
    }
}

/// The components of the path `s`: the root where `s` starts with `/`, a `.` where it is
/// the first segment, then `..` and the names, with empty and `.` segments left out.
pub open spec fn path_components(s: Seq<char>) -> Seq<PathComponent> {
    if s.len() > 0 && s[0] == '/' {
        seq![PathComponent::RootDir] + body_components(s.drop_first())
    } else if s.take(segment_len(s) as int) == seq!['.'] {
        seq![PathComponent::CurDir] + body_components(s.skip(1))
    } else {
        body_components(s)
    }
}

/// `a` and `b` name the same path.
pub open spec fn same_path_text(a: Seq<char>, b: Seq<char>) -> bool {
    path_components(a) == path_components(b)
}

/// The place of a component's kind in the order.
pub open spec fn component_rank(c: PathComponent) -> int {
    match c {
        PathComponent::Prefix => 0,
        PathComponent::RootDir => 1,
        PathComponent::CurDir => 2,
        PathComponent::ParentDir => 3,
        PathComponent::Normal(_) => 4,
    }
}

/// `a` comes before `b` or ties with it: by kind, and names by the order of strings.
pub open spec fn component_le(a: PathComponent, b: PathComponent) -> bool {
    if component_rank(a) != component_rank(b) {
        component_rank(a) < component_rank(b)
    } else {
        match (a, b) {
            (PathComponent::Normal(x), PathComponent::Normal(y)) => chars_le(x, y),
            _ => true,
        }
    }
}

/// The components `a` come before `b` or equal them: the first component where they
/// differ decides, and a list that runs out first comes first.
pub open spec fn components_le(a: Seq<PathComponent>, b: Seq<PathComponent>) -> bool
    decreases a.len(),
{
    if a.len() == 0 {
        true
    } else if b.len() == 0 {
        false
    } else if a[0] != b[0] {
        component_le(a[0], b[0])
    } else {
        components_le(a.drop_first(), b.drop_first())
    }
}

/// The path `a` sorts before `b` or with it.
pub open spec fn path_text_le(a: Seq<char>, b: Seq<char>) -> bool {
    components_le(path_components(a), path_components(b))
}

/// Of any two lists of components, one comes before the other.
pub proof fn lemma_components_le_total(a: Seq<PathComponent>, b: Seq<PathComponent>)
    ensures
        components_le(a, b) || components_le(b, a),
    decreases a.len(),
{
    if a.len() > 0 && b.len() > 0 {
        if a[0] != b[0] {
            match (a[0], b[0]) {
                (PathComponent::Normal(x), PathComponent::Normal(y)) => {
                    lemma_le_total(x, y);
                },
                _ => {},
            }
        } else {
            lemma_components_le_total(a.drop_first(), b.drop_first());
        }
    }
}

/// The position where the segment of `s` that starts at `i` ends.
fn segment_end(s: &str, i: usize) -> (r: usize)
    requires
        i <= s@.len(),
    ensures
        i <= r <= s@.len(),
        r - i == segment_len(s@.skip(i as int)),
{
    let n = s.unicode_len();
    let mut k: usize = i;
    proof {
        lemma_segment_len(s@.skip(i as int));
    }
    while k < n && s.get_char(k) != '/'
        invariant
            n == s@.len(),
            i <= k <= n,
            segment_len(s@.skip(i as int)) == (k - i) + segment_len(s@.skip(k as int)),
        decreases n - k,
    {
        proof {
            assert(s@.skip(k as int).drop_first() =~= s@.skip(k + 1));
        }
        k = k + 1;
    }
    proof {
        if k == n {
            assert(s@.skip(k as int).len() == 0);
        }
    }
    k
}

/// The components of the segment of `s` from `i` to `e`, added to `out`.
fn push_segment(s: &str, i: usize, e: usize, out: &mut Vec<PathPart>)
    requires
        i <= e <= s@.len(),
    ensures
        part_views(final(out)@) == part_views(old(out)@) + segment_components(s@.subrange(i as int, e as int)),
{
    let ghost g = s@.subrange(i as int, e as int);
    let ghost before = out@;
    let len = e - i;
    if len == 0 || (len == 1 && s.get_char(i) == '.') {
        proof {
            if len == 1 {
                assert(g =~= seq!['.']);
            }
            assert(segment_components(g) =~= Seq::<PathComponent>::empty());
            assert(part_views(out@) =~= part_views(before) + segment_components(g));
        }
    } else if len == 2 && s.get_char(i) == '.' && s.get_char(i + 1) == '.' {
        out.push(PathPart::ParentDir);
        proof {
            assert(g =~= seq!['.', '.']);
            assert(g.len() != 1);
            assert(part_views(out@) =~= part_views(before) + segment_components(g));
        }
    } else {
        let name = s.substring_char(i, e).to_owned();
        out.push(PathPart::Normal(name));
        proof {
            assert(name@ =~= g);
            if len == 1 {
                assert(g[0] != '.');
                assert(g != seq!['.']);
            }
            if len == 2 {
                assert(g[0] != '.' || g[1] != '.');
                assert(g != seq!['.', '.']);
            }
            assert(g != seq!['.']);
            assert(g != seq!['.', '.']);
            assert(part_views(out@) =~= part_views(before) + segment_components(g));
        }
    }
}

/// The components of the path `s`.
pub fn path_parts(s: &str) -> (r: Vec<PathPart>)
    ensures
        part_views(r@) == path_components(s@),
{
    let n = s.unicode_len();
    let mut out: Vec<PathPart> = Vec::new();
    let mut i: usize = 0;
    let first_end = segment_end(s, 0);
    proof {
        assert(s@.skip(0) =~= s@);
        lemma_segment_len(s@);
    }
    if n > 0 && s.get_char(0) == '/' {
        out.push(PathPart::RootDir);
        i = 1;
        proof {
            assert(s@.drop_first() =~= s@.skip(1));
            assert(part_views(out@) =~= seq![PathComponent::RootDir]);
        }
    } else if first_end == 1 && s.get_char(0) == '.' {
        out.push(PathPart::CurDir);
        i = 1;
        proof {
            assert(s@.take(1) =~= seq!['.']);
            assert(part_views(out@) =~= seq![PathComponent::CurDir]);
        }
    } else {
        proof {
            if s@.take(segment_len(s@) as int) == seq!['.'] {
                assert(s@.take(segment_len(s@) as int)[0] == '.');
            }
            assert(part_views(out@) =~= Seq::<PathComponent>::empty());
            assert(part_views(out@) + body_components(s@) =~= body_components(s@));
        }
    }
    let mut done = false;
    while !done
        invariant
            n == s@.len(),
            i <= n,
            !done ==> part_views(out@) + body_components(s@.skip(i as int)) == path_components(s@),
            done ==> part_views(out@) == path_components(s@),
        decreases (n - i) as int + (if done { 0int } else { 1int }),
    {
        let e = segment_end(s, i);
        let ghost t = s@.skip(i as int);
        let ghost before = out@;
        proof {
            lemma_segment_len(t);
            assert(t.take((e - i) as int) =~= s@.subrange(i as int, e as int));
        }
        push_segment(s, i, e, &mut out);
        if e == n {
            proof {
                assert(t.take((e - i) as int) =~= t);
                assert(body_components(t) == segment_components(t));
                assert(part_views(out@) =~= part_views(before) + body_components(t));
            }
            done = true;
        } else {
            proof {
                assert(t.skip((e - i) + 1) =~= s@.skip(e + 1));
                assert(body_components(t) == segment_components(t.take((e - i) as int)) + body_components(
                    t.skip((e - i) + 1),
                ));
                assert(part_views(out@) + body_components(s@.skip(e + 1)) =~= part_views(before) + body_components(t));
            }
            i = e + 1;
        }
    }
    out
}

/// Whether two components are the same.
fn part_eq(x: &PathPart, y: &PathPart) -> (r: bool)
    ensures
        r == (part_view(*x) == part_view(*y)),
{
    match (x, y) {
        (PathPart::Normal(p), PathPart::Normal(q)) => str_eq(p.as_str(), q.as_str()),
        (PathPart::ParentDir, PathPart::ParentDir) => true,
        (PathPart::CurDir, PathPart::CurDir) => true,
        (PathPart::RootDir, PathPart::RootDir) => true,
        (PathPart::Prefix, PathPart::Prefix) => true,
        _ => false,
    }
}

/// Whether `a` and `b` name the same path, component by component.
pub fn same_path(a: &str, b: &str) -> (r: bool)
    ensures
        r == same_path_text(a@, b@),
{
    let pa = path_parts(a);
    let pb = path_parts(b);
    if pa.len() != pb.len() {
        proof {
            assert(part_views(pa@).len() != part_views(pb@).len());
        }
        return false;
    }
    let n = pa.len();
    let mut i: usize = 0;
    while i < n
        invariant
            n == pa@.len(),
            n == pb@.len(),
            i <= n,
            part_views(pa@) == path_components(a@),
            part_views(pb@) == path_components(b@),
            forall|k: int| 0 <= k < i ==> part_view(#[trigger] pa@[k]) == part_view(pb@[k]),
        decreases n - i,
    {
        if !part_eq(&pa[i], &pb[i]) {
            proof {
                assert(part_views(pa@)[i as int] != part_views(pb@)[i as int]);
                assert(part_views(pa@) != part_views(pb@));
                assert(!same_path_text(a@, b@));
            }
            return false;
        }
        i = i + 1;
    }
    proof {
        assert(part_views(pa@) =~= part_views(pb@));
    }
    true
}

/// The place of a component's kind in the order.
fn part_rank(x: &PathPart) -> (r: u8)
    ensures
        r == component_rank(part_view(*x)),
{
    match x {
        PathPart::Prefix => 0,
        PathPart::RootDir => 1,
        PathPart::CurDir => 2,
        PathPart::ParentDir => 3,
        PathPart::Normal(_) => 4,
    }
}

/// How two components compare: `0` where they are the same, `-1` where the first comes
/// before the second, `1` otherwise.
fn part_order(x: &PathPart, y: &PathPart) -> (r: i8)
    ensures
        r == 0 <==> part_view(*x) == part_view(*y),
        r == -1 <==> (part_view(*x) != part_view(*y) && component_le(part_view(*x), part_view(*y))),
        r == 1 <==> (part_view(*x) != part_view(*y) && !component_le(part_view(*x), part_view(*y))),
{
    let rx = part_rank(x);
    let ry = part_rank(y);
    if rx != ry {
        return if rx < ry {
            -1
        } else {
            1
        };
    }
    match (x, y) {
        (PathPart::Normal(p), PathPart::Normal(q)) => {
            if str_eq(p.as_str(), q.as_str()) {
                0
            } else if str_le(p.as_str(), q.as_str()) {
                -1
            } else {
                1
            }
        },
        _ => 0,
    }
}

/// Whether the path `a` sorts before `b` or with it, component by component.
pub fn path_le(a: &str, b: &str) -> (r: bool)
    ensures
        r == path_text_le(a@, b@),
{
    let pa = path_parts(a);
    let pb = path_parts(b);
    let la = pa.len();
    let lb = pb.len();
    let ghost va = part_views(pa@);
    let ghost vb = part_views(pb@);
    let mut i: usize = 0;
    proof {
        assert(va.skip(0) =~= va);
        assert(vb.skip(0) =~= vb);
    }
    while i < la && i < lb
        invariant
            la == pa@.len(),
            lb == pb@.len(),
            va == part_views(pa@),
            vb == part_views(pb@),
            va == path_components(a@),
            vb == path_components(b@),
            i <= la,
            i <= lb,
            components_le(va, vb) == components_le(va.skip(i as int), vb.skip(i as int)),
        decreases la - i,
    {
        let c = part_order(&pa[i], &pb[i]);
        proof {
            let sa = va.skip(i as int);
            let sb = vb.skip(i as int);
            assert(sa[0] == part_view(pa@[i as int]));
            assert(sb[0] == part_view(pb@[i as int]));
            assert(sa.drop_first() =~= va.skip(i + 1));
            assert(sb.drop_first() =~= vb.skip(i + 1));
        }
        if c != 0 {
            proof {
                let sa = va.skip(i as int);
                let sb = vb.skip(i as int);
                assert(sa[0] != sb[0]);
                assert(components_le(sa, sb) == component_le(sa[0], sb[0]));
            }
            return c < 0;
        }
        i = i + 1;
    }
    proof {
        assert(va.skip(i as int).len() == 0 || vb.skip(i as int).len() == 0);
    }
    i == la
}

} // verus!
