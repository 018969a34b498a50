//! Where the entries of a downloaded archive land, once the leading directories the
//! installation configuration strips are dropped.
//!
//! The caller reads an entry's path as its components and unpacks the entry at the
//! returned relative path below the installation directory.
use vstd::prelude::*;

verus! {

/// One component of an entry's path.
#[derive(Debug, Clone)]
pub enum PathPart {
    /// A plain name.
    Normal(String),
    /// `..`
    ParentDir,
    /// `.`
    CurDir,
    /// The root `/`.
    RootDir,
    /// A Windows drive or share prefix.
    Prefix,
}

/// Why a tar entry is refused.
#[derive(Debug, Clone, Copy, PartialEq, Eq)]
pub enum UnsafeEntry {
    /// A `..` or `.` remains after stripping.
    UnsafeComponent,
    /// A root or prefix remains after stripping.
    NonStandardComponent,
}

/// The components left after dropping the first `skip`.
pub open spec fn after_skip(parts: Seq<PathPart>, skip: int) -> Seq<PathPart> {
    if skip >= parts.len() {
        Seq::empty()
    } else {
        parts.skip(skip)
    }
}

/// The names of the plain components of `parts` from position `k` on.
pub open spec fn normal_names_from(parts: Seq<PathPart>, k: int) -> Seq<Seq<char>>
    decreases parts.len() - k,
{
    if k < 0 || k >= parts.len() {
        Seq::empty()
    } else {
        match parts[k] {
            PathPart::Normal(n) => seq![n@] + normal_names_from(parts, k + 1),
            _ => normal_names_from(parts, k + 1),
        }
    }
}

/// Where a tar entry lands: all components left after stripping must be plain names.
pub open spec fn tar_target_from(parts: Seq<PathPart>, k: int) -> Result<Seq<Seq<char>>, UnsafeEntry>
    decreases parts.len() - k,
{
    if k < 0 || k >= parts.len() {
        Ok(Seq::empty())
    } else {
        match parts[k] {
            PathPart::Normal(n) => match tar_target_from(parts, k + 1) {
                Ok(rest) => Ok(seq![n@] + rest),
                Err(e) => Err(e),
            },
            PathPart::ParentDir => Err(UnsafeEntry::UnsafeComponent),
            PathPart::CurDir => Err(UnsafeEntry::UnsafeComponent),
            _ => Err(UnsafeEntry::NonStandardComponent),
        }
    }
}

/// The view of a list of names.
pub open spec fn names_view(r: Result<Vec<String>, UnsafeEntry>) -> Result<Seq<Seq<char>>, UnsafeEntry> {
    match r {
        Ok(v) => Ok(v@.map_values(|s: String| s@)),
        Err(e) => Err(e),
    }
}

/// The relative path of a tar entry with components `parts`, after dropping the first
/// `levels_to_skip`; refused when a component other than a plain name remains.
pub fn tar_entry_target(parts: &Vec<PathPart>, levels_to_skip: usize) -> (r: Result<Vec<String>, UnsafeEntry>)
    ensures
        names_view(r) == tar_target_from(parts@, levels_to_skip as int),
{
    let n = parts.len();
    let mut out: Vec<String> = Vec::new();
    let mut k: usize = levels_to_skip;
    let ghost start = levels_to_skip as int;
    while k < n
        invariant
            n == parts@.len(),
            start == levels_to_skip as int,
            start <= k,
            tar_target_from(parts@, start) is Ok ==> tar_target_from(parts@, k as int) is Ok,
            tar_target_from(parts@, start) == match tar_target_from(parts@, k as int) {
                Ok(rest) => Ok(out@.map_values(|s: String| s@) + rest),
                Err(e) => Err(e),
            },
        decreases n - k,
    {
        match &parts[k] {
            PathPart::Normal(name) => {
                let ghost before = out@;
                out.push(name.clone());
                proof {
                    assert(out@.map_values(|s: String| s@) =~= before.map_values(|s: String| s@) + seq![name@]);
                    match tar_target_from(parts@, k + 1) {
                        Ok(rest) => {
                            assert(before.map_values(|s: String| s@) + (seq![name@] + rest) =~= out@.map_values(
                                |s: String| s@,
                            ) + rest);
                        },
                        Err(_) => {},
                    }
                }
            },
            PathPart::ParentDir => {
                return Err(UnsafeEntry::UnsafeComponent);
            },
            PathPart::CurDir => {
                return Err(UnsafeEntry::UnsafeComponent);
            },
            _ => {
                return Err(UnsafeEntry::NonStandardComponent);
            },
        }
        k = k + 1;
    }
    proof {
        assert(out@.map_values(|s: String| s@) + Seq::<Seq<char>>::empty() =~= out@.map_values(|s: String| s@));
    }
    Ok(out)
}

/// The relative path of a zip entry with components `parts`: the plain names left after
/// dropping the first `levels_to_skip`. An empty result means the entry is skipped.
pub fn zip_entry_target(parts: &Vec<PathPart>, levels_to_skip: usize) -> (r: Vec<String>)
    ensures
        r@.map_values(|s: String| s@) == normal_names_from(parts@, levels_to_skip as int),
{
    let n = parts.len();
    let mut out: Vec<String> = Vec::new();
    let mut k: usize = levels_to_skip;
    let ghost start = levels_to_skip as int;
    while k < n
        invariant
            n == parts@.len(),
            start == levels_to_skip as int,
            start <= k,
            normal_names_from(parts@, start) == out@.map_values(|s: String| s@) + normal_names_from(parts@, k as int),
        decreases n - k,
    {
        let ghost before = out@;
        match &parts[k] {
            PathPart::Normal(name) => {
                out.push(name.clone());
                proof {
                    assert(out@.map_values(|s: String| s@) =~= before.map_values(|s: String| s@) + seq![name@]);
                    assert(before.map_values(|s: String| s@) + (seq![name@] + normal_names_from(parts@, k + 1))
                        =~= out@.map_values(|s: String| s@) + normal_names_from(parts@, k + 1));
                }
            },
            _ => {},
        }
        k = k + 1;
    }
    proof {
        assert(out@.map_values(|s: String| s@) + Seq::<Seq<char>>::empty() =~= out@.map_values(|s: String| s@));
    }
    out
}

} // verus!
