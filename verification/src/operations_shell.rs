//! Editing of shell start-up scripts so that they put the gup bin directory on `PATH`.
//!
//! A start-up script may hold one gup section, delimited by an opening and a
//! closing marker line. Reading and writing the files is left to the caller; this
//! module computes what a script holds after the section has been added or removed.
use vstd::prelude::*;
use vstd::slice::slice_subrange;
use vstd::string::StringSliceAdditionalSpecFns;

use crate::global_paths::{path_join, spec_path_join};
use crate::text::str_eq;
use crate::constants::{
    end_marker, header_bytes, start_marker, SHELL_SCRIPT_END_MARKER, SHELL_SCRIPT_HEADER,
    SHELL_SCRIPT_START_MARKER,
};

verus! {

broadcast use vstd::seq::group_seq_axioms;

/// `needle` occurs in `haystack` at position `i`.
pub open spec fn occurs_at(haystack: Seq<u8>, needle: Seq<u8>, i: int) -> bool {
    &&& 0 <= i
    &&& i + needle.len() <= haystack.len()
    &&& forall|k: int| 0 <= k < needle.len() ==> haystack[i + k] == #[trigger] needle[k]
}

/// The first position at or after `i` where `needle` occurs in `haystack`.
pub open spec fn find_from(haystack: Seq<u8>, needle: Seq<u8>, i: int) -> Option<int>
    decreases haystack.len() - i,
{
    if i < 0 || i + needle.len() > haystack.len() {
        None
    } else if occurs_at(haystack, needle, i) {
        Some(i)
    } else {
        find_from(haystack, needle, i + 1)
    }
}

/// What `find_from` returns: the least position of an occurrence, or none if there is none.
pub proof fn lemma_find_from(haystack: Seq<u8>, needle: Seq<u8>, i: int)
    requires
        0 <= i,
    ensures
        match find_from(haystack, needle, i) {
            Some(k) => i <= k && occurs_at(haystack, needle, k) && forall|j: int|
                i <= j < k ==> !#[trigger] occurs_at(haystack, needle, j),
            None => forall|j: int| i <= j ==> !#[trigger] occurs_at(haystack, needle, j),
        },
    decreases haystack.len() - i,
{
    if i + needle.len() > haystack.len() {
    } else if occurs_at(haystack, needle, i) {
    } else {
        lemma_find_from(haystack, needle, i + 1);
    }
}

/// The first occurrence of `needle` in `haystack` at or after position `start`.
pub fn find_subslice(haystack: &[u8], needle: &[u8], start: usize) -> (r: Option<usize>)
    ensures
        match r {
            Some(k) => find_from(haystack@, needle@, start as int) == Some(k as int),
            None => find_from(haystack@, needle@, start as int) is None,
        },
{
    let hl = haystack.len();
    let nl = needle.len();
    if nl > hl {
        return None;
    }
    let mut i = start;
    while i <= hl - nl
        invariant
            hl == haystack@.len(),
            nl == needle@.len(),
            nl <= hl,
            start <= i,
            find_from(haystack@, needle@, start as int) == find_from(haystack@, needle@, i as int),
        decreases hl - i,
    {
        let mut k: usize = 0;
        while k < nl
            invariant
                hl == haystack@.len(),
                nl == needle@.len(),
                i + nl <= hl,
                k <= nl,
                forall|m: int| 0 <= m < k ==> haystack@[i + m] == #[trigger] needle@[m],
            ensures
                k <= nl,
                forall|m: int| 0 <= m < k ==> haystack@[i + m] == #[trigger] needle@[m],
                k < nl ==> haystack@[i + k] != needle@[k as int],
            decreases nl - k,
        {
            if haystack[i + k] != needle[k] {
                break;
            }
            k = k + 1;
        }
        if k == nl {
            assert(occurs_at(haystack@, needle@, i as int));
            return Some(i);
        }
        assert(!occurs_at(haystack@, needle@, i as int));
        i = i + 1;
    }
    None
}

/// Why the gup section of a start-up script could not be located.
#[derive(Debug, Clone, Copy, PartialEq, Eq)]
pub enum MarkerError {
    /// More than one opening or closing marker was found.
    MultipleSections,
    /// An opening marker was found but no closing marker.
    MissingEndMarker,
    /// A closing marker was found but no opening marker.
    MissingStartMarker,
}

/// Where the gup section of `buffer` lies: from the first opening marker to the end of
/// the first closing marker.
pub open spec fn spec_match_markers(buffer: Seq<u8>) -> Result<Option<(int, int)>, MarkerError> {
    match (find_from(buffer, start_marker(), 0), find_from(buffer, end_marker(), 0)) {
        (Some(s), Some(e)) => {
            if find_from(buffer, start_marker(), s + start_marker().len()) is Some || find_from(
                buffer,
                end_marker(),
                e + end_marker().len(),
            ) is Some {
                Err(MarkerError::MultipleSections)
            } else {
                Ok(Some((s, e + end_marker().len())))
            }
        },
        (None, None) => Ok(None),
        (Some(_), None) => Err(MarkerError::MissingEndMarker),
        (None, Some(_)) => Err(MarkerError::MissingStartMarker),
    }
}

/// The view of a result of `match_markers` over integers.
pub open spec fn marker_result_view(r: Result<Option<(usize, usize)>, MarkerError>) -> Result<
    Option<(int, int)>,
    MarkerError,
> {
    match r {
        Ok(Some((s, e))) => Ok(Some((s as int, e as int))),
        Ok(None) => Ok(None),
        Err(err) => Err(err),
    }
}

/// A located section lies within the buffer.
pub proof fn lemma_match_markers_bounds(buffer: Seq<u8>)
    ensures
        spec_match_markers(buffer) matches Ok(Some((s, e))) ==> {
            &&& 0 <= s
            &&& s + start_marker().len() <= buffer.len()
            &&& end_marker().len() <= e <= buffer.len()
        },
{
    lemma_find_from(buffer, start_marker(), 0);
    lemma_find_from(buffer, end_marker(), 0);
}

/// Locates the gup section in the contents of a start-up script.
pub fn match_markers(buffer: &[u8]) -> (r: Result<Option<(usize, usize)>, MarkerError>)
    ensures
        marker_result_view(r) == spec_match_markers(buffer@),
{
    let s_marker = SHELL_SCRIPT_START_MARKER.as_bytes();
    let e_marker = SHELL_SCRIPT_END_MARKER.as_bytes();
    let buffer_len = buffer.len();
    let start = find_subslice(buffer, s_marker, 0);
    let end = find_subslice(buffer, e_marker, 0);
    match (start, end) {
        (Some(sidx), Some(eidx)) => {
            proof {
                lemma_find_from(buffer@, start_marker(), 0);
                lemma_find_from(buffer@, end_marker(), 0);
                assert(sidx + s_marker@.len() <= buffer_len);
                assert(eidx + e_marker@.len() <= buffer_len);
            }
            let second_s = find_subslice(buffer, s_marker, sidx + s_marker.len());
            let second_e = find_subslice(buffer, e_marker, eidx + e_marker.len());
            if second_s.is_some() || second_e.is_some() {
                return Err(MarkerError::MultipleSections);
            }
            Ok(Some((sidx, eidx + e_marker.len())))
        },
        (None, None) => Ok(None),
        (Some(_), None) => Err(MarkerError::MissingEndMarker),
        (None, Some(_)) => Err(MarkerError::MissingStartMarker),
    }
}


/// Appends the bytes of `tail` to `buf`.
fn append_bytes(buf: &mut Vec<u8>, tail: &[u8])
    ensures
        final(buf)@ == old(buf)@ + tail@,
{
    let n = tail.len();
    let mut i: usize = 0;
    while i < n
        invariant
            n == tail@.len(),
            i <= n,
            buf@ == old(buf)@ + tail@.subrange(0, i as int),
        decreases n - i,
    {
        buf.push(tail[i]);
        proof {
            assert(tail@.subrange(0, i + 1) == tail@.subrange(0, i as int).push(tail@[i as int]));
        }
        i = i + 1;
    }
    proof {
        assert(tail@.subrange(0, n as int) == tail@);
    }
}

/// The lines that put `bin_path` in front of `PATH` in a zsh start-up script.
pub open spec fn zsh_lines(bin_path: Seq<u8>) -> Seq<u8> {
    "path=('".spec_bytes() + bin_path + "' $path)\nexport PATH\n".spec_bytes()
}

/// The lines that put `bin_path` in front of `PATH` in a POSIX shell start-up script,
/// unless it is already there.
pub open spec fn sh_lines(bin_path: Seq<u8>) -> Seq<u8> {
    "case \":$PATH:\" in\n    *:".spec_bytes() + bin_path
        + ":*)\n        ;;\n\n    *)\n        export PATH=".spec_bytes() + bin_path
        + "${PATH:+:${PATH}}\n        ;;\nesac\n".spec_bytes()
}

/// The complete gup section for a start-up script: opening marker, header, the lines
/// for the shell, a newline and the closing marker.
pub open spec fn gup_section(bin_path: Seq<u8>, is_zshrc: bool) -> Seq<u8> {
    start_marker() + header_bytes() + (if is_zshrc {
        zsh_lines(bin_path)
    } else {
        sh_lines(bin_path)
    }) + "\n".spec_bytes() + end_marker()
}

/// Appends the zsh lines for `path_str` to `buf`.
pub fn append_zsh_content(buf: &mut Vec<u8>, path_str: &str)
    ensures
        final(buf)@ == old(buf)@ + zsh_lines(path_str.spec_bytes()),
{
    append_bytes(buf, "path=('".as_bytes());
    append_bytes(buf, path_str.as_bytes());
    append_bytes(buf, "' $path)\nexport PATH\n".as_bytes());
    proof {
        assert(buf@ == old(buf)@ + zsh_lines(path_str.spec_bytes()));
    }
}

/// Appends the POSIX shell lines for `path_str` to `buf`.
pub fn append_sh_content(buf: &mut Vec<u8>, path_str: &str)
    ensures
        final(buf)@ == old(buf)@ + sh_lines(path_str.spec_bytes()),
{
    append_bytes(buf, "case \":$PATH:\" in\n    *:".as_bytes());
    append_bytes(buf, path_str.as_bytes());
    append_bytes(buf, ":*)\n        ;;\n\n    *)\n        export PATH=".as_bytes());
    append_bytes(buf, path_str.as_bytes());
    append_bytes(buf, "${PATH:+:${PATH}}\n        ;;\nesac\n".as_bytes());
    proof {
        assert(buf@ == old(buf)@ + sh_lines(path_str.spec_bytes()));
    }
}

/// The gup section for a start-up script; `is_zshrc` tells whether the script is `.zshrc`.
pub fn get_shell_script_gup_content(bin_path: &str, is_zshrc: bool) -> (r: Vec<u8>)
    ensures
        r@ == gup_section(bin_path.spec_bytes(), is_zshrc),
{
    let mut result: Vec<u8> = Vec::new();
    append_bytes(&mut result, SHELL_SCRIPT_START_MARKER.as_bytes());
    append_bytes(&mut result, SHELL_SCRIPT_HEADER.as_bytes());
    if is_zshrc {
        append_zsh_content(&mut result, bin_path);
    } else {
        append_sh_content(&mut result, bin_path);
    }
    append_bytes(&mut result, "\n".as_bytes());
    append_bytes(&mut result, SHELL_SCRIPT_END_MARKER.as_bytes());
    proof {
        assert(result@ == gup_section(bin_path.spec_bytes(), is_zshrc));
    }
    result
}

/// In `buffer`, the gup section does not end before it starts (a closing marker that
/// precedes the opening marker leaves no section to replace).
pub open spec fn markers_in_order(buffer: Seq<u8>) -> bool {
    match spec_match_markers(buffer) {
        Ok(Some((s, e))) => s <= e,
        _ => true,
    }
}

/// The contents of a start-up script after `section` has been written into it: the
/// existing gup section is replaced, or, without one, the section is appended on a line
/// of its own.
pub open spec fn spec_add_gup_section(buffer: Seq<u8>, section: Seq<u8>) -> Result<Seq<u8>, MarkerError> {
    match spec_match_markers(buffer) {
        Err(err) => Err(err),
        Ok(Some((s, e))) => Ok(buffer.subrange(0, s) + section + buffer.subrange(e, buffer.len() as int)),
        Ok(None) => Ok(buffer + seq![10u8] + section + seq![10u8]),
    }
}

/// The contents of a start-up script after its gup section has been removed; `None`
/// when it holds no section, so that there is nothing to write.
pub open spec fn spec_remove_gup_section(buffer: Seq<u8>) -> Result<Option<Seq<u8>>, MarkerError> {
    match spec_match_markers(buffer) {
        Err(err) => Err(err),
        Ok(Some((s, e))) => Ok(Some(buffer.subrange(0, s) + buffer.subrange(e, buffer.len() as int))),
        Ok(None) => Ok(None),
    }
}

/// Computes the new contents of a start-up script that puts `bin_path` on `PATH`.
pub fn add_gup_section(buffer: &[u8], bin_path: &str, is_zshrc: bool) -> (r: Result<Vec<u8>, MarkerError>)
    requires
        markers_in_order(buffer@),
    ensures
        match r {
            Ok(v) => spec_add_gup_section(buffer@, gup_section(bin_path.spec_bytes(), is_zshrc)) == Ok::<Seq<u8>, MarkerError>(v@),
            Err(err) => spec_add_gup_section(buffer@, gup_section(bin_path.spec_bytes(), is_zshrc)) == Err::<Seq<u8>, MarkerError>(err),
        },
{
    let pos = match_markers(buffer);
    proof {
        lemma_match_markers_bounds(buffer@);
    }
    let new_content = get_shell_script_gup_content(bin_path, is_zshrc);
    match pos {
        Err(err) => {
            assert(spec_match_markers(buffer@) == Err::<Option<(int, int)>, MarkerError>(err));
            Err(err)
        },
        Ok(Some((s, e))) => {
            let mut result: Vec<u8> = Vec::new();
            append_bytes(&mut result, slice_subrange(buffer, 0, s));
            append_bytes(&mut result, new_content.as_slice());
            append_bytes(&mut result, slice_subrange(buffer, e, buffer.len()));
            assert(result@ == buffer@.subrange(0, s as int) + gup_section(bin_path.spec_bytes(), is_zshrc) + buffer@.subrange(e as int, buffer@.len() as int));
            Ok(result)
        },
        Ok(None) => {
            let mut result: Vec<u8> = Vec::new();
            append_bytes(&mut result, buffer);
            result.push(10u8);
            append_bytes(&mut result, new_content.as_slice());
            result.push(10u8);
            assert(result@ == buffer@ + seq![10u8] + gup_section(bin_path.spec_bytes(), is_zshrc) + seq![10u8]);
            Ok(result)
        },
    }
}

/// Computes the contents of a start-up script without its gup section; `None` when it
/// holds no section.
pub fn remove_gup_section(buffer: &[u8]) -> (r: Result<Option<Vec<u8>>, MarkerError>)
    requires
        markers_in_order(buffer@),
    ensures
        match r {
            Ok(Some(v)) => spec_remove_gup_section(buffer@) == Ok::<Option<Seq<u8>>, MarkerError>(Some(v@)),
            Ok(None) => spec_remove_gup_section(buffer@) == Ok::<Option<Seq<u8>>, MarkerError>(None),
            Err(err) => spec_remove_gup_section(buffer@) == Err::<Option<Seq<u8>>, MarkerError>(err),
        },
{
    let pos = match_markers(buffer);
    proof {
        lemma_match_markers_bounds(buffer@);
    }
    match pos {
        Err(err) => Err(err),
        Ok(Some((s, e))) => {
            let mut result: Vec<u8> = Vec::new();
            append_bytes(&mut result, slice_subrange(buffer, 0, s));
            append_bytes(&mut result, slice_subrange(buffer, e, buffer.len()));
            Ok(Some(result))
        },
        Ok(None) => Ok(None),
    }
}


/// The first position at or after `i` where `needle` occurs is `k` when it occurs at `k`
/// and nowhere in between.
pub proof fn lemma_find_from_is(haystack: Seq<u8>, needle: Seq<u8>, i: int, k: int)
    requires
        0 <= i <= k,
        occurs_at(haystack, needle, k),
        forall|j: int| i <= j < k ==> !#[trigger] occurs_at(haystack, needle, j),
    ensures
        find_from(haystack, needle, i) == Some(k),
{
    lemma_find_from(haystack, needle, i);
}

/// No position at or after `i` holds an occurrence, so there is none to find.
pub proof fn lemma_find_from_none(haystack: Seq<u8>, needle: Seq<u8>, i: int)
    requires
        0 <= i,
        forall|j: int| i <= j ==> !#[trigger] occurs_at(haystack, needle, j),
    ensures
        find_from(haystack, needle, i) is None,
{
    lemma_find_from(haystack, needle, i);
}

/// Equal windows hold the same occurrences.
proof fn lemma_occurs_transfer(a: Seq<u8>, b: Seq<u8>, n: Seq<u8>, i: int, j: int)
    requires
        0 <= i,
        0 <= j,
        i + n.len() <= a.len(),
        j + n.len() <= b.len(),
        forall|k: int| 0 <= k < n.len() ==> #[trigger] a[i + k] == b[j + k],
    ensures
        occurs_at(a, n, i) == occurs_at(b, n, j),
{
    if occurs_at(a, n, i) {
        assert forall|k: int| 0 <= k < n.len() implies b[j + k] == #[trigger] n[k] by {
            assert(a[i + k] == n[k]);
        }
    }
    if occurs_at(b, n, j) {
        assert forall|k: int| 0 <= k < n.len() implies a[i + k] == #[trigger] n[k] by {
            assert(b[j + k] == n[k]);
        }
    }
}

/// Facts about the two markers: both are 24 bytes long, begin with `#` and hold no other
/// `#`, differ in their third byte, and hold no newline.
pub proof fn lemma_marker_facts()
    ensures
        start_marker().len() == 24,
        end_marker().len() == 24,
        start_marker()[0] == 35u8,
        end_marker()[0] == 35u8,
        forall|k: int| 0 < k < 24 ==> #[trigger] start_marker()[k] != 35u8,
        forall|k: int| 0 < k < 24 ==> #[trigger] end_marker()[k] != 35u8,
        start_marker()[2] != end_marker()[2],
        forall|k: int| 0 <= k < 24 ==> #[trigger] start_marker()[k] != 10u8,
        forall|k: int| 0 <= k < 24 ==> #[trigger] end_marker()[k] != 10u8,
{
    reveal_strlit("# >>> gup initialize >>>");
    reveal_strlit("# <<< gup initialize <<<");
    assert(vstd::string::is_ascii(SHELL_SCRIPT_START_MARKER));
    assert(vstd::string::is_ascii(SHELL_SCRIPT_END_MARKER));
    vstd::string::is_ascii_spec_bytes(SHELL_SCRIPT_START_MARKER);
    vstd::string::is_ascii_spec_bytes(SHELL_SCRIPT_END_MARKER);
}

/// A marker cannot start inside another marker occurrence.
proof fn lemma_no_overlap(h: Seq<u8>, m1: Seq<u8>, m2: Seq<u8>, i: int, j: int)
    requires
        m1 == start_marker() || m1 == end_marker(),
        m2 == start_marker() || m2 == end_marker(),
        i < j < i + 24,
    ensures
        !(occurs_at(h, m1, i) && occurs_at(h, m2, j)),
{
    lemma_marker_facts();
    if occurs_at(h, m1, i) && occurs_at(h, m2, j) {
        assert(h[j + 0] == m2[0]);
        assert(h[i + (j - i)] == m1[j - i]);
    }
}

/// Facts about the fixed text of a gup section: the header holds one `#`, at position 2,
/// followed two bytes later by `!`; the shell lines hold no `#`; the byte that follows
/// the bin path in each is `'`, `:` or `$`, and no marker holds one of those.
proof fn lemma_section_text_facts()
    ensures
        header_bytes().len() > 4,
        header_bytes()[2] == 35u8,
        header_bytes()[4] == 33u8,
        forall|k: int| 0 <= k < header_bytes().len() && k != 2 ==> #[trigger] header_bytes()[k] != 35u8,
        forall|k: int| 0 <= k < "path=('".spec_bytes().len() ==> #[trigger] "path=('".spec_bytes()[k] != 35u8,
        "' $path)\nexport PATH\n".spec_bytes().len() > 0,
        "' $path)\nexport PATH\n".spec_bytes()[0] == 39u8,
        forall|k: int|
            0 <= k < "' $path)\nexport PATH\n".spec_bytes().len() ==> #[trigger] "' $path)\nexport PATH\n".spec_bytes()[k]
                != 35u8,
        forall|k: int|
            0 <= k < "case \":$PATH:\" in\n    *:".spec_bytes().len() ==> #[trigger] "case \":$PATH:\" in\n    *:".spec_bytes()[k]
                != 35u8,
        ":*)\n        ;;\n\n    *)\n        export PATH=".spec_bytes().len() > 0,
        ":*)\n        ;;\n\n    *)\n        export PATH=".spec_bytes()[0] == 58u8,
        forall|k: int|
            0 <= k < ":*)\n        ;;\n\n    *)\n        export PATH=".spec_bytes().len() ==> #[trigger] ":*)\n        ;;\n\n    *)\n        export PATH=".spec_bytes()[k]
                != 35u8,
        "${PATH:+:${PATH}}\n        ;;\nesac\n".spec_bytes().len() > 0,
        "${PATH:+:${PATH}}\n        ;;\nesac\n".spec_bytes()[0] == 36u8,
        forall|k: int|
            0 <= k < "${PATH:+:${PATH}}\n        ;;\nesac\n".spec_bytes().len() ==> #[trigger] "${PATH:+:${PATH}}\n        ;;\nesac\n".spec_bytes()[k]
                != 35u8,
        "\n".spec_bytes() == seq![10u8],
        forall|k: int|
            0 <= k < 24 ==> #[trigger] start_marker()[k] != 39u8 && start_marker()[k] != 58u8 && start_marker()[k] != 36u8,
        forall|k: int|
            0 <= k < 24 ==> #[trigger] end_marker()[k] != 39u8 && end_marker()[k] != 58u8 && end_marker()[k] != 36u8,
        start_marker()[2] == 62u8,
        end_marker()[2] == 60u8,
{
    reveal_strlit("# >>> gup initialize >>>");
    reveal_strlit("# <<< gup initialize <<<");
    reveal_strlit("\n\n# !! Contents within this block are managed by gup !!\n\n");
    reveal_strlit("path=('");
    reveal_strlit("' $path)\nexport PATH\n");
    reveal_strlit("case \":$PATH:\" in\n    *:");
    reveal_strlit(":*)\n        ;;\n\n    *)\n        export PATH=");
    reveal_strlit("${PATH:+:${PATH}}\n        ;;\nesac\n");
    reveal_strlit("\n");
    assert(vstd::string::is_ascii(SHELL_SCRIPT_START_MARKER));
    assert(vstd::string::is_ascii(SHELL_SCRIPT_END_MARKER));
    assert(vstd::string::is_ascii(SHELL_SCRIPT_HEADER));
    assert(vstd::string::is_ascii("path=('"));
    assert(vstd::string::is_ascii("' $path)\nexport PATH\n"));
    assert(vstd::string::is_ascii("case \":$PATH:\" in\n    *:"));
    assert(vstd::string::is_ascii(":*)\n        ;;\n\n    *)\n        export PATH="));
    assert(vstd::string::is_ascii("${PATH:+:${PATH}}\n        ;;\nesac\n"));
    assert(vstd::string::is_ascii("\n"));
    vstd::string::is_ascii_spec_bytes(SHELL_SCRIPT_START_MARKER);
    vstd::string::is_ascii_spec_bytes(SHELL_SCRIPT_END_MARKER);
    vstd::string::is_ascii_spec_bytes(SHELL_SCRIPT_HEADER);
    vstd::string::is_ascii_spec_bytes("path=('");
    vstd::string::is_ascii_spec_bytes("' $path)\nexport PATH\n");
    vstd::string::is_ascii_spec_bytes("case \":$PATH:\" in\n    *:");
    vstd::string::is_ascii_spec_bytes(":*)\n        ;;\n\n    *)\n        export PATH=");
    vstd::string::is_ascii_spec_bytes("${PATH:+:${PATH}}\n        ;;\nesac\n");
    vstd::string::is_ascii_spec_bytes("\n");
    assert("\n".spec_bytes() =~= seq![10u8]);
}

/// The section content carries exactly one opening marker, at its start, and exactly one
/// closing marker, at its end.
pub open spec fn section_is_clean(section: Seq<u8>) -> bool {
    &&& section.len() >= 48
    &&& occurs_at(section, start_marker(), 0)
    &&& occurs_at(section, end_marker(), section.len() - 24)
    &&& forall|j: int| 0 < j ==> !#[trigger] occurs_at(section, start_marker(), j)
    &&& forall|j: int| j != section.len() - 24 ==> !#[trigger] occurs_at(section, end_marker(), j)
}

/// `b` holds neither marker.
pub open spec fn free_of_markers(b: Seq<u8>) -> bool {
    &&& forall|j: int| !#[trigger] occurs_at(b, start_marker(), j)
    &&& forall|j: int| !#[trigger] occurs_at(b, end_marker(), j)
}

/// No marker starts where `s` holds no `#`.
proof fn lemma_no_marker_without_hash(s: Seq<u8>, lo: int, hi: int)
    requires
        forall|k: int| lo <= k < hi && 0 <= k < s.len() ==> #[trigger] s[k] != 35u8,
    ensures
        forall|j: int| lo <= j < hi ==> !#[trigger] occurs_at(s, start_marker(), j),
        forall|j: int| lo <= j < hi ==> !#[trigger] occurs_at(s, end_marker(), j),
{
    lemma_marker_facts();
    assert forall|j: int| lo <= j < hi implies !#[trigger] occurs_at(s, start_marker(), j) by {
        if occurs_at(s, start_marker(), j) {
            assert(s[j + 0] == start_marker()[0]);
        }
    }
    assert forall|j: int| lo <= j < hi implies !#[trigger] occurs_at(s, end_marker(), j) by {
        if occurs_at(s, end_marker(), j) {
            assert(s[j + 0] == end_marker()[0]);
        }
    }
}

/// No marker starts inside a copy at `off` of a marker-free `b` that is followed by a byte
/// no marker holds.
proof fn lemma_no_marker_in_copy(s: Seq<u8>, b: Seq<u8>, off: int)
    requires
        0 <= off,
        off + b.len() < s.len(),
        forall|k: int| 0 <= k < b.len() ==> #[trigger] s[off + k] == b[k],
        free_of_markers(b),
        forall|k: int| 0 <= k < 24 ==> #[trigger] start_marker()[k] != s[off + b.len()],
        forall|k: int| 0 <= k < 24 ==> #[trigger] end_marker()[k] != s[off + b.len()],
    ensures
        forall|j: int| off <= j < off + b.len() ==> !#[trigger] occurs_at(s, start_marker(), j),
        forall|j: int| off <= j < off + b.len() ==> !#[trigger] occurs_at(s, end_marker(), j),
{
    lemma_marker_facts();
    let n = b.len() as int;
    assert forall|j: int| off <= j < off + n implies !#[trigger] occurs_at(s, start_marker(), j) by {
        if j + 24 <= off + n {
            assert forall|k: int| 0 <= k < 24 implies #[trigger] s[j + k] == b[(j - off) + k] by {
                assert(s[off + ((j - off) + k)] == b[(j - off) + k]);
            }
            lemma_occurs_transfer(s, b, start_marker(), j, j - off);
            assert(!occurs_at(b, start_marker(), j - off));
        } else {
            let k = off + n - j;
            assert(0 < k < 24);
            if occurs_at(s, start_marker(), j) {
                assert(s[j + k] == start_marker()[k]);
                assert(start_marker()[k] != s[off + n]);
            }
        }
    }
    assert forall|j: int| off <= j < off + n implies !#[trigger] occurs_at(s, end_marker(), j) by {
        if j + 24 <= off + n {
            assert forall|k: int| 0 <= k < 24 implies #[trigger] s[j + k] == b[(j - off) + k] by {
                assert(s[off + ((j - off) + k)] == b[(j - off) + k]);
            }
            lemma_occurs_transfer(s, b, end_marker(), j, j - off);
            assert(!occurs_at(b, end_marker(), j - off));
        } else {
            let k = off + n - j;
            assert(0 < k < 24);
            if occurs_at(s, end_marker(), j) {
                assert(s[j + k] == end_marker()[k]);
                assert(end_marker()[k] != s[off + n]);
            }
        }
    }
}

/// The section gup writes is clean when the bin path holds no marker.
pub proof fn lemma_gup_section_is_clean(bin_path: Seq<u8>, is_zshrc: bool)
    requires
        free_of_markers(bin_path),
    ensures
        section_is_clean(gup_section(bin_path, is_zshrc)),
{
    lemma_marker_facts();
    lemma_section_text_facts();
    let sm = start_marker();
    let em = end_marker();
    let h = header_bytes();
    let b = bin_path;
    let n = b.len() as int;
    let s = gup_section(b, is_zshrc);
    let c = s.len() as int;
    let hl = h.len() as int;
    // the opening and the closing marker
    assert forall|k: int| 0 <= k < 24 implies #[trigger] s[0 + k] == sm[k] by {}
    assert forall|k: int| 0 <= k < 24 implies #[trigger] s[(c - 24) + k] == em[k] by {}
    assert(occurs_at(s, sm, 0));
    assert(occurs_at(s, em, c - 24));
    // the header's `#` starts no marker
    assert(s[24int + 2] == 35u8);
    assert(s[24int + 4] == 33u8);
    assert(!occurs_at(s, sm, 26)) by {
        if occurs_at(s, sm, 26) {
            assert(s[26int + 2] == sm[2]);
        }
    }
    assert(!occurs_at(s, em, 26)) by {
        if occurs_at(s, em, 26) {
            assert(s[26int + 2] == em[2]);
        }
    }
    // the markers at both ends are not each other
    assert(!occurs_at(s, em, 0)) by {
        if occurs_at(s, em, 0) {
            assert(s[0int + 2] == em[2]);
        }
    }
    assert(!occurs_at(s, sm, c - 24)) by {
        if occurs_at(s, sm, c - 24) {
            assert(s[(c - 24) + 2] == sm[2]);
        }
    }
    lemma_no_marker_without_hash(s, 1, 26);
    if is_zshrc {
        let l1 = "path=('".spec_bytes();
        let l2 = "' $path)\nexport PATH\n".spec_bytes();
        let p = 24 + hl + l1.len();
        assert(c == p + n + l2.len() + 1 + 24);
        lemma_no_marker_without_hash(s, 27, p);
        assert forall|k: int| 0 <= k < n implies #[trigger] s[p + k] == b[k] by {}
        assert(s[p + n] == 39u8);
        lemma_no_marker_in_copy(s, b, p);
        lemma_no_marker_without_hash(s, p + n, c - 24);
    } else {
        let l1 = "case \":$PATH:\" in\n    *:".spec_bytes();
        let l2 = ":*)\n        ;;\n\n    *)\n        export PATH=".spec_bytes();
        let l3 = "${PATH:+:${PATH}}\n        ;;\nesac\n".spec_bytes();
        let p = 24 + hl + l1.len();
        let q = p + n + l2.len();
        assert(c == q + n + l3.len() + 1 + 24);
        lemma_no_marker_without_hash(s, 27, p);
        assert forall|k: int| 0 <= k < n implies #[trigger] s[p + k] == b[k] by {}
        assert(s[p + n] == 58u8);
        lemma_no_marker_in_copy(s, b, p);
        lemma_no_marker_without_hash(s, p + n, q);
        assert forall|k: int| 0 <= k < n implies #[trigger] s[q + k] == b[k] by {}
        assert(s[q + n] == 36u8);
        lemma_no_marker_in_copy(s, b, q);
        lemma_no_marker_without_hash(s, q + n, c - 24);
    }
    assert forall|j: int| 0 < j implies !#[trigger] occurs_at(s, sm, j) by {
        if j + 24 > c {
        } else if j == 26 || j == c - 24 {
        }
    }
    assert forall|j: int| j != c - 24 implies !#[trigger] occurs_at(s, em, j) by {
        if j < 0 || j + 24 > c {
        } else if j == 0 || j == 26 {
        }
    }
}

/// The section of `buffer` is opened before it is closed.
pub open spec fn section_opens_before_it_closes(buffer: Seq<u8>) -> bool {
    match spec_match_markers(buffer) {
        Ok(Some((s, e))) => s < e - end_marker().len(),
        _ => true,
    }
}


/// Adding to a script without any marker: the new section is found right after the
/// added newline.
proof fn lemma_added_to_plain_script(buffer: Seq<u8>, section: Seq<u8>)
    requires
        spec_match_markers(buffer) == Ok::<Option<(int, int)>, MarkerError>(None),
        section_is_clean(section),
    ensures
        ({
            let nb = buffer + seq![10u8] + section + seq![10u8];
            spec_match_markers(nb) == Ok::<Option<(int, int)>, MarkerError>(
                Some((buffer.len() + 1int, buffer.len() + 1 + section.len() as int)),
            )
        }),
{
    let nb = buffer + seq![10u8] + section + seq![10u8];
    let l = buffer.len() as int;
    let c = section.len() as int;
    let sm = start_marker();
    let em = end_marker();
    lemma_marker_facts();
    lemma_find_from(buffer, sm, 0);
    lemma_find_from(buffer, em, 0);
    assert(nb.len() == l + c + 2);
    assert forall|j: int| #![trigger occurs_at(nb, sm, j)] #![trigger occurs_at(nb, em, j)]
        0 <= j && j + 24 <= nb.len() implies {
        &&& occurs_at(nb, sm, j) <==> j == l + 1
        &&& occurs_at(nb, em, j) <==> j == l + 1 + c - 24
    } by {
        if j + 24 <= l {
            lemma_occurs_transfer(nb, buffer, sm, j, j);
            lemma_occurs_transfer(nb, buffer, em, j, j);
        } else if j <= l {
            assert(nb[j + (l - j)] == 10u8);
            assert(sm[l - j] != 10u8);
            assert(em[l - j] != 10u8);
        } else if j + 24 <= l + 1 + c {
            lemma_occurs_transfer(nb, section, sm, j, j - l - 1);
            lemma_occurs_transfer(nb, section, em, j, j - l - 1);
        } else {
            assert(nb[j + (l + 1 + c - j)] == 10u8);
            assert(sm[l + 1 + c - j] != 10u8);
            assert(em[l + 1 + c - j] != 10u8);
        }
    }
    assert forall|j: int| 0 <= j implies (occurs_at(nb, sm, j) <==> j == l + 1) by {
        if j + 24 > nb.len() {
            assert(!occurs_at(nb, sm, j));
            assert(occurs_at(nb, sm, l + 1));
        }
    }
    assert forall|j: int| 0 <= j implies (occurs_at(nb, em, j) <==> j == l + 1 + c - 24) by {
        if j + 24 > nb.len() {
            assert(!occurs_at(nb, em, j));
            assert(occurs_at(nb, em, l + 1 + c - 24));
        }
    }
    lemma_find_from_is(nb, sm, 0, l + 1);
    lemma_find_from_is(nb, em, 0, l + 1 + c - 24);
    lemma_find_from_none(nb, sm, l + 1 + 24);
    lemma_find_from_none(nb, em, l + 1 + c);
}


/// Replacing an existing section: the new section is found where the old one started.
proof fn lemma_added_to_sectioned_script(buffer: Seq<u8>, section: Seq<u8>, s: int, e: int)
    requires
        spec_match_markers(buffer) == Ok::<Option<(int, int)>, MarkerError>(Some((s, e))),
        s < e - 24,
        section_is_clean(section),
    ensures
        ({
            let nb = buffer.subrange(0, s) + section + buffer.subrange(e, buffer.len() as int);
            spec_match_markers(nb) == Ok::<Option<(int, int)>, MarkerError>(
                Some((s, s + section.len())),
            )
        }),
{
    let sm = start_marker();
    let em = end_marker();
    lemma_marker_facts();
    lemma_match_markers_bounds(buffer);
    lemma_find_from(buffer, sm, 0);
    lemma_find_from(buffer, em, 0);
    let eidx = e - 24;
    lemma_find_from(buffer, sm, s + 24);
    lemma_find_from(buffer, em, e);
    // the closing marker starts after the whole opening marker
    if eidx < s + 24 {
        lemma_no_overlap(buffer, sm, em, s, eidx);
    }
    assert(eidx >= s + 24);
    let nb = buffer.subrange(0, s) + section + buffer.subrange(e, buffer.len() as int);
    let c = section.len() as int;
    let t = s + c;
    assert(nb.len() == buffer.len() - e + t);
    // nb agrees with buffer up to the end of the opening marker
    assert forall|k: int| 0 <= k < s + 24 implies #[trigger] nb[k] == buffer[k] by {
        if k >= s {
            assert(section[0 + (k - s)] == sm[k - s]);
            assert(buffer[s + (k - s)] == sm[k - s]);
        }
    }
    // nb agrees with buffer, shifted, from the start of the closing marker on
    assert forall|k: int| t - 24 <= k < nb.len() implies #[trigger] nb[k] == buffer[k - t + e] by {
        if k < t {
            assert(section[(c - 24) + (k - t + 24)] == em[k - t + 24]);
            assert(buffer[eidx + (k - t + 24)] == em[k - t + 24]);
        }
    }
    assert forall|j: int| #![trigger occurs_at(nb, sm, j)] #![trigger occurs_at(nb, em, j)]
        0 <= j && j + 24 <= nb.len() implies {
        &&& occurs_at(nb, sm, j) <==> j == s
        &&& occurs_at(nb, em, j) <==> j == t - 24
    } by {
        if j < s {
            lemma_occurs_transfer(nb, buffer, sm, j, j);
            lemma_occurs_transfer(nb, buffer, em, j, j);
        } else if j + 24 <= t {
            lemma_occurs_transfer(nb, section, sm, j, j - s);
            lemma_occurs_transfer(nb, section, em, j, j - s);
        } else {
            let jb = j - t + e;
            lemma_occurs_transfer(nb, buffer, sm, j, jb);
            lemma_occurs_transfer(nb, buffer, em, j, jb);
            if jb < e {
                lemma_no_overlap(buffer, em, em, eidx, jb);
            }
        }
    }
    assert forall|j: int| 0 <= j implies (occurs_at(nb, sm, j) <==> j == s) by {
        if j + 24 > nb.len() {
            assert(!occurs_at(nb, sm, j));
            assert(occurs_at(nb, sm, s));
        }
    }
    assert forall|j: int| 0 <= j implies (occurs_at(nb, em, j) <==> j == t - 24) by {
        if j + 24 > nb.len() {
            assert(!occurs_at(nb, em, j));
            assert(occurs_at(nb, em, t - 24));
        }
    }
    lemma_find_from_is(nb, sm, 0, s);
    lemma_find_from_is(nb, em, 0, t - 24);
    lemma_find_from_none(nb, sm, s + 24);
    lemma_find_from_none(nb, em, t);
}


/// Law: once a clean gup section has been written into a start-up script, the script
/// holds exactly one section, and `match_markers` locates precisely the bytes written.
pub proof fn law_added_section_is_located(buffer: Seq<u8>, section: Seq<u8>)
    requires
        section_is_clean(section),
        section_opens_before_it_closes(buffer),
        spec_add_gup_section(buffer, section) is Ok,
    ensures
        spec_add_gup_section(buffer, section) matches Ok(nb) && spec_match_markers(nb) matches Ok(
            Some((p, q)),
        ) && 0 <= p && q == p + section.len() && nb.subrange(p, q) == section,
{
    match spec_match_markers(buffer) {
        Ok(Some((s, e))) => {
            lemma_match_markers_bounds(buffer);
            lemma_marker_facts();
            lemma_added_to_sectioned_script(buffer, section, s, e);
            let nb = buffer.subrange(0, s) + section + buffer.subrange(e, buffer.len() as int);
            assert(nb.subrange(s, s + section.len()) =~= section);
        },
        Ok(None) => {
            lemma_added_to_plain_script(buffer, section);
            let nb = buffer + seq![10u8] + section + seq![10u8];
            assert(nb.subrange(buffer.len() + 1int, buffer.len() + 1int + section.len()) =~= section);
        },
        Err(_) => {},
    }
}

/// Law: writing the same clean section a second time leaves the script unchanged.
#[verifier::spinoff_prover]
#[verifier::rlimit(50)]
pub proof fn law_add_gup_section_idempotent(buffer: Seq<u8>, section: Seq<u8>)
    requires
        section_is_clean(section),
        section_opens_before_it_closes(buffer),
    ensures
        spec_add_gup_section(buffer, section) matches Ok(nb) ==> {
            &&& markers_in_order(nb)
            &&& section_opens_before_it_closes(nb)
            &&& spec_add_gup_section(nb, section) == Ok::<Seq<u8>, MarkerError>(nb)
        },
{
    if spec_add_gup_section(buffer, section) is Ok {
        law_added_section_is_located(buffer, section);
        let nb = spec_add_gup_section(buffer, section)->Ok_0;
        let (p, q) = spec_match_markers(nb)->Ok_0->Some_0;
        lemma_match_markers_bounds(nb);
        lemma_marker_facts();
        assert(nb.subrange(0, p) + nb.subrange(p, q) + nb.subrange(q, nb.len() as int) =~= nb);
    }
}

/// Law: removing the section right after writing it gives what removing the old section
/// gives; a script that had no section keeps only the two newlines that came with it.
pub proof fn law_remove_after_add(buffer: Seq<u8>, section: Seq<u8>)
    requires
        section_is_clean(section),
        section_opens_before_it_closes(buffer),
    ensures
        spec_add_gup_section(buffer, section) matches Ok(nb) ==> spec_remove_gup_section(nb)
            == Ok::<Option<Seq<u8>>, MarkerError>(Some(
            match spec_remove_gup_section(buffer) {
                Ok(Some(r)) => r,
                _ => buffer + seq![10u8, 10u8],
            },
        )),
{
    match spec_match_markers(buffer) {
        Ok(Some((s, e))) => {
            lemma_match_markers_bounds(buffer);
            lemma_marker_facts();
            lemma_added_to_sectioned_script(buffer, section, s, e);
            let nb = buffer.subrange(0, s) + section + buffer.subrange(e, buffer.len() as int);
            assert(nb.subrange(0, s) + nb.subrange(s + section.len(), nb.len() as int) =~= buffer.subrange(0, s) + buffer.subrange(e, buffer.len() as int));
        },
        Ok(None) => {
            lemma_added_to_plain_script(buffer, section);
            let nb = buffer + seq![10u8] + section + seq![10u8];
            assert(nb.subrange(0, buffer.len() + 1int) + nb.subrange(buffer.len() + 1int + section.len(), nb.len() as int) =~= buffer + seq![10u8, 10u8]);
        },
        Err(_) => {},
    }
}


/// The line by which a zsh section puts `bin_path` on `PATH`.
pub open spec fn zsh_path_line(bin_path: Seq<u8>) -> Seq<u8> {
    "path=('".spec_bytes() + bin_path + "' $path)".spec_bytes()
}

/// Facts about the quote `'` in the fixed text of a gup section: the zsh path line holds
/// one right after `path=(`, and the markers, the header and the POSIX shell lines hold
/// none.
proof fn lemma_section_quote_facts()
    ensures
        "path=('".spec_bytes().len() == 7,
        "path=('".spec_bytes()[6] == 39u8,
        forall|k: int| 0 <= k < start_marker().len() ==> #[trigger] start_marker()[k] != 39u8,
        forall|k: int| 0 <= k < end_marker().len() ==> #[trigger] end_marker()[k] != 39u8,
        forall|k: int| 0 <= k < header_bytes().len() ==> #[trigger] header_bytes()[k] != 39u8,
        forall|k: int|
            0 <= k < "case \":$PATH:\" in\n    *:".spec_bytes().len() ==> #[trigger] "case \":$PATH:\" in\n    *:".spec_bytes()[k]
                != 39u8,
        forall|k: int|
            0 <= k < ":*)\n        ;;\n\n    *)\n        export PATH=".spec_bytes().len() ==> #[trigger] ":*)\n        ;;\n\n    *)\n        export PATH=".spec_bytes()[k]
                != 39u8,
        forall|k: int|
            0 <= k < "${PATH:+:${PATH}}\n        ;;\nesac\n".spec_bytes().len() ==> #[trigger] "${PATH:+:${PATH}}\n        ;;\nesac\n".spec_bytes()[k]
                != 39u8,
        "\n".spec_bytes() == seq![10u8],
{
    reveal_strlit("# >>> gup initialize >>>");
    reveal_strlit("# <<< gup initialize <<<");
    reveal_strlit("\n\n# !! Contents within this block are managed by gup !!\n\n");
    reveal_strlit("path=('");
    reveal_strlit("case \":$PATH:\" in\n    *:");
    reveal_strlit(":*)\n        ;;\n\n    *)\n        export PATH=");
    reveal_strlit("${PATH:+:${PATH}}\n        ;;\nesac\n");
    reveal_strlit("\n");
    assert(vstd::string::is_ascii(SHELL_SCRIPT_START_MARKER));
    assert(vstd::string::is_ascii(SHELL_SCRIPT_END_MARKER));
    assert(vstd::string::is_ascii(SHELL_SCRIPT_HEADER));
    assert(vstd::string::is_ascii("path=('"));
    assert(vstd::string::is_ascii("case \":$PATH:\" in\n    *:"));
    assert(vstd::string::is_ascii(":*)\n        ;;\n\n    *)\n        export PATH="));
    assert(vstd::string::is_ascii("${PATH:+:${PATH}}\n        ;;\nesac\n"));
    assert(vstd::string::is_ascii("\n"));
    vstd::string::is_ascii_spec_bytes(SHELL_SCRIPT_START_MARKER);
    vstd::string::is_ascii_spec_bytes(SHELL_SCRIPT_END_MARKER);
    vstd::string::is_ascii_spec_bytes(SHELL_SCRIPT_HEADER);
    vstd::string::is_ascii_spec_bytes("path=('");
    vstd::string::is_ascii_spec_bytes("case \":$PATH:\" in\n    *:");
    vstd::string::is_ascii_spec_bytes(":*)\n        ;;\n\n    *)\n        export PATH=");
    vstd::string::is_ascii_spec_bytes("${PATH:+:${PATH}}\n        ;;\nesac\n");
    vstd::string::is_ascii_spec_bytes("\n");
    assert("\n".spec_bytes() =~= seq![10u8]);
}

/// Law: the zsh section holds the zsh path line for its bin path right after the header,
/// and, for a bin path without a quote `'`, the POSIX section holds it nowhere.
pub proof fn law_path_line_only_in_zsh_section(bin_path: Seq<u8>)
    ensures
        ({
            let h = start_marker() + header_bytes();
            gup_section(bin_path, true).subrange(h.len() as int, h.len() + zsh_path_line(bin_path).len() as int)
                == zsh_path_line(bin_path)
        }),
        (forall|k: int| 0 <= k < bin_path.len() ==> #[trigger] bin_path[k] != 39u8) ==> forall|p: int|
            !#[trigger] occurs_at(gup_section(bin_path, false), zsh_path_line(bin_path), p),
{
    lemma_section_quote_facts();
    let h = start_marker() + header_bytes();
    let z = gup_section(bin_path, true);
    assert(z =~= h + zsh_path_line(bin_path) + "\nexport PATH\n".spec_bytes() + seq![10u8] + end_marker()) by {
        reveal_strlit("' $path)\nexport PATH\n");
        reveal_strlit("' $path)");
        reveal_strlit("\nexport PATH\n");
        assert("' $path)\nexport PATH\n"@ =~= "' $path)"@ + "\nexport PATH\n"@);
        assert(vstd::string::is_ascii("' $path)\nexport PATH\n"));
        assert(vstd::string::is_ascii("' $path)"));
        assert(vstd::string::is_ascii("\nexport PATH\n"));
        vstd::string::is_ascii_spec_bytes("' $path)\nexport PATH\n");
        vstd::string::is_ascii_spec_bytes("' $path)");
        vstd::string::is_ascii_spec_bytes("\nexport PATH\n");
        assert("' $path)\nexport PATH\n".spec_bytes() =~= "' $path)".spec_bytes() + "\nexport PATH\n".spec_bytes());
    }
    assert(z.subrange(h.len() as int, h.len() + zsh_path_line(bin_path).len() as int) =~= zsh_path_line(bin_path));
    if forall|k: int| 0 <= k < bin_path.len() ==> #[trigger] bin_path[k] != 39u8 {
        let s = gup_section(bin_path, false);
        let n = zsh_path_line(bin_path);
        assert(n[6] == 39u8);
        assert forall|k: int| 0 <= k < s.len() implies #[trigger] s[k] != 39u8 by {}
        assert forall|p: int| !#[trigger] occurs_at(s, n, p) by {
            if occurs_at(s, n, p) {
                assert(s[p + 6] == n[6]);
            }
        }
    }
}

/// Law: the section gup writes starts with the opening marker and the header, ends with a
/// newline and the closing marker, and holds, right after the header, the zsh lines for
/// the bin path where the script is `.zshrc` and the POSIX shell lines otherwise.
pub proof fn law_written_section_shape(bin_path: Seq<u8>, is_zshrc: bool)
    ensures
        ({
            let s = gup_section(bin_path, is_zshrc);
            let h = start_marker() + header_bytes();
            let lines = if is_zshrc {
                zsh_lines(bin_path)
            } else {
                sh_lines(bin_path)
            };
            &&& s.subrange(0, h.len() as int) == h
            &&& s.subrange(h.len() as int, h.len() + lines.len() as int) == lines
            &&& s.subrange(s.len() - end_marker().len() - 1, s.len() as int) == seq![10u8] + end_marker()
        }),
{
    lemma_section_text_facts();
    let s = gup_section(bin_path, is_zshrc);
    let h = start_marker() + header_bytes();
    let lines = if is_zshrc {
        zsh_lines(bin_path)
    } else {
        sh_lines(bin_path)
    };
    assert(s =~= h + lines + seq![10u8] + end_marker());
    assert(s.subrange(0, h.len() as int) =~= h);
    assert(s.subrange(h.len() as int, h.len() + lines.len() as int) =~= lines);
    assert(s.subrange(s.len() - end_marker().len() - 1, s.len() as int) =~= seq![10u8] + end_marker());
}

/// Law: the section gup writes for a bin path that holds no marker is, on its own, one
/// whole gup section: `match_markers` finds it from its first byte to its last.
pub proof fn law_written_section_is_one_section(bin_path: Seq<u8>, is_zshrc: bool)
    requires
        free_of_markers(bin_path),
    ensures
        spec_match_markers(gup_section(bin_path, is_zshrc)) == Ok::<Option<(int, int)>, MarkerError>(
            Some((0, gup_section(bin_path, is_zshrc).len() as int)),
        ),
{
    let s = gup_section(bin_path, is_zshrc);
    let c = s.len() as int;
    lemma_gup_section_is_clean(bin_path, is_zshrc);
    lemma_marker_facts();
    lemma_find_from_is(s, start_marker(), 0, 0);
    assert forall|j: int| 0 <= j < c - 24 implies !#[trigger] occurs_at(s, end_marker(), j) by {}
    lemma_find_from_is(s, end_marker(), 0, c - 24);
    assert forall|j: int| 24 <= j implies !#[trigger] occurs_at(s, start_marker(), j) by {}
    lemma_find_from_none(s, start_marker(), 24);
    assert forall|j: int| c <= j implies !#[trigger] occurs_at(s, end_marker(), j) by {}
    lemma_find_from_none(s, end_marker(), c);
}

/// Law: for the section gup writes for a bin path that holds no marker, writing it into a
/// script whose section (if any) opens before it closes locates exactly that section,
/// writing it again changes nothing, and removing it afterwards gives what removing the
/// old section gives (or the script with two newlines added, where it had none).
pub proof fn law_written_section_round_trip(buffer: Seq<u8>, bin_path: Seq<u8>, is_zshrc: bool)
    requires
        free_of_markers(bin_path),
        section_opens_before_it_closes(buffer),
    ensures
        ({
            let section = gup_section(bin_path, is_zshrc);
            spec_add_gup_section(buffer, section) matches Ok(nb) ==> {
                &&& spec_match_markers(nb) matches Ok(Some((p, q))) && q == p + section.len() && nb.subrange(p, q)
                    == section
                &&& spec_add_gup_section(nb, section) == Ok::<Seq<u8>, MarkerError>(nb)
                &&& spec_remove_gup_section(nb) == Ok::<Option<Seq<u8>>, MarkerError>(Some(
                    match spec_remove_gup_section(buffer) {
                        Ok(Some(r)) => r,
                        _ => buffer + seq![10u8, 10u8],
                    },
                ))
            }
        }),
{
    let section = gup_section(bin_path, is_zshrc);
    lemma_gup_section_is_clean(bin_path, is_zshrc);
    if spec_add_gup_section(buffer, section) is Ok {
        law_added_section_is_located(buffer, section);
    }
    law_add_gup_section_idempotent(buffer, section);
    law_remove_after_add(buffer, section);
}

/// Law: once the section for a marker-free bin path has been written into every script of
/// a set (each with the zsh or the POSIX lines, as `zsh` tells), each script holds exactly
/// that section where `match_markers` finds it, and writing the sections again changes no
/// script.
pub proof fn law_all_scripts_hold_the_section(
    contents: Seq<Seq<u8>>,
    zsh: Seq<bool>,
    bin_path: Seq<u8>,
    written: Seq<Seq<u8>>,
)
    requires
        contents.len() == zsh.len(),
        contents.len() == written.len(),
        free_of_markers(bin_path),
        forall|i: int| 0 <= i < contents.len() ==> section_opens_before_it_closes(#[trigger] contents[i]),
        forall|i: int|
            0 <= i < contents.len() ==> spec_add_gup_section(#[trigger] contents[i], gup_section(bin_path, zsh[i]))
                == Ok::<Seq<u8>, MarkerError>(written[i]),
    ensures
        forall|i: int|
            0 <= i < written.len() ==> (spec_match_markers(#[trigger] written[i]) matches Ok(Some((p, q))) && written[i].subrange(
                p,
                q,
            ) == gup_section(bin_path, zsh[i])),
        forall|i: int|
            0 <= i < written.len() ==> spec_add_gup_section(#[trigger] written[i], gup_section(bin_path, zsh[i]))
                == Ok::<Seq<u8>, MarkerError>(written[i]),
{
    assert forall|i: int| 0 <= i < written.len() implies (spec_match_markers(#[trigger] written[i]) matches Ok(Some((p, q)))
        && written[i].subrange(p, q) == gup_section(bin_path, zsh[i])) && spec_add_gup_section(
        written[i],
        gup_section(bin_path, zsh[i]),
    ) == Ok::<Seq<u8>, MarkerError>(written[i]) by {
        assert(section_opens_before_it_closes(contents[i]));
        assert(spec_add_gup_section(contents[i], gup_section(bin_path, zsh[i])) == Ok::<Seq<u8>, MarkerError>(written[i]));
        law_written_section_round_trip(contents[i], bin_path, zsh[i]);
    }
}

/// The start-up scripts gup may edit, below the home directory.
pub open spec fn shell_script_names() -> Seq<Seq<char>> {
    seq![".bashrc"@, ".profile"@, ".bash_profile"@, ".bash_login"@, ".zshrc"@]
}

/// The names of the start-up scripts gup may edit, in the order they are edited.
pub fn shell_script_candidates() -> (r: Vec<&'static str>)
    ensures
        r@.map_values(|s: &'static str| s@) == shell_script_names(),
{
    let r = vec![".bashrc", ".profile", ".bash_profile", ".bash_login", ".zshrc"];
    proof {
        assert(r@.map_values(|s: &'static str| s@) =~= shell_script_names());
    }
    r
}

/// Script `i` of the candidates is edited: it exists, or, when the section is being
/// added on macOS, it is `.zshrc`, which is then created.
pub open spec fn script_selected(i: int, add_case: bool, exists: Seq<bool>, is_macos: bool) -> bool {
    exists[i] || (add_case && i == 4 && is_macos)
}

/// The indices `k..` of the candidates that are edited.
pub open spec fn selected_from(k: int, add_case: bool, exists: Seq<bool>, is_macos: bool) -> Seq<int>
    decreases 5 - k,
{
    if k < 0 || k >= 5 {
        Seq::empty()
    } else if script_selected(k, add_case, exists, is_macos) {
        seq![k] + selected_from(k + 1, add_case, exists, is_macos)
    } else {
        selected_from(k + 1, add_case, exists, is_macos)
    }
}

/// The start-up scripts to edit, as paths below `home_dir`: `exists[i]` tells whether
/// candidate `i` exists.
pub fn find_shell_scripts_to_be_modified(home_dir: &str, add_case: bool, exists: &Vec<bool>, is_macos: bool) -> (r: Vec<
    String,
>)
    requires
        exists@.len() == 5,
    ensures
        r@.len() == selected_from(0, add_case, exists@, is_macos).len(),
        forall|j: int|
            0 <= j < r@.len() ==> #[trigger] r@[j]@ == spec_path_join(
                home_dir@,
                shell_script_names()[selected_from(0, add_case, exists@, is_macos)[j]],
            ),
{
    let names = shell_script_candidates();
    let mut out: Vec<String> = Vec::new();
    let mut k: usize = 0;
    let ghost mut pre: Seq<int> = Seq::empty();
    proof {
        assert(names@.map_values(|s: &'static str| s@).len() == 5);
        assert(pre + selected_from(0, add_case, exists@, is_macos) =~= selected_from(0, add_case, exists@, is_macos));
    }
    while k < 5
        invariant
            names@.len() == 5,
            names@.map_values(|s: &'static str| s@) == shell_script_names(),
            exists@.len() == 5,
            k <= 5,
            pre + selected_from(k as int, add_case, exists@, is_macos) == selected_from(0, add_case, exists@, is_macos),
            pre.len() == out@.len(),
            forall|j: int| 0 <= j < pre.len() ==> 0 <= #[trigger] pre[j] < 5,
            forall|j: int|
                0 <= j < out@.len() ==> #[trigger] out@[j]@ == spec_path_join(home_dir@, shell_script_names()[pre[j]]),
        decreases 5 - k,
    {
        let ghost before = pre;
        if exists[k] || (add_case && k == 4 && is_macos) {
            let name = names[k];
            proof {
                assert(name@ == names@.map_values(|s: &'static str| s@)[k as int]);
            }
            out.push(path_join(home_dir, name));
            proof {
                pre = pre.push(k as int);
                assert(pre + selected_from(k + 1, add_case, exists@, is_macos) =~= before + selected_from(
                    k as int,
                    add_case,
                    exists@,
                    is_macos,
                ));
            }
        }
        k = k + 1;
    }
    proof {
        assert(pre + selected_from(5, add_case, exists@, is_macos) =~= pre);
    }
    out
}

/// A start-up script: its file name and its contents.
#[derive(Debug, Clone)]
pub struct ShellScript {
    pub file_name: String,
    pub contents: Vec<u8>,
}

/// The outcome of one step of editing several scripts: every outcome but the last
/// succeeded, and fewer outcomes than scripts means the last one failed.
pub open spec fn edits_stop_at_first_error<T>(r: Seq<Result<T, MarkerError>>, n: int) -> bool {
    &&& r.len() <= n
    &&& forall|i: int| 0 <= i < r.len() - 1 ==> (#[trigger] r[i]) is Ok
    &&& r.len() < n ==> r.len() > 0 && r.last() is Err
}

/// The new contents of each start-up script once the gup section putting `bin_path` on
/// `PATH` is written into it, in order, up to and including the first script whose
/// markers are wrong; the caller writes the scripts that succeeded.
pub fn add_binfolder_to_path_in_shell_scripts(bin_path: &str, scripts: &Vec<ShellScript>) -> (r: Vec<
    Result<Vec<u8>, MarkerError>,
>)
    requires
        forall|i: int| 0 <= i < scripts@.len() ==> markers_in_order(#[trigger] scripts@[i].contents@),
    ensures
        edits_stop_at_first_error(r@, scripts@.len() as int),
        forall|i: int|
            0 <= i < r@.len() ==> match #[trigger] r@[i] {
                Ok(v) => spec_add_gup_section(
                    scripts@[i].contents@,
                    gup_section(bin_path.spec_bytes(), scripts@[i].file_name@ == ".zshrc"@),
                ) == Ok::<Seq<u8>, MarkerError>(v@),
                Err(e) => spec_add_gup_section(
                    scripts@[i].contents@,
                    gup_section(bin_path.spec_bytes(), scripts@[i].file_name@ == ".zshrc"@),
                ) == Err::<Seq<u8>, MarkerError>(e),
            },
{
    let n = scripts.len();
    let mut out: Vec<Result<Vec<u8>, MarkerError>> = Vec::new();
    let mut i: usize = 0;
    while i < n
        invariant
            n == scripts@.len(),
            i <= n,
            out@.len() == i,
            forall|k: int| 0 <= k < scripts@.len() ==> markers_in_order(#[trigger] scripts@[k].contents@),
            forall|k: int| 0 <= k < i ==> (#[trigger] out@[k]) is Ok,
            forall|k: int|
                0 <= k < out@.len() ==> match #[trigger] out@[k] {
                    Ok(v) => spec_add_gup_section(
                        scripts@[k].contents@,
                        gup_section(bin_path.spec_bytes(), scripts@[k].file_name@ == ".zshrc"@),
                    ) == Ok::<Seq<u8>, MarkerError>(v@),
                    Err(e) => spec_add_gup_section(
                        scripts@[k].contents@,
                        gup_section(bin_path.spec_bytes(), scripts@[k].file_name@ == ".zshrc"@),
                    ) == Err::<Seq<u8>, MarkerError>(e),
                },
        decreases n - i,
    {
        let script = &scripts[i];
        let is_zshrc = str_eq(script.file_name.as_str(), ".zshrc");
        let r = add_gup_section(script.contents.as_slice(), bin_path, is_zshrc);
        let failed = r.is_err();
        out.push(r);
        if failed {
            return out;
        }
        i = i + 1;
    }
    out
}

/// The contents of each start-up script without its gup section (`None` for a script
/// that holds none), in order, up to and including the first script whose markers are
/// wrong; the caller writes the scripts that changed.
pub fn remove_binfolder_from_path_in_shell_scripts(scripts: &Vec<ShellScript>) -> (r: Vec<
    Result<Option<Vec<u8>>, MarkerError>,
>)
    requires
        forall|i: int| 0 <= i < scripts@.len() ==> markers_in_order(#[trigger] scripts@[i].contents@),
    ensures
        edits_stop_at_first_error(r@, scripts@.len() as int),
        forall|i: int|
            0 <= i < r@.len() ==> match #[trigger] r@[i] {
                Ok(Some(v)) => spec_remove_gup_section(scripts@[i].contents@) == Ok::<Option<Seq<u8>>, MarkerError>(
                    Some(v@),
                ),
                Ok(None) => spec_remove_gup_section(scripts@[i].contents@) == Ok::<Option<Seq<u8>>, MarkerError>(None),
                Err(e) => spec_remove_gup_section(scripts@[i].contents@) == Err::<Option<Seq<u8>>, MarkerError>(e),
            },
{
    let n = scripts.len();
    let mut out: Vec<Result<Option<Vec<u8>>, MarkerError>> = Vec::new();
    let mut i: usize = 0;
    while i < n
        invariant
            n == scripts@.len(),
            i <= n,
            out@.len() == i,
            forall|k: int| 0 <= k < scripts@.len() ==> markers_in_order(#[trigger] scripts@[k].contents@),
            forall|k: int| 0 <= k < i ==> (#[trigger] out@[k]) is Ok,
            forall|k: int|
                0 <= k < out@.len() ==> match #[trigger] out@[k] {
                    Ok(Some(v)) => spec_remove_gup_section(scripts@[k].contents@) == Ok::<Option<Seq<u8>>, MarkerError>(
                        Some(v@),
                    ),
                    Ok(None) => spec_remove_gup_section(scripts@[k].contents@) == Ok::<
                        Option<Seq<u8>>,
                        MarkerError,
                    >(None),
                    Err(e) => spec_remove_gup_section(scripts@[k].contents@) == Err::<Option<Seq<u8>>, MarkerError>(e),
                },
        decreases n - i,
    {
        let r = remove_gup_section(scripts[i].contents.as_slice());
        let failed = r.is_err();
        out.push(r);
        if failed {
            return out;
        }
        i = i + 1;
    }
    out
}

} // verus!
