use gup::constants::{SHELL_SCRIPT_END_MARKER, SHELL_SCRIPT_START_MARKER};
use gup::operations_shell::{
    add_gup_section, find_subslice, get_shell_script_gup_content, match_markers,
    remove_gup_section, MarkerError,
};

fn s_marker() -> &'static [u8] {
    SHELL_SCRIPT_START_MARKER.as_bytes()
}

fn e_marker() -> &'static [u8] {
    SHELL_SCRIPT_END_MARKER.as_bytes()
}

#[test]
fn match_markers_none_without_markers() {
    let inp: &[u8] = b"Some input\n";
    let res = match_markers(inp);
    assert!(res.is_ok());
    let res = res.unwrap();
    assert!(res.is_none());
}

#[test]
fn match_markers_returns_correct_indices() {
    let mut inp: Vec<u8> = Vec::new();
    let start_bytes = b"Some random bytes.";
    let middle_bytes = b"More bytes.";
    let end_bytes = b"Final bytes.";
    inp.extend_from_slice(start_bytes);
    inp.extend_from_slice(s_marker());
    inp.extend_from_slice(middle_bytes);
    inp.extend_from_slice(e_marker());
    inp.extend_from_slice(end_bytes);

    let res = match_markers(&inp);
    assert!(res.is_ok());
    let res = res.unwrap();
    assert!(res.is_some());
    let (sidx, eidx) = res.unwrap();

    assert_eq!(sidx, start_bytes.len());
    let expected_eidx = start_bytes.len() + s_marker().len() + middle_bytes.len() + e_marker().len();
    assert_eq!(eidx, expected_eidx);
}

#[test]
fn match_markers_returns_err_without_start() {
    let mut inp: Vec<u8> = Vec::new();
    let start_bytes = b"Some random bytes.";
    let middle_bytes = b"More bytes.";
    let end_bytes = b"Final bytes.";
    inp.extend_from_slice(start_bytes);
    inp.extend_from_slice(middle_bytes);
    inp.extend_from_slice(e_marker());
    inp.extend_from_slice(end_bytes);

    let res = match_markers(&inp);
    assert!(res.is_err());
}

#[test]
fn match_markers_returns_err_without_end() {
    let mut inp: Vec<u8> = Vec::new();
    let start_bytes = b"Some random bytes.";
    let middle_bytes = b"More bytes.";
    let end_bytes = b"Final bytes.";
    inp.extend_from_slice(start_bytes);
    inp.extend_from_slice(s_marker());
    inp.extend_from_slice(middle_bytes);
    inp.extend_from_slice(end_bytes);

    let res = match_markers(&inp);
    assert!(res.is_err());
}

#[test]
fn match_markers_returns_err_with_multiple_start() {
    let mut inp: Vec<u8> = Vec::new();
    let start_bytes = b"Some random bytes.";
    let middle_bytes = b"More bytes.";
    let end_bytes = b"Final bytes.";
    inp.extend_from_slice(s_marker());
    inp.extend_from_slice(start_bytes);
    inp.extend_from_slice(s_marker());
    inp.extend_from_slice(middle_bytes);
    inp.extend_from_slice(e_marker());
    inp.extend_from_slice(end_bytes);

    let res = match_markers(&inp);
    assert!(res.is_err());
}

#[test]
fn match_markers_returns_err_with_multiple_end() {
    let mut inp: Vec<u8> = Vec::new();
    let start_bytes = b"Some random bytes.";
    let middle_bytes = b"More bytes.";
    let end_bytes = b"Final bytes.";
    inp.extend_from_slice(start_bytes);
    inp.extend_from_slice(s_marker());
    inp.extend_from_slice(middle_bytes);
    inp.extend_from_slice(e_marker());
    inp.extend_from_slice(end_bytes);
    inp.extend_from_slice(e_marker());

    let res = match_markers(&inp);
    assert!(res.is_err());
}

#[test]
fn match_markers_error_kinds() {
    let mut only_end: Vec<u8> = b"x".to_vec();
    only_end.extend_from_slice(e_marker());
    assert_eq!(match_markers(&only_end), Err(MarkerError::MissingStartMarker));
    let mut only_start: Vec<u8> = b"x".to_vec();
    only_start.extend_from_slice(s_marker());
    assert_eq!(match_markers(&only_start), Err(MarkerError::MissingEndMarker));
    let mut twice: Vec<u8> = Vec::new();
    twice.extend_from_slice(s_marker());
    twice.extend_from_slice(s_marker());
    twice.extend_from_slice(e_marker());
    assert_eq!(match_markers(&twice), Err(MarkerError::MultipleSections));
}

#[test]
fn find_subslice_finds_first_occurrence() {
    assert_eq!(find_subslice(b"abcabc", b"bc", 0), Some(1));
    assert_eq!(find_subslice(b"abcabc", b"bc", 2), Some(4));
    assert_eq!(find_subslice(b"abcabc", b"bd", 0), None);
    assert_eq!(find_subslice(b"ab", b"abc", 0), None);
    assert_eq!(find_subslice(b"ab", b"", 0), Some(0));
}

#[test]
fn zsh_section_content() {
    let content = get_shell_script_gup_content("/home/u/.gup/bin", true);
    let expected = format!(
        "{}\n\n# !! Contents within this block are managed by gup !!\n\npath=('/home/u/.gup/bin' $path)\nexport PATH\n\n{}",
        SHELL_SCRIPT_START_MARKER, SHELL_SCRIPT_END_MARKER
    );
    assert_eq!(content, expected.into_bytes());
}

#[test]
fn sh_section_content() {
    let content = get_shell_script_gup_content("/opt/bin", false);
    let expected = format!(
        "{}\n\n# !! Contents within this block are managed by gup !!\n\ncase \":$PATH:\" in\n    *:/opt/bin:*)\n        ;;\n\n    *)\n        export PATH=/opt/bin${{PATH:+:${{PATH}}}}\n        ;;\nesac\n\n{}",
        SHELL_SCRIPT_START_MARKER, SHELL_SCRIPT_END_MARKER
    );
    assert_eq!(content, expected.into_bytes());
}

#[test]
fn add_section_appends_then_replaces() {
    let original: &[u8] = b"export FOO=1\n";
    let added = add_gup_section(original, "/a/bin", false).unwrap();
    let section = get_shell_script_gup_content("/a/bin", false);
    let mut expected = original.to_vec();
    expected.push(b'\n');
    expected.extend_from_slice(&section);
    expected.push(b'\n');
    assert_eq!(added, expected);
    // adding again leaves the script unchanged
    let again = add_gup_section(&added, "/a/bin", false).unwrap();
    assert_eq!(again, added);
    // adding another path replaces the section in place
    let replaced = add_gup_section(&added, "/b/bin", false).unwrap();
    let section_b = get_shell_script_gup_content("/b/bin", false);
    let mut expected_b = original.to_vec();
    expected_b.push(b'\n');
    expected_b.extend_from_slice(&section_b);
    expected_b.push(b'\n');
    assert_eq!(replaced, expected_b);
}

#[test]
fn remove_section_after_add() {
    let original: &[u8] = b"export FOO=1\n";
    let added = add_gup_section(original, "/a/bin", true).unwrap();
    let removed = remove_gup_section(&added).unwrap().unwrap();
    assert_eq!(removed, b"export FOO=1\n\n\n".to_vec());
    assert_eq!(remove_gup_section(original), Ok(None));
    let mut broken = original.to_vec();
    broken.extend_from_slice(s_marker());
    assert_eq!(remove_gup_section(&broken), Err(MarkerError::MissingEndMarker));
    assert_eq!(add_gup_section(&broken, "/a/bin", true), Err(MarkerError::MissingEndMarker));
}

#[test]
fn written_section_round_trip() {
    for zsh in [true, false] {
        let section = get_shell_script_gup_content("/home/u/.gup/bin", zsh);
        assert_eq!(match_markers(&section), Ok(Some((0, section.len()))));
        let script = b"export A=1\n".to_vec();
        let once = add_gup_section(&script, "/home/u/.gup/bin", zsh).unwrap();
        let twice = add_gup_section(&once, "/home/u/.gup/bin", zsh).unwrap();
        assert_eq!(once, twice);
        let removed = remove_gup_section(&once).unwrap().unwrap();
        let mut expected = script.clone();
        expected.extend_from_slice(b"\n\n");
        assert_eq!(removed, expected);
    }
}
