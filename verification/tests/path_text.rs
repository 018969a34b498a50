use gup::archive_paths::PathPart;
use gup::path_text::{path_le, path_parts, same_path};
use std::path::Path;

const SAMPLES: [&str; 24] = [
    "", ".", "./", "./a", "a", "a/", "a/.", "a/./b", "a//b", "a/b", "a/b/..", "..", "../a", "/", "//", "/a",
    "/a/", "/a/b", "/a//b/", "/a/./b", "/a-b", "/a/b/c", "/a b", "/ä",
];

#[test]
fn same_path_agrees_with_std_path() {
    for a in SAMPLES {
        for b in SAMPLES {
            assert_eq!(same_path(a, b), Path::new(a) == Path::new(b), "{:?} {:?}", a, b);
        }
    }
}

#[test]
fn path_le_agrees_with_std_path_order() {
    for a in SAMPLES {
        for b in SAMPLES {
            assert_eq!(path_le(a, b), Path::new(a) <= Path::new(b), "{:?} {:?}", a, b);
        }
    }
}

#[test]
fn path_parts_of_a_path() {
    let parts = path_parts("./x/../y//");
    assert_eq!(parts.len(), 4);
    assert!(matches!(parts[0], PathPart::CurDir));
    assert!(matches!(&parts[1], PathPart::Normal(n) if n == "x"));
    assert!(matches!(parts[2], PathPart::ParentDir));
    assert!(matches!(&parts[3], PathPart::Normal(n) if n == "y"));
    let rooted = path_parts("/a/./b/");
    assert_eq!(rooted.len(), 3);
    assert!(matches!(rooted[0], PathPart::RootDir));
}
