//! When two paths are the same, and where one lands under another.

use std::path::Path;
use yadgar_lifecycle::FilePath;

fn path(text: &str) -> FilePath {
    FilePath::new(text)
}

#[test]
fn spellings_agree_exactly_where_the_standard_library_says_they_do() {
    let spellings = [
        "", "/", "//", ".", "./", "..", "a", "a/", "a//", "./a", "a/.", "a/./b", "a/b", "a//b",
        "a/b/", "/a", "//a", "/a/", "/./a", "/a/..", "/", "a/../b", "b", "..a", ".a", "a.", "...",
        "/.", "./.", ".//a",
    ];
    for one in spellings {
        for other in spellings {
            assert_eq!(
                path(one) == path(other),
                Path::new(one) == Path::new(other),
                "{one:?} and {other:?}"
            );
        }
    }
}

#[test]
fn joining_lands_where_the_standard_library_puts_it() {
    for directory in ["", "/", "/etc", "/etc/", "etc", "etc//"] {
        for below in ["", "a", "/a", "a/b", "./a"] {
            let joined = path(directory).join(&path(below));
            let expected = Path::new(directory).join(below);
            assert_eq!(joined.display(), expected.display().to_string());
        }
    }
}

#[test]
fn a_path_that_is_not_text_is_shown_with_replacements() {
    let odd = FilePath::from_bytes(vec![0x2f, 0x61, 0xff, 0x62]);
    assert_eq!(odd.display(), "/a\u{fffd}b");
    assert_eq!(odd.as_bytes(), &[0x2f, 0x61, 0xff, 0x62]);
    assert!(odd.same(&odd.clone()));
    assert!(!odd.same(&FilePath::from_bytes(vec![0x2f, 0x61, 0xfe, 0x62])));
}

#[test]
fn a_path_is_spelled_the_way_it_was_given() {
    assert_eq!(path("/etc//yadgar/").display(), "/etc//yadgar/");
    assert_eq!(path("/etc/é").as_bytes(), "/etc/é".as_bytes());
}
