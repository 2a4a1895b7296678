use ampkg::unpack::{check_entries, is_inside, UnpackError};

#[test]
fn relative_paths_stay_inside() {
    for path in ["a", "a/b", "usr/bin/tool", "./a", "a/./b", "a//b", "a/", "", ".", "a/..", "a/../b",
        "a/b/../../c", "...", "..a", "a..", "a/.../b", ".hidden", "a/b/.."]
    {
        assert!(is_inside(path), "{:?}", path);
    }
}

#[test]
fn paths_that_climb_out_are_refused() {
    for path in ["..", "../x", "a/../..", "a/../../b", "./..", "a/b/../../../c", "../a/b",
        "a/../b/../..", ".//..", "x/../../x"]
    {
        assert!(!is_inside(path), "{:?}", path);
    }
}

#[test]
fn climbing_out_is_not_undone_by_coming_back() {
    assert!(!is_inside("../a"));
    assert!(!is_inside("a/../../a/b"));
}

#[test]
fn absolute_paths_are_refused() {
    for path in ["/", "/etc/passwd", "/a/..", "//a"] {
        assert!(!is_inside(path), "{:?}", path);
    }
}

#[test]
fn all_entries_safe() {
    let paths =
        vec!["bin/tool".to_string(), "share/doc/readme".to_string(), "lib/../lib/x".to_string()];
    assert_eq!(check_entries(&paths), Ok(()));
    assert_eq!(check_entries(&Vec::new()), Ok(()));
}

#[test]
fn first_unsafe_entry_is_named() {
    let paths = vec![
        "bin/tool".to_string(),
        "../../etc/cron.d/job".to_string(),
        "ok".to_string(),
        "/abs".to_string(),
    ];
    assert_eq!(check_entries(&paths), Err(UnpackError::UnsafePath { entry: 1 }));
    let paths = vec!["/abs".to_string()];
    assert_eq!(check_entries(&paths), Err(UnpackError::UnsafePath { entry: 0 }));
}
