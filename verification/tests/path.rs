use heretek::path::{join, resolve_home};
use std::path::Path;

#[test]
fn home_is_resolved() {
    assert_eq!(
        resolve_home("~/a.out", Some("/home/u")),
        Some("/home/u/a.out".to_string())
    );
    assert_eq!(resolve_home("~/a.out", None), None);
}

#[test]
fn other_paths_stay() {
    for p in ["/bin/ls", "a.out", "~", "~user/x", "", "x/~/y"] {
        assert_eq!(resolve_home(p, Some("/home/u")), Some(p.to_string()));
        assert_eq!(resolve_home(p, None), Some(p.to_string()));
    }
}

#[test]
fn joins_as_the_standard_library() {
    for base in ["/home/u", "/", "", "rel", "/home/u/"] {
        for p in ["a", "a/b", "", "/etc", "./x", "../x"] {
            let expected = Path::new(base).join(p);
            assert_eq!(join(base, p), expected.to_str().unwrap(), "{:?} {:?}", base, p);
            let typed = format!("~/{}", p);
            assert_eq!(
                resolve_home(&typed, Some(base)),
                Some(expected.to_str().unwrap().to_string())
            );
        }
    }
}
