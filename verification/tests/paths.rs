use packler::paths::{
    join_paths, parent_of, relative_path, replace_extension, replace_file_name, strip_base, to_plain,
};
use std::path::{Path, PathBuf};

#[test]
fn join_puts_one_separator() {
    assert_eq!(join_paths("assets", "images"), "assets/images");
    assert_eq!(join_paths("assets/", "images"), "assets/images");
    assert_eq!(join_paths("", "images"), "images");
    assert_eq!(join_paths("assets", ""), "assets/");
    assert_eq!(join_paths("/", "x"), "/x");
}

#[test]
fn join_with_absolute_path_replaces_base() {
    assert_eq!(join_paths("assets", "/etc/passwd"), "/etc/passwd");
    assert_eq!(join_paths("", "/"), "/");
}

#[test]
fn join_agrees_with_std() {
    let cases = [("a", "b"), ("a/", "b"), ("", "b"), ("a", ""), ("a/b", "c/d.e"), ("a", "/b"), ("/", "b")];
    for (base, rel) in cases {
        let expected = Path::new(base).join(rel);
        assert_eq!(join_paths(base, rel), expected.to_str().unwrap());
    }
}

#[test]
fn strip_base_cuts_at_segment_boundary() {
    assert_eq!(strip_base("assets/images/logo.png", "assets"), Some("images/logo.png".to_string()));
    assert_eq!(strip_base("assets/images/logo.png", "assets/"), Some("images/logo.png".to_string()));
    assert_eq!(strip_base("assets/images/logo.png", "assets/images"), Some("logo.png".to_string()));
    assert_eq!(strip_base("assets", "assets"), Some(String::new()));
    assert_eq!(strip_base("assets/x", ""), Some("assets/x".to_string()));
    assert_eq!(strip_base("/a/b", "/"), Some("a/b".to_string()));
}

#[test]
fn strip_base_refuses_what_is_not_under_base() {
    assert_eq!(strip_base("assets-old/x", "assets"), None);
    assert_eq!(strip_base("other/x", "assets"), None);
    assert_eq!(strip_base("ass", "assets"), None);
    assert_eq!(strip_base("", "assets"), None);
}

#[test]
fn strip_base_agrees_with_std() {
    let cases = [
        ("assets/images/logo.png", "assets"),
        ("assets/images/logo.png", "assets/images"),
        ("assets-old/x", "assets"),
        ("a/b", "a/b"),
        ("a/b", "a/b/c"),
        ("/a/b", "/a"),
        ("x", ""),
        ("/w//x", "/w"),
        ("a//b", "a"),
        ("/w", "/w/"),
        ("/w//x/y", "/w/x"),
        ("a/b/c", "a//b"),
        ("a/b/c/", "a/b//"),
        ("/a", "/"),
        ("//a//b", "/"),
        ("/", "/"),
        ("a", "/"),
        ("/a", "a"),
        ("/a", ""),
        ("", ""),
        ("", "a"),
        ("/w/./x", "/w"),
        ("/w/x", "/w/."),
        ("/w/x/.", "/w/./"),
        ("./a/b", "."),
        ("a/b", "."),
        ("./a", ""),
        ("a/./b/.", "a//"),
        ("a/../b", "a"),
        ("a/../b", "a/.."),
    ];
    for (path, base) in cases {
        let expected = Path::new(path).strip_prefix(base).ok().map(Path::to_path_buf);
        let found = strip_base(path, base).map(PathBuf::from);
        assert_eq!(found, expected, "{path} under {base}");
    }
}

#[test]
fn repeated_separators_are_skipped() {
    assert_eq!(strip_base("/w//x", "/w"), Some("x".to_string()));
    assert_eq!(strip_base("a//b", "a"), Some("b".to_string()));
    assert_eq!(strip_base("/w", "/w/"), Some(String::new()));
    assert_eq!(strip_base("/w///x//y/", "/w//"), Some("x/y".to_string()));
}

#[test]
fn stripped_path_joins_back_to_the_target() {
    let cases = [("/w//x", "/w"), ("a//b/c", "a/"), ("/a/b", "/"), ("/w/x/y", "/w/x/")];
    for (path, base) in cases {
        let rest = strip_base(path, base).unwrap();
        assert!(!rest.starts_with('/'), "{path} under {base}");
        assert_eq!(join_paths(&to_plain(base), &rest), to_plain(path));
        assert_eq!(Path::new(base).join(&rest), Path::new(path));
    }
}

#[test]
fn relative_path_is_never_absolute() {
    assert_eq!(relative_path("/a/b", ""), None);
    assert_eq!(relative_path("a/b", ""), Some("a/b".to_string()));
    assert_eq!(relative_path("/a/b", "/a"), Some("b".to_string()));
    assert_eq!(relative_path("/a//b", "/"), Some("a/b".to_string()));
    assert_eq!(relative_path("/c", "/a"), None);
}

#[test]
fn plain_form() {
    assert_eq!(to_plain("a//b///c/"), "a/b/c");
    assert_eq!(to_plain("//"), "/");
    assert_eq!(to_plain("/"), "/");
    assert_eq!(to_plain(""), "");
    assert_eq!(to_plain("a/b"), "a/b");
    assert_eq!(to_plain("./a/../b"), "./a/../b");
    assert_eq!(to_plain("a/./b/."), "a/b");
    assert_eq!(to_plain("/./"), "/");
    assert_eq!(to_plain("./."), ".");
    assert_eq!(to_plain("a/.hidden/.x"), "a/.hidden/.x");
    assert_eq!(to_plain("a/..//."), "a/..");
    let cases = ["a//b///c/", "//", "/x//", "a", "", "a/./b/.", "/./", "./.", "./a/./", ".", "a/.b/./c"];
    for path in cases {
        assert_eq!(Path::new(&to_plain(path)), Path::new(path));
    }
}

#[test]
fn file_name_is_replaced() {
    assert_eq!(replace_file_name("dist/css/main.scss", "main-1.css"), "dist/css/main-1.css");
    assert_eq!(replace_file_name("main.scss", "x.css"), "x.css");
    assert_eq!(replace_file_name("a/b/", "x"), "a/x");
    assert_eq!(replace_file_name("a//b", "x"), "a/x");
    assert_eq!(replace_file_name("/", "x"), "/x");
    assert_eq!(replace_file_name("", "x"), "x");
}

#[test]
fn extension_is_replaced() {
    assert_eq!(replace_extension("t/packler/sass/main.scss", "css"), "t/packler/sass/main.css");
    assert_eq!(replace_extension("t/a.b/main", "css"), "t/a.b/main.css");
    assert_eq!(replace_extension("t/theme.dark.scss", "css"), "t/theme.dark.css");
    assert_eq!(replace_extension(".hidden", "css"), ".hidden.css");
}

#[test]
fn extension_replacement_agrees_with_std() {
    let cases = [
        "a/b.scss", "a/b", "a.x/b.c.d", ".hidden", "x/.hidden.y", "dir/", "a//b.x/", "/", "", "a.b//",
        ".", "..", "a/..", "a/.", "a/./b.x", "./b",
    ];
    for path in cases {
        let mut expected = PathBuf::from(path);
        expected.set_extension("css");
        assert_eq!(PathBuf::from(replace_extension(path, "css")), expected, "{path}");
    }
    assert_eq!(replace_extension("dir/", "css"), "dir.css");
}

#[test]
fn file_name_replacement_agrees_with_std() {
    let cases = [
        "a/b.scss", "a/b/", "a//b", "b", "/b", "/", "", "a/b//c//", ".", "..", "a/..", "a/.", "./b",
    ];
    for path in cases {
        let expected = Path::new(path).with_file_name("x.css");
        assert_eq!(PathBuf::from(replace_file_name(path, "x.css")), expected, "{path}");
    }
}

#[test]
fn parent_agrees_with_std() {
    let cases = [
        "/ws/backend/Cargo.toml", "a/b/", "a//b", "a", "/a", "/", "", "a/b//c//", "//a", ".", "..",
        "a/..", "a/.", "./a", "/./a",
    ];
    for path in cases {
        let expected = Path::new(path).parent().map(Path::to_path_buf);
        assert_eq!(parent_of(path).map(PathBuf::from), expected, "{path}");
    }
    assert_eq!(parent_of("a/b/"), Some("a".to_string()));
}

#[test]
fn parent_of_a_path() {
    assert_eq!(parent_of("/ws/backend/Cargo.toml"), Some("/ws/backend".to_string()));
    assert_eq!(parent_of("backend/Cargo.toml"), Some("backend".to_string()));
    assert_eq!(parent_of("Cargo.toml"), Some(String::new()));
    assert_eq!(parent_of("/Cargo.toml"), Some("/".to_string()));
    assert_eq!(parent_of(""), None);
    assert_eq!(parent_of("/"), None);
}
