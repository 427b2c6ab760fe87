use merge_inl::get_include_relative_path;

#[test]
fn empty_file_returns_none() {
    assert!(get_include_relative_path("").is_none());
}

#[test]
fn correct_file_but_no_include_returns_none() {
    assert!(get_include_relative_path("this/is/my/include-inl.h").is_none());
}

#[test]
fn correct_file_correct_result() {
    let relative_path = get_include_relative_path("/abs/path/include/my-package/my-include-inl.h");
    assert!(relative_path.is_some());
    assert_eq!(relative_path.unwrap(), String::from("my-package/my-include-inl.h"));
}

#[test]
fn include_as_last_component_gives_the_empty_path() {
    assert_eq!(get_include_relative_path("a/include"), Some(String::new()));
    assert_eq!(get_include_relative_path("include"), Some(String::new()));
    assert_eq!(get_include_relative_path("a/include/"), Some(String::new()));
}

#[test]
fn first_include_marks_the_boundary() {
    assert_eq!(
        get_include_relative_path("a/include/b/include/c.h"),
        Some(String::from("b/include/c.h"))
    );
}

#[test]
fn component_must_equal_include_exactly() {
    assert_eq!(get_include_relative_path("a/includes/b.h"), None);
    assert_eq!(get_include_relative_path("a/Include/b.h"), None);
    assert_eq!(get_include_relative_path("a/my-include/b.h"), None);
    assert_eq!(get_include_relative_path("a/include.d/b.h"), None);
}

#[test]
fn separators_and_dots_are_normalised() {
    assert_eq!(get_include_relative_path("a//include//b///c.h"), Some(String::from("b/c.h")));
    assert_eq!(get_include_relative_path("./include/./b/./c.h"), Some(String::from("b/c.h")));
    assert_eq!(get_include_relative_path("/include/b/"), Some(String::from("b")));
}

#[test]
fn parent_directory_components_pass_through() {
    assert_eq!(get_include_relative_path("include/../b/c.h"), Some(String::from("../b/c.h")));
    assert_eq!(get_include_relative_path("../include/.../c.h"), Some(String::from(".../c.h")));
}

#[test]
fn relative_path_agrees_with_std_components() {
    for path in [
        "/abs/path/include/my-package/my-include-inl.h",
        "a//include//b///c.h",
        "./include/./b/./c.h",
        "include/../b/c.h",
        "x/include/",
        "x/include/.",
        "/include",
        "include/.hidden/..x",
    ] {
        let mut expected = std::path::PathBuf::new();
        let mut found = false;
        for component in std::path::Path::new(path).components() {
            if found {
                expected.push(component);
            } else if component.as_os_str() == "include" {
                found = true;
            }
        }
        assert!(found);
        assert_eq!(
            get_include_relative_path(path),
            Some(expected.to_string_lossy().into_owned()),
            "{}",
            path
        );
    }
}
