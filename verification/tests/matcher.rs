use merge_inl::contains_include;
use merge_inl::matcher::{directive_pattern, match_found};

#[test]
fn file_contains_include() {
    let file_content = r#"
                class Foo {};

                #include <test/include-inl.h>
                "#;
    assert!(contains_include(file_content, "test/include-inl.h"));
}

#[test]
fn does_not_contain_any_include() {
    let file_content = r#"
                class Foo {};

                1 + 2 + 3;
                "#;
    assert!(!contains_include(file_content, "test/include-inl.h"));
}

#[test]
fn contains_different_include() {
    let file_content = r#"
                class Foo {};

                #include <test/include-inl.h>
                "#;
    assert!(!contains_include(file_content, "test/other-include-inl.h"));
}

#[test]
fn contains_include_with_apostrophes() {
    let file_content = r#"
                class Foo {};

                #include "test/include-inl.h"
                "#;
    assert!(contains_include(file_content, "test/include-inl.h"));
}

#[test]
fn pattern_escapes_the_path() {
    assert_eq!(
        directive_pattern("test/include-inl.h"),
        String::from(
            "^[ \\t]*#include\\s+(?:<test/include\\-inl\\.h>|\"test/include\\-inl\\.h\")"
        )
    );
    assert_eq!(directive_pattern(""), String::from("^[ \\t]*#include\\s+(?:<>|\"\")"));
    let meta = "\\\\\\.\\+\\*\\?\\(\\)\\|\\[\\]\\{\\}\\^\\$\\#\\&\\-\\~";
    assert_eq!(
        directive_pattern("\\.+*?()|[]{}^$#&-~"),
        format!("^[ \\t]*#include\\s+(?:<{}>|\"{}\")", meta, meta)
    );
    assert_eq!(
        directive_pattern("a/b_c%d!e"),
        String::from("^[ \\t]*#include\\s+(?:<a/b_c%d!e>|\"a/b_c%d!e\")")
    );
}

#[test]
fn dot_in_the_path_matches_only_a_dot() {
    assert!(contains_include("#include <foo.h>\n", "foo.h"));
    assert!(!contains_include("#include <fooxh>\n", "foo.h"));
    assert!(!contains_include("#include <a/b+c.h>\n", "a/bbc.h"));
    assert!(contains_include("#include <a/b+c.h>\n", "a/b+c.h"));
}

#[test]
fn exact_text_round_trip() {
    let path = "pkg/foo_inl";
    let file = format!("#include <{}>\n", path);
    assert!(contains_include(&file, path));
    for other in ["pkg/foo_in", "kg/foo_inl", "pkg/foo", "foo_inl", "pkg/foo_inl2", "", "p"] {
        assert!(!contains_include(&file, other), "{}", other);
    }
}

#[test]
fn delimiter_inside_the_path_closes_the_directive() {
    let file = "#include <a>b>\n";
    assert!(contains_include(file, "a>b"));
    assert!(contains_include(file, "a"));
    assert!(!contains_include(file, "b"));
    assert!(!contains_include(file, "a>"));
}

#[test]
fn line_feed_inside_the_path_starts_a_line() {
    let path = "a\n#include <b";
    let file = format!("#include <{}>\n", path);
    assert!(contains_include(&file, path));
    assert!(contains_include(&file, "b"));
}

#[test]
fn delimiters_must_pair() {
    assert!(!contains_include("#include <a.h\"", "a.h"));
    assert!(!contains_include("#include \"a.h>", "a.h"));
    assert!(contains_include("#include \"a.h\">", "a.h"));
}

#[test]
fn both_delimiters_are_accepted() {
    assert!(contains_include("#include <pkg/foo.h>", "pkg/foo.h"));
    assert!(contains_include("#include \"pkg/foo.h\"", "pkg/foo.h"));
    assert!(!contains_include("#include <other/path>", "pkg/foo.h"));
    assert!(!contains_include("#include 'pkg/foo.h'", "pkg/foo.h"));
    assert!(!contains_include("#include pkg/foo.h", "pkg/foo.h"));
}

#[test]
fn directive_is_anchored_at_a_line_start() {
    assert!(contains_include("int x;\n#include <a.h>\nint y;", "a.h"));
    assert!(contains_include("int x;\n \t #include <a.h>", "a.h"));
    assert!(!contains_include("int x; #include <a.h>", "a.h"));
    assert!(!contains_include("// #include <a.h>", "a.h"));
}

#[test]
fn white_space_after_the_keyword_is_required() {
    assert!(contains_include("#include   \t<a.h>", "a.h"));
    assert!(!contains_include("#include<a.h>", "a.h"));
    assert!(!contains_include("# include <a.h>", "a.h"));
}

#[test]
fn empty_text_holds_no_directive() {
    assert!(!contains_include("", "a.h"));
    assert!(!contains_include("", ""));
    assert!(contains_include("#include <>", ""));
    assert!(contains_include("#include \"\"", ""));
}

#[test]
fn answer_of_a_search() {
    assert!(match_found(Some(true)));
    assert!(!match_found(Some(false)));
    assert!(!match_found(None));
}
