use merge_inl::validation::verdict;
use merge_inl::{merge_one, InlFile, MergeError, SkipReason};

fn inl_file(path: &str, parent_text: Result<&str, &str>) -> InlFile {
    InlFile {
        path: String::from(path),
        readable: true,
        parent_text: parent_text.map(String::from).map_err(String::from),
    }
}

#[test]
fn no_include_ancestor_whatever_the_parent_holds() {
    let file = inl_file("dir/fancy-inl.h", Ok("#include <fancy-inl.h>\n"));
    let error = merge_one(&file).unwrap_err();
    assert_eq!(error.reason, SkipReason::NoIncludeAncestor);
    assert_eq!(error.msg, "dir/fancy-inl.h is not in any include folder; skipping");

    let file = inl_file("dir/fancy-inl.h", Ok(""));
    assert_eq!(merge_one(&file).unwrap_err().reason, SkipReason::NoIncludeAncestor);
}

#[test]
fn parent_with_quoted_directive_is_accepted() {
    let file = inl_file(
        "/abs/path/include/pkg/foo-inl.h",
        Ok("#pragma once\n    #include \"pkg/foo-inl.h\"\nclass Foo {};\n"),
    );
    assert_eq!(merge_one(&file), Ok(()));
}

#[test]
fn parent_with_another_directive_is_refused() {
    let file = inl_file(
        "/abs/path/include/pkg/foo-inl.h",
        Ok("#pragma once\n    #include \"pkg/other-inl.h\"\nclass Foo {};\n"),
    );
    let error = merge_one(&file).unwrap_err();
    assert_eq!(error.reason, SkipReason::ParentMissingInclude);
    assert_eq!(
        error.msg,
        "/abs/path/include/pkg/foo-inl.h: /abs/path/include/pkg/foo.h does not contain the \
         requested -inl.h file: pkg/foo-inl.h; skipping"
    );
}

#[test]
fn path_without_the_suffix_is_refused_first() {
    let file = inl_file("/abs/include/pkg/foo.h", Err("No such file or directory"));
    let error = merge_one(&file).unwrap_err();
    assert_eq!(error.reason, SkipReason::NotInlSuffix);
    assert_eq!(
        error.msg,
        "/abs/include/pkg/foo.h is not a file with `-inl.h` or `_inl.h` suffix; skipping"
    );
    assert_eq!(error.message(), error.msg);
}

#[test]
fn unreadable_parent_is_refused_before_the_path_is_searched() {
    let file = inl_file("dir/fancy_inl.h", Err("Permission denied (os error 13)"));
    let error = merge_one(&file).unwrap_err();
    assert_eq!(error.reason, SkipReason::ParentUnreadable);
    assert_eq!(
        error.msg,
        "dir/fancy_inl.h: cannot open parent file: dir/fancy.h: Permission denied (os error 13); \
         skipping"
    );
}

#[test]
fn readable_flag_does_not_decide_for_one_file() {
    let mut file = inl_file("include/a-inl.h", Ok("#include <a-inl.h>"));
    file.readable = false;
    assert_eq!(merge_one(&file), Ok(()));
}

#[test]
fn verdict_takes_the_first_failure() {
    let parent = Some(String::from("p.h"));
    let text: Result<String, String> = Ok(String::from("text"));
    let unread: Result<String, String> = Err(String::from("gone"));
    let relative = Some(String::from("r-inl.h"));

    assert_eq!(verdict("i", &parent, &text, &relative, true), Ok(()));
    assert_eq!(
        verdict("i", &None, &unread, &None, false),
        Err(MergeError::new(
            SkipReason::NotInlSuffix,
            String::from("i is not a file with `-inl.h` or `_inl.h` suffix; skipping"),
        ))
    );
    assert_eq!(
        verdict("i", &parent, &unread, &None, false),
        Err(MergeError::new(
            SkipReason::ParentUnreadable,
            String::from("i: cannot open parent file: p.h: gone; skipping"),
        ))
    );
    assert_eq!(
        verdict("i", &parent, &text, &None, true),
        Err(MergeError::new(
            SkipReason::NoIncludeAncestor,
            String::from("i is not in any include folder; skipping"),
        ))
    );
    assert_eq!(
        verdict("i", &parent, &text, &relative, false),
        Err(MergeError::new(
            SkipReason::ParentMissingInclude,
            String::from("i: p.h does not contain the requested -inl.h file: r-inl.h; skipping"),
        ))
    );
}
