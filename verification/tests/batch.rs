use merge_inl::{
    check_if_args_exist, file_list_to_string, merge, BatchError, ErrorList, InlFile, MergeError,
    PreconditionFailure, SkipReason,
};

fn file(path: &str, readable: bool, parent_text: Result<&str, &str>) -> InlFile {
    InlFile {
        path: String::from(path),
        readable,
        parent_text: parent_text.map(String::from).map_err(String::from),
    }
}

#[test]
fn empty_batch_succeeds() {
    assert_eq!(merge(&Vec::new()), Ok(()));
    assert_eq!(check_if_args_exist(&Vec::new()), Ok(()));
}

#[test]
fn one_missing_file_aborts_the_batch() {
    let files = vec![
        file("include/pkg/good-inl.h", true, Ok("#include <pkg/good-inl.h>\n")),
        file("include/pkg/missing-inl.h", false, Err("not read")),
    ];
    let error = merge(&files).unwrap_err();
    assert_eq!(
        error,
        BatchError::Precondition(PreconditionFailure {
            bad_files: vec![String::from("include/pkg/missing-inl.h")],
        })
    );
    assert_eq!(
        error.message(),
        "The following files are not readable:\ninclude/pkg/missing-inl.h\n"
    );
}

#[test]
fn precondition_comes_before_any_validation() {
    let files = vec![
        file("not-an-inline-header.h", true, Err("not read")),
        file("b-inl.h", false, Err("not read")),
        file("c-inl.h", false, Err("not read")),
    ];
    match merge(&files) {
        Err(BatchError::Precondition(failure)) => {
            assert_eq!(failure.bad_files, vec![String::from("b-inl.h"), String::from("c-inl.h")]);
            assert_eq!(
                failure.message(),
                "The following files are not readable:\nb-inl.h\nc-inl.h\n"
            );
        },
        other => panic!("{:?}", other),
    }
}

#[test]
fn all_files_valid() {
    let files = vec![
        file("include/a-inl.h", true, Ok("#include <a-inl.h>\n")),
        file("x/include/y/b_inl.h", true, Ok("  #include \"y/b_inl.h\"\n")),
    ];
    assert_eq!(check_if_args_exist(&files), Ok(()));
    assert_eq!(merge(&files), Ok(()));
}

#[test]
fn failures_are_collected_in_order() {
    let files = vec![
        file("include/a.h", true, Ok("")),
        file("include/b-inl.h", true, Ok("#include <b-inl.h>\n")),
        file("include/c-inl.h", true, Err("denied")),
        file("d-inl.h", true, Ok("#include <d-inl.h>\n")),
        file("include/e-inl.h", true, Ok("#include <f-inl.h>\n")),
    ];
    let error = merge(&files).unwrap_err();
    let expected = ErrorList::new(
        "Some files failed to merge:",
        vec![
            MergeError::new(
                SkipReason::NotInlSuffix,
                String::from(
                    "include/a.h is not a file with `-inl.h` or `_inl.h` suffix; skipping",
                ),
            ),
            MergeError::new(
                SkipReason::ParentUnreadable,
                String::from(
                    "include/c-inl.h: cannot open parent file: include/c.h: denied; skipping",
                ),
            ),
            MergeError::new(
                SkipReason::NoIncludeAncestor,
                String::from("d-inl.h is not in any include folder; skipping"),
            ),
            MergeError::new(
                SkipReason::ParentMissingInclude,
                String::from(
                    "include/e-inl.h: include/e.h does not contain the requested -inl.h file: \
                     e-inl.h; skipping",
                ),
            ),
        ],
    );
    assert_eq!(error, BatchError::Failed(expected.clone()));
    assert_eq!(
        error.message(),
        "Some files failed to merge:\n\
         include/a.h is not a file with `-inl.h` or `_inl.h` suffix; skipping\n\
         include/c-inl.h: cannot open parent file: include/c.h: denied; skipping\n\
         d-inl.h is not in any include folder; skipping\n\
         include/e-inl.h: include/e.h does not contain the requested -inl.h file: e-inl.h; \
         skipping\n"
    );
    assert_eq!(expected.message(), error.message());
}

#[test]
fn error_list_without_errors_is_its_preamble() {
    let list = ErrorList::new("Nothing:", Vec::new());
    assert_eq!(list.preamble, "Nothing:");
    assert!(list.errors.is_empty());
    assert_eq!(list.message(), "Nothing:\n");
}

#[test]
fn file_list_puts_each_path_on_a_line() {
    assert_eq!(file_list_to_string(&Vec::new()), "");
    assert_eq!(file_list_to_string(&vec![String::from("a")]), "a\n");
    assert_eq!(
        file_list_to_string(&vec![String::from("a/b.h"), String::new(), String::from("c")]),
        "a/b.h\n\nc\n"
    );
}

#[test]
fn check_names_every_unreadable_file() {
    let files = vec![
        file("a", false, Err("")),
        file("b", true, Err("")),
        file("c", false, Err("")),
    ];
    assert_eq!(
        check_if_args_exist(&files),
        Err(PreconditionFailure { bad_files: vec![String::from("a"), String::from("c")] })
    );
}
