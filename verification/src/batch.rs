//! A batch of inline headers: the check that all of them can be read, and the
//! validation of each with the failures collected.

use vstd::prelude::*;
use vstd::string::StringExecFns;
use crate::errors::{error_views, lines, ErrorList, ErrorListView, MergeError, MergeErrorView};
use crate::validation::{file_views, merge_one, merge_outcome, InlFile, InlFileView};

verus! {

/// The texts of the strings, in their order.
pub open spec fn string_views(strings: Seq<String>) -> Seq<Seq<char>> {
    Seq::new(strings.len(), |i: int| strings[i]@)
}

/// The paths of the files that are no readable regular files, in the order
/// of the batch.
pub open spec fn unreadable_paths(files: Seq<InlFileView>) -> Seq<Seq<char>> {
    files.filter_map(
        |file: InlFileView|
            if file.readable {
                None
            } else {
                Some(file.path)
            },
    )
}

/// The errors of the files that cannot be merged, in the order of the batch.
pub open spec fn failures(files: Seq<InlFileView>) -> Seq<MergeErrorView> {
    files.filter_map(
        |file: InlFileView|
            match merge_outcome(file) {
                Ok(_) => None,
                Err(error) => Some(error),
            },
    )
}

/// The paths of a batch that are no readable regular files. While there is
/// one, no file of the batch is validated.
#[derive(Clone, Debug, PartialEq, Eq)]
pub struct PreconditionFailure {
    pub bad_files: Vec<String>,
}

impl View for PreconditionFailure {
    type V = Seq<Seq<char>>;

    open spec fn view(&self) -> Seq<Seq<char>> {
        string_views(self.bad_files@)
    }
}

/// The report of a failed precondition: a heading, then each path on a line.
pub open spec fn precondition_report(bad_files: Seq<Seq<char>>) -> Seq<char> {
    "The following files are not readable:\n"@ + lines(bad_files)
}

impl PreconditionFailure {
    /// The report, as it is shown to people.
    pub fn message(&self) -> (text: String)
        ensures
            text@ == precondition_report(self@),
    {
        let mut text = "The following files are not readable:\n".to_owned();
        let list = file_list_to_string(&self.bad_files);
        text.append(list.as_str());
        text
    }
}

/// Why a batch failed.
#[derive(Clone, Debug, PartialEq, Eq)]
pub enum BatchError {
    /// Some paths are no readable regular files: nothing was validated.
    Precondition(PreconditionFailure),
    /// All files were validated, and these were skipped.
    Failed(ErrorList),
}

/// A `BatchError` as sequences.
pub ghost enum BatchErrorView {
    Precondition(Seq<Seq<char>>),
    Failed(ErrorListView),
}

impl View for BatchError {
    type V = BatchErrorView;

    open spec fn view(&self) -> BatchErrorView {
        match *self {
            BatchError::Precondition(failure) => BatchErrorView::Precondition(failure@),
            BatchError::Failed(list) => BatchErrorView::Failed(list@),
        }
    }
}

impl BatchErrorView {
    /// The report of either failure.
    pub open spec fn report(self) -> Seq<char> {
        match self {
            BatchErrorView::Precondition(bad_files) => precondition_report(bad_files),
            BatchErrorView::Failed(list) => list.report(),
        }
    }
}

impl BatchError {
    /// The report, as it is shown to people.
    pub fn message(&self) -> (text: String)
        ensures
            text@ == self@.report(),
    {
        match self {
            BatchError::Precondition(failure) => failure.message(),
            BatchError::Failed(list) => list.message(),
        }
    }
}

/// The line that introduces the files that were skipped.
pub open spec fn failure_preamble() -> Seq<char> {
    "Some files failed to merge:"@
}

/// The outcome of a batch. One path that is no readable file fails the whole
/// batch, and the error names all such paths. Otherwise every file is
/// validated, and the batch fails where one of them does, with all their
/// errors.
pub open spec fn batch_outcome(files: Seq<InlFileView>) -> Result<(), BatchErrorView> {
    if unreadable_paths(files).len() > 0 {
        Err(BatchErrorView::Precondition(unreadable_paths(files)))
    } else if failures(files).len() > 0 {
        Err(
            BatchErrorView::Failed(
                ErrorListView { preamble: failure_preamble(), errors: failures(files) },
            ),
        )
    } else {
        Ok(())
    }
}

/// The paths, each on a line of its own.
pub fn file_list_to_string(files: &Vec<String>) -> (file_string: String)
    ensures
        file_string@ == lines(string_views(files@)),
{
    let mut file_string = String::new();
    let ghost all = string_views(files@);
    let mut i: usize = 0;
    assert(all.take(0) =~= Seq::<Seq<char>>::empty());
    while i < files.len()
        invariant
            i <= files.len(),
            all == string_views(files@),
            file_string@ == lines(all.take(i as int)),
        decreases files.len() - i,
    {
        file_string.append(files[i].as_str());
        file_string.append("\n");
        proof {
            assert(all.take(i + 1).drop_last() =~= all.take(i as int));
            assert(all.take(i + 1).last() == files@[i as int]@);
        }
        i = i + 1;
    }
    assert(all.take(i as int) =~= all);
    file_string
}

/// Checks that every file of the batch is a regular file that can be read.
/// Where some are not, the error names them all, in the order of the batch.
pub fn check_if_args_exist(file_paths: &Vec<InlFile>) -> (checked: Result<(), PreconditionFailure>)
    ensures
        match checked {
            Ok(_) => unreadable_paths(file_views(file_paths@)).len() == 0,
            Err(failure) => failure@.len() > 0 && failure@ == unreadable_paths(
                file_views(file_paths@),
            ),
        },
{
    let mut bad_files: Vec<String> = Vec::new();
    let ghost all = file_views(file_paths@);
    let mut i: usize = 0;
    assert(all.take(0) =~= Seq::<InlFileView>::empty());
    while i < file_paths.len()
        invariant
            i <= file_paths.len(),
            all == file_views(file_paths@),
            string_views(bad_files@) == unreadable_paths(all.take(i as int)),
        decreases file_paths.len() - i,
    {
        let ghost before = string_views(bad_files@);
        proof {
            assert(all.take(i + 1).drop_last() =~= all.take(i as int));
            assert(all.take(i + 1).last() == file_paths@[i as int]@);
        }
        if !file_paths[i].readable {
            bad_files.push(file_paths[i].path.clone());
            assert(string_views(bad_files@) =~= before + seq![file_paths@[i as int]@.path]);
        }
        i = i + 1;
    }
    assert(all.take(i as int) =~= all);
    if bad_files.len() > 0 {
        Err(PreconditionFailure { bad_files })
    } else {
        Ok(())
    }
}

/// Validates a batch of inline headers. Nothing is validated unless every
/// file of the batch can be read; then each file is validated in turn, one
/// failure stopping none of the others, and the failures are returned
/// together.
pub fn merge(inl_files: &Vec<InlFile>) -> (outcome: Result<(), BatchError>)
    ensures
        match outcome {
            Ok(_) => batch_outcome(file_views(inl_files@)) is Ok,
            Err(error) => batch_outcome(file_views(inl_files@)) == Err::<(), BatchErrorView>(
                error@,
            ),
        },
{
    if let Err(failure) = check_if_args_exist(inl_files) {
        return Err(BatchError::Precondition(failure));
    }
    let mut error_list: Vec<MergeError> = Vec::new();
    let ghost all = file_views(inl_files@);
    let mut i: usize = 0;
    assert(all.take(0) =~= Seq::<InlFileView>::empty());
    while i < inl_files.len()
        invariant
            i <= inl_files.len(),
            all == file_views(inl_files@),
            error_views(error_list@) == failures(all.take(i as int)),
        decreases inl_files.len() - i,
    {
        let ghost before = error_views(error_list@);
        proof {
            assert(all.take(i + 1).drop_last() =~= all.take(i as int));
            assert(all.take(i + 1).last() == inl_files@[i as int]@);
        }
        if let Err(error) = merge_one(&inl_files[i]) {
            error_list.push(error);
            assert(error_views(error_list@) =~= before + seq![error@]);
        }
        i = i + 1;
    }
    assert(all.take(i as int) =~= all);
    if error_list.len() == 0 {
        Ok(())
    } else {
        Err(BatchError::Failed(ErrorList::new("Some files failed to merge:", error_list)))
    }
}

/// The paths that `unreadable_paths` gives are those of the files that are
/// not readable, and no others.
pub proof fn unreadable_paths_are_those_not_readable(files: Seq<InlFileView>)
    ensures
        forall|i: int|
            0 <= i < files.len() && !(#[trigger] files[i]).readable ==> unreadable_paths(
                files,
            ).contains(files[i].path),
        forall|path: Seq<char>| #[trigger]
            unreadable_paths(files).contains(path) ==> exists|i: int|
                0 <= i < files.len() && !(#[trigger] files[i]).readable && files[i].path == path,
        unreadable_paths(files).len() == 0 <==> forall|i: int|
            0 <= i < files.len() ==> (#[trigger] files[i]).readable,
    decreases files.len(),
{
    if files.len() > 0 {
        let front = files.drop_last();
        let last = files.last();
        unreadable_paths_are_those_not_readable(front);
        let found = unreadable_paths(files);
        let found_front = unreadable_paths(front);
        assert(found == if last.readable {
            found_front
        } else {
            found_front + seq![last.path]
        });
        assert forall|i: int| 0 <= i < files.len() && !(#[trigger] files[i]).readable implies found.contains(
            files[i].path,
        ) by {
            if i < front.len() {
                assert(front[i] == files[i]);
                let k = choose|k: int| 0 <= k < found_front.len() && found_front[k] == files[i].path;
                assert(found[k] == files[i].path);
            } else {
                assert(found[found.len() - 1] == last.path);
            }
        }
        assert forall|path: Seq<char>| #[trigger] found.contains(path) implies exists|i: int|
            0 <= i < files.len() && !(#[trigger] files[i]).readable && files[i].path == path by {
            let k = choose|k: int| 0 <= k < found.len() && found[k] == path;
            if k < found_front.len() {
                assert(found_front[k] == path);
                assert(found_front.contains(path));
                let i = choose|i: int|
                    0 <= i < front.len() && !(#[trigger] front[i]).readable && front[i].path
                        == path;
                assert(files[i] == front[i]);
            } else {
                assert(files[files.len() - 1] == last);
            }
        }
        if found.len() == 0 {
            assert forall|i: int| 0 <= i < files.len() implies (#[trigger] files[i]).readable by {
                if i < front.len() {
                    assert(front[i] == files[i]);
                }
            }
        }
        if forall|i: int| 0 <= i < files.len() ==> (#[trigger] files[i]).readable {
            assert(files[files.len() - 1].readable);
            assert forall|i: int| 0 <= i < front.len() implies (#[trigger] front[i]).readable by {
                assert(front[i] == files[i]);
            }
        }
    }
}

/// No error is collected exactly where every file can be merged.
pub proof fn no_failures_where_all_can_be_merged(files: Seq<InlFileView>)
    ensures
        failures(files).len() == 0 <==> forall|i: int|
            0 <= i < files.len() ==> merge_outcome(#[trigger] files[i]) is Ok,
    decreases files.len(),
{
    if files.len() > 0 {
        let front = files.drop_last();
        no_failures_where_all_can_be_merged(front);
        if failures(files).len() == 0 {
            assert forall|i: int| 0 <= i < files.len() implies merge_outcome(
                #[trigger] files[i],
            ) is Ok by {
                if i < front.len() {
                    assert(front[i] == files[i]);
                }
            }
        }
        if forall|i: int| 0 <= i < files.len() ==> merge_outcome(#[trigger] files[i]) is Ok {
            assert(merge_outcome(files[files.len() - 1]) is Ok);
            assert forall|i: int| 0 <= i < front.len() implies merge_outcome(
                #[trigger] front[i],
            ) is Ok by {
                assert(front[i] == files[i]);
            }
        }
    }
}

/// A batch succeeds exactly where every file is readable and can be merged.
/// One file that is not readable fails it before anything is validated: the
/// error names the files that are not readable and says nothing of the rest.
pub proof fn batch_outcome_by_file(files: Seq<InlFileView>)
    ensures
        batch_outcome(files) is Ok <==> forall|i: int|
            0 <= i < files.len() ==> (#[trigger] files[i]).readable && merge_outcome(files[i]) is Ok,
        (exists|i: int| 0 <= i < files.len() && !(#[trigger] files[i]).readable) ==> batch_outcome(
            files,
        ) == Err::<(), BatchErrorView>(BatchErrorView::Precondition(unreadable_paths(files))),
{
    unreadable_paths_are_those_not_readable(files);
    no_failures_where_all_can_be_merged(files);
}

} // verus!
