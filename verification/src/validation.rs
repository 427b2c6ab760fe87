//! The validation of one inline header.
//!
//! Nothing here touches the file system. The caller says of each inline
//! header whether it is a readable file and what reading its parent header
//! gave; the decisions are made here.

use vstd::prelude::*;
use vstd::string::StringExecFns;
use crate::errors::{MergeError, MergeErrorView, SkipReason};
use crate::matcher::{contains_include, has_include};
use crate::components::path_components;
use crate::path::{
    get_include_relative_path, get_parent_file_path, has_inl_suffix, include_relative_path,
    include_word, parent_file_path, relative_path_follows_first_include,
};

verus! {

/// An inline header, with what the file system said of it.
#[derive(Debug)]
pub struct InlFile {
    /// The path, as text.
    pub path: String,
    /// The path names a regular file that this process may read.
    pub readable: bool,
    /// The text of the parent header, or why it could not be read.
    pub parent_text: Result<String, String>,
}

/// An `InlFile` as sequences.
pub ghost struct InlFileView {
    pub path: Seq<char>,
    pub readable: bool,
    pub parent_text: Result<Seq<char>, Seq<char>>,
}

/// What reading a file gave, as sequences.
pub open spec fn read_view(read: Result<String, String>) -> Result<Seq<char>, Seq<char>> {
    match read {
        Ok(text) => Ok(text@),
        Err(cause) => Err(cause@),
    }
}

impl View for InlFile {
    type V = InlFileView;

    open spec fn view(&self) -> InlFileView {
        InlFileView {
            path: self.path@,
            readable: self.readable,
            parent_text: read_view(self.parent_text),
        }
    }
}

/// The views of the files, in their order.
pub open spec fn file_views(files: Seq<InlFile>) -> Seq<InlFileView> {
    Seq::new(files.len(), |i: int| files[i]@)
}

/// The message for a path that does not name an inline header.
pub open spec fn not_inl_suffix_message(inl_file: Seq<char>) -> Seq<char> {
    inl_file + " is not a file with `-inl.h` or `_inl.h` suffix; skipping"@
}

/// The message for a parent header that could not be read.
pub open spec fn parent_unreadable_message(
    inl_file: Seq<char>,
    parent: Seq<char>,
    cause: Seq<char>,
) -> Seq<char> {
    inl_file + ": cannot open parent file: "@ + parent + ": "@ + cause + "; skipping"@
}

/// The message for an inline header that lies below no directory `include`.
pub open spec fn no_include_ancestor_message(inl_file: Seq<char>) -> Seq<char> {
    inl_file + " is not in any include folder; skipping"@
}

/// The message for a parent header without the directive.
pub open spec fn parent_missing_include_message(
    inl_file: Seq<char>,
    parent: Seq<char>,
    relative: Seq<char>,
) -> Seq<char> {
    inl_file + ": "@ + parent + " does not contain the requested -inl.h file: "@ + relative
        + "; skipping"@
}

/// The outcome for an inline header, given its parent's path, what reading
/// the parent gave, the path that a directive would name, and whether the
/// parent's text holds that directive. The first check that fails decides.
pub open spec fn verdict_of(
    inl_file: Seq<char>,
    parent: Option<Seq<char>>,
    parent_text: Result<Seq<char>, Seq<char>>,
    relative: Option<Seq<char>>,
    found: bool,
) -> Result<(), MergeErrorView> {
    if parent is None {
        Err(
            MergeErrorView {
                reason: SkipReason::NotInlSuffix,
                msg: not_inl_suffix_message(inl_file),
            },
        )
    } else if parent_text is Err {
        Err(
            MergeErrorView {
                reason: SkipReason::ParentUnreadable,
                msg: parent_unreadable_message(inl_file, parent->0, parent_text->Err_0),
            },
        )
    } else if relative is None {
        Err(
            MergeErrorView {
                reason: SkipReason::NoIncludeAncestor,
                msg: no_include_ancestor_message(inl_file),
            },
        )
    } else if !found {
        Err(
            MergeErrorView {
                reason: SkipReason::ParentMissingInclude,
                msg: parent_missing_include_message(inl_file, parent->0, relative->0),
            },
        )
    } else {
        Ok(())
    }
}

/// Whether the parent's text, where it was read, holds the directive that
/// names the inline header, where its path gives one.
pub open spec fn directive_found(file: InlFileView) -> bool {
    match (file.parent_text, include_relative_path(file.path)) {
        (Ok(text), Some(relative)) => has_include(text, relative),
        _ => false,
    }
}

/// The outcome for an inline header.
pub open spec fn merge_outcome(file: InlFileView) -> Result<(), MergeErrorView> {
    verdict_of(
        file.path,
        parent_file_path(file.path),
        file.parent_text,
        include_relative_path(file.path),
        directive_found(file),
    )
}

/// The outcome agrees with `expected`.
pub open spec fn outcome_is(
    outcome: Result<(), MergeError>,
    expected: Result<(), MergeErrorView>,
) -> bool {
    match outcome {
        Ok(_) => expected is Ok,
        Err(error) => expected == Err::<(), MergeErrorView>(error@),
    }
}

/// Decides on an inline header from what was found out about it: the first
/// of the four checks that fails gives the error, and none failing gives `Ok`.
pub fn verdict(
    inl_file: &str,
    parent: &Option<String>,
    parent_text: &Result<String, String>,
    relative: &Option<String>,
    found: bool,
) -> (outcome: Result<(), MergeError>)
    ensures
        outcome_is(
            outcome,
            verdict_of(
                inl_file@,
                match *parent {
                    Some(p) => Some(p@),
                    None => None,
                },
                read_view(*parent_text),
                match *relative {
                    Some(r) => Some(r@),
                    None => None,
                },
                found,
            ),
        ),
{
    let mut msg = inl_file.to_owned();
    let parent_path = match parent {
        Some(p) => p,
        None => {
            msg.append(" is not a file with `-inl.h` or `_inl.h` suffix; skipping");
            return Err(MergeError::new(SkipReason::NotInlSuffix, msg));
        },
    };
    if let Err(cause) = parent_text {
        msg.append(": cannot open parent file: ");
        msg.append(parent_path.as_str());
        msg.append(": ");
        msg.append(cause.as_str());
        msg.append("; skipping");
        return Err(MergeError::new(SkipReason::ParentUnreadable, msg));
    }
    let relative_path = match relative {
        Some(r) => r,
        None => {
            msg.append(" is not in any include folder; skipping");
            return Err(MergeError::new(SkipReason::NoIncludeAncestor, msg));
        },
    };
    if !found {
        msg.append(": ");
        msg.append(parent_path.as_str());
        msg.append(" does not contain the requested -inl.h file: ");
        msg.append(relative_path.as_str());
        msg.append("; skipping");
        return Err(MergeError::new(SkipReason::ParentMissingInclude, msg));
    }
    Ok(())
}

/// Checks that `inl_file` can be merged into its parent header: that its path
/// names an inline header, that the parent was read, that the path lies below
/// a directory `include`, and that the parent's text holds a directive that
/// names it.
pub fn merge_one(inl_file: &InlFile) -> (outcome: Result<(), MergeError>)
    ensures
        outcome_is(outcome, merge_outcome(inl_file@)),
{
    let parent = get_parent_file_path(inl_file.path.as_str());
    let relative = get_include_relative_path(inl_file.path.as_str());
    let found = match (&inl_file.parent_text, &relative) {
        (Ok(text), Some(relative_path)) => parent.is_some() && contains_include(
            text.as_str(),
            relative_path.as_str(),
        ),
        _ => false,
    };
    verdict(inl_file.path.as_str(), &parent, &inl_file.parent_text, &relative, found)
}

/// The reason for which an inline header is skipped, if it is.
pub open spec fn skip_reason(file: InlFileView) -> Option<SkipReason> {
    match merge_outcome(file) {
        Ok(_) => None,
        Err(error) => Some(error.reason),
    }
}

/// Each outcome has its condition. An inline header can be merged exactly
/// where its path has the suffix, its parent was read, a component of its
/// path is `include`, and the parent's text holds the directive. It is
/// skipped for the first of these that fails.
pub proof fn outcome_by_first_failed_check(file: InlFileView)
    ensures
        skip_reason(file) == Some(SkipReason::NotInlSuffix) <==> !has_inl_suffix(file.path),
        skip_reason(file) == Some(SkipReason::ParentUnreadable) <==> has_inl_suffix(file.path)
            && file.parent_text is Err,
        skip_reason(file) == Some(SkipReason::NoIncludeAncestor) <==> has_inl_suffix(file.path)
            && file.parent_text is Ok && !path_components(file.path).contains(include_word()),
        skip_reason(file) == Some(SkipReason::ParentMissingInclude) <==> has_inl_suffix(file.path)
            && file.parent_text is Ok && path_components(file.path).contains(include_word())
            && !has_include(file.parent_text->Ok_0, include_relative_path(file.path)->0),
        skip_reason(file) is None <==> has_inl_suffix(file.path) && file.parent_text is Ok
            && path_components(file.path).contains(include_word()) && has_include(
            file.parent_text->Ok_0,
            include_relative_path(file.path)->0,
        ),
{
    relative_path_follows_first_include(file.path);
}

/// An inline header below no directory `include` is skipped for that,
/// whatever its parent's text holds.
pub proof fn no_include_ancestor_whatever_parent_holds(
    path: Seq<char>,
    text: Seq<char>,
    other_text: Seq<char>,
)
    requires
        has_inl_suffix(path),
        !path_components(path).contains(include_word()),
    ensures
        merge_outcome(InlFileView { path, readable: true, parent_text: Ok(text) }) == Err::<
            (),
            MergeErrorView,
        >(
            MergeErrorView {
                reason: SkipReason::NoIncludeAncestor,
                msg: no_include_ancestor_message(path),
            },
        ),
        merge_outcome(InlFileView { path, readable: true, parent_text: Ok(text) })
            == merge_outcome(InlFileView { path, readable: true, parent_text: Ok(other_text) }),
{
    relative_path_follows_first_include(path);
}

} // verus!
