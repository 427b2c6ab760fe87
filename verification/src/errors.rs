//! The failures of a merge: why one inline header was skipped, and the list
//! of all that were.

use vstd::prelude::*;
use vstd::string::StringExecFns;

verus! {

/// Why an inline header cannot be merged into its parent.
#[derive(Clone, Copy, Debug, PartialEq, Eq, Structural)]
pub enum SkipReason {
    /// The path ends neither with `-inl.h` nor with `_inl.h`.
    NotInlSuffix,
    /// The parent header could not be read.
    ParentUnreadable,
    /// No component of the path is `include`.
    NoIncludeAncestor,
    /// The parent header holds no directive that names the inline header.
    ParentMissingInclude,
}

/// One inline header that was skipped: the reason, and a message for people.
#[derive(Clone, Debug, PartialEq, Eq)]
pub struct MergeError {
    pub reason: SkipReason,
    pub msg: String,
}

/// A `MergeError` with its message as a sequence of characters.
pub ghost struct MergeErrorView {
    pub reason: SkipReason,
    pub msg: Seq<char>,
}

impl View for MergeError {
    type V = MergeErrorView;

    open spec fn view(&self) -> MergeErrorView {
        MergeErrorView { reason: self.reason, msg: self.msg@ }
    }
}

impl MergeError {
    pub fn new(reason: SkipReason, msg: String) -> (error: MergeError)
        ensures
            error@ == (MergeErrorView { reason, msg: msg@ }),
    {
        MergeError { reason, msg }
    }

    /// The message, as it is shown to people.
    pub fn message(&self) -> (text: String)
        ensures
            text@ == self@.msg,
    {
        self.msg.clone()
    }
}

/// The texts, each followed by a line feed, one after the other.
pub open spec fn lines(texts: Seq<Seq<char>>) -> Seq<char>
    decreases texts.len(),
{
    if texts.len() == 0 {
        Seq::empty()
    } else {
        lines(texts.drop_last()) + texts.last() + "\n"@
    }
}

/// The views of the errors, in their order.
pub open spec fn error_views(errors: Seq<MergeError>) -> Seq<MergeErrorView> {
    Seq::new(errors.len(), |i: int| errors[i]@)
}

/// The messages of the errors, in their order.
pub open spec fn messages(errors: Seq<MergeErrorView>) -> Seq<Seq<char>> {
    Seq::new(errors.len(), |i: int| errors[i].msg)
}

/// The inline headers of a batch that were skipped, in the order of the
/// batch, under a line that introduces them.
#[derive(Clone, Debug, PartialEq, Eq)]
pub struct ErrorList {
    pub preamble: String,
    pub errors: Vec<MergeError>,
}

/// An `ErrorList` as sequences.
pub ghost struct ErrorListView {
    pub preamble: Seq<char>,
    pub errors: Seq<MergeErrorView>,
}

impl ErrorListView {
    /// The preamble on a line of its own, then each message on its own line.
    pub open spec fn report(self) -> Seq<char> {
        self.preamble + "\n"@ + lines(messages(self.errors))
    }
}

impl View for ErrorList {
    type V = ErrorListView;

    open spec fn view(&self) -> ErrorListView {
        ErrorListView { preamble: self.preamble@, errors: error_views(self.errors@) }
    }
}

impl ErrorList {
    pub fn new(preamble: &str, errors: Vec<MergeError>) -> (list: ErrorList)
        ensures
            list@ == (ErrorListView { preamble: preamble@, errors: error_views(errors@) }),
    {
        ErrorList { preamble: preamble.to_owned(), errors }
    }

    /// The whole report: the preamble, then one line for each error.
    pub fn message(&self) -> (text: String)
        ensures
            text@ == self@.report(),
    {
        let mut text = self.preamble.clone();
        text.append("\n");
        let ghost all = messages(self@.errors);
        let mut i: usize = 0;
        assert(all.take(0) =~= Seq::<Seq<char>>::empty());
        while i < self.errors.len()
            invariant
                i <= self.errors.len(),
                all == messages(self@.errors),
                text@ == self.preamble@ + "\n"@ + lines(all.take(i as int)),
            decreases self.errors.len() - i,
        {
            text.append(self.errors[i].msg.as_str());
            text.append("\n");
            proof {
                assert(all.take(i + 1).drop_last() =~= all.take(i as int));
                assert(all.take(i + 1).last() == self.errors@[i as int].msg@);
                assert(text@ =~= self.preamble@ + "\n"@ + lines(all.take(i + 1)));
            }
            i = i + 1;
        }
        assert(all.take(i as int) =~= all);
        text
    }
}

} // verus!
