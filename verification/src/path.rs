//! Paths of inline headers, read as text: the parent header of an inline file,
//! and the part of a path that an `#include` directive would name.

use vstd::prelude::*;
use vstd::string::StringExecFns;
use vstd::string::StrSliceExecFns;
use crate::components::{
    components_of_join, is_named, join, lemma_join_push, lemma_named_push, lemma_split_push, named,
    path_components, separator, split,
};
use crate::text::{chars_of, ends_with, has_suffix, range_is};

verus! {

/// The suffix `-inl.h`.
pub open spec fn dash_inl_suffix() -> Seq<char> {
    seq!['-', 'i', 'n', 'l', '.', 'h']
}

/// The suffix `_inl.h`.
pub open spec fn underscore_inl_suffix() -> Seq<char> {
    seq!['_', 'i', 'n', 'l', '.', 'h']
}

/// The suffix `.h` of a parent header.
pub open spec fn header_suffix() -> Seq<char> {
    seq!['.', 'h']
}

/// `path` names an inline header: it ends with `-inl.h` or with `_inl.h`.
pub open spec fn has_inl_suffix(path: Seq<char>) -> bool {
    ends_with(path, dash_inl_suffix()) || ends_with(path, underscore_inl_suffix())
}

/// The parent header of an inline header: the path without its last six
/// characters, followed by `.h`. A path that names no inline header has none.
pub open spec fn parent_file_path(path: Seq<char>) -> Option<Seq<char>> {
    if has_inl_suffix(path) {
        Some(path.subrange(0, path.len() - 6) + header_suffix())
    } else {
        None
    }
}

/// The path of the header that an inline header belongs to, or `None` where
/// `inl_file` does not end with `-inl.h` or `_inl.h`.
pub fn get_parent_file_path(inl_file: &str) -> (parent: Option<String>)
    ensures
        match parent {
            Some(p) => parent_file_path(inl_file@) == Some(p@),
            None => parent_file_path(inl_file@) is None,
        },
{
    let chars = chars_of(inl_file);
    let dash = chars_of("-inl.h");
    let underscore = chars_of("_inl.h");
    proof {
        reveal_strlit("-inl.h");
        reveal_strlit("_inl.h");
        reveal_strlit(".h");
        assert(dash@ =~= dash_inl_suffix());
        assert(underscore@ =~= underscore_inl_suffix());
        assert(".h"@ =~= header_suffix());
    }
    if has_suffix(&chars, &dash) || has_suffix(&chars, &underscore) {
        let stem = inl_file.substring_char(0, chars.len() - 6);
        let mut parent = stem.to_owned();
        parent.append(".h");
        Some(parent)
    } else {
        None
    }
}

/// A path that is a stem followed by `-inl.h` or `_inl.h` has the stem
/// followed by `.h` as its parent.
pub proof fn parent_of_inline_path(stem: Seq<char>)
    ensures
        parent_file_path(stem + dash_inl_suffix()) == Some(stem + header_suffix()),
        parent_file_path(stem + underscore_inl_suffix()) == Some(stem + header_suffix()),
{
    let dash = stem + dash_inl_suffix();
    let underscore = stem + underscore_inl_suffix();
    assert(dash.subrange(dash.len() - 6, dash.len() as int) =~= dash_inl_suffix());
    assert(dash.subrange(0, dash.len() - 6) =~= stem);
    assert(underscore.subrange(underscore.len() - 6, underscore.len() as int)
        =~= underscore_inl_suffix());
    assert(underscore.subrange(0, underscore.len() - 6) =~= stem);
}

/// A path with a parent is its parent's stem followed by `-inl.h` or `_inl.h`;
/// a path that ends with neither has no parent.
pub proof fn parent_only_of_inline_path(path: Seq<char>)
    ensures
        match parent_file_path(path) {
            Some(parent) => exists|stem: Seq<char>|
                parent == stem + header_suffix() && (path == stem + dash_inl_suffix() || path
                    == stem + underscore_inl_suffix()),
            None => !ends_with(path, dash_inl_suffix()) && !ends_with(
                path,
                underscore_inl_suffix(),
            ),
        },
{
    if has_inl_suffix(path) {
        let stem = path.subrange(0, path.len() - 6);
        let tail = path.subrange(path.len() - 6, path.len() as int);
        assert(path =~= stem + tail);
    }
}

/// The name of the directory below which headers are named in directives.
pub open spec fn include_word() -> Seq<char> {
    seq!['i', 'n', 'c', 'l', 'u', 'd', 'e']
}

/// The components that follow the first component `include`, joined with the
/// separator. A path with no such component has none; one that ends with it
/// has the empty path.
pub open spec fn include_relative_path(path: Seq<char>) -> Option<Seq<char>> {
    let components = path_components(path);
    match components.index_of_first(include_word()) {
        Some(at) => Some(join(components.skip(at + 1), separator())),
        None => None,
    }
}

/// The components after the first `include`, found by reading the components
/// from the left.
spec fn after_include(components: Seq<Seq<char>>) -> Option<Seq<Seq<char>>>
    decreases components.len(),
{
    if components.len() == 0 {
        None
    } else {
        match after_include(components.drop_last()) {
            Some(rest) => Some(rest.push(components.last())),
            None => if components.last() == include_word() {
                Some(Seq::empty())
            } else {
                None
            },
        }
    }
}

proof fn lemma_after_include_push(components: Seq<Seq<char>>, piece: Seq<char>)
    ensures
        after_include(components.push(piece)) == match after_include(components) {
            Some(rest) => Some(rest.push(piece)),
            None => if piece == include_word() {
                Some(Seq::<Seq<char>>::empty())
            } else {
                None
            },
        },
{
    assert(components.push(piece).drop_last() =~= components);
}

/// Reading from the left finds the first `include` and what follows it.
proof fn lemma_after_include_is_first(components: Seq<Seq<char>>)
    ensures
        match after_include(components) {
            Some(rest) => match components.index_of_first(include_word()) {
                Some(at) => rest == components.skip(at + 1),
                None => false,
            },
            None => components.index_of_first(include_word()) is None,
        },
    decreases components.len(),
{
    let word = include_word();
    components.index_of_first_ensures(word);
    if components.len() > 0 {
        let front = components.drop_last();
        lemma_after_include_is_first(front);
        front.index_of_first_ensures(word);
        match after_include(front) {
            Some(rest) => {
                let at = front.index_of_first(word)->0;
                assert(components[at] == word);
                let here = components.index_of_first(word)->0;
                assert(front[here] == word || here == components.len() - 1);
                assert(here == at);
                assert(rest.push(components.last()) =~= components.skip(at + 1));
            },
            None => {
                if components.last() == word {
                    assert(components[components.len() - 1] == word);
                    let here = components.index_of_first(word)->0;
                    if here < components.len() - 1 {
                        assert(front[here] == word);
                    }
                    assert(components.skip(here + 1) =~= Seq::<Seq<char>>::empty());
                } else {
                    if components.contains(word) {
                        let k = choose|k: int| 0 <= k < components.len() && components[k] == word;
                        assert(front[k] == word);
                    }
                }
            },
        }
    }
}

/// What a reading of a path's components from the left has found.
struct Scan {
    /// A component `include` was read.
    found: bool,
    /// The components read after it, joined.
    relative: String,
    /// `relative` holds a component.
    begun: bool,
}

impl Scan {
    /// The scan stands where a reading of `components` leaves it.
    spec fn stands_after(&self, components: Seq<Seq<char>>) -> bool {
        match after_include(components) {
            Some(rest) => self.found && self.relative@ == join(rest, separator()) && self.begun
                == (rest.len() > 0),
            None => !self.found && self.relative@.len() == 0 && !self.begun,
        }
    }

    /// Reads the piece `chars[from..to]` of `path`.
    fn read_piece(
        &mut self,
        path: &str,
        chars: &Vec<char>,
        from: usize,
        to: usize,
        word: &Vec<char>,
        Ghost(pieces): Ghost<Seq<Seq<char>>>,
    )
        requires
            chars@ == path@,
            word@ == include_word(),
            from <= to <= chars.len(),
            old(self).stands_after(named(pieces)),
        ensures
            final(self).stands_after(named(pieces.push(chars@.subrange(from as int, to as int)))),
    {
        let ghost piece = chars@.subrange(from as int, to as int);
        proof {
            lemma_named_push(pieces, piece);
            lemma_after_include_push(named(pieces), piece);
            reveal_strlit("/");
            assert("/"@ =~= seq![separator()]);
        }
        let dot = to - from == 1 && chars[from] == '.';
        assert(dot == (piece.len() == 1 && piece[0] == '.'));
        assert(dot ==> piece =~= seq!['.']);
        if to == from || dot {
            return ;
        }
        assert(is_named(piece));
        if self.found {
            proof {
                lemma_join_push(after_include(named(pieces))->0, piece, separator());
            }
            if self.begun {
                self.relative.append("/");
            }
            self.relative.append(path.substring_char(from, to));
            self.begun = true;
            assert(self.relative@ =~= join(
                after_include(named(pieces))->0.push(piece),
                separator(),
            ));
        } else if range_is(chars, from, to, word) {
            self.found = true;
            assert(self.relative@ =~= join(Seq::<Seq<char>>::empty(), separator()));
        }
    }
}

/// The path of `inl_file` below its first directory `include`, as a directive
/// would name it, or `None` where no component of `inl_file` is `include`.
pub fn get_include_relative_path(inl_file: &str) -> (relative: Option<String>)
    ensures
        match relative {
            Some(r) => include_relative_path(inl_file@) == Some(r@),
            None => include_relative_path(inl_file@) is None,
        },
{
    let chars = chars_of(inl_file);
    let word = chars_of("include");
    proof {
        reveal_strlit("include");
        assert(word@ =~= include_word());
    }
    let n = chars.len();
    let mut scan = Scan { found: false, relative: String::new(), begun: false };
    let ghost mut pieces: Seq<Seq<char>> = Seq::empty();
    let mut from: usize = 0;
    let mut i: usize = 0;
    proof {
        reveal(Seq::filter);
        assert(chars@.subrange(0, 0) =~= Seq::<char>::empty());
        assert(split(chars@.subrange(0, 0), separator()) =~= pieces.push(
            chars@.subrange(0, 0),
        ));
    }
    while i < n
        invariant
            chars@ == inl_file@,
            word@ == include_word(),
            n == chars.len(),
            from <= i <= n,
            split(chars@.subrange(0, i as int), separator()) == pieces.push(
                chars@.subrange(from as int, i as int),
            ),
            scan.stands_after(named(pieces)),
        decreases n - i,
    {
        proof {
            lemma_split_push(chars@.subrange(0, i as int), chars@[i as int], separator());
            assert(chars@.subrange(0, i as int).push(chars@[i as int]) =~= chars@.subrange(
                0,
                i + 1,
            ));
        }
        if chars[i] == '/' {
            scan.read_piece(inl_file, &chars, from, i, &word, Ghost(pieces));
            proof {
                pieces = pieces.push(chars@.subrange(from as int, i as int));
                assert(chars@.subrange(i + 1, i + 1) =~= Seq::<char>::empty());
            }
            from = i + 1;
        } else {
            proof {
                let last = chars@.subrange(from as int, i as int);
                assert(pieces.push(last).drop_last() =~= pieces);
                assert(last.push(chars@[i as int]) =~= chars@.subrange(from as int, i + 1));
            }
        }
        i = i + 1;
    }
    scan.read_piece(inl_file, &chars, from, n, &word, Ghost(pieces));
    proof {
        assert(chars@.subrange(0, n as int) =~= chars@);
        lemma_after_include_is_first(path_components(inl_file@));
    }
    if scan.found {
        Some(scan.relative)
    } else {
        None
    }
}

/// A path has a path below `include` exactly where one of its components is
/// `include`; that path is made of the components after the first of them.
pub proof fn relative_path_follows_first_include(path: Seq<char>)
    ensures
        include_relative_path(path) is Some <==> path_components(path).contains(include_word()),
        match include_relative_path(path) {
            Some(relative) => exists|at: int|
                0 <= at < path_components(path).len() && #[trigger] path_components(path)[at]
                    == include_word() && (forall|j: int|
                    0 <= j < at ==> path_components(path)[j] != include_word()) && relative == join(
                    path_components(path).skip(at + 1),
                    separator(),
                ),
            None => true,
        },
{
    let components = path_components(path);
    components.index_of_first_ensures(include_word());
    if let Some(at) = components.index_of_first(include_word()) {
        assert(components[at] == include_word());
    }
}

/// A path written as components before `include`, none of them `include`,
/// then `include`, then components after it, has the components after it as
/// its path below `include`.
pub proof fn relative_path_of_joined(before: Seq<Seq<char>>, after: Seq<Seq<char>>)
    requires
        forall|i: int|
            0 <= i < before.len() ==> is_named(#[trigger] before[i]) && !before[i].contains(
                separator(),
            ) && before[i] != include_word(),
        forall|i: int|
            0 <= i < after.len() ==> is_named(#[trigger] after[i]) && !after[i].contains(
                separator(),
            ),
    ensures
        include_relative_path(join(before.push(include_word()) + after, separator())) == Some(
            join(after, separator()),
        ),
{
    let word = include_word();
    let all = before.push(word) + after;
    assert(word[0] == 'i');
    assert(!word.contains(separator()));
    assert(word != seq!['.']) by {
        assert(seq!['.'].len() == 1);
    }
    components_of_join(all);
    all.index_of_first_ensures(word);
    assert(all[before.len() as int] == word);
    let at = all.index_of_first(word)->0;
    if at < before.len() {
        assert(all[at] == before[at]);
    }
    assert(at == before.len());
    assert(all.skip(at + 1) =~= after);
}

} // verus!
