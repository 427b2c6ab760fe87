//! Small helpers on text: a string is read as its sequence of characters.

use vstd::prelude::*;
use vstd::std_specs::iter::IteratorSpec;

verus! {

/// `text` ends with `suffix`.
pub open spec fn ends_with(text: Seq<char>, suffix: Seq<char>) -> bool {
    suffix.len() <= text.len() && text.subrange(text.len() - suffix.len(), text.len() as int)
        == suffix
}

/// The characters of `s`, in order.
pub fn chars_of(s: &str) -> (chars: Vec<char>)
    ensures
        chars@ == s@,
{
    broadcast use vstd::string::group_string_axioms;

    let mut chars: Vec<char> = Vec::new();
    let mut it = s.chars();
    loop
        invariant
            it.obeys_prophetic_iter_laws(),
            it.decrease() is Some,
            chars@ + it.remaining() == s@,
        decreases it.decrease()->0,
    {
        match it.next() {
            Some(c) => {
                chars.push(c);
                assert(chars@ + it.remaining() =~= s@);
            },
            None => {
                assert(chars@ =~= s@);
                return chars;
            },
        }
    }
}

/// Whether the characters `text[from..to]` are exactly those of `word`.
pub fn range_is(text: &Vec<char>, from: usize, to: usize, word: &Vec<char>) -> (same: bool)
    requires
        from <= to <= text.len(),
    ensures
        same == (text@.subrange(from as int, to as int) == word@),
{
    if to - from != word.len() {
        return false;
    }
    let mut k: usize = 0;
    while k < word.len()
        invariant
            from <= to <= text.len(),
            to - from == word.len(),
            k <= word.len(),
            forall|j: int| 0 <= j < k ==> text@[from + j] == word@[j],
        decreases word.len() - k,
    {
        if text[from + k] != word[k] {
            assert(text@.subrange(from as int, to as int)[k as int] != word@[k as int]);
            return false;
        }
        k = k + 1;
    }
    assert(text@.subrange(from as int, to as int) =~= word@);
    true
}

/// Whether `text` ends with `suffix`.
pub fn has_suffix(text: &Vec<char>, suffix: &Vec<char>) -> (yes: bool)
    ensures
        yes == ends_with(text@, suffix@),
{
    if text.len() < suffix.len() {
        return false;
    }
    range_is(text, text.len() - suffix.len(), text.len(), suffix)
}

} // verus!
