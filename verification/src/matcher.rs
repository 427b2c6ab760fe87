//! The search for an `#include` directive in the text of a header. The
//! directive is described by a regular expression, which the `regex` crate
//! compiles and runs.

use vstd::prelude::*;
use vstd::string::StringExecFns;

verus! {

/// The characters that mean something in a regular expression.
pub open spec fn is_meta_character(c: char) -> bool {
    c == '\\' || c == '.' || c == '+' || c == '*' || c == '?' || c == '(' || c == ')' || c == '|'
        || c == '[' || c == ']' || c == '{' || c == '}' || c == '^' || c == '$' || c == '#' || c
        == '&' || c == '-' || c == '~'
}

/// `text` with a backslash before each of its meta characters, so that a
/// regular expression reads every character of it as itself.
pub open spec fn escaped(text: Seq<char>) -> Seq<char>
    decreases text.len(),
{
    if text.len() == 0 {
        Seq::empty()
    } else if is_meta_character(text.last()) {
        escaped(text.drop_last()).push('\\').push(text.last())
    } else {
        escaped(text.drop_last()).push(text.last())
    }
}

/// The regular expression for a directive that names `include_path`: at the
/// start of a line, after blanks and tabs if any, `#include`, white space, and
/// the path between `<` and `>` or between two `"`.
pub open spec fn include_pattern(include_path: Seq<char>) -> Seq<char> {
    "^[ \\t]*#include\\s+(?:<"@ + escaped(include_path) + ">|\""@ + escaped(include_path)
        + "\")"@
}

/// What the `regex` crate answers when asked whether the regular expression
/// `pattern`, with `^` and `$` standing for the start and end of every line,
/// matches somewhere in `text`; `None` where it does not accept `pattern`.
pub uninterp spec fn multi_line_match(pattern: Seq<char>, text: Seq<char>) -> Option<bool>;

/// `text` holds a line with a directive that names `include_path`, as the
/// `regex` crate finds it.
pub open spec fn has_include(text: Seq<char>, include_path: Seq<char>) -> bool {
    multi_line_match(include_pattern(include_path), text) == Some(true)
}

/// Calls `regex::escape`, which copies `text` and puts a backslash before
/// each character for which `regex_syntax::is_meta_character` holds; the
/// characters listed in `is_meta_character` are those.
#[verifier::external_body]
fn escape(text: &str) -> (quoted: String)
    ensures
        quoted@ == escaped(text@),
{
    regex::escape(text)
}

/// Compiles `pattern` with `regex::RegexBuilder` in multi-line mode and asks
/// `Regex::is_match` for `text`. The answer is given its name; `None` stands
/// for the error of `RegexBuilder::build`.
#[verifier::external_body]
fn regex_multi_line_match(pattern: &str, text: &str) -> (outcome: Option<bool>)
    ensures
        outcome == multi_line_match(pattern@, text@),
{
    match regex::RegexBuilder::new(pattern).multi_line(true).build() {
        Ok(re) => Some(re.is_match(text)),
        Err(_) => None,
    }
}

/// The regular expression for a directive that names `include_path`.
pub fn directive_pattern(include_path: &str) -> (pattern: String)
    ensures
        pattern@ == include_pattern(include_path@),
{
    let quoted = escape(include_path);
    let mut pattern = "^[ \\t]*#include\\s+(?:<".to_owned();
    pattern.append(quoted.as_str());
    pattern.append(">|\"");
    pattern.append(quoted.as_str());
    pattern.append("\")");
    pattern
}

/// Reads the answer of a search: found only where the search ran and matched.
pub fn match_found(outcome: Option<bool>) -> (found: bool)
    ensures
        found == (outcome == Some(true)),
{
    match outcome {
        Some(matched) => matched,
        None => false,
    }
}

/// Whether `file`, the text of a header, holds a line with an `#include`
/// directive that names `include_path`, between angle brackets or between
/// quotes. The answer is that of the `regex` crate for the pattern of
/// `include_path`; it is `false` too where the crate does not accept the
/// pattern.
pub fn contains_include(file: &str, include_path: &str) -> (found: bool)
    ensures
        found == has_include(file@, include_path@),
{
    let pattern = directive_pattern(include_path);
    match_found(regex_multi_line_match(pattern.as_str(), file))
}

/// A text without meta characters is its own regular expression.
pub proof fn escaped_plain_text(text: Seq<char>)
    requires
        forall|i: int| 0 <= i < text.len() ==> !is_meta_character(#[trigger] text[i]),
    ensures
        escaped(text) == text,
    decreases text.len(),
{
    if text.len() > 0 {
        let front = text.drop_last();
        assert forall|i: int| 0 <= i < front.len() implies !is_meta_character(
            #[trigger] front[i],
        ) by {
            assert(front[i] == text[i]);
        }
        escaped_plain_text(front);
        assert(!is_meta_character(text[text.len() - 1]));
        assert(front.push(text.last()) =~= text);
    } else {
        assert(text =~= Seq::<char>::empty());
    }
}

/// Two texts with the same regular expression are the same text.
pub proof fn escaped_is_injective(a: Seq<char>, b: Seq<char>)
    requires
        escaped(a) == escaped(b),
    ensures
        a == b,
    decreases a.len() + b.len(),
{
    if a.len() == 0 || b.len() == 0 {
        assert(escaped(a).len() == 0 || escaped(b).len() == 0);
        assert(a.len() == 0 && b.len() == 0);
        assert(a =~= b);
    } else {
        let c = a.last();
        assert(escaped(a).last() == c);
        assert(escaped(b).last() == b.last());
        let ea = escaped(a.drop_last());
        let eb = escaped(b.drop_last());
        if is_meta_character(c) {
            assert(ea =~= ea.push('\\').push(c).subrange(0, ea.len() as int));
            assert(eb =~= eb.push('\\').push(c).subrange(0, eb.len() as int));
        } else {
            assert(ea =~= ea.push(c).drop_last());
            assert(eb =~= eb.push(c).drop_last());
        }
        assert(ea.len() == eb.len());
        assert(ea == eb);
        escaped_is_injective(a.drop_last(), b.drop_last());
        assert(a =~= a.drop_last().push(c));
        assert(b =~= b.drop_last().push(c));
    }
}

/// Two paths with the same pattern are the same path: a pattern stands for
/// one path only.
pub proof fn include_pattern_is_injective(a: Seq<char>, b: Seq<char>)
    requires
        include_pattern(a) == include_pattern(b),
    ensures
        a == b,
{
    let head = "^[ \\t]*#include\\s+(?:<"@;
    let middle = ">|\""@;
    let tail = "\")"@;
    let pa = include_pattern(a);
    let pb = include_pattern(b);
    assert(pa.len() == head.len() + middle.len() + tail.len() + 2 * escaped(a).len());
    assert(pb.len() == head.len() + middle.len() + tail.len() + 2 * escaped(b).len());
    assert(escaped(a) =~= pa.subrange(head.len() as int, (head.len() + escaped(a).len()) as int));
    assert(escaped(b) =~= pb.subrange(head.len() as int, (head.len() + escaped(b).len()) as int));
    escaped_is_injective(a, b);
}

/// The pattern of a path without meta characters holds the path as it is.
pub proof fn include_pattern_of_plain_path(include_path: Seq<char>)
    requires
        forall|i: int|
            0 <= i < include_path.len() ==> !is_meta_character(#[trigger] include_path[i]),
    ensures
        include_pattern(include_path) == "^[ \\t]*#include\\s+(?:<"@ + include_path + ">|\""@
            + include_path + "\")"@,
{
    escaped_plain_text(include_path);
}

} // verus!
