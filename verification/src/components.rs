//! The components of a path that is written with `/` between them.

use vstd::prelude::*;

verus! {

/// The character that parts the components of a path.
pub open spec fn separator() -> char {
    '/'
}

/// The pieces into which the occurrences of `sep` part `text`: one more piece
/// than there are occurrences, each free of `sep`, some of them possibly empty.
pub open spec fn split(text: Seq<char>, sep: char) -> Seq<Seq<char>>
    decreases text.len(),
{
    if text.len() == 0 {
        seq![Seq::empty()]
    } else {
        let before = split(text.drop_last(), sep);
        if text.last() == sep {
            before.push(Seq::empty())
        } else {
            before.drop_last().push(before.last().push(text.last()))
        }
    }
}

/// The pieces written one after the other, with `sep` between two of them.
pub open spec fn join(pieces: Seq<Seq<char>>, sep: char) -> Seq<char>
    decreases pieces.len(),
{
    if pieces.len() == 0 {
        Seq::empty()
    } else if pieces.len() == 1 {
        pieces[0]
    } else {
        join(pieces.drop_last(), sep).push(sep) + pieces.last()
    }
}

/// A piece that names something: it is not empty and is not `.`.
pub open spec fn is_named(piece: Seq<char>) -> bool {
    piece.len() > 0 && piece != seq!['.']
}

/// The pieces that name something, in their order.
pub open spec fn named(pieces: Seq<Seq<char>>) -> Seq<Seq<char>> {
    pieces.filter(|piece: Seq<char>| is_named(piece))
}

/// The components of a path: the pieces between its separators, without the
/// empty ones (a leading, doubled or trailing separator) and without `.`.
pub open spec fn path_components(path: Seq<char>) -> Seq<Seq<char>> {
    named(split(path, separator()))
}

/// `split` always gives at least one piece.
pub proof fn lemma_split_nonempty(text: Seq<char>, sep: char)
    ensures
        split(text, sep).len() >= 1,
    decreases text.len(),
{
    if text.len() > 0 {
        lemma_split_nonempty(text.drop_last(), sep);
    }
}

/// Reading one more character either opens a new piece or extends the last.
pub proof fn lemma_split_push(text: Seq<char>, c: char, sep: char)
    ensures
        split(text, sep).len() >= 1,
        c == sep ==> split(text.push(c), sep) == split(text, sep).push(Seq::empty()),
        c != sep ==> split(text.push(c), sep) == split(text, sep).drop_last().push(
            split(text, sep).last().push(c),
        ),
{
    lemma_split_nonempty(text, sep);
    assert(text.push(c).drop_last() =~= text);
}

/// One more piece is kept where it names something, and dropped where not.
pub proof fn lemma_named_push(pieces: Seq<Seq<char>>, piece: Seq<char>)
    ensures
        named(pieces.push(piece)) == if is_named(piece) {
            named(pieces).push(piece)
        } else {
            named(pieces)
        },
{
    reveal(Seq::filter);
    assert(pieces.push(piece).drop_last() =~= pieces);
}

/// One more piece is joined on with a separator, but for the first.
pub proof fn lemma_join_push(pieces: Seq<Seq<char>>, piece: Seq<char>, sep: char)
    ensures
        join(pieces.push(piece), sep) == if pieces.len() == 0 {
            piece
        } else {
            join(pieces, sep).push(sep) + piece
        },
{
    assert(pieces.push(piece).drop_last() =~= pieces);
}

/// A text without the separator is a single piece.
pub proof fn split_without_separator(text: Seq<char>, sep: char)
    requires
        !text.contains(sep),
    ensures
        split(text, sep) == seq![text],
    decreases text.len(),
{
    if text.len() == 0 {
        assert(text =~= Seq::<char>::empty());
    } else {
        let front = text.drop_last();
        assert forall|i: int| 0 <= i < front.len() implies front[i] != sep by {
            assert(text[i] == front[i]);
        }
        split_without_separator(front, sep);
        assert(text[text.len() - 1] != sep);
        assert(front.push(text.last()) =~= text);
        assert(split(text, sep) =~= seq![text]);
    }
}

/// The pieces of two texts with a separator between them are the pieces of
/// the first followed by the pieces of the second.
pub proof fn split_around_separator(left: Seq<char>, right: Seq<char>, sep: char)
    ensures
        split(left.push(sep) + right, sep) == split(left, sep) + split(right, sep),
    decreases right.len(),
{
    let whole = left.push(sep) + right;
    lemma_split_nonempty(left, sep);
    if right.len() == 0 {
        assert(whole =~= left.push(sep));
        lemma_split_push(left, sep, sep);
        assert(split(whole, sep) =~= split(left, sep) + split(right, sep));
    } else {
        let front = right.drop_last();
        split_around_separator(left, front, sep);
        lemma_split_nonempty(front, sep);
        assert(whole.drop_last() =~= left.push(sep) + front);
        assert(whole.last() == right.last());
        assert(split(whole, sep) =~= split(left, sep) + split(right, sep));
    }
}

/// No piece holds the separator.
pub proof fn split_pieces_hold_no_separator(text: Seq<char>, sep: char)
    ensures
        forall|i: int|
            0 <= i < split(text, sep).len() ==> !(#[trigger] split(text, sep)[i]).contains(sep),
    decreases text.len(),
{
    if text.len() > 0 {
        split_pieces_hold_no_separator(text.drop_last(), sep);
        lemma_split_nonempty(text.drop_last(), sep);
    }
}

/// Extending the last piece by a character extends the joined text by it.
proof fn lemma_join_extend_last(pieces: Seq<Seq<char>>, c: char, sep: char)
    requires
        pieces.len() >= 1,
    ensures
        join(pieces.drop_last().push(pieces.last().push(c)), sep) == join(pieces, sep).push(c),
{
    let extended = pieces.drop_last().push(pieces.last().push(c));
    assert(extended.drop_last() =~= pieces.drop_last());
    if pieces.len() > 1 {
        assert(join(extended, sep) =~= join(pieces, sep).push(c));
    }
}

/// Joining the pieces of a text gives the text back.
pub proof fn join_of_split(text: Seq<char>, sep: char)
    ensures
        join(split(text, sep), sep) == text,
    decreases text.len(),
{
    if text.len() == 0 {
        assert(join(split(text, sep), sep) =~= text);
    } else {
        let front = text.drop_last();
        join_of_split(front, sep);
        lemma_split_nonempty(front, sep);
        if text.last() == sep {
            lemma_join_push(split(front, sep), Seq::empty(), sep);
        } else {
            lemma_join_extend_last(split(front, sep), text.last(), sep);
        }
        assert(front.push(text.last()) =~= text);
        assert(join(split(text, sep), sep) =~= text);
    }
}

/// A separator before a path changes none of its components.
pub proof fn components_ignore_leading_separator(path: Seq<char>)
    ensures
        path_components(seq![separator()] + path) == path_components(path),
{
    let sep = separator();
    let empty = Seq::<char>::empty();
    split_around_separator(empty, path, sep);
    assert(empty.push(sep) + path =~= seq![sep] + path);
    assert(split(empty, sep) =~= seq![empty]);
    lemma_named_push(Seq::empty(), empty);
    assert(seq![empty] =~= Seq::<Seq<char>>::empty().push(empty));
    reveal(Seq::filter);
    assert(named(Seq::<Seq<char>>::empty()) =~= Seq::<Seq<char>>::empty());
    Seq::filter_distributes_over_add(
        seq![empty],
        split(path, sep),
        |piece: Seq<char>| is_named(piece),
    );
    assert(named(seq![empty]) + named(split(path, sep)) =~= named(split(path, sep)));
}

/// A separator after a path changes none of its components.
pub proof fn components_ignore_trailing_separator(path: Seq<char>)
    ensures
        path_components(path.push(separator())) == path_components(path),
{
    lemma_split_push(path, separator(), separator());
    lemma_named_push(split(path, separator()), Seq::empty());
}

/// Components that are joined into a path are the components of that path,
/// where each of them names something and holds no separator.
pub proof fn components_of_join(components: Seq<Seq<char>>)
    requires
        forall|i: int|
            0 <= i < components.len() ==> is_named(#[trigger] components[i]) && !components[i].contains(
                separator(),
            ),
    ensures
        path_components(join(components, separator())) == components,
    decreases components.len(),
{
    let sep = separator();
    if components.len() == 0 {
        lemma_named_push(Seq::empty(), Seq::empty());
        assert(split(Seq::<char>::empty(), sep) =~= Seq::<Seq<char>>::empty().push(Seq::empty()));
        reveal(Seq::filter);
        assert(named(Seq::<Seq<char>>::empty()) =~= Seq::<Seq<char>>::empty());
    } else {
        let front = components.drop_last();
        let last = components.last();
        components_of_join(front);
        split_without_separator(last, sep);
        assert(seq![last] =~= Seq::<Seq<char>>::empty().push(last));
        lemma_named_push(Seq::empty(), last);
        reveal(Seq::filter);
        assert(named(Seq::<Seq<char>>::empty()) =~= Seq::<Seq<char>>::empty());
        assert(named(seq![last]) =~= seq![last]);
        if front.len() == 0 {
            assert(components =~= seq![last]);
        } else {
            split_around_separator(join(front, sep), last, sep);
            Seq::filter_distributes_over_add(
                split(join(front, sep), sep),
                split(last, sep),
                |piece: Seq<char>| is_named(piece),
            );
            assert(front + seq![last] =~= components);
        }
    }
}

} // verus!
