//! What holds of every path: what its components are, when two paths are the
//! same, and where one lands under another.
//!
//! A separator is the byte `0x2f` and a dot is the byte `0x2e`.

use crate::path;
use vstd::prelude::*;

verus! {

proof fn lemma_there_is_a_piece(path: Seq<u8>)
    ensures
        path::pieces(path).len() > 0,
    decreases path.len(),
{
    if path.len() > 0 {
        lemma_there_is_a_piece(path.drop_last());
    }
}

proof fn lemma_pieces_either_side(one: Seq<u8>, other: Seq<u8>)
    ensures
        path::pieces(one.push(0x2f) + other) == path::pieces(one) + path::pieces(other),
    decreases other.len(),
{
    let whole = one.push(0x2f) + other;
    lemma_there_is_a_piece(other);
    if other.len() == 0 {
        assert(whole.drop_last() =~= one);
        assert(path::pieces(whole) =~= path::pieces(one) + path::pieces(other));
    } else {
        let shorter = other.drop_last();
        assert(whole.drop_last() =~= one.push(0x2f) + shorter);
        lemma_pieces_either_side(one, shorter);
        lemma_there_is_a_piece(shorter);
        assert(path::pieces(whole) =~= path::pieces(one) + path::pieces(other));
    }
}

proof fn lemma_one_piece(piece: Seq<u8>)
    requires
        forall|i: int| 0 <= i < piece.len() ==> #[trigger] piece[i] != 0x2f,
    ensures
        path::pieces(piece) == seq![piece],
    decreases piece.len(),
{
    if piece.len() > 0 {
        lemma_one_piece(piece.drop_last());
        assert(piece.drop_last().push(piece.last()) =~= piece);
        assert(path::pieces(piece) =~= seq![piece]);
    } else {
        assert(piece =~= Seq::empty());
    }
}

/// The names along a path run on: those of what stands before a separator, then
/// those of what stands behind it.
pub proof fn names_run_along_a_path(one: Seq<u8>, other: Seq<u8>)
    ensures
        path::components(one.push(0x2f) + other).names == path::components(one).names
            + path::components(other).names,
{
    lemma_pieces_either_side(one, other);
    Seq::filter_distributes_over_add(
        path::pieces(one),
        path::pieces(other),
        |piece: Seq<u8>| path::is_name(piece),
    );
}

/// What holds no separator is a name of its own, unless it is nothing at all or
/// a single dot.
pub proof fn what_holds_no_separator_is_one_name(piece: Seq<u8>)
    requires
        forall|i: int| 0 <= i < piece.len() ==> #[trigger] piece[i] != 0x2f,
    ensures
        piece.len() == 0 || piece == seq![0x2eu8] ==> path::components(piece).names.len() == 0,
        piece.len() > 0 && piece != seq![0x2eu8] ==> path::components(piece).names == seq![piece],
{
    lemma_one_piece(piece);
    reveal(Seq::filter);
    let keep = |piece: Seq<u8>| path::is_name(piece);
    let nothing = Seq::<Seq<u8>>::empty();
    assert(seq![piece].drop_last() =~= nothing);
    assert(nothing.filter(keep) =~= nothing);
    assert(seq![piece].filter(keep) =~= if keep(piece) {
        nothing.push(piece)
    } else {
        nothing
    });
    assert(path::components(piece).names =~= if path::is_name(piece) {
        seq![piece]
    } else {
        Seq::empty()
    });
}

/// A path starts at the root where its first byte is a separator.
pub proof fn a_rooted_path_starts_with_a_separator(path: Seq<u8>)
    ensures
        path::components(path).rooted <==> path.len() > 0 && path[0] == 0x2f,
{
}

/// A path starts "here" where it is a single dot, or a dot and a separator come
/// first.
pub proof fn a_path_that_starts_here_starts_with_a_dot(path: Seq<u8>)
    ensures
        path::components(path).here <==> path.len() > 0 && path[0] == 0x2e && (path.len() == 1
            || path[1] == 0x2f),
{
    if exists|i: int| 0 <= i < path.len() && #[trigger] path[i] == 0x2f {
        let at = lemma_first_separator(path);
        let head = path.take(at);
        let tail = path.skip(at + 1);
        assert(path =~= head.push(0x2f) + tail);
        lemma_one_piece(head);
        lemma_pieces_either_side(head, tail);
        assert(path::pieces(path)[0] == head);
        if at == 1 && path[0] == 0x2e {
            assert(head =~= seq![0x2eu8]);
        }
        if head == seq![0x2eu8] {
            assert(head[0] == path[0]);
        }
        if path.len() > 1 && path[0] == 0x2e && path[1] == 0x2f {
            assert(at == 1);
        }
    } else {
        lemma_one_piece(path);
        if path.len() == 1 && path[0] == 0x2e {
            assert(path =~= seq![0x2eu8]);
        }
    }
}

proof fn lemma_first_separator(path: Seq<u8>) -> (at: int)
    requires
        exists|i: int| 0 <= i < path.len() && #[trigger] path[i] == 0x2f,
    ensures
        0 <= at < path.len(),
        path[at] == 0x2f,
        forall|i: int| 0 <= i < at ==> #[trigger] path.take(at)[i] != 0x2f,
        forall|i: int| 0 <= i < at ==> #[trigger] path[i] != 0x2f,
    decreases path.len(),
{
    let shorter = path.drop_last();
    if exists|i: int| 0 <= i < shorter.len() && #[trigger] shorter[i] == 0x2f {
        let at = lemma_first_separator(shorter);
        assert(path.take(at) =~= shorter.take(at));
        assert(forall|i: int| 0 <= i < at ==> path[i] == shorter[i]);
        at
    } else {
        let at = path.len() - 1;
        let i = choose|i: int| 0 <= i < path.len() && #[trigger] path[i] == 0x2f;
        assert(i < at ==> shorter[i] == path[i]);
        assert(forall|i: int| 0 <= i < at ==> path[i] == shorter[i]);
        at
    }
}

/// **Two paths are the same exactly where they agree on all three**: whether
/// they start at the root, whether they start with a dot, and every name along
/// them, in number and in place.
pub proof fn two_paths_are_the_same_where_all_their_components_are(one: Seq<u8>, other: Seq<u8>)
    ensures
        path::same_path(one, other) <==> {
            &&& path::components(one).rooted == path::components(other).rooted
            &&& path::components(one).here == path::components(other).here
            &&& path::components(one).names == path::components(other).names
        },
{
}

/// A path is the same as itself, as any path that is the same as it, and as any
/// path the same as that.
pub proof fn being_the_same_path_is_an_equivalence(one: Seq<u8>, other: Seq<u8>, third: Seq<u8>)
    ensures
        path::same_path(one, one),
        path::same_path(one, other) ==> path::same_path(other, one),
        path::same_path(one, other) && path::same_path(other, third) ==> path::same_path(
            one,
            third,
        ),
{
}

/// **Two paths that differ in any one name are not the same path**, whatever
/// stands before it and behind it.
pub proof fn a_different_name_is_a_different_path(
    before: Seq<u8>,
    one: Seq<u8>,
    other: Seq<u8>,
    after: Seq<u8>,
)
    requires
        forall|i: int| 0 <= i < one.len() ==> #[trigger] one[i] != 0x2f,
        forall|i: int| 0 <= i < other.len() ==> #[trigger] other[i] != 0x2f,
        one.len() > 0 && one != seq![0x2eu8],
        other.len() > 0 && other != seq![0x2eu8],
        one != other,
    ensures
        !path::same_path(
            before.push(0x2f) + (one.push(0x2f) + after),
            before.push(0x2f) + (other.push(0x2f) + after),
        ),
        !path::same_path(before.push(0x2f) + one, before.push(0x2f) + other),
{
    what_holds_no_separator_is_one_name(one);
    what_holds_no_separator_is_one_name(other);
    names_run_along_a_path(one, after);
    names_run_along_a_path(other, after);
    names_run_along_a_path(before, one.push(0x2f) + after);
    names_run_along_a_path(before, other.push(0x2f) + after);
    names_run_along_a_path(before, one);
    names_run_along_a_path(before, other);
    let place = path::components(before).names.len() as int;
    let whole = before.push(0x2f) + (one.push(0x2f) + after);
    let changed = before.push(0x2f) + (other.push(0x2f) + after);
    assert(path::components(whole).names[place] == one);
    assert(path::components(changed).names[place] == other);
    assert(path::components(before.push(0x2f) + one).names[place] == one);
    assert(path::components(before.push(0x2f) + other).names[place] == other);
}

/// Two paths with a different number of names are not the same path.
pub proof fn a_name_more_is_a_different_path(path: Seq<u8>, name: Seq<u8>)
    requires
        forall|i: int| 0 <= i < name.len() ==> #[trigger] name[i] != 0x2f,
        name.len() > 0 && name != seq![0x2eu8],
    ensures
        !path::same_path(path, path.push(0x2f) + name),
{
    what_holds_no_separator_is_one_name(name);
    names_run_along_a_path(path, name);
}

/// A separator at the end of a path says nothing, nor does a dot behind it, nor
/// a second separator.
pub proof fn what_says_nothing_is_the_same_path(path: Seq<u8>, after: Seq<u8>)
    requires
        path.len() > 0,
    ensures
        path::same_path(path, path.push(0x2f)),
        path::same_path(path, path.push(0x2f) + seq![0x2eu8]),
        path::same_path(path.push(0x2f) + after, path.push(0x2f).push(0x2f) + after),
        path::same_path(
            path.push(0x2f) + after,
            path.push(0x2f) + (seq![0x2eu8].push(0x2f) + after),
        ),
{
    let nothing = Seq::<u8>::empty();
    let dot = seq![0x2eu8];
    let trailing = path.push(0x2f);
    assert(trailing + nothing =~= trailing);
    what_holds_no_separator_is_one_name(nothing);
    what_holds_no_separator_is_one_name(dot);
    names_run_along_a_path(path, nothing);
    names_run_along_a_path(path, dot);
    names_run_along_a_path(path, after);
    names_run_along_a_path(trailing, after);
    names_run_along_a_path(dot, after);
    names_run_along_a_path(path, dot.push(0x2f) + after);
    a_path_that_starts_here_starts_with_a_dot(path);
    a_path_that_starts_here_starts_with_a_dot(trailing);
    a_path_that_starts_here_starts_with_a_dot(trailing + dot);
    a_path_that_starts_here_starts_with_a_dot(trailing + after);
    a_path_that_starts_here_starts_with_a_dot(trailing.push(0x2f) + after);
    a_path_that_starts_here_starts_with_a_dot(trailing + (dot.push(0x2f) + after));
    assert(path::components(path).names =~= path::components(trailing).names);
    assert(path::components(path).names =~= path::components(trailing + dot).names);
    assert(path::components(trailing + after).names =~= path::components(
        trailing.push(0x2f) + after,
    ).names);
    assert(path::components(trailing + after).names =~= path::components(
        trailing + (dot.push(0x2f) + after),
    ).names);
}

/// A path that starts at the root lands where it is, whatever it is put under.
pub proof fn a_rooted_path_stays_where_it_is(directory: Seq<u8>, path: Seq<u8>)
    requires
        path::components(path).rooted,
    ensures
        path::joined(directory, path) == path,
{
}

/// Any other path keeps its spelling and comes behind the whole of what it is
/// put under, with one separator between the two where there was none, and
/// nothing else.
pub proof fn a_path_lands_behind_what_it_is_put_under(directory: Seq<u8>, path: Seq<u8>)
    requires
        !path::components(path).rooted,
    ensures
        ({
            let whole = path::joined(directory, path);
            &&& directory.is_prefix_of(whole)
            &&& path.is_suffix_of(whole)
            &&& directory.len() == 0 ==> whole == path
            &&& directory.len() > 0 ==> {
                let added = whole.len() - directory.len() - path.len();
                &&& added == 0 || added == 1
                &&& added == 0 <==> directory.last() == 0x2f
                &&& whole[directory.len() + added - 1] == 0x2f
            }
        }),
{
    let whole = path::joined(directory, path);
    assert(path =~= whole.subrange(whole.len() - path.len(), whole.len() as int));
    assert(directory =~= whole.subrange(0, directory.len() as int));
    if directory.len() == 0 {
        assert(whole =~= path);
    }
}

/// The names of a path put under another are those of the other and then its
/// own.
pub proof fn the_names_of_a_joined_path_are_those_of_both(directory: Seq<u8>, path: Seq<u8>)
    requires
        !path::components(path).rooted,
    ensures
        path::components(path::joined(directory, path)).names == path::components(directory).names
            + path::components(path).names,
        directory.len() > 0 ==> path::components(path::joined(directory, path)).rooted
            == path::components(directory).rooted,
{
    let nothing = Seq::<u8>::empty();
    what_holds_no_separator_is_one_name(nothing);
    if directory.len() == 0 {
        assert(directory =~= nothing);
        assert(path::joined(directory, path) =~= path);
        assert(path::components(directory).names + path::components(path).names
            =~= path::components(path).names);
    } else if directory.last() == 0x2f {
        let head = directory.drop_last();
        assert(head.push(0x2f) =~= directory);
        assert(head.push(0x2f) + nothing =~= directory);
        names_run_along_a_path(head, path);
        names_run_along_a_path(head, nothing);
        assert(path::components(directory).names =~= path::components(head).names);
    } else {
        names_run_along_a_path(directory, path);
    }
}

} // verus!
