//! Where a file is: the bytes of a Unix path, and when two of them name the
//! same place.

use crate::boundary;
use vstd::prelude::*;

verus! {

/// The byte that separates the components of a path.
pub const SEPARATOR: u8 = 0x2f;

/// The byte a path spells "here" with.
pub const DOT: u8 = 0x2e;

/// The stretches of a path between its separators, in order. There is always
/// at least one, and any of them may be empty.
pub open spec fn pieces(path: Seq<u8>) -> Seq<Seq<u8>>
    decreases path.len(),
{
    if path.len() == 0 {
        seq![Seq::empty()]
    } else {
        let before = pieces(path.drop_last());
        if path.last() == SEPARATOR {
            before.push(Seq::empty())
        } else {
            before.drop_last().push(before.last().push(path.last()))
        }
    }
}

/// A piece that names something: neither nothing at all, nor a single dot.
pub open spec fn is_name(piece: Seq<u8>) -> bool {
    piece.len() > 0 && piece != seq![DOT]
}

/// What a path says, whichever way it is spelled.
pub struct Components {
    /// The path starts at the root.
    pub rooted: bool,
    /// The path starts with a single dot.
    pub here: bool,
    /// The names along the path, in order.
    pub names: Seq<Seq<u8>>,
}

/// The components of a path: repeated separators, a trailing separator and
/// every dot but a leading one say nothing.
pub open spec fn components(path: Seq<u8>) -> Components {
    Components {
        rooted: path.len() > 0 && path[0] == SEPARATOR,
        here: pieces(path)[0] == seq![DOT],
        names: pieces(path).filter(|piece: Seq<u8>| is_name(piece)),
    }
}

/// Whether two paths have the same components.
pub open spec fn same_path(one: Seq<u8>, other: Seq<u8>) -> bool {
    components(one) == components(other)
}

/// A path placed under a directory: a separator goes between the two unless the
/// directory is empty or already ends in one, and a path that starts at the
/// root stays where it is.
pub open spec fn joined(directory: Seq<u8>, path: Seq<u8>) -> Seq<u8> {
    if path.len() > 0 && path[0] == SEPARATOR {
        path
    } else if directory.len() == 0 || directory.last() == SEPARATOR {
        directory + path
    } else {
        directory.push(SEPARATOR) + path
    }
}

/// The path of a file. Its view is the bytes it is spelled with.
#[derive(Debug)]
pub struct FilePath {
    bytes: Vec<u8>,
}

impl View for FilePath {
    type V = Seq<u8>;

    closed spec fn view(&self) -> Seq<u8> {
        self.bytes@
    }
}

/// The names of a path as they are found, and what it starts with.
struct Parts {
    rooted: bool,
    here: bool,
    names: Vec<Vec<u8>>,
}

impl Parts {
    spec fn model(self) -> Components {
        Components {
            rooted: self.rooted,
            here: self.here,
            names: self.names@.map_values(|name: Vec<u8>| name@),
        }
    }
}

/// Copies a run of bytes.
pub(crate) fn copied(bytes: &[u8]) -> (copy: Vec<u8>)
    ensures
        copy@ == bytes@,
{
    vstd::slice::slice_to_vec(bytes)
}

/// Whether two runs of bytes are the same.
pub(crate) fn same_bytes(one: &[u8], other: &[u8]) -> (same: bool)
    ensures
        same == (one@ == other@),
{
    if one.len() != other.len() {
        return false;
    }
    let mut i: usize = 0;
    while i < one.len()
        invariant
            one@.len() == other@.len(),
            i <= one@.len(),
            one@.take(i as int) == other@.take(i as int),
        decreases one@.len() - i,
    {
        if one[i] != other[i] {
            return false;
        }
        i += 1;
    }
    assert(one@ == one@.take(i as int));
    assert(other@ == other@.take(i as int));
    true
}

fn names_something(piece: &Vec<u8>) -> (named: bool)
    ensures
        named == is_name(piece@),
{
    assert(piece@.len() == 1 && piece@[0] == DOT ==> piece@ == seq![DOT]);
    piece.len() > 0 && !(piece.len() == 1 && piece[0] == DOT)
}

/// Splits a path into its components.
fn split(path: &[u8]) -> (parts: Parts)
    ensures
        parts.model() == components(path@),
{
    let mut names: Vec<Vec<u8>> = Vec::new();
    let mut current: Vec<u8> = Vec::new();
    let mut here: bool = false;
    let mut first: bool = true;
    let ghost keep = |piece: Seq<u8>| is_name(piece);
    let mut i: usize = 0;
    proof {
        reveal(Seq::filter);
        assert(path@.take(0) =~= Seq::<u8>::empty());
        assert(pieces(path@.take(0)).drop_last() =~= Seq::<Seq<u8>>::empty());
    }
    assert(names@.map_values(|name: Vec<u8>| name@) =~= Seq::<Seq<u8>>::empty());
    while i < path.len()
        invariant
            i <= path@.len(),
            keep == |piece: Seq<u8>| is_name(piece),
            pieces(path@.take(i as int)).len() > 0,
            current@ == pieces(path@.take(i as int)).last(),
            first == (pieces(path@.take(i as int)).len() == 1),
            !first ==> here == (pieces(path@.take(i as int))[0] == seq![DOT]),
            names@.map_values(|name: Vec<u8>| name@) == pieces(path@.take(i as int)).drop_last().filter(
                keep,
            ),
        decreases path@.len() - i,
    {
        let byte: u8 = path[i];
        let ghost so_far = pieces(path@.take(i as int));
        let ghost kept = names@.map_values(|name: Vec<u8>| name@);
        proof {
            assert(path@.take(i as int + 1).drop_last() =~= path@.take(i as int));
            assert(path@.take(i as int + 1).last() == byte);
        }
        if byte == SEPARATOR {
            let named: bool = names_something(&current);
            if first {
                here = current.len() == 1 && current[0] == DOT;
                assert(here == (current@ =~= seq![DOT]));
                first = false;
            }
            proof {
                reveal(Seq::filter);
                assert(pieces(path@.take(i as int + 1)).drop_last() =~= so_far);
                assert(so_far =~= so_far.drop_last().push(current@));
            }
            if named {
                names.push(current);
                assert(names@.map_values(|name: Vec<u8>| name@) =~= kept.push(so_far.last()));
            }
            current = Vec::new();
            assert(current@ =~= Seq::<u8>::empty());
        } else {
            current.push(byte);
            assert(pieces(path@.take(i as int + 1)).drop_last() =~= so_far.drop_last());
        }
        i += 1;
    }
    let ghost all = pieces(path@);
    let ghost kept = names@.map_values(|name: Vec<u8>| name@);
    assert(path@.take(i as int) =~= path@);
    if first {
        here = current.len() == 1 && current[0] == DOT;
        assert(here == (current@ =~= seq![DOT]));
    }
    let named: bool = names_something(&current);
    proof {
        reveal(Seq::filter);
    }
    if named {
        names.push(current);
        assert(names@.map_values(|name: Vec<u8>| name@) =~= kept.push(all.last()));
    }
    let rooted: bool = path.len() > 0 && path[0] == SEPARATOR;
    Parts { rooted, here, names }
}

/// Whether two paths have the same components.
fn same_components(one: &[u8], other: &[u8]) -> (same: bool)
    ensures
        same == same_path(one@, other@),
{
    let first: Parts = split(one);
    let second: Parts = split(other);
    let ghost left = first.model().names;
    let ghost right = second.model().names;
    if first.rooted != second.rooted || first.here != second.here || first.names.len()
        != second.names.len() {
        assert(left.len() == first.names@.len() && right.len() == second.names@.len());
        return false;
    }
    let mut i: usize = 0;
    while i < first.names.len()
        invariant
            first.names@.len() == second.names@.len(),
            left == first.names@.map_values(|name: Vec<u8>| name@),
            right == second.names@.map_values(|name: Vec<u8>| name@),
            left == components(one@).names,
            right == components(other@).names,
            i <= first.names@.len(),
            left.take(i as int) == right.take(i as int),
        decreases first.names@.len() - i,
    {
        if !same_bytes(&first.names[i], &second.names[i]) {
            assert(left[i as int] != right[i as int]);
            return false;
        }
        assert(left.take(i as int + 1) =~= left.take(i as int).push(left[i as int]));
        assert(right.take(i as int + 1) =~= right.take(i as int).push(right[i as int]));
        i += 1;
    }
    assert(left =~= left.take(i as int));
    assert(right =~= right.take(i as int));
    true
}

impl FilePath {
    /// The path a text spells.
    pub fn new(text: &str) -> (path: Self)
        ensures
            path@ == vstd::utf8::encode_utf8(text@),
    {
        FilePath { bytes: copied(text.as_bytes()) }
    }

    /// The path a run of bytes spells, whether or not they are UTF-8.
    pub fn from_bytes(bytes: Vec<u8>) -> (path: Self)
        ensures
            path@ == bytes@,
    {
        FilePath { bytes }
    }

    /// The bytes this path is spelled with.
    pub fn as_bytes(&self) -> (bytes: &[u8])
        ensures
            bytes@ == self@,
    {
        self.bytes.as_slice()
    }

    /// Another path placed under this one.
    pub fn join(&self, other: &FilePath) -> (path: Self)
        ensures
            path@ == joined(self@, other@),
    {
        if other.bytes.len() > 0 && other.bytes[0] == SEPARATOR {
            return FilePath { bytes: copied(other.bytes.as_slice()) };
        }
        let mut bytes: Vec<u8> = copied(self.bytes.as_slice());
        if bytes.len() > 0 && bytes[bytes.len() - 1] != SEPARATOR {
            bytes.push(SEPARATOR);
        }
        let mut tail: Vec<u8> = copied(other.bytes.as_slice());
        bytes.append(&mut tail);
        FilePath { bytes }
    }

    /// Whether this path and another have the same components.
    pub fn same(&self, other: &FilePath) -> (same: bool)
        ensures
            same == same_path(self@, other@),
    {
        same_components(self.bytes.as_slice(), other.bytes.as_slice())
    }

    /// This path as text, with what is not UTF-8 in it replaced.
    pub fn display(&self) -> (text: String)
        ensures
            text@ == boundary::lossy(self@),
            vstd::utf8::valid_utf8(self@) ==> text@ == vstd::utf8::decode_utf8(self@),
    {
        boundary::lossy_text(self.bytes.as_slice())
    }
}

impl Clone for FilePath {
    fn clone(&self) -> (copy: Self)
        ensures
            copy@ == self@,
    {
        FilePath { bytes: copied(self.bytes.as_slice()) }
    }
}

impl PartialEq for FilePath {
    fn eq(&self, other: &Self) -> (same: bool) {
        self.same(other)
    }
}

impl vstd::std_specs::cmp::PartialEqSpecImpl for FilePath {
    open spec fn obeys_eq_spec() -> bool {
        true
    }

    open spec fn eq_spec(&self, other: &Self) -> bool {
        same_path(self@, other@)
    }
}

impl Eq for FilePath {

}

} // verus!
