//! What holds of every reading of the watched files: what a digest is taken of,
//! which files are named for it, and how a list of files is taken apart.

use crate::boundary;
use crate::path::FilePath;
use crate::rotate::inputs;
use crate::rotate::inputs::{InputsView, WatchedView};
use crate::rotate::{File, FileView, Material};
use crate::text;
use vstd::prelude::*;

verus! {

/// A file that was read gives its bytes, all of them and whatever they are, an
/// empty file among them; one that could not be read gives nothing.
pub proof fn a_reading_is_the_bytes_that_were_read(bytes: Vec<u8>, lent: &[u8])
    ensures
        inputs::reading(Some(bytes)) == Some(bytes@),
        inputs::reading(None) is None,
        inputs::borrowed(Some(lent)) == Some(lent@),
        inputs::borrowed(None) is None,
{
}

/// There is one reading for each file of a list, in its place.
pub proof fn every_reading_is_in_its_place(contents: Seq<Option<Vec<u8>>>, i: int)
    requires
        0 <= i < contents.len(),
    ensures
        inputs::readings(contents).len() == contents.len(),
        contents[i] is Some ==> inputs::readings(contents)[i] == Some(contents[i]->0@),
        contents[i] is None ==> inputs::readings(contents)[i] is None,
{
}

/// There is one list of readings for each material, in its place.
pub proof fn every_list_of_readings_is_in_its_place(contents: Seq<Vec<Option<Vec<u8>>>>, i: int)
    requires
        0 <= i < contents.len(),
    ensures
        inputs::readings_of_all(contents).len() == contents.len(),
        inputs::readings_of_all(contents)[i] == inputs::readings(contents[i]@),
{
}

/// There is one path, one file and one text for each of a list, in its place.
pub proof fn every_item_is_in_its_place(
    paths: Seq<&FilePath>,
    files: Seq<File<'_>>,
    lists: Seq<Vec<File<'_>>>,
    watched: Seq<WatchedView>,
    texts: Seq<String>,
    i: int,
)
    ensures
        inputs::path_views(paths).len() == paths.len(),
        crate::rotate::file_views(files).len() == files.len(),
        inputs::listed(lists).len() == lists.len(),
        inputs::paths(watched).len() == watched.len(),
        text::texts(texts).len() == texts.len(),
        0 <= i < paths.len() ==> inputs::path_views(paths)[i] == paths[i]@,
        0 <= i < files.len() ==> crate::rotate::file_views(files)[i] == files[i]@,
        0 <= i < lists.len() ==> inputs::listed(lists)[i] == crate::rotate::file_views(
            lists[i]@,
        ),
        0 <= i < watched.len() ==> inputs::paths(watched)[i] == watched[i].path,
        0 <= i < texts.len() ==> text::texts(texts)[i] == texts[i]@,
{
}

/// A digest that was taken is the bytes of it, in its place in a list.
pub proof fn a_digest_is_the_bytes_of_it(digest: [u8; 32], list: Seq<Option<[u8; 32]>>, i: int)
    ensures
        inputs::digest(Some(digest)) == Some(digest@),
        inputs::digest(None) is None,
        inputs::digests(list).len() == list.len(),
        0 <= i < list.len() && list[i] is Some ==> inputs::digests(list)[i] == Some(
            list[i]->0@,
        ),
        0 <= i < list.len() && list[i] is None ==> inputs::digests(list)[i] is None,
{
}

/// **The digest of a watched file is the SHA-256 of all that was read of it**,
/// one for each file, in its place, and none where nothing could be read or
/// nothing was handed in.
pub proof fn a_digest_is_of_what_was_read(set: InputsView, contents: Seq<Option<Seq<u8>>>, i: int)
    requires
        0 <= i < set.files.len(),
    ensures
        set.on_disk(contents).len() == set.files.len(),
        i < contents.len() && contents[i] is Some ==> set.on_disk(contents)[i] == Some(
            boundary::sha256(contents[i]->0),
        ),
        i >= contents.len() || contents[i] is None ==> set.on_disk(contents)[i] is None,
{
}

/// What is read of one file does not change the digest of another.
pub proof fn each_digest_is_of_its_own_file(
    set: InputsView,
    contents: Seq<Option<Seq<u8>>>,
    other: Option<Seq<u8>>,
    i: int,
    j: int,
)
    requires
        0 <= i < set.files.len(),
        0 <= j < contents.len(),
        i != j,
    ensures
        set.on_disk(contents.update(j, other))[i] == set.on_disk(contents)[i],
{
}

proof fn lemma_names_either_side(
    one: Seq<WatchedView>,
    other: Seq<WatchedView>,
    now: Seq<Option<Seq<u8>>>,
    later: Seq<Option<Seq<u8>>>,
    keep: spec_fn(WatchedView, Option<Seq<u8>>) -> bool,
    n: int,
)
    requires
        now.len() == one.len(),
        0 <= n <= one.len() + other.len(),
        n <= one.len() + later.len(),
    ensures
        n <= one.len() ==> inputs::names_where(one + other, now + later, keep, n)
            == inputs::names_where(one, now, keep, n),
        n > one.len() ==> inputs::names_where(one + other, now + later, keep, n)
            == inputs::names_where(one, now, keep, one.len() as int) + inputs::names_where(
            other,
            later,
            keep,
            n - one.len(),
        ),
    decreases n,
{
    if n > 0 {
        lemma_names_either_side(one, other, now, later, keep, n - 1);
        if n > one.len() {
            let k = n - 1 - one.len();
            assert((one + other)[n - 1] == other[k]);
            assert((now + later)[n - 1] == later[k]);
            assert(inputs::names_where(other, later, keep, 0) =~= Seq::empty());
            assert(inputs::names_where(one + other, now + later, keep, n)
                =~= inputs::names_where(one, now, keep, one.len() as int) + inputs::names_where(
                other,
                later,
                keep,
                n - one.len(),
            ));
        }
    }
}

/// The files that have changed, or that cannot be read, in a list are those of
/// its first part and then those of the rest.
pub proof fn the_names_of_a_list_are_those_of_its_parts(
    one: Seq<WatchedView>,
    other: Seq<WatchedView>,
    now: Seq<Option<Seq<u8>>>,
    later: Seq<Option<Seq<u8>>>,
)
    requires
        now.len() == one.len(),
    ensures
        inputs::changed_names(one + other, now + later) == inputs::changed_names(one, now)
            + inputs::changed_names(other, later),
        inputs::unreadable_names(one + other, now + later) == inputs::unreadable_names(one, now)
            + inputs::unreadable_names(other, later),
{
    let changed = |file: WatchedView, now: Option<Seq<u8>>| inputs::has_changed(file, now);
    let gone = |file: WatchedView, now: Option<Seq<u8>>| now is None;
    let n = inputs::spoken_for(one + other, now + later);
    lemma_names_either_side(one, other, now, later, changed, n);
    lemma_names_either_side(one, other, now, later, gone, n);
    if n == one.len() {
        assert(inputs::changed_names(one, now) + inputs::changed_names(other, later)
            =~= inputs::changed_names(one, now));
        assert(inputs::unreadable_names(one, now) + inputs::unreadable_names(other, later)
            =~= inputs::unreadable_names(one, now));
    }
}

/// **One file, one verdict.** A file that can be read has changed exactly where
/// its digest is not the one it was loaded with, and is then named; a file that
/// cannot be read is named as that and never as changed. Nothing is said of a
/// file no digest was handed in for, or for a digest that is no file's.
pub proof fn one_file_is_named_on_its_own(
    file: WatchedView,
    digest: Seq<u8>,
    files: Seq<WatchedView>,
    now: Seq<Option<Seq<u8>>>,
)
    ensures
        file.loaded != Some(digest) ==> inputs::changed_names(seq![file], seq![Some(digest)])
            == seq![boundary::lossy(file.path)],
        file.loaded == Some(digest) ==> inputs::changed_names(
            seq![file],
            seq![Some(digest)],
        ).len() == 0,
        inputs::changed_names(seq![file], seq![None]).len() == 0,
        inputs::unreadable_names(seq![file], seq![None]) == seq![boundary::lossy(file.path)],
        inputs::unreadable_names(seq![file], seq![Some(digest)]).len() == 0,
        inputs::changed_names(files, Seq::empty()).len() == 0,
        inputs::changed_names(Seq::empty(), now).len() == 0,
        inputs::unreadable_names(files, Seq::empty()).len() == 0,
        inputs::unreadable_names(Seq::empty(), now).len() == 0,
{
    reveal_with_fuel(inputs::names_where, 2);
    let name = seq![boundary::lossy(file.path)];
    assert(Seq::<Seq<char>>::empty().push(boundary::lossy(file.path)) =~= name);
}

/// The files that could not be read at boot are those of each part of a list,
/// and of one file it is that file, where it has no digest.
pub proof fn the_unread_files_of_a_list_are_those_of_its_parts(
    one: Seq<WatchedView>,
    other: Seq<WatchedView>,
    file: WatchedView,
)
    ensures
        inputs::unread_paths(one + other) == inputs::unread_paths(one) + inputs::unread_paths(
            other,
        ),
        inputs::unread_paths(Seq::empty()).len() == 0,
        file.loaded is None ==> inputs::unread_paths(seq![file]) == seq![file.path],
        file.loaded is Some ==> inputs::unread_paths(seq![file]).len() == 0,
{
    let unread = |file: WatchedView| file.loaded is None;
    let nothing = Seq::<WatchedView>::empty();
    Seq::filter_distributes_over_add(one, other, unread);
    assert(inputs::unread_paths(one + other) =~= inputs::unread_paths(one)
        + inputs::unread_paths(other));
    reveal(Seq::filter);
    assert(nothing.filter(unread) =~= nothing);
    assert(seq![file].drop_last() =~= nothing);
    assert(seq![file].filter(unread) =~= if unread(file) {
        nothing.push(file)
    } else {
        nothing
    });
    if file.loaded is None {
        assert(inputs::unread_paths(seq![file]) =~= seq![file.path]);
    }
}

/// A material that is not there names nothing, one that is names what it names
/// by itself, and so does a reference to it.
pub proof fn a_material_names_the_same_however_it_is_held<M: Material>(
    material: M,
)
    ensures
        Some(material).named() == material.named(),
        None::<M>.named().len() == 0,
        (&material).named() == material.named(),
{
}

/// There is one list of files for each of a list of materials, in its place.
pub proof fn every_material_is_in_its_place(materials: Seq<&dyn Material>, i: int)
    requires
        0 <= i < materials.len(),
    ensures
        inputs::named_by(materials).len() == materials.len(),
        inputs::named_by(materials)[i] == materials[i].named(),
{
}

/// A path names the file it spells, and the document names its own, neither as a
/// certificate.
pub proof fn a_path_names_one_file(path: FilePath, document: crate::rotate::Configuration)
    ensures
        path.named() == seq![FileView { path: path@, presented: None }],
        document.named() == seq![FileView { path: document@, presented: None }],
{
}

} // verus!
