//! What holds of every way a watch set is put together.

use crate::boundary;
use crate::path;
use crate::rotate::inputs;
use crate::rotate::inputs::InputsView;
use crate::rotate::{FileView, Presented};
use vstd::prelude::*;

verus! {

/// Whether one of the watched files is at a path, however it is spelled.
pub open spec fn holds(set: InputsView, path: Seq<u8>) -> bool {
    exists|k: int| 0 <= k < set.files.len() && path::same_path(#[trigger] set.files[k].path, path)
}

/// A watch set begins with nothing in it but the service it is for.
pub proof fn a_watch_set_begins_empty(service: Seq<char>)
    ensures
        InputsView::empty(service).service == service,
        InputsView::empty(service).serving is None,
        InputsView::empty(service).client is None,
        InputsView::empty(service).files.len() == 0,
{
}

/// **A file that is not watched yet is added at the end**, as it is spelled,
/// with the digest of what was read of it, whatever role it plays and whether or
/// not it could be read.
pub proof fn a_new_file_is_added_at_the_end(
    set: InputsView,
    file: FileView,
    contents: Option<Seq<u8>>,
)
    requires
        !holds(set, file.path),
    ensures
        set.record(file, contents).files.len() == set.files.len() + 1,
        set.record(file, contents).files.drop_last() == set.files,
        set.record(file, contents).files.last().path == file.path,
        contents is Some ==> set.record(file, contents).files.last().loaded == Some(
            boundary::sha256(contents->0),
        ),
        contents is None ==> set.record(file, contents).files.last().loaded is None,
{
    let recorded = set.record(file, contents);
    assert(recorded.files.drop_last() =~= set.files);
}

/// A file that is watched already is not added again, and keeps its place, its
/// spelling and its digest.
pub proof fn a_watched_file_is_not_added_again(
    set: InputsView,
    file: FileView,
    contents: Option<Seq<u8>>,
)
    requires
        holds(set, file.path),
    ensures
        set.record(file, contents).files == set.files,
{
    let k = choose|k: int|
        0 <= k < set.files.len() && path::same_path(#[trigger] set.files[k].path, file.path);
    assert(path::same_path(set.files[k].path, file.path));
}

/// A certificate is kept as the first one in its file, beside where it was read,
/// in place of any of its kind that was kept before; where the file could not be
/// read or holds none, that is what is kept. Nothing but a certificate is.
pub proof fn a_certificate_is_kept_as_the_first_in_its_file(
    set: InputsView,
    path: Seq<u8>,
    contents: Option<Seq<u8>>,
)
    ensures
        ({
            let serving = set.record(
                FileView { path, presented: Some(Presented::Serving) },
                contents,
            );
            let client = set.record(
                FileView { path, presented: Some(Presented::Client) },
                contents,
            );
            let plain = set.record(FileView { path, presented: None }, contents);
            &&& serving.serving is Some && client.client is Some
            &&& serving.serving->0.path == path
            &&& client.client->0.path == path
            &&& contents is Some ==> serving.serving->0.der == boundary::first_certificate_in(
                contents->0,
            )
            &&& contents is Some ==> client.client->0.der == boundary::first_certificate_in(
                contents->0,
            )
            &&& contents is None ==> serving.serving->0.der is None && client.client->0.der is None
            &&& serving.client == set.client && client.serving == set.serving
            &&& plain.serving == set.serving && plain.client == set.client
            &&& serving.service == set.service && client.service == set.service
            &&& plain.service == set.service
        }),
{
}

/// Taking no files changes nothing, and taking one is recording it with what was
/// read of it, or as unreadable where nothing was handed in.
pub proof fn taking_one_file_is_recording_it(
    set: InputsView,
    file: FileView,
    contents: Option<Seq<u8>>,
    rest: Seq<Option<Seq<u8>>>,
)
    ensures
        set.take(Seq::empty(), rest) == set,
        set.take(seq![file], seq![contents] + rest) == set.record(file, contents),
        set.take(seq![file], Seq::empty()) == set.record(file, None),
{
    assert(seq![file].drop_last() =~= Seq::empty());
    assert((seq![contents] + rest)[0] == contents);
    assert(set.take(seq![file].drop_last(), Seq::empty()) == set);
    assert(set.take(seq![file].drop_last(), seq![contents] + rest) == set);
}

proof fn lemma_readings_beyond(
    set: InputsView,
    files: Seq<FileView>,
    contents: Seq<Option<Seq<u8>>>,
    rest: Seq<Option<Seq<u8>>>,
)
    requires
        files.len() <= contents.len(),
    ensures
        set.take(files, contents + rest) == set.take(files, contents),
    decreases files.len(),
{
    if files.len() > 0 {
        lemma_readings_beyond(set, files.drop_last(), contents, rest);
    }
}

/// Taking a list of files is taking its first part and then the rest, each with
/// what was read of it.
pub proof fn taking_a_list_is_taking_its_parts(
    set: InputsView,
    one: Seq<FileView>,
    other: Seq<FileView>,
    contents: Seq<Option<Seq<u8>>>,
    rest: Seq<Option<Seq<u8>>>,
)
    requires
        contents.len() == one.len(),
    ensures
        set.take(one + other, contents + rest) == set.take(one, contents).take(other, rest),
    decreases other.len(),
{
    if other.len() == 0 {
        assert(one + other =~= one);
        lemma_readings_beyond(set, one, contents, rest);
    } else {
        assert((one + other).drop_last() =~= one + other.drop_last());
        taking_a_list_is_taking_its_parts(set, one, other.drop_last(), contents, rest);
        let last = (one + other).len() - 1;
        assert(inputs::reading_at(contents + rest, last) == inputs::reading_at(
            rest,
            other.len() - 1,
        ));
    }
}

/// Taking no materials changes nothing, and taking one is taking its files, all
/// of them unreadable where nothing was handed in for it.
pub proof fn taking_one_material_is_taking_its_files(
    set: InputsView,
    material: Seq<FileView>,
    contents: Seq<Option<Seq<u8>>>,
    rest: Seq<Seq<Option<Seq<u8>>>>,
)
    ensures
        set.take_all(Seq::empty(), rest) == set,
        set.take_all(seq![material], seq![contents] + rest) == set.take(material, contents),
        set.take_all(seq![material], Seq::empty()) == set.take(material, Seq::empty()),
{
    assert(seq![material].drop_last() =~= Seq::empty());
    assert((seq![contents] + rest)[0] == contents);
    assert(set.take_all(seq![material].drop_last(), Seq::empty()) == set);
    assert(set.take_all(seq![material].drop_last(), seq![contents] + rest) == set);
}

proof fn lemma_materials_beyond(
    set: InputsView,
    materials: Seq<Seq<FileView>>,
    contents: Seq<Seq<Option<Seq<u8>>>>,
    rest: Seq<Seq<Option<Seq<u8>>>>,
)
    requires
        materials.len() <= contents.len(),
    ensures
        set.take_all(materials, contents + rest) == set.take_all(materials, contents),
    decreases materials.len(),
{
    if materials.len() > 0 {
        lemma_materials_beyond(set, materials.drop_last(), contents, rest);
    }
}

/// Taking a list of materials is taking its first part and then the rest, each
/// with what was read of it.
pub proof fn taking_materials_is_taking_their_parts(
    set: InputsView,
    one: Seq<Seq<FileView>>,
    other: Seq<Seq<FileView>>,
    contents: Seq<Seq<Option<Seq<u8>>>>,
    rest: Seq<Seq<Option<Seq<u8>>>>,
)
    requires
        contents.len() == one.len(),
    ensures
        set.take_all(one + other, contents + rest) == set.take_all(one, contents).take_all(
            other,
            rest,
        ),
    decreases other.len(),
{
    if other.len() == 0 {
        assert(one + other =~= one);
        lemma_materials_beyond(set, one, contents, rest);
    } else {
        assert((one + other).drop_last() =~= one + other.drop_last());
        taking_materials_is_taking_their_parts(set, one, other.drop_last(), contents, rest);
        let last = (one + other).len() - 1;
        assert((one + other)[last] == other[other.len() - 1]);
        if last < (contents + rest).len() {
            assert((contents + rest)[last] == rest[other.len() - 1]);
        }
    }
}

/// **Two files at different places are both watched.** A set that holds neither
/// and takes both holds the first and then the second, each with its own
/// digest, whatever else they have in common.
pub proof fn two_different_files_are_both_watched(
    set: InputsView,
    one: FileView,
    other: FileView,
    first: Option<Seq<u8>>,
    second: Option<Seq<u8>>,
)
    requires
        !holds(set, one.path),
        !holds(set, other.path),
        path::components(one.path).names != path::components(other.path).names,
    ensures
        ({
            let taken = set.take(seq![one, other], seq![first, second]);
            let n = set.files.len() as int;
            &&& taken.files.len() == n + 2
            &&& taken.files[n].path == one.path
            &&& taken.files[n + 1].path == other.path
            &&& second is Some ==> taken.files[n + 1].loaded == Some(
                boundary::sha256(second->0),
            )
        }),
{
    let both = seq![one] + seq![other];
    let read = seq![first] + seq![second];
    assert(seq![one, other] =~= both);
    assert(seq![first, second] =~= read);
    taking_a_list_is_taking_its_parts(set, seq![one], seq![other], seq![first], seq![second]);
    assert(seq![first] + Seq::empty() =~= seq![first]);
    assert(seq![second] + Seq::empty() =~= seq![second]);
    taking_one_file_is_recording_it(set, one, first, Seq::empty());
    a_new_file_is_added_at_the_end(set, one, first);
    let between = set.record(one, first);
    if holds(between, other.path) {
        let k = choose|k: int|
            0 <= k < between.files.len() && path::same_path(
                #[trigger] between.files[k].path,
                other.path,
            );
        if k < set.files.len() {
            assert(between.files.drop_last()[k] == set.files[k]);
            assert(path::same_path(set.files[k].path, other.path));
        }
    }
    taking_one_file_is_recording_it(between, other, second, Seq::empty());
    a_new_file_is_added_at_the_end(between, other, second);
    let n = set.files.len() as int;
    let taken = between.record(other, second);
    assert(taken.files[n] == taken.files.drop_last()[n]);
}

} // verus!
