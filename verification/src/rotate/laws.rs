//! What holds of every watch set, however it was assembled and whatever the
//! files it watches hold.

use crate::boundary;
use crate::path;
use crate::rotate::inputs;
use crate::rotate::inputs::{InputsView, WatchedView};
use crate::rotate::{FileView, Presented};
use crate::text;
use vstd::prelude::*;

verus! {

/// Every file a list of materials names, in order.
pub open spec fn all_named(materials: Seq<Seq<FileView>>) -> Seq<FileView>
    decreases materials.len(),
{
    if materials.len() == 0 {
        Seq::empty()
    } else {
        all_named(materials.drop_last()) + materials.last()
    }
}

/// Whether a path is among a list of paths, however it is spelled there.
pub open spec fn among(list: Seq<Seq<u8>>, path: Seq<u8>) -> bool {
    exists|i: int| 0 <= i < list.len() && path::same_path(#[trigger] list[i], path)
}

/// The paths of `list`, then those of `files`, each in the place it first
/// appears in and spelled as it is there.
pub open spec fn first_mentions(list: Seq<Seq<u8>>, files: Seq<FileView>) -> Seq<Seq<u8>>
    decreases files.len(),
{
    if files.len() == 0 {
        list
    } else {
        let before = first_mentions(list, files.drop_last());
        if among(before, files.last().path) {
            before
        } else {
            before.push(files.last().path)
        }
    }
}

/// Whether no two paths of a list are the same.
pub open spec fn all_apart(list: Seq<Seq<u8>>) -> bool {
    forall|i: int, j: int|
        0 <= i < j < list.len() ==> !path::same_path(#[trigger] list[i], #[trigger] list[j])
}

/// Whether each of a list of readings is what `disk` holds at the place the
/// file beside it is at.
pub open spec fn read_from(
    disk: spec_fn(Seq<u8>) -> Option<Seq<u8>>,
    files: Seq<FileView>,
    contents: Seq<Option<Seq<u8>>>,
) -> bool {
    forall|i: int|
        0 <= i < files.len() ==> inputs::reading_at(contents, i) == disk(
            (#[trigger] files[i]).path,
        )
}

/// What reading every watched file of a set gives.
pub open spec fn readings_from(
    disk: spec_fn(Seq<u8>) -> Option<Seq<u8>>,
    files: Seq<WatchedView>,
) -> Seq<Option<Seq<u8>>> {
    Seq::new(files.len(), |i: int| disk(files[i].path))
}

proof fn lemma_watching_is_among(set: InputsView, path: Seq<u8>)
    ensures
        set.watching(path) == among(inputs::paths(set.files), path),
{
    let list = inputs::paths(set.files);
    if set.watching(path) {
        let i = choose|i: int|
            0 <= i < set.files.len() && path::same_path((#[trigger] set.files[i]).path, path);
        assert(path::same_path(list[i], path));
    }
    if among(list, path) {
        let i = choose|i: int| 0 <= i < list.len() && path::same_path(#[trigger] list[i], path);
        assert(path::same_path(set.files[i].path, path));
    }
}

proof fn lemma_record_paths(set: InputsView, file: FileView, contents: Option<Seq<u8>>)
    ensures
        inputs::paths(set.record(file, contents).files) == first_mentions(
            inputs::paths(set.files),
            seq![file],
        ),
{
    let list = inputs::paths(set.files);
    let one = seq![file];
    assert(one.drop_last() =~= Seq::empty());
    assert(first_mentions(list, one.drop_last()) == list);
    lemma_watching_is_among(set, file.path);
    let presented = match file.presented {
        Some(which) => set.present(
            which,
            inputs::LeafView { der: inputs::leaf_read(contents), path: file.path },
        ),
        None => set,
    };
    assert(presented.files == set.files);
    lemma_watching_is_among(presented, file.path);
    assert(inputs::paths(set.record(file, contents).files) =~= first_mentions(list, one));
}

proof fn lemma_first_mentions_of_one_more(
    list: Seq<Seq<u8>>,
    files: Seq<FileView>,
    file: FileView,
)
    ensures
        first_mentions(list, files.push(file)) == first_mentions(
            first_mentions(list, files),
            seq![file],
        ),
{
    let one = seq![file];
    assert(files.push(file).drop_last() =~= files);
    assert(one.drop_last() =~= Seq::empty());
    assert(first_mentions(first_mentions(list, files), one.drop_last()) == first_mentions(
        list,
        files,
    ));
}

proof fn lemma_take_paths(set: InputsView, files: Seq<FileView>, contents: Seq<Option<Seq<u8>>>)
    ensures
        inputs::paths(set.take(files, contents).files) == first_mentions(
            inputs::paths(set.files),
            files,
        ),
    decreases files.len(),
{
    if files.len() > 0 {
        let before = files.drop_last();
        lemma_take_paths(set, before, contents);
        lemma_record_paths(
            set.take(before, contents),
            files.last(),
            inputs::reading_at(contents, files.len() - 1),
        );
        lemma_first_mentions_of_one_more(inputs::paths(set.files), before, files.last());
        assert(before.push(files.last()) =~= files);
    }
}

proof fn lemma_first_mentions_of_two_lists(
    list: Seq<Seq<u8>>,
    one: Seq<FileView>,
    other: Seq<FileView>,
)
    ensures
        first_mentions(list, one + other) == first_mentions(first_mentions(list, one), other),
    decreases other.len(),
{
    if other.len() == 0 {
        assert(one + other =~= one);
    } else {
        assert((one + other).drop_last() =~= one + other.drop_last());
        lemma_first_mentions_of_two_lists(list, one, other.drop_last());
    }
}

/// **The watch set is what the configuration named.** Every file a material
/// named is in it, in the order it was first named, once however often and
/// however it was spelled, and nothing else is, whether or not any of the files
/// could be read.
pub proof fn the_watch_set_is_what_the_materials_name(
    set: InputsView,
    materials: Seq<Seq<FileView>>,
    contents: Seq<Seq<Option<Seq<u8>>>>,
)
    ensures
        inputs::paths(set.take_all(materials, contents).files) == first_mentions(
            inputs::paths(set.files),
            all_named(materials),
        ),
    decreases materials.len(),
{
    if materials.len() > 0 {
        let before = materials.drop_last();
        let last = materials.len() - 1;
        the_watch_set_is_what_the_materials_name(set, before, contents);
        lemma_take_paths(
            set.take_all(before, contents),
            materials[last],
            if last < contents.len() {
                contents[last]
            } else {
                Seq::empty()
            },
        );
        lemma_first_mentions_of_two_lists(
            inputs::paths(set.files),
            all_named(before),
            materials.last(),
        );
    }
}

/// The first mentions of a list of files are all apart.
pub proof fn a_file_named_twice_is_mentioned_once(list: Seq<Seq<u8>>, files: Seq<FileView>)
    requires
        all_apart(list),
    ensures
        all_apart(first_mentions(list, files)),
    decreases files.len(),
{
    if files.len() > 0 {
        a_file_named_twice_is_mentioned_once(list, files.drop_last());
    }
}

/// Every file of a list is among its first mentions.
pub proof fn every_file_is_mentioned(list: Seq<Seq<u8>>, files: Seq<FileView>, i: int)
    requires
        0 <= i < files.len(),
    ensures
        among(first_mentions(list, files), files[i].path),
    decreases files.len(),
{
    let before = first_mentions(list, files.drop_last());
    let after = first_mentions(list, files);
    if i == files.len() - 1 {
        if !among(before, files.last().path) {
            assert(path::same_path(after[before.len() as int], files[i].path));
        }
    } else {
        every_file_is_mentioned(list, files.drop_last(), i);
        assert(files.drop_last()[i] == files[i]);
        let j = choose|j: int|
            0 <= j < before.len() && path::same_path(#[trigger] before[j], files[i].path);
        assert(after[j] == before[j]);
    }
}

/// Whether a path is that of one of a list of files, spelled the same way.
pub open spec fn named_as(files: Seq<FileView>, path: Seq<u8>) -> bool {
    exists|i: int| 0 <= i < files.len() && (#[trigger] files[i]).path == path
}

proof fn lemma_mentions_come_from_somewhere(list: Seq<Seq<u8>>, files: Seq<FileView>, k: int)
    requires
        0 <= k < first_mentions(list, files).len(),
    ensures
        list.contains(first_mentions(list, files)[k]) || named_as(
            files,
            first_mentions(list, files)[k],
        ),
    decreases files.len(),
{
    if files.len() > 0 {
        let before = first_mentions(list, files.drop_last());
        let path = first_mentions(list, files)[k];
        if k < before.len() {
            lemma_mentions_come_from_somewhere(list, files.drop_last(), k);
            if !list.contains(path) {
                let i = choose|i: int|
                    0 <= i < files.drop_last().len() && (#[trigger] files.drop_last()[i]).path
                        == path;
                assert(files[i].path == path);
            }
        } else {
            assert(files[files.len() - 1].path == path);
        }
    }
}

/// Nothing is watched but what a material named, spelled the way a material
/// spelled it.
pub proof fn nothing_else_is_watched(
    service: Seq<char>,
    materials: Seq<Seq<FileView>>,
    contents: Seq<Seq<Option<Seq<u8>>>>,
    k: int,
)
    requires
        0 <= k < InputsView::empty(service).take_all(materials, contents).files.len(),
    ensures
        named_as(
            all_named(materials),
            InputsView::empty(service).take_all(materials, contents).files[k].path,
        ),
{
    let start = InputsView::empty(service);
    let set = start.take_all(materials, contents);
    the_watch_set_is_what_the_materials_name(start, materials, contents);
    assert(inputs::paths(start.files) =~= Seq::empty());
    assert(inputs::paths(set.files)[k] == set.files[k].path);
    lemma_mentions_come_from_somewhere(inputs::paths(start.files), all_named(materials), k);
}

/// No file is in a watch set twice.
pub proof fn no_file_is_watched_twice(
    service: Seq<char>,
    materials: Seq<Seq<FileView>>,
    contents: Seq<Seq<Option<Seq<u8>>>>,
)
    ensures
        all_apart(
            inputs::paths(InputsView::empty(service).take_all(materials, contents).files),
        ),
{
    let start = InputsView::empty(service);
    the_watch_set_is_what_the_materials_name(start, materials, contents);
    assert(inputs::paths(start.files) =~= Seq::empty());
    a_file_named_twice_is_mentioned_once(inputs::paths(start.files), all_named(materials));
}

/// Every file a material named is watched.
pub proof fn every_named_file_is_watched(
    set: InputsView,
    materials: Seq<Seq<FileView>>,
    contents: Seq<Seq<Option<Seq<u8>>>>,
    i: int,
    j: int,
)
    requires
        0 <= i < materials.len(),
        0 <= j < materials[i].len(),
    ensures
        set.take_all(materials, contents).watching(materials[i][j].path),
        exists|k: int|
            0 <= k < set.take_all(materials, contents).files.len() && path::same_path(
                #[trigger] set.take_all(materials, contents).files[k].path,
                materials[i][j].path,
            ),
{
    let k = lemma_place_among_all(materials, i, j);
    the_watch_set_is_what_the_materials_name(set, materials, contents);
    every_file_is_mentioned(inputs::paths(set.files), all_named(materials), k);
    lemma_watching_is_among(set.take_all(materials, contents), materials[i][j].path);
}

proof fn lemma_place_among_all(materials: Seq<Seq<FileView>>, i: int, j: int) -> (k: int)
    requires
        0 <= i < materials.len(),
        0 <= j < materials[i].len(),
    ensures
        0 <= k < all_named(materials).len(),
        all_named(materials)[k] == materials[i][j],
    decreases materials.len(),
{
    let before = materials.drop_last();
    if i == materials.len() - 1 {
        all_named(before).len() + j
    } else {
        lemma_place_among_all(before, i, j)
    }
}

/// Taking one material more is taking it after all the others, so that a set
/// taken one material at a time is the set folded at once.
pub proof fn taking_one_at_a_time_reaches_the_same_set(
    set: InputsView,
    materials: Seq<Seq<FileView>>,
    contents: Seq<Seq<Option<Seq<u8>>>>,
    material: Seq<FileView>,
    read: Seq<Option<Seq<u8>>>,
)
    requires
        contents.len() == materials.len(),
    ensures
        set.take_all(materials.push(material), contents.push(read)) == set.take_all(
            materials,
            contents,
        ).take(material, read),
{
    assert(materials.push(material).drop_last() =~= materials);
    lemma_readings_beyond_do_not_matter(set, materials, contents, read);
}

proof fn lemma_readings_beyond_do_not_matter(
    set: InputsView,
    materials: Seq<Seq<FileView>>,
    contents: Seq<Seq<Option<Seq<u8>>>>,
    read: Seq<Option<Seq<u8>>>,
)
    requires
        materials.len() <= contents.len(),
    ensures
        set.take_all(materials, contents.push(read)) == set.take_all(materials, contents),
    decreases materials.len(),
{
    if materials.len() > 0 {
        lemma_readings_beyond_do_not_matter(set, materials.drop_last(), contents, read);
        assert(contents.push(read)[materials.len() - 1] == contents[materials.len() - 1]);
    }
}

/// A material that names nothing changes nothing.
pub proof fn nothing_configured_is_nothing_to_watch(
    set: InputsView,
    contents: Seq<Option<Seq<u8>>>,
)
    ensures
        set.take(Seq::empty(), contents) == set,
{
}

/// A certificate and any other file are watched identically: the role of a file
/// decides what is reported, never what is watched.
pub proof fn a_certificate_is_watched_like_any_other_file(
    set: InputsView,
    path: Seq<u8>,
    which: Presented,
    contents: Option<Seq<u8>>,
)
    ensures
        set.record(FileView { path, presented: Some(which) }, contents).files == set.record(
            FileView { path, presented: None },
            contents,
        ).files,
{
    let leaf = inputs::LeafView { der: inputs::leaf_read(contents), path };
    let presented = set.present(which, leaf);
    lemma_watching_is_among(set, path);
    lemma_watching_is_among(presented, path);
}

/// A file that is watched keeps the digest it was first read with, however
/// often it is named again and whatever it holds by then.
pub proof fn a_later_reading_never_becomes_the_baseline(
    set: InputsView,
    file: FileView,
    contents: Option<Seq<u8>>,
)
    requires
        set.watching(file.path),
    ensures
        set.record(file, contents).files == set.files,
{
    let leaf = inputs::LeafView { der: inputs::leaf_read(contents), path: file.path };
    lemma_watching_is_among(set, file.path);
    if let Some(which) = file.presented {
        lemma_watching_is_among(set.present(which, leaf), file.path);
    }
}

/// Reading one more file keeps the files that were watched, in their places and
/// with their digests, and keeps all paths apart, however the set was built.
pub proof fn recording_keeps_what_was_watched(
    set: InputsView,
    file: FileView,
    contents: Option<Seq<u8>>,
)
    ensures
        set.files.is_prefix_of(set.record(file, contents).files),
        all_apart(inputs::paths(set.files)) ==> all_apart(
            inputs::paths(set.record(file, contents).files),
        ),
{
    if all_apart(inputs::paths(set.files)) {
        lemma_record_paths(set, file, contents);
        a_file_named_twice_is_mentioned_once(inputs::paths(set.files), seq![file]);
    }
}

/// Taking one more piece of configuration keeps the files that were watched, in
/// their places and with their digests, and keeps all paths apart, however the
/// set was built.
pub proof fn taking_keeps_what_was_watched(
    set: InputsView,
    files: Seq<FileView>,
    contents: Seq<Option<Seq<u8>>>,
)
    ensures
        set.files.is_prefix_of(set.take(files, contents).files),
        all_apart(inputs::paths(set.files)) ==> all_apart(
            inputs::paths(set.take(files, contents).files),
        ),
    decreases files.len(),
{
    if files.len() > 0 {
        let before = files.drop_last();
        taking_keeps_what_was_watched(set, before, contents);
        recording_keeps_what_was_watched(
            set.take(before, contents),
            files.last(),
            inputs::reading_at(contents, files.len() - 1),
        );
    }
}

/// Recording a certificate of one kind leaves the other kind as it was, and
/// recording any other file leaves both.
pub proof fn the_two_certificates_are_not_each_other(
    set: InputsView,
    path: Seq<u8>,
    contents: Option<Seq<u8>>,
)
    ensures
        set.record(FileView { path, presented: Some(Presented::Client) }, contents).serving
            == set.serving,
        set.record(FileView { path, presented: Some(Presented::Serving) }, contents).client
            == set.client,
        set.record(FileView { path, presented: None }, contents).serving == set.serving,
        set.record(FileView { path, presented: None }, contents).client == set.client,
{
}

/// What names the certificate that was loaded does not depend on what is on
/// disk now.
pub proof fn the_loaded_certificate_is_named_whatever_is_on_disk(
    set: InputsView,
    which: Presented,
    one: Option<Seq<u8>>,
    other: Option<Seq<u8>>,
)
    ensures
        set.reported(which, false, one) == set.reported(which, false, other),
{
}

/// A certificate that was not configured reads differently from one that was and
/// could not be read, and no fingerprint reads like either.
pub proof fn an_absent_certificate_reads_unlike_an_unreadable_one(
    found: Option<Seq<char>>,
    fingerprint: Seq<char>,
)
    requires
        fingerprint.len() == 64,
    ensures
        inputs::shown(false, found) != inputs::shown(true, None),
        inputs::shown(true, Some(fingerprint)) != inputs::shown(false, found),
        inputs::shown(true, Some(fingerprint)) != inputs::shown(true, None),
{
    reveal_strlit("none");
    reveal_strlit("unknown");
    assert("none"@.len() == 4);
    assert("unknown"@.len() == 7);
}

/// Two certificates with different digests do not share a fingerprint.
pub proof fn a_fingerprint_tells_certificates_apart(one: Seq<u8>, other: Seq<u8>)
    requires
        boundary::sha256(one) != boundary::sha256(other),
    ensures
        inputs::fingerprint_of(one) != inputs::fingerprint_of(other),
{
    if inputs::fingerprint_of(one) == inputs::fingerprint_of(other) {
        text::hex_tells_bytes_apart(boundary::sha256(one), boundary::sha256(other));
    }
}

proof fn lemma_take_baseline(
    set: InputsView,
    disk: spec_fn(Seq<u8>) -> Option<Seq<u8>>,
    files: Seq<FileView>,
    contents: Seq<Option<Seq<u8>>>,
)
    requires
        forall|k: int|
            0 <= k < set.files.len() ==> (#[trigger] set.files[k]).loaded == inputs::digest_read(
                disk(set.files[k].path),
            ),
        read_from(disk, files, contents),
    ensures
        forall|k: int|
            0 <= k < set.take(files, contents).files.len() ==> (#[trigger] set.take(
                files,
                contents,
            ).files[k]).loaded == inputs::digest_read(
                disk(set.take(files, contents).files[k].path),
            ),
    decreases files.len(),
{
    if files.len() > 0 {
        let before = files.drop_last();
        assert forall|i: int| 0 <= i < before.len() implies inputs::reading_at(contents, i) == disk(
            (#[trigger] before[i]).path,
        ) by {
            assert(before[i] == files[i]);
        }
        lemma_take_baseline(set, disk, before, contents);
        assert(inputs::reading_at(contents, files.len() - 1) == disk(
            files[files.len() - 1].path,
        ));
    }
}

/// **The baseline of every watched file is the digest of what was read at
/// boot**, and nothing where it could not be read.
pub proof fn the_baseline_is_what_was_read(
    set: InputsView,
    disk: spec_fn(Seq<u8>) -> Option<Seq<u8>>,
    materials: Seq<Seq<FileView>>,
    contents: Seq<Seq<Option<Seq<u8>>>>,
)
    requires
        forall|k: int|
            0 <= k < set.files.len() ==> (#[trigger] set.files[k]).loaded == inputs::digest_read(
                disk(set.files[k].path),
            ),
        contents.len() == materials.len(),
        forall|i: int|
            0 <= i < materials.len() ==> read_from(disk, #[trigger] materials[i], contents[i]),
    ensures
        forall|k: int|
            0 <= k < set.take_all(materials, contents).files.len() ==> (#[trigger] set.take_all(
                materials,
                contents,
            ).files[k]).loaded == inputs::digest_read(
                disk(set.take_all(materials, contents).files[k].path),
            ),
    decreases materials.len(),
{
    if materials.len() > 0 {
        let before = materials.drop_last();
        let last = materials.len() - 1;
        let earlier = contents.drop_last();
        assert(earlier.push(contents[last]) =~= contents);
        assert forall|i: int| 0 <= i < before.len() implies read_from(
            disk,
            #[trigger] before[i],
            earlier[i],
        ) by {
            assert(before[i] == materials[i]);
        }
        the_baseline_is_what_was_read(set, disk, before, earlier);
        lemma_readings_beyond_do_not_matter(set, before, earlier, contents[last]);
        assert(read_from(disk, materials[last], contents[last]));
        lemma_take_baseline(
            set.take_all(before, contents),
            disk,
            materials[last],
            contents[last],
        );
    }
}

proof fn lemma_named_where(
    files: Seq<WatchedView>,
    now: Seq<Option<Seq<u8>>>,
    keep: spec_fn(WatchedView, Option<Seq<u8>>) -> bool,
    n: int,
)
    ensures
        forall|i: int|
            0 <= i < n && keep(files[i], now[i]) ==> inputs::names_where(
                files,
                now,
                keep,
                n,
            ).contains(boundary::lossy((#[trigger] files[i]).path)),
        inputs::names_where(files, now, keep, n).len() > 0 ==> exists|i: int|
            0 <= i < n && keep(#[trigger] files[i], now[i]),
    decreases n,
{
    if n > 0 {
        let before = inputs::names_where(files, now, keep, n - 1);
        let after = inputs::names_where(files, now, keep, n);
        lemma_named_where(files, now, keep, n - 1);
        assert forall|i: int| 0 <= i < n && keep(files[i], now[i]) implies after.contains(
            boundary::lossy((#[trigger] files[i]).path),
        ) by {
            let name = boundary::lossy(files[i].path);
            if i == n - 1 {
                assert(after[before.len() as int] == name);
            } else {
                let k = choose|k: int| 0 <= k < before.len() && before[k] == name;
                assert(after[k] == name);
            }
        }
        if after.len() > 0 {
            if keep(files[n - 1], now[n - 1]) {
                assert(keep(files[n - 1], now[n - 1]));
            } else {
                let i = choose|i: int| 0 <= i < n - 1 && keep(#[trigger] files[i], now[i]);
                assert(keep(files[i], now[i]));
            }
        }
    }
}

/// A file that can be read and does not hold what was loaded is reported, by
/// name; and something is reported only where there is such a file.
pub proof fn a_change_is_reported_by_name(files: Seq<WatchedView>, now: Seq<Option<Seq<u8>>>)
    requires
        now.len() == files.len(),
    ensures
        forall|i: int|
            0 <= i < files.len() && inputs::has_changed(files[i], now[i])
                ==> inputs::changed_names(files, now).contains(
                boundary::lossy((#[trigger] files[i]).path),
            ),
        inputs::changed_names(files, now).len() > 0 <==> exists|i: int|
            0 <= i < files.len() && inputs::has_changed(#[trigger] files[i], now[i]),
{
    let keep = |file: WatchedView, now: Option<Seq<u8>>| inputs::has_changed(file, now);
    let n = files.len() as int;
    lemma_named_where(files, now, keep, n);
    assert forall|i: int| 0 <= i < n && inputs::has_changed(files[i], now[i]) implies
        inputs::changed_names(files, now).contains(
        boundary::lossy((#[trigger] files[i]).path),
    ) by {
        assert(keep(files[i], now[i]));
    }
    if inputs::changed_names(files, now).len() > 0 {
        let i = choose|i: int| 0 <= i < n && keep(#[trigger] files[i], now[i]);
        assert(inputs::has_changed(files[i], now[i]));
    }
}

proof fn lemma_names_without_one(
    files: Seq<WatchedView>,
    now: Seq<Option<Seq<u8>>>,
    gone: int,
    n: int,
)
    requires
        now.len() == files.len(),
        0 <= gone < files.len(),
        0 <= n <= files.len(),
    ensures
        ({
            let keep = |file: WatchedView, now: Option<Seq<u8>>| inputs::has_changed(file, now);
            let before = inputs::names_where(files, now, keep, n);
            let without = inputs::names_where(files, now.update(gone, None), keep, n);
            let place = inputs::names_where(files, now, keep, gone).len() as int;
            if gone < n && inputs::has_changed(files[gone], now[gone]) {
                &&& place < before.len()
                &&& before[place] == boundary::lossy(files[gone].path)
                &&& without == before.remove(place)
            } else {
                without == before
            }
        }),
    decreases n,
{
    let keep = |file: WatchedView, now: Option<Seq<u8>>| inputs::has_changed(file, now);
    if n > 0 {
        lemma_names_without_one(files, now, gone, n - 1);
        let earlier = inputs::names_where(files, now, keep, n - 1);
        let before = inputs::names_where(files, now, keep, n);
        let without = inputs::names_where(files, now.update(gone, None), keep, n);
        let place = inputs::names_where(files, now, keep, gone).len() as int;
        let name = boundary::lossy(files[n - 1].path);
        if n - 1 == gone {
            if inputs::has_changed(files[gone], now[gone]) {
                assert(earlier.push(name).remove(place) =~= earlier);
            }
        } else if gone < n - 1 && inputs::has_changed(files[gone], now[gone]) {
            if inputs::has_changed(files[n - 1], now[n - 1]) {
                assert(earlier.push(name).remove(place) =~= earlier.remove(place).push(name));
            }
        }
    }
}

/// **A file that cannot be read disables nothing but itself.** Where one file
/// cannot be read, what is reported is what would have been if it could, with
/// that file's own report taken out where there was one, and all else in place.
pub proof fn an_unreadable_file_hides_no_other(
    files: Seq<WatchedView>,
    now: Seq<Option<Seq<u8>>>,
    gone: int,
)
    requires
        now.len() == files.len(),
        0 <= gone < files.len(),
    ensures
        ({
            let before = inputs::changed_names(files, now);
            let without = inputs::changed_names(files, now.update(gone, None));
            let place = inputs::changed_names(files.take(gone), now.take(gone)).len() as int;
            if inputs::has_changed(files[gone], now[gone]) {
                &&& place < before.len()
                &&& before[place] == boundary::lossy(files[gone].path)
                &&& without == before.remove(place)
            } else {
                without == before
            }
        }),
{
    let keep = |file: WatchedView, now: Option<Seq<u8>>| inputs::has_changed(file, now);
    lemma_names_without_one(files, now, gone, files.len() as int);
    lemma_names_of_the_first(files, now, keep, gone, gone);
}

proof fn lemma_names_of_the_first(
    files: Seq<WatchedView>,
    now: Seq<Option<Seq<u8>>>,
    keep: spec_fn(WatchedView, Option<Seq<u8>>) -> bool,
    most: int,
    n: int,
)
    requires
        now.len() == files.len(),
        0 <= n <= most <= files.len(),
    ensures
        inputs::names_where(files.take(most), now.take(most), keep, n) == inputs::names_where(
            files,
            now,
            keep,
            n,
        ),
    decreases n,
{
    if n > 0 {
        lemma_names_of_the_first(files, now, keep, most, n - 1);
    }
}

/// Where no file can be read, nothing has changed: what cannot be read now is
/// kept as it was loaded.
pub proof fn an_unreadable_file_is_not_a_change(
    files: Seq<WatchedView>,
    now: Seq<Option<Seq<u8>>>,
)
    requires
        now.len() == files.len(),
        forall|i: int| 0 <= i < now.len() ==> (#[trigger] now[i]) is None,
    ensures
        inputs::changed_names(files, now).len() == 0,
{
    a_change_is_reported_by_name(files, now);
}

/// Files that hold the very bytes that were read at boot have not changed,
/// whatever else about them has.
pub proof fn identical_bytes_are_not_a_change(
    set: InputsView,
    disk: spec_fn(Seq<u8>) -> Option<Seq<u8>>,
)
    requires
        forall|k: int|
            0 <= k < set.files.len() ==> (#[trigger] set.files[k]).loaded == inputs::digest_read(
                disk(set.files[k].path),
            ),
    ensures
        inputs::changed_names(
            set.files,
            set.on_disk(readings_from(disk, set.files)),
        ).len() == 0,
{
    let contents = readings_from(disk, set.files);
    let now = set.on_disk(contents);
    a_change_is_reported_by_name(set.files, now);
    assert forall|i: int| 0 <= i < set.files.len() implies !inputs::has_changed(
        #[trigger] set.files[i],
        now[i],
    ) by {
        assert(inputs::reading_at(contents, i) == disk(set.files[i].path));
    }
}

/// A watched file whose bytes can be read and whose digest is not the one it
/// was loaded with is a change on its own, with every other file as it was. A
/// file that could not be read at boot and now can is one of these.
pub proof fn each_watched_file_is_a_change_on_its_own(
    set: InputsView,
    contents: Seq<Option<Seq<u8>>>,
    i: int,
)
    requires
        0 <= i < set.files.len(),
        inputs::reading_at(contents, i) is Some,
        set.files[i].loaded != Some(boundary::sha256(inputs::reading_at(contents, i)->0)),
    ensures
        inputs::changed_names(set.files, set.on_disk(contents)).contains(
            boundary::lossy(set.files[i].path),
        ),
{
    let now = set.on_disk(contents);
    a_change_is_reported_by_name(set.files, now);
    assert(inputs::has_changed(set.files[i], now[i]));
}

/// Two files that exchange their contents are both a change, though every byte
/// is still there: what is compared is each file's own digest.
pub proof fn exchanging_the_contents_of_two_files_is_a_change(
    set: InputsView,
    disk: spec_fn(Seq<u8>) -> Option<Seq<u8>>,
    one: int,
    other: int,
)
    requires
        0 <= one < set.files.len(),
        0 <= other < set.files.len(),
        disk(set.files[one].path) is Some,
        disk(set.files[other].path) is Some,
        set.files[one].loaded == inputs::digest_read(disk(set.files[one].path)),
        set.files[other].loaded == inputs::digest_read(disk(set.files[other].path)),
        set.files[one].loaded != set.files[other].loaded,
    ensures
        ({
            let before = readings_from(disk, set.files);
            let exchanged = before.update(one, before[other]).update(other, before[one]);
            let changed = inputs::changed_names(set.files, set.on_disk(exchanged));
            &&& changed.contains(boundary::lossy(set.files[one].path))
            &&& changed.contains(boundary::lossy(set.files[other].path))
        }),
{
    let before = readings_from(disk, set.files);
    let exchanged = before.update(one, before[other]).update(other, before[one]);
    each_watched_file_is_a_change_on_its_own(set, exchanged, one);
    each_watched_file_is_a_change_on_its_own(set, exchanged, other);
}

} // verus!
