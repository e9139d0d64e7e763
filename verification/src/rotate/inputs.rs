//! The watch set a service assembles at boot: every file it read, hashed as it
//! was read.

use crate::boundary;
use crate::path;
use crate::path::FilePath;
use crate::rotate::{absent, unknown, File, FileView, Material, Presented};
use crate::rotate::{CERTIFICATE_NOT_AFTER, WATCHED_FILES_UNREADABLE};
use crate::text;
use vstd::prelude::*;

verus! {

/// What reading a file gave: its bytes, or nothing where it could not be read.
pub open spec fn reading(contents: Option<Vec<u8>>) -> Option<Seq<u8>> {
    match contents {
        Some(bytes) => Some(bytes@),
        None => None,
    }
}

/// What reading each file of a list gave, in order.
pub open spec fn readings(contents: Seq<Option<Vec<u8>>>) -> Seq<Option<Seq<u8>>> {
    contents.map_values(|one: Option<Vec<u8>>| reading(one))
}

/// What was read for each file of each material, in order.
pub open spec fn readings_of_all(contents: Seq<Vec<Option<Vec<u8>>>>) -> Seq<
    Seq<Option<Seq<u8>>>,
> {
    contents.map_values(|one: Vec<Option<Vec<u8>>>| readings(one@))
}

/// What a borrowed reading gave.
pub open spec fn borrowed(contents: Option<&[u8]>) -> Option<Seq<u8>> {
    match contents {
        Some(bytes) => Some(bytes@),
        None => None,
    }
}

/// The `i`th reading of a list. A file nothing was handed in for counts as one
/// that could not be read.
pub open spec fn reading_at(list: Seq<Option<Seq<u8>>>, i: int) -> Option<Seq<u8>> {
    if 0 <= i < list.len() {
        list[i]
    } else {
        None
    }
}

/// The digest of what was read, where anything was.
pub open spec fn digest_read(contents: Option<Seq<u8>>) -> Option<Seq<u8>> {
    match contents {
        Some(bytes) => Some(boundary::sha256(bytes)),
        None => None,
    }
}

/// A digest, as a plain value.
pub open spec fn digest(digest: Option<[u8; 32]>) -> Option<Seq<u8>> {
    match digest {
        Some(digest) => Some(digest@),
        None => None,
    }
}

/// The digests of a list, in order.
pub open spec fn digests(list: Seq<Option<[u8; 32]>>) -> Seq<Option<Seq<u8>>> {
    list.map_values(|one: Option<[u8; 32]>| digest(one))
}

/// The certificate a file holds first, where it could be read and holds one.
pub open spec fn leaf_read(contents: Option<Seq<u8>>) -> Option<Seq<u8>> {
    match contents {
        Some(bytes) => boundary::first_certificate_in(bytes),
        None => None,
    }
}

/// A certificate read at boot, as plain values.
pub struct LeafView {
    pub der: Option<Seq<u8>>,
    pub path: Seq<u8>,
}

/// One watched file and the digest it held when it was read, as plain values.
pub struct WatchedView {
    pub path: Seq<u8>,
    pub loaded: Option<Seq<u8>>,
}

/// [`Inputs`], as plain values.
pub struct InputsView {
    pub service: Seq<char>,
    pub serving: Option<LeafView>,
    pub client: Option<LeafView>,
    pub files: Seq<WatchedView>,
}

/// Whether a file's contents are not what this process loaded: it can be read
/// now, and what it holds is not what it held then, or could not be read then.
pub open spec fn has_changed(file: WatchedView, now: Option<Seq<u8>>) -> bool {
    now is Some && file.loaded != now
}

/// The names of the first `n` watched files for which `keep` holds of the file
/// and the digest it has now, in order.
pub open spec fn names_where(
    files: Seq<WatchedView>,
    now: Seq<Option<Seq<u8>>>,
    keep: spec_fn(WatchedView, Option<Seq<u8>>) -> bool,
    n: int,
) -> Seq<Seq<char>>
    decreases n,
{
    if n <= 0 {
        Seq::empty()
    } else {
        let before = names_where(files, now, keep, n - 1);
        if keep(files[n - 1], now[n - 1]) {
            before.push(boundary::lossy(files[n - 1].path))
        } else {
            before
        }
    }
}

/// How many of a set's files a list of digests speaks for.
pub open spec fn spoken_for(files: Seq<WatchedView>, now: Seq<Option<Seq<u8>>>) -> int {
    if files.len() <= now.len() {
        files.len() as int
    } else {
        now.len() as int
    }
}

/// The names of the watched files whose contents have changed, in order.
pub open spec fn changed_names(files: Seq<WatchedView>, now: Seq<Option<Seq<u8>>>) -> Seq<
    Seq<char>,
> {
    names_where(
        files,
        now,
        |file: WatchedView, now: Option<Seq<u8>>| has_changed(file, now),
        spoken_for(files, now),
    )
}

/// The names of the watched files that cannot be read now, in order.
pub open spec fn unreadable_names(files: Seq<WatchedView>, now: Seq<Option<Seq<u8>>>) -> Seq<
    Seq<char>,
> {
    names_where(
        files,
        now,
        |file: WatchedView, now: Option<Seq<u8>>| now is None,
        spoken_for(files, now),
    )
}

/// The paths of the watched files, in order.
pub open spec fn paths(files: Seq<WatchedView>) -> Seq<Seq<u8>> {
    files.map_values(|file: WatchedView| file.path)
}

/// The paths of the watched files that could not be read at boot, in order.
pub open spec fn unread_paths(files: Seq<WatchedView>) -> Seq<Seq<u8>> {
    paths(files.filter(|file: WatchedView| file.loaded is None))
}

impl InputsView {
    /// An empty watch set.
    pub open spec fn empty(service: Seq<char>) -> Self {
        InputsView { service, serving: None, client: None, files: Seq::empty() }
    }

    /// Whether one of the watched files is at this path, however it is spelled.
    pub open spec fn watching(self, path: Seq<u8>) -> bool {
        exists|i: int|
            0 <= i < self.files.len() && path::same_path((#[trigger] self.files[i]).path, path)
    }

    /// The set with one more file in it, unless it is there already.
    pub open spec fn watch(self, path: Seq<u8>, loaded: Option<Seq<u8>>) -> Self {
        if self.watching(path) {
            self
        } else {
            InputsView { files: self.files.push(WatchedView { path, loaded }), ..self }
        }
    }

    /// The set with one more certificate recorded in it.
    pub open spec fn present(self, which: Presented, leaf: LeafView) -> Self {
        match which {
            Presented::Serving => InputsView { serving: Some(leaf), ..self },
            Presented::Client => InputsView { client: Some(leaf), ..self },
        }
    }

    /// The set after one file was read.
    pub open spec fn record(self, file: FileView, contents: Option<Seq<u8>>) -> Self {
        let presented = match file.presented {
            Some(which) => self.present(
                which,
                LeafView { der: leaf_read(contents), path: file.path },
            ),
            None => self,
        };
        presented.watch(file.path, digest_read(contents))
    }

    /// The set after each file of a list was read, in order.
    pub open spec fn take(self, files: Seq<FileView>, contents: Seq<Option<Seq<u8>>>) -> Self
        decreases files.len(),
    {
        if files.len() == 0 {
            self
        } else {
            self.take(files.drop_last(), contents).record(
                files.last(),
                reading_at(contents, files.len() - 1),
            )
        }
    }

    /// The set after each of a list of materials was taken, in order.
    pub open spec fn take_all(
        self,
        materials: Seq<Seq<FileView>>,
        contents: Seq<Seq<Option<Seq<u8>>>>,
    ) -> Self
        decreases materials.len(),
    {
        if materials.len() == 0 {
            self
        } else {
            let last = materials.len() - 1;
            self.take_all(materials.drop_last(), contents).take(
                materials[last],
                if last < contents.len() {
                    contents[last]
                } else {
                    Seq::empty()
                },
            )
        }
    }

    /// The certificate of this kind, where one was configured.
    pub open spec fn loaded(self, which: Presented) -> Option<LeafView> {
        match which {
            Presented::Serving => self.serving,
            Presented::Client => self.client,
        }
    }

    /// The certificate of this kind that was loaded, where one was.
    pub open spec fn leaf(self, which: Presented) -> Option<Seq<u8>> {
        match self.loaded(which) {
            Some(leaf) => leaf.der,
            None => None,
        }
    }

    /// The digest each watched file has, given what reading each of them gave.
    pub open spec fn on_disk(self, contents: Seq<Option<Seq<u8>>>) -> Seq<Option<Seq<u8>>> {
        Seq::new(self.files.len(), |i: int| digest_read(reading_at(contents, i)))
    }

    /// What names the certificate of this kind that was loaded.
    pub open spec fn fingerprint(self, which: Presented) -> Option<Seq<char>> {
        match self.leaf(which) {
            Some(der) => Some(fingerprint_of(der)),
            None => None,
        }
    }

    /// What names the certificate that is at the place this kind was loaded
    /// from, given what reading it gave.
    pub open spec fn fingerprint_on_disk(
        self,
        which: Presented,
        contents: Option<Seq<u8>>,
    ) -> Option<Seq<char>> {
        match (self.loaded(which), leaf_read(contents)) {
            (Some(_), Some(der)) => Some(fingerprint_of(der)),
            _ => None,
        }
    }

    /// What is printed for a certificate.
    pub open spec fn reported(
        self,
        which: Presented,
        on_disk: bool,
        contents: Option<Seq<u8>>,
    ) -> Seq<char> {
        let found = if on_disk {
            self.fingerprint_on_disk(which, contents)
        } else {
            self.fingerprint(which)
        };
        shown(self.loaded(which) is Some, found)
    }

    /// When the certificate of this kind that was loaded expires.
    pub open spec fn not_after(self, which: Presented) -> Option<i64> {
        match self.leaf(which) {
            Some(der) => boundary::expiry_in(der),
            None => None,
        }
    }

    /// What is published of how many watched files cannot be read.
    pub open spec fn unreadable_gauge(self, count: int) -> GaugeView {
        GaugeView {
            name: WATCHED_FILES_UNREADABLE@,
            labels: seq![("service"@, self.service)],
            value: count,
        }
    }

    /// What is published of when a certificate expires, where it was loaded.
    pub open spec fn expiry(self, which: Presented) -> Seq<ExpiryView> {
        match self.not_after(which) {
            Some(seconds) => seq![
                ExpiryView::of(
                    self.service,
                    which,
                    seconds as int,
                    fingerprint_of(self.leaf(which)->0),
                ),
            ],
            None => Seq::empty(),
        }
    }
}

/// What is printed for a certificate, given whether one was configured and the
/// fingerprint of what was found.
pub open spec fn shown(configured: bool, found: Option<Seq<char>>) -> Seq<char> {
    match (configured, found) {
        (false, _) => "none"@,
        (true, None) => "unknown"@,
        (true, Some(fingerprint)) => fingerprint,
    }
}

/// SHA-256 over a certificate's DER, in hexadecimal.
pub open spec fn fingerprint_of(der: Seq<u8>) -> Seq<char> {
    text::hex_of(boundary::sha256(der))
}

/// One reading of a gauge, as plain values.
pub struct GaugeView {
    pub name: Seq<char>,
    pub labels: Seq<(Seq<char>, Seq<char>)>,
    pub value: int,
}

/// One reading of a gauge: its name, its labels and the number it is set to.
#[derive(Clone, Debug, PartialEq, Eq)]
pub struct Gauge {
    pub name: &'static str,
    pub labels: Vec<(&'static str, &'static str)>,
    pub value: i128,
}

impl View for Gauge {
    type V = GaugeView;

    open spec fn view(&self) -> GaugeView {
        GaugeView {
            name: self.name@,
            labels: self.labels@.map_values(
                |label: (&'static str, &'static str)| (label.0@, label.1@),
            ),
            value: self.value as int,
        }
    }
}

/// What is published of one loaded certificate, as plain values.
pub struct ExpiryView {
    pub which: Presented,
    pub gauge: GaugeView,
    pub fingerprint: Seq<char>,
}

impl ExpiryView {
    /// What is published of a certificate of this kind, given when it expires
    /// and what names it.
    pub open spec fn of(
        service: Seq<char>,
        which: Presented,
        seconds: int,
        fingerprint: Seq<char>,
    ) -> Self {
        ExpiryView {
            which,
            gauge: GaugeView {
                name: CERTIFICATE_NOT_AFTER@,
                labels: seq![("service"@, service), ("kind"@, which.kind())],
                value: seconds,
            },
            fingerprint,
        }
    }
}

/// What is published of one loaded certificate: which it is, when it expires,
/// and what names it.
#[derive(Clone, Debug, PartialEq, Eq)]
pub struct Expiry {
    pub which: Presented,
    pub gauge: Gauge,
    pub fingerprint: String,
}

impl View for Expiry {
    type V = ExpiryView;

    open spec fn view(&self) -> ExpiryView {
        ExpiryView { which: self.which, gauge: self.gauge@, fingerprint: self.fingerprint@ }
    }
}

impl Expiry {
    /// What is published of a certificate of this kind, given when it expires
    /// and what names it.
    pub fn of(
        service: &'static str,
        which: Presented,
        seconds: i64,
        fingerprint: String,
    ) -> (expiry: Self)
        ensures
            expiry@ == ExpiryView::of(service@, which, seconds as int, fingerprint@),
    {
        let gauge: Gauge = Gauge {
            name: CERTIFICATE_NOT_AFTER,
            labels: vec![("service", service), ("kind", which.label())],
            value: seconds as i128,
        };
        assert(gauge@.labels =~= seq![("service"@, service@), ("kind"@, which.kind())]);
        Expiry { which, gauge, fingerprint }
    }
}

/// A certificate read at boot, kept as the DER the process actually loaded.
#[derive(Clone, Debug, PartialEq, Eq)]
struct Leaf {
    der: Option<Vec<u8>>,
    path: FilePath,
}

impl Leaf {
    spec fn model(self) -> LeafView {
        LeafView { der: reading(self.der), path: self.path@ }
    }
}

/// One watched file and the digest it held when it was read.
#[derive(Clone, Debug, PartialEq, Eq)]
struct Watched {
    path: FilePath,
    loaded: Option<[u8; 32]>,
}

impl Watched {
    spec fn model(self) -> WatchedView {
        WatchedView { path: self.path@, loaded: digest(self.loaded) }
    }
}

spec fn leaf_model(leaf: Option<Leaf>) -> Option<LeafView> {
    match leaf {
        Some(leaf) => Some(leaf.model()),
        None => None,
    }
}

/// Everything this process read at boot, hashed as it was read.
#[derive(Clone, Debug, PartialEq, Eq)]
pub struct Inputs {
    service: &'static str,
    serving: Option<Leaf>,
    client: Option<Leaf>,
    files: Vec<Watched>,
}

impl View for Inputs {
    type V = InputsView;

    closed spec fn view(&self) -> InputsView {
        InputsView {
            service: self.service@,
            serving: leaf_model(self.serving),
            client: leaf_model(self.client),
            files: self.files@.map_values(|file: Watched| file.model()),
        }
    }
}

/// The files of each of a list of lists.
pub open spec fn listed(lists: Seq<Vec<File<'_>>>) -> Seq<Seq<FileView>> {
    lists.map_values(|files: Vec<File<'_>>| crate::rotate::file_views(files@))
}

/// The files a material names.
fn files_of<'a, M: Material + ?Sized>(material: &'a M) -> (files: Vec<File<'a>>)
    ensures
        crate::rotate::file_views(files@) == material.named(),
{
    material.files()
}

/// The files each of a list of materials names.
pub open spec fn named_by(materials: Seq<&dyn Material>) -> Seq<Seq<FileView>> {
    materials.map_values(|material: &dyn Material| material.named())
}

impl Inputs {
    /// An empty watch set, labelled with the service that owns it.
    pub fn new(service: &'static str) -> (inputs: Self)
        ensures
            inputs@ == InputsView::empty(service@),
    {
        let inputs: Inputs = Inputs { service, serving: None, client: None, files: Vec::new() };
        assert(inputs@.files =~= Seq::empty());
        inputs
    }

    /// Whether one of the watched files is at this path, however it is spelled.
    fn is_watching(&self, path: &FilePath) -> (watching: bool)
        ensures
            watching == self@.watching(path@),
    {
        let mut i: usize = 0;
        while i < self.files.len()
            invariant
                i <= self.files@.len(),
                forall|j: int|
                    0 <= j < i ==> !path::same_path((#[trigger] self@.files[j]).path, path@),
            decreases self.files@.len() - i,
        {
            assert(self@.files[i as int] == self.files@[i as int].model());
            if self.files[i].path.same(path) {
                return true;
            }
            i += 1;
        }
        false
    }

    fn watch(self, path: &FilePath, loaded: Option<[u8; 32]>) -> (inputs: Self)
        ensures
            inputs@ == self@.watch(path@, digest(loaded)),
    {
        if self.is_watching(path) {
            return self;
        }
        let mut inputs: Inputs = self;
        inputs.files.push(Watched { path: path.clone(), loaded });
        assert(inputs@.files =~= self@.files.push(
            WatchedView { path: path@, loaded: digest(loaded) },
        ));
        inputs
    }

    /// Watch one more file, hashing what reading it gave. A path already
    /// watched is not added twice.
    pub fn also(self, path: &FilePath, contents: Option<&[u8]>) -> (inputs: Self)
        ensures
            inputs@ == self@.record(
                FileView { path: path@, presented: None },
                borrowed(contents),
            ),
    {
        if self.is_watching(path) {
            return self;
        }
        self.watch(path, digest_now(contents))
    }

    /// Record a certificate this process presents, and watch its file.
    ///
    /// The LEAF is kept, which is the first certificate in the file, because
    /// that is what the listener serves.
    pub fn certificate(
        self,
        which: Presented,
        path: &FilePath,
        contents: Option<&[u8]>,
    ) -> (inputs: Self)
        ensures
            inputs@ == self@.record(
                FileView { path: path@, presented: Some(which) },
                borrowed(contents),
            ),
    {
        let der: Option<Vec<u8>> = leaf_now(contents);
        let leaf: Leaf = Leaf { der, path: path.clone() };
        let mut inputs: Inputs = self;
        match which {
            Presented::Serving => {
                inputs.serving = Some(leaf);
            },
            Presented::Client => {
                inputs.client = Some(leaf);
            },
        }
        inputs.watch(path, digest_now(contents))
    }
}

impl Inputs {
    /// Record one file this process read at boot, in the role it plays.
    pub fn record(self, file: &File<'_>, contents: Option<&[u8]>) -> (inputs: Self)
        ensures
            inputs@ == self@.record(file@, borrowed(contents)),
    {
        match file.presented() {
            None => self.also(file.path(), contents),
            Some(which) => self.certificate(which, file.path(), contents),
        }
    }

    /// Record a list of files, with what reading each of them gave.
    pub fn take_files(self, files: &[File<'_>], contents: &[Option<Vec<u8>>]) -> (inputs: Self)
        ensures
            inputs@ == self@.take(crate::rotate::file_views(files@), readings(contents@)),
    {
        let ghost start = self@;
        let ghost named = crate::rotate::file_views(files@);
        let mut inputs: Inputs = self;
        let mut i: usize = 0;
        assert(named.take(0) =~= Seq::empty());
        while i < files.len()
            invariant
                i <= files@.len(),
                named == crate::rotate::file_views(files@),
                inputs@ == start.take(named.take(i as int), readings(contents@)),
            decreases files@.len() - i,
        {
            let found: Option<&[u8]> = read_at(contents, i);
            assert(named.take(i as int + 1).drop_last() =~= named.take(i as int));
            assert(named.take(i as int + 1).last() == files@[i as int]@);
            inputs = inputs.record(&files[i], found);
            i += 1;
        }
        assert(named.take(i as int) =~= named);
        inputs
    }

    /// Record one piece of configuration, with what reading each of its files
    /// gave.
    pub fn take<M: Material + ?Sized>(
        self,
        material: &M,
        contents: &[Option<Vec<u8>>],
    ) -> (inputs: Self)
        ensures
            inputs@ == self@.take(material.named(), readings(contents@)),
    {
        let files: Vec<File<'_>> = material.files();
        self.take_files(files.as_slice(), contents)
    }

    /// The watch set over a list of lists of files, with what reading each file
    /// gave. Order is preserved, and a path named twice is watched once.
    pub fn of_files(
        service: &'static str,
        lists: &[Vec<File<'_>>],
        contents: &[Vec<Option<Vec<u8>>>],
    ) -> (inputs: Self)
        ensures
            inputs@ == InputsView::empty(service@).take_all(
                listed(lists@),
                readings_of_all(contents@),
            ),
    {
        let mut inputs: Inputs = Inputs::new(service);
        let ghost named = listed(lists@);
        let ghost found = readings_of_all(contents@);
        let empty: Vec<Option<Vec<u8>>> = Vec::new();
        let mut i: usize = 0;
        assert(named.take(0) =~= Seq::empty());
        assert(readings(empty@) =~= Seq::empty());
        while i < lists.len()
            invariant
                i <= lists@.len(),
                named == listed(lists@),
                found == readings_of_all(contents@),
                readings(empty@) == Seq::<Option<Seq<u8>>>::empty(),
                inputs@ == InputsView::empty(service@).take_all(named.take(i as int), found),
            decreases lists@.len() - i,
        {
            let each: &[Option<Vec<u8>>] = if i < contents.len() {
                contents[i].as_slice()
            } else {
                empty.as_slice()
            };
            proof {
                assert(named.take(i as int + 1).drop_last() =~= named.take(i as int));
                assert(named.take(i as int + 1)[i as int] == crate::rotate::file_views(
                    lists@[i as int]@,
                ));
            }
            inputs = inputs.take_files(lists[i].as_slice(), each);
            i += 1;
        }
        assert(named.take(i as int) =~= named);
        inputs
    }

    /// **THE FOLD, and the reason the watch set is a value.**
    ///
    /// A service's library returns the list of what it read, and a test calls
    /// the same function and asserts what came back. Order is preserved, and a
    /// path named twice is watched once, so an upstream and a listener sharing
    /// a CA bundle is hashed once and reported once.
    pub fn of(
        service: &'static str,
        materials: &[&dyn Material],
        contents: &[Vec<Option<Vec<u8>>>],
    ) -> (inputs: Self)
        ensures
            inputs@ == InputsView::empty(service@).take_all(
                named_by(materials@),
                readings_of_all(contents@),
            ),
    {
        let mut lists: Vec<Vec<File<'_>>> = Vec::new();
        let ghost named = named_by(materials@);
        let mut i: usize = 0;
        assert(listed(lists@) =~= named.take(0));
        while i < materials.len()
            invariant
                i <= materials@.len(),
                named == named_by(materials@),
                listed(lists@) == named.take(i as int),
            decreases materials@.len() - i,
        {
            let ghost before = listed(lists@);
            lists.push(files_of(materials[i]));
            proof {
                assert(named[i as int] == materials@[i as int].named());
                assert(listed(lists@) =~= before.push(named[i as int]));
                assert(named.take(i as int + 1) =~= named.take(i as int).push(named[i as int]));
            }
            i += 1;
        }
        assert(named.take(i as int) =~= named);
        Inputs::of_files(service, lists.as_slice(), contents)
    }

    /// Nothing was read, so nothing can rotate.
    pub fn is_empty(&self) -> (empty: bool)
        ensures
            empty == (self@.files.len() == 0),
    {
        self.files.len() == 0
    }

    /// Every file in the watch set, in the order it was added.
    pub fn watched(&self) -> (list: Vec<&FilePath>)
        ensures
            path_views(list@) == paths(self@.files),
    {
        let mut list: Vec<&FilePath> = Vec::new();
        let mut i: usize = 0;
        while i < self.files.len()
            invariant
                i <= self.files@.len(),
                path_views(list@) == paths(self@.files).take(i as int),
            decreases self.files@.len() - i,
        {
            let ghost before = path_views(list@);
            list.push(&self.files[i].path);
            proof {
                let all = paths(self@.files);
                assert(self@.files[i as int] == self.files@[i as int].model());
                assert(path_views(list@) =~= before.push(all[i as int]));
                assert(all.take(i as int + 1) =~= all.take(i as int).push(all[i as int]));
            }
            i += 1;
        }
        assert(paths(self@.files).take(i as int) =~= paths(self@.files));
        list
    }

    /// The watched files this process could NOT read at boot.
    ///
    /// They stay in the watch set: dropping them would make the set quietly
    /// smaller than the configuration that produced it.
    pub fn unread_at_boot(&self) -> (list: Vec<&FilePath>)
        ensures
            path_views(list@) == unread_paths(self@.files),
    {
        let mut list: Vec<&FilePath> = Vec::new();
        let ghost unread = |file: WatchedView| file.loaded is None;
        let mut i: usize = 0;
        proof {
            reveal(Seq::filter);
            assert(self@.files.take(0) =~= Seq::empty());
            assert(path_views(list@) =~= paths(self@.files.take(0).filter(unread)));
        }
        while i < self.files.len()
            invariant
                i <= self.files@.len(),
                unread == |file: WatchedView| file.loaded is None,
                path_views(list@) == paths(self@.files.take(i as int).filter(unread)),
            decreases self.files@.len() - i,
        {
            let ghost before = list@;
            if self.files[i].loaded.is_none() {
                list.push(&self.files[i].path);
            }
            proof {
                reveal(Seq::filter);
                let model = self.files@[i as int].model();
                let kept = self@.files.take(i as int).filter(unread);
                assert(self@.files[i as int] == model);
                assert(self@.files.take(i as int + 1).drop_last() =~= self@.files.take(i as int));
                if unread(model) {
                    assert(path_views(list@) =~= path_views(before).push(model.path));
                    assert(paths(kept.push(model)) =~= paths(kept).push(model.path));
                }
            }
            i += 1;
        }
        assert(self@.files.take(i as int) =~= self@.files);
        list
    }

    /// The digest each watched file holds NOW, given what reading each of them
    /// gave, and `None` where it could not be read.
    ///
    /// **ONE ENTRY PER FILE, NEVER ONE ANSWER FOR THE SET.**
    pub fn on_disk(&self, contents: &[Option<Vec<u8>>]) -> (list: Vec<Option<[u8; 32]>>)
        ensures
            digests(list@) == self@.on_disk(readings(contents@)),
    {
        let mut list: Vec<Option<[u8; 32]>> = Vec::new();
        let ghost all = self@.on_disk(readings(contents@));
        let mut i: usize = 0;
        while i < self.files.len()
            invariant
                i <= self.files@.len(),
                all == self@.on_disk(readings(contents@)),
                digests(list@) == all.take(i as int),
            decreases self.files@.len() - i,
        {
            let ghost before = digests(list@);
            list.push(digest_now(read_at(contents, i)));
            assert(digests(list@) =~= before.push(all[i as int]));
            assert(all.take(i as int + 1) =~= all.take(i as int).push(all[i as int]));
            i += 1;
        }
        assert(all.take(i as int) =~= all);
        list
    }

    /// The watched files whose contents are not what this process loaded.
    ///
    /// **A FILE THAT CANNOT BE READ RIGHT NOW IS NOT ONE OF THEM.** The reverse
    /// direction IS a change: a file that could not be read at boot and now can
    /// is material this process never loaded.
    pub fn differing(&self, current: &[Option<[u8; 32]>]) -> (names: Vec<String>)
        ensures
            text::texts(names@) == changed_names(self@.files, digests(current@)),
    {
        let mut names: Vec<String> = Vec::new();
        let ghost now = digests(current@);
        let ghost keep = |file: WatchedView, now: Option<Seq<u8>>| has_changed(file, now);
        let mut i: usize = 0;
        assert(text::texts(names@) =~= Seq::empty());
        while i < self.files.len() && i < current.len()
            invariant
                i <= self.files@.len(),
                i <= current@.len(),
                now == digests(current@),
                keep == |file: WatchedView, now: Option<Seq<u8>>| has_changed(file, now),
                text::texts(names@) == names_where(self@.files, now, keep, i as int),
            decreases self.files@.len() - i,
        {
            let ghost before = text::texts(names@);
            assert(self@.files[i as int] == self.files@[i as int].model());
            assert(now[i as int] == digest(current@[i as int]));
            if current[i].is_some() && !same_digest(&self.files[i].loaded, &current[i]) {
                names.push(self.files[i].path.display());
                assert(text::texts(names@) =~= before.push(
                    boundary::lossy(self@.files[i as int].path),
                ));
            }
            i += 1;
        }
        names
    }

    /// The watched files that cannot be read at this instant.
    pub fn unreadable(&self, current: &[Option<[u8; 32]>]) -> (names: Vec<String>)
        ensures
            text::texts(names@) == unreadable_names(self@.files, digests(current@)),
    {
        let mut names: Vec<String> = Vec::new();
        let ghost now = digests(current@);
        let ghost keep = |file: WatchedView, now: Option<Seq<u8>>| now is None;
        let mut i: usize = 0;
        assert(text::texts(names@) =~= Seq::empty());
        while i < self.files.len() && i < current.len()
            invariant
                i <= self.files@.len(),
                i <= current@.len(),
                now == digests(current@),
                keep == |file: WatchedView, now: Option<Seq<u8>>| now is None,
                text::texts(names@) == names_where(self@.files, now, keep, i as int),
            decreases self.files@.len() - i,
        {
            let ghost before = text::texts(names@);
            assert(self@.files[i as int] == self.files@[i as int].model());
            assert(now[i as int] == digest(current@[i as int]));
            if current[i].is_none() {
                names.push(self.files[i].path.display());
                assert(text::texts(names@) =~= before.push(
                    boundary::lossy(self@.files[i as int].path),
                ));
            }
            i += 1;
        }
        names
    }

    /// What is published of how many watched files cannot be read.
    pub fn publish_unreadable(&self, count: usize) -> (gauge: Gauge)
        ensures
            gauge@ == self@.unreadable_gauge(count as int),
    {
        let gauge: Gauge = Gauge {
            name: WATCHED_FILES_UNREADABLE,
            labels: vec![("service", self.service)],
            value: count as i128,
        };
        assert(gauge@.labels =~= self@.unreadable_gauge(count as int).labels);
        gauge
    }

    /// What is published for the watched files that cannot be read right now,
    /// and their names.
    ///
    /// **A ZERO HERE IS A MEASUREMENT, WHICH IS WHY THERE IS ALWAYS A READING.**
    pub fn export_unreadable(&self, contents: &[Option<Vec<u8>>]) -> (export: (
        Gauge,
        Vec<String>,
    ))
        ensures
            text::texts(export.1@) == unreadable_names(
                self@.files,
                self@.on_disk(readings(contents@)),
            ),
            export.0@ == self@.unreadable_gauge(export.1@.len() as int),
    {
        let current: Vec<Option<[u8; 32]>> = self.on_disk(contents);
        let names: Vec<String> = self.unreadable(current.as_slice());
        let gauge: Gauge = self.publish_unreadable(names.len());
        (gauge, names)
    }

    fn loaded(&self, which: Presented) -> (leaf: Option<&Leaf>)
        ensures
            match leaf {
                Some(leaf) => self@.loaded(which) == Some(leaf.model()),
                None => self@.loaded(which) is None,
            },
    {
        match which {
            Presented::Serving => self.serving.as_ref(),
            Presented::Client => self.client.as_ref(),
        }
    }

    /// Where the certificate of this kind was loaded from, where one was
    /// configured.
    pub fn leaf_path(&self, which: Presented) -> (path: Option<&FilePath>)
        ensures
            match path {
                Some(path) => self@.loaded(which) is Some && self@.loaded(which)->0.path == path@,
                None => self@.loaded(which) is None,
            },
    {
        match self.loaded(which) {
            Some(leaf) => Some(&leaf.path),
            None => None,
        }
    }

    fn leaf(&self, which: Presented) -> (der: Option<&Vec<u8>>)
        ensures
            match der {
                Some(der) => self@.leaf(which) == Some(der@),
                None => self@.leaf(which) is None,
            },
    {
        match self.loaded(which) {
            Some(leaf) => leaf.der.as_ref(),
            None => None,
        }
    }

    /// SHA-256 over the DER of the certificate that is at the place this kind
    /// was loaded from, in hexadecimal, given what reading it gave.
    pub fn fingerprint_on_disk(&self, which: Presented, contents: Option<&[u8]>) -> (found: Option<
        String,
    >)
        ensures
            optional_text(found) == self@.fingerprint_on_disk(which, borrowed(contents)),
            found matches Some(text) ==> text@.len() == 64,
    {
        if self.loaded(which).is_none() {
            return None;
        }
        match leaf_now(contents) {
            Some(der) => Some(fingerprint(der.as_slice())),
            None => None,
        }
    }

    /// What to print for a certificate: `none` if none was configured, `unknown`
    /// if one was and could not be read. **The two are different facts** and a
    /// single placeholder would hide the second inside the first.
    ///
    /// Where `on_disk` holds, the certificate is the one at the place it was
    /// loaded from, and `contents` is what reading that place gave; otherwise it
    /// is the one that was loaded.
    pub fn reported(&self, which: Presented, on_disk: bool, contents: Option<&[u8]>) -> (text:
        String)
        ensures
            text@ == self@.reported(which, on_disk, borrowed(contents)),
            text@ == "none"@ || text@ == "unknown"@ || text@.len() == 64,
    {
        let found: Option<String> = if on_disk {
            self.fingerprint_on_disk(which, contents)
        } else {
            self.fingerprint(which)
        };
        shown_as(self.loaded(which).is_some(), found)
    }

    /// SHA-256 over the loaded leaf's DER, in hexadecimal. This NAMES the
    /// certificate the process is on.
    pub fn fingerprint(&self, which: Presented) -> (found: Option<String>)
        ensures
            optional_text(found) == self@.fingerprint(which),
            found matches Some(text) ==> text@.len() == 64,
    {
        match self.leaf(which) {
            Some(der) => Some(fingerprint(der.as_slice())),
            None => None,
        }
    }

    /// The loaded leaf's expiry, as seconds since the epoch.
    pub fn not_after(&self, which: Presented) -> (seconds: Option<i64>)
        ensures
            seconds == self@.not_after(which),
    {
        match self.leaf(which) {
            Some(der) => boundary::expiry(der.as_slice()),
            None => None,
        }
    }

    /// What is published for one certificate this process loaded, and nothing
    /// for one it did not.
    fn expiry(&self, which: Presented) -> (found: Option<Expiry>)
        ensures
            match found {
                Some(expiry) => self@.expiry(which) == seq![expiry@],
                None => self@.expiry(which) == Seq::<ExpiryView>::empty(),
            },
    {
        let seconds: i64 = match self.not_after(which) {
            Some(seconds) => seconds,
            None => {
                return None;
            },
        };
        let fingerprint: String = match self.fingerprint(which) {
            Some(fingerprint) => fingerprint,
            None => unknown(),
        };
        Some(Expiry::of(self.service, which, seconds, fingerprint))
    }

    /// What is published for every certificate this process loaded, the serving
    /// one first, and nothing for one it did not.
    ///
    /// **An invented number is worse than a missing series**: a dashboard cannot
    /// tell it apart from a real one.
    pub fn export_not_after(&self) -> (list: Vec<Expiry>)
        ensures
            expiry_views(list@) == self@.expiry(Presented::Serving) + self@.expiry(
                Presented::Client,
            ),
    {
        let mut list: Vec<Expiry> = Vec::new();
        if let Some(expiry) = self.expiry(Presented::Serving) {
            list.push(expiry);
        }
        assert(expiry_views(list@) =~= self@.expiry(Presented::Serving));
        if let Some(expiry) = self.expiry(Presented::Client) {
            list.push(expiry);
        }
        assert(expiry_views(list@) =~= self@.expiry(Presented::Serving) + self@.expiry(
            Presented::Client,
        ));
        list
    }
}

/// The paths of a list, in order.
pub open spec fn path_views(list: Seq<&FilePath>) -> Seq<Seq<u8>> {
    list.map_values(|path: &FilePath| path@)
}

/// What is published of each of a list of certificates, in order.
pub open spec fn expiry_views(list: Seq<Expiry>) -> Seq<ExpiryView> {
    list.map_values(|expiry: Expiry| expiry@)
}

/// A text, where there is one.
pub open spec fn optional_text(text: Option<String>) -> Option<Seq<char>> {
    match text {
        Some(text) => Some(text@),
        None => None,
    }
}

/// What to print for a certificate, given whether one was configured and the
/// fingerprint of what was found.
pub fn shown_as(configured: bool, found: Option<String>) -> (text: String)
    ensures
        text@ == shown(configured, optional_text(found)),
{
    if !configured {
        return absent();
    }
    match found {
        Some(fingerprint) => fingerprint,
        None => unknown(),
    }
}

/// The `i`th of a list of readings, where one was handed in.
fn read_at(contents: &[Option<Vec<u8>>], i: usize) -> (found: Option<&[u8]>)
    ensures
        borrowed(found) == reading_at(readings(contents@), i as int),
{
    if i < contents.len() {
        match &contents[i] {
            Some(bytes) => Some(bytes.as_slice()),
            None => None,
        }
    } else {
        None
    }
}

/// SHA-256 over a certificate's DER, in hexadecimal.
fn fingerprint(der: &[u8]) -> (text: String)
    ensures
        text@ == fingerprint_of(der@),
        text@.len() == 64,
{
    let digest: [u8; 32] = boundary::digest_of(der);
    proof {
        text::hex_writes_two_digits_for_each_byte(digest@);
    }
    text::hex(digest.as_slice())
}

/// Whether two digests are the same, or both missing.
fn same_digest(one: &Option<[u8; 32]>, other: &Option<[u8; 32]>) -> (same: bool)
    ensures
        same == (digest(*one) == digest(*other)),
{
    match (one, other) {
        (Some(one), Some(other)) => path::same_bytes(one.as_slice(), other.as_slice()),
        (None, None) => true,
        _ => false,
    }
}

/// The digest of what was read, where anything was.
fn digest_now(contents: Option<&[u8]>) -> (found: Option<[u8; 32]>)
    ensures
        digest(found) == digest_read(borrowed(contents)),
{
    match contents {
        Some(bytes) => Some(boundary::digest_of(bytes)),
        None => None,
    }
}

/// The certificate a file holds first, where it could be read and holds one.
fn leaf_now(contents: Option<&[u8]>) -> (der: Option<Vec<u8>>)
    ensures
        reading(der) == leaf_read(borrowed(contents)),
{
    match contents {
        Some(bytes) => boundary::first_certificate(bytes),
        None => None,
    }
}

} // verus!
