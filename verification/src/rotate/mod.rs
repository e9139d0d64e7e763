//! What a process does when the security material it read at boot is replaced
//! underneath it.
//!
//! **Security material is read ONCE, when the listener is built**, so a process
//! started today serves the certificate it loaded until it restarts, whatever is
//! written to disk meanwhile. A [`Watcher`] compares a digest of every file the
//! process read at boot with what the file holds now, one per file, so that a
//! change can be reported by NAME. On a change it waits out a splay of this
//! pod's own and ends, and the process drains and is restarted.
//!
//! **THE WATCH SET IS NOT "THE TLS FILES".** The rule is about provenance, never
//! payload: every file the process read at boot is watched, whatever the bytes
//! inside it are for. A service says what it read by implementing [`Material`]
//! on the configuration types it already has, and handing the list to
//! [`Inputs::of`].

pub mod assembly_laws;
pub mod inputs;
pub mod laws;
pub mod reading_laws;
pub mod report_laws;
pub mod schedule;
pub mod schedule_error;
pub mod schedule_laws;
pub mod splay;
pub mod watch;
pub mod watch_laws;

pub use inputs::{Expiry, Gauge, Inputs};
pub use schedule::{
    Configuration, Document, DocumentRead, Schedule, CONFIG_DIR, SHARED_DOCUMENT,
};
pub use schedule_error::ScheduleError;
pub use watch::{Event, Next, Notice, Step, Watcher};

use crate::path::FilePath;
use vstd::prelude::*;

verus! {

/// The gauge carrying the expiry of the certificate a process actually loaded.
pub const CERTIFICATE_NOT_AFTER: &'static str = "yadgar_tls_certificate_not_after_seconds";

/// The gauge carrying how many of the watched files cannot be read.
pub const WATCHED_FILES_UNREADABLE: &'static str = "yadgar_rotation_watched_files_unreadable";

/// Which of the two certificates a process can hold this one is.
#[derive(Clone, Copy, Debug, PartialEq, Eq, Structural)]
pub enum Presented {
    /// The certificate this process's listener serves.
    Serving,
    /// The certificate this process presents to an upstream.
    Client,
}

impl Presented {
    /// The `kind` label a certificate's gauge carries.
    pub open spec fn kind(self) -> Seq<char> {
        match self {
            Presented::Serving => "serving"@,
            Presented::Client => "client"@,
        }
    }

    /// The `kind` label on [`CERTIFICATE_NOT_AFTER`]. Bounded at two values,
    /// which is what makes it a label rather than a cardinality leak.
    pub fn label(self) -> (label: &'static str)
        ensures
            label@ == self.kind(),
    {
        match self {
            Presented::Serving => "serving",
            Presented::Client => "client",
        }
    }
}

/// [`File`], as plain values.
pub struct FileView {
    pub path: Seq<u8>,
    pub presented: Option<Presented>,
}

/// One file a process read at boot, and the role it plays.
///
/// A file is either a certificate this process PRESENTS, whose expiry is
/// exported and whose fingerprint names it in a log line, or anything else the
/// process read: a private key, a CA bundle, a password, a token-issuing CA.
/// Both are watched identically. The role only decides what is reported.
#[derive(Clone, Copy, Debug, PartialEq, Eq)]
pub struct File<'a> {
    path: &'a FilePath,
    presented: Option<Presented>,
}

impl<'a> View for File<'a> {
    type V = FileView;

    closed spec fn view(&self) -> FileView {
        FileView { path: self.path@, presented: self.presented }
    }
}

impl<'a> File<'a> {
    /// A file the process read at boot whose contents are not a certificate
    /// this process presents.
    pub fn read(path: &'a FilePath) -> (file: Self)
        ensures
            file@ == (FileView { path: path@, presented: None }),
    {
        File { path, presented: None }
    }

    /// A certificate this process presents. Its leaf is parsed, fingerprinted
    /// and its expiry exported.
    pub fn certificate(which: Presented, path: &'a FilePath) -> (file: Self)
        ensures
            file@ == (FileView { path: path@, presented: Some(which) }),
    {
        File { path, presented: Some(which) }
    }

    /// Where the file is.
    pub fn path(&self) -> (path: &'a FilePath)
        ensures
            path@ == self@.path,
    {
        self.path
    }

    /// Which certificate the file is, if it is one this process presents.
    pub fn presented(&self) -> (which: Option<Presented>)
        ensures
            which == self@.presented,
    {
        self.presented
    }
}

/// The files of a list, in order.
pub open spec fn file_views(files: Seq<File<'_>>) -> Seq<FileView> {
    files.map_values(|file: File<'_>| file@)
}

/// Configuration that caused this process to read files at boot.
///
/// A service implements this on the types it already has (its listener's TLS
/// configuration, an upstream's, a broker credential) and never on a bag of
/// paths. **The difference is the whole point.** A helper that spelled paths
/// out proves only that the watcher watches what it is handed; implementing
/// `Material` on the configuration proves that a DEPLOYMENT'S configuration
/// puts them there, which is the half that can silently be wrong.
pub trait Material {
    /// The files this piece of configuration names. A type that is part of a
    /// proof says which; of any other, nothing is known of them but that
    /// [`Material::files`] lists them.
    closed spec fn named(&self) -> Seq<FileView> {
        arbitrary()
    }

    /// Every file this piece of configuration read at boot, in the order they
    /// should be reported.
    fn files(&self) -> (files: Vec<File<'_>>)
        ensures
            file_views(files@) == self.named(),
    ;
}

impl<M: Material + ?Sized> Material for &M {
    open spec fn named(&self) -> Seq<FileView> {
        (**self).named()
    }

    fn files(&self) -> (files: Vec<File<'_>>) {
        (**self).files()
    }
}

/// **Nothing configured is nothing to watch**, and that is the ordinary case
/// rather than an edge one: every TLS setting is opt-in and off by default, so
/// a `None` contributes an empty list rather than needing a branch at every
/// call site.
impl<M: Material> Material for Option<M> {
    open spec fn named(&self) -> Seq<FileView> {
        match self {
            Some(material) => material.named(),
            None => Seq::empty(),
        }
    }

    fn files(&self) -> (files: Vec<File<'_>>) {
        match self {
            Some(material) => material.files(),
            None => {
                let files: Vec<File<'_>> = Vec::new();
                assert(file_views(files@) =~= Seq::empty());
                files
            },
        }
    }
}

/// A bare path is material: a file the process read at boot is watched whatever
/// its bytes are for.
impl Material for FilePath {
    open spec fn named(&self) -> Seq<FileView> {
        seq![FileView { path: self@, presented: None }]
    }

    fn files(&self) -> (files: Vec<File<'_>>) {
        let files: Vec<File<'_>> = vec![File::read(self)];
        assert(file_views(files@) =~= self.named());
        files
    }
}

/// What is printed for a certificate that was configured and could not be read.
pub fn unknown() -> (text: String)
    ensures
        text@ == "unknown"@,
{
    "unknown".to_string()
}

/// What is printed where no certificate was configured.
pub fn absent() -> (text: String)
    ensures
        text@ == "none"@,
{
    "none".to_string()
}

} // verus!
