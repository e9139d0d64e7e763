//! Reading the rotation schedule out of the shared configuration document.

use crate::boundary;
use crate::boundary::{Knob, KnobView};
use crate::duration;
use crate::duration::Duration;
use crate::path;
use crate::path::FilePath;
use crate::rotate::schedule_error::{Refusal, ScheduleError};
use crate::rotate::{File, FileView, Material};
use crate::text;
use vstd::prelude::*;

verus! {

/// Where the configuration chart mounts what it renders.
///
/// **THIS IS AN ADDRESS, NOT A KNOB.** A setting that said where settings live
/// would be an infinite regress.
pub const CONFIG_DIR: &'static str = "/etc/yadgar/config";

/// The shared document, under [`CONFIG_DIR`].
///
/// The directory repeats the file name because the mount repeats it: the path in
/// a refusal is the same file name an operator edits.
pub const SHARED_DOCUMENT: &'static str = "shared/shared.yaml";

/// The key the poll interval is looked up under, within its section.
pub const POLL_LEAF: &'static str = "pollSeconds";

/// The key the top of the splay range is looked up under, within its section.
pub const SPLAY_MAX_LEAF: &'static str = "splayMaxSeconds";

/// How often the watched files are re-hashed: the whole path of the knob, which
/// is what a refusal has to name for an operator to find the line.
pub const POLL_KNOB: &'static str = "tlsRotation.pollSeconds";

/// The top of the range this pod's splay is drawn from.
pub const SPLAY_MAX_KNOB: &'static str = "tlsRotation.splayMaxSeconds";

/// The document, carrying ONLY what this crate reads.
///
/// **THE SECTION IS A MAPPING AND NOT A STRUCT.** A field typed `Option` cannot
/// tell a key that is absent from a key written with no value after it. Looking
/// the key up in a map asks the question the struct cannot: is it there, and if
/// so what is in it.
#[derive(Debug)]
pub struct Document {
    /// The section `tlsRotation`, where there is one.
    pub tls_rotation: Option<serde_norway::Mapping>,
}

/// What became of reading the document and parsing what it holds.
#[derive(Debug)]
pub enum DocumentRead {
    /// There is no file there.
    NotFound,
    /// There is something there and it could not be read as text.
    Failed(std::io::Error),
    /// The text is not a document.
    Malformed(serde_norway::Error),
    /// The document, or nothing where the text holds nothing but comments.
    Parsed(Option<Document>),
}

/// [`Schedule`], as plain values: both spans in nanoseconds.
pub struct ScheduleView {
    pub poll: nat,
    pub splay_max: nat,
}

/// How often to look, and how long this pod waits before acting on what it saw.
#[derive(Clone, Copy, Debug, PartialEq, Eq)]
pub struct Schedule {
    poll: Duration,
    splay_max: Duration,
}

impl View for Schedule {
    type V = ScheduleView;

    closed spec fn view(&self) -> ScheduleView {
        ScheduleView { poll: self.poll@, splay_max: self.splay_max@ }
    }
}

impl Schedule {
    /// A schedule that looks every `poll` and waits for `splay_max` at most.
    pub fn new(poll: Duration, splay_max: Duration) -> (schedule: Self)
        ensures
            schedule@ == (ScheduleView { poll: poll@, splay_max: splay_max@ }),
    {
        Schedule { poll, splay_max }
    }

    /// How often to look.
    pub fn poll(&self) -> (poll: Duration)
        ensures
            poll@ == self@.poll,
    {
        self.poll
    }

    /// The longest this pod may wait before acting on what it saw.
    pub fn splay_max(&self) -> (splay_max: Duration)
        ensures
            splay_max@ == self@.splay_max,
    {
        self.splay_max
    }
}

/// What the section of a document holds. A document without one, or no document
/// at all, holds nothing.
pub open spec fn section(document: Option<Document>) -> Map<Seq<char>, KnobView> {
    match document {
        Some(Document { tls_rotation: Some(section) }) => boundary::entries(section),
        _ => Map::empty(),
    }
}

/// What is under a key, where anything is.
pub open spec fn entry(section: Map<Seq<char>, KnobView>, key: Seq<char>) -> Option<KnobView> {
    if section.dom().contains(key) {
        Some(section[key])
    } else {
        None
    }
}

/// The text of a value that is not a number: the string it is, or else what it
/// is written as, or else nothing.
pub open spec fn raw(value: KnobView) -> Seq<char> {
    match (value.text, value.rendered) {
        (Some(text), _) => text,
        (None, Some(rendered)) => rendered,
        (None, None) => Seq::empty(),
    }
}

/// The seconds one knob states, or the way it fails to state them.
///
/// **ABSENT AND EMPTY ARE DIFFERENT CASES.** A whole number is taken as it is,
/// and a text that states one, with or without white space round it, is the
/// same value written another way.
pub open spec fn stated(
    knob: Seq<char>,
    path: Seq<char>,
    value: Option<KnobView>,
) -> Result<u64, Refusal> {
    match value {
        None => Err(Refusal::Missing { knob, path }),
        Some(value) => if value.null {
            Err(Refusal::Empty { knob, path })
        } else if value.whole is Some {
            Ok(value.whole->0)
        } else if text::trimmed(raw(value)).len() == 0 {
            Err(Refusal::Empty { knob, path })
        } else {
            let stated = text::trimmed(raw(value));
            match boundary::decimal(stated) {
                Some(seconds) => Ok(seconds),
                None => Err(
                    Refusal::Unparsable {
                        knob,
                        path,
                        value: raw(value),
                        source: boundary::decimal_fault(stated),
                    },
                ),
            }
        },
    }
}

/// The schedule a section states, or the first way it fails to state one: the
/// poll interval is looked at first, and has to be some time at all.
pub open spec fn stated_schedule(section: Map<Seq<char>, KnobView>, path: Seq<char>) -> Result<
    ScheduleView,
    Refusal,
> {
    match stated(POLL_KNOB@, path, entry(section, POLL_LEAF@)) {
        Err(refusal) => Err(refusal),
        Ok(poll) => if poll == 0 {
            Err(Refusal::ZeroPoll { path })
        } else {
            match stated(SPLAY_MAX_KNOB@, path, entry(section, SPLAY_MAX_LEAF@)) {
                Err(refusal) => Err(refusal),
                Ok(splay_max) => Ok(
                    ScheduleView {
                        poll: duration::seconds(poll as int),
                        splay_max: duration::seconds(splay_max as int),
                    },
                ),
            }
        },
    }
}

/// The schedule that came of reading the document at `path`, or the way there
/// came to be none.
pub open spec fn schedule_read(read: DocumentRead, path: Seq<char>) -> Result<
    ScheduleView,
    Refusal,
> {
    match read {
        DocumentRead::NotFound => Err(Refusal::Absent { path }),
        DocumentRead::Failed(source) => Err(Refusal::Unreadable { path, source }),
        DocumentRead::Malformed(source) => Err(Refusal::Malformed { path, source }),
        DocumentRead::Parsed(document) => stated_schedule(section(document), path),
    }
}

/// A knob, where there is one.
pub open spec fn knob_view(value: Option<Knob>) -> Option<KnobView> {
    match value {
        Some(value) => Some(value@),
        None => None,
    }
}

/// What is under a key of a document's section, where anything is.
fn looked_up(document: &Option<Document>, key: &str) -> (value: Option<Knob>)
    ensures
        knob_view(value) == entry(section(*document), key@),
{
    match document {
        Some(document) => match &document.tls_rotation {
            Some(section) => boundary::lookup(section, key),
            None => None,
        },
        None => None,
    }
}

/// The configuration document this process reads its knobs out of.
///
/// **A `Material` LIKE ANY OTHER, and that is the whole reload story.** Every
/// file the process read at boot is watched, so handing this to `Inputs::of`
/// beside the TLS configuration puts the document in the watch set by the
/// existing rule.
#[derive(Clone, Debug, PartialEq, Eq)]
pub struct Configuration {
    path: FilePath,
}

impl View for Configuration {
    type V = Seq<u8>;

    closed spec fn view(&self) -> Seq<u8> {
        self.path@
    }
}

impl Configuration {
    /// The document where the chart mounts it.
    pub fn mounted() -> (configuration: Self)
        ensures
            configuration@ == path::joined(
                vstd::utf8::encode_utf8(CONFIG_DIR@),
                vstd::utf8::encode_utf8(SHARED_DOCUMENT@),
            ),
    {
        Configuration::under(&FilePath::new(CONFIG_DIR))
    }

    /// The same, under any root.
    pub fn under(root: &FilePath) -> (configuration: Self)
        ensures
            configuration@ == path::joined(root@, vstd::utf8::encode_utf8(SHARED_DOCUMENT@)),
    {
        Configuration { path: root.join(&FilePath::new(SHARED_DOCUMENT)) }
    }

    /// The file the knobs are read from. This is what a refusal names.
    pub fn path(&self) -> (path: &FilePath)
        ensures
            path@ == self@,
    {
        &self.path
    }

    /// The rotation schedule the document states, given what became of reading
    /// it.
    pub fn schedule(&self, read: DocumentRead) -> (outcome: Result<Schedule, ScheduleError>)
        ensures
            match outcome {
                Ok(schedule) => schedule_read(read, boundary::lossy(self@)) == Ok::<
                    ScheduleView,
                    Refusal,
                >(schedule@),
                Err(error) => schedule_read(read, boundary::lossy(self@)) == Err::<
                    ScheduleView,
                    Refusal,
                >(error@),
            },
    {
        let document: Option<Document> = match read {
            DocumentRead::NotFound => {
                return Err(ScheduleError::Absent { path: self.path.display() });
            },
            DocumentRead::Failed(source) => {
                return Err(ScheduleError::Unreadable { path: self.path.display(), source });
            },
            DocumentRead::Malformed(source) => {
                return Err(ScheduleError::Malformed { path: self.path.display(), source });
            },
            DocumentRead::Parsed(document) => document,
        };
        let poll: Duration = match self.seconds(POLL_KNOB, looked_up(&document, POLL_LEAF)) {
            Ok(poll) => poll,
            Err(error) => {
                return Err(error);
            },
        };
        if poll.is_zero() {
            return Err(ScheduleError::ZeroPoll { path: self.path.display() });
        }
        match self.seconds(SPLAY_MAX_KNOB, looked_up(&document, SPLAY_MAX_LEAF)) {
            Ok(splay_max) => Ok(Schedule::new(poll, splay_max)),
            Err(error) => Err(error),
        }
    }

    /// One knob, and the four distinct ways it can fail to be a number.
    pub fn seconds(&self, knob: &'static str, value: Option<Knob>) -> (outcome: Result<
        Duration,
        ScheduleError,
    >)
        ensures
            match (outcome, stated(knob@, boundary::lossy(self@), knob_view(value))) {
                (Ok(span), Ok(seconds)) => span@ == duration::seconds(seconds as int),
                (Err(error), Err(refusal)) => error@ == refusal,
                _ => false,
            },
    {
        let value: Knob = match value {
            None => {
                return Err(ScheduleError::Missing { knob, path: self.path.display() });
            },
            Some(value) => value,
        };
        if value.null {
            return Err(ScheduleError::Empty { knob, path: self.path.display() });
        }
        if let Some(whole) = value.whole {
            return Ok(Duration::from_secs(whole));
        }
        let raw: String = match (value.text, value.rendered) {
            (Some(text), _) => text,
            (None, Some(rendered)) => rendered,
            (None, None) => String::new(),
        };
        let parsed: Result<u64, std::num::ParseIntError> = {
            let stated: &str = text::trim(raw.as_str());
            if text::is_empty(stated) {
                return Err(ScheduleError::Empty { knob, path: self.path.display() });
            }
            boundary::parse_decimal(stated)
        };
        match parsed {
            Ok(seconds) => Ok(Duration::from_secs(seconds)),
            Err(source) => Err(
                ScheduleError::Unparsable { knob, path: self.path.display(), value: raw, source },
            ),
        }
    }
}

impl Material for Configuration {
    open spec fn named(&self) -> Seq<FileView> {
        seq![FileView { path: self@, presented: None }]
    }

    fn files(&self) -> (files: Vec<File<'_>>) {
        let files: Vec<File<'_>> = vec![File::read(&self.path)];
        assert(crate::rotate::file_views(files@) =~= self.named());
        files
    }
}

/// No schedule sleeps for no time at all between two polls, whatever the
/// document said.
pub proof fn every_schedule_polls_at_some_interval(read: DocumentRead, path: Seq<char>)
    ensures
        schedule_read(read, path) matches Ok(schedule) ==> schedule.poll > 0,
{
}

/// **There is no default.** A schedule that came of a document is made of the
/// two numbers its section states and of nothing else; where either is not
/// stated there is none.
pub proof fn every_schedule_is_the_one_stated(read: DocumentRead, path: Seq<char>)
    requires
        schedule_read(read, path) is Ok,
    ensures
        ({
            let schedule = schedule_read(read, path)->Ok_0;
            let section = section(read->Parsed_0);
            let poll = stated(POLL_KNOB@, path, entry(section, POLL_LEAF@));
            let splay_max = stated(SPLAY_MAX_KNOB@, path, entry(section, SPLAY_MAX_LEAF@));
            &&& read is Parsed
            &&& poll is Ok
            &&& splay_max is Ok
            &&& schedule.poll == duration::seconds(poll->Ok_0 as int)
            &&& schedule.splay_max == duration::seconds(splay_max->Ok_0 as int)
        }),
{
}

/// A zero at the top of the splay range is a supported choice: where the poll
/// interval is stated and is not zero, it gives a schedule that waits not at
/// all.
pub proof fn a_zero_splay_is_a_schedule(section: Map<Seq<char>, KnobView>, path: Seq<char>)
    requires
        stated(POLL_KNOB@, path, entry(section, POLL_LEAF@)) is Ok,
        stated(POLL_KNOB@, path, entry(section, POLL_LEAF@))->Ok_0 != 0,
        stated(SPLAY_MAX_KNOB@, path, entry(section, SPLAY_MAX_LEAF@)) == Ok::<u64, Refusal>(0),
    ensures
        stated_schedule(section, path) is Ok,
        stated_schedule(section, path)->Ok_0.splay_max == 0,
{
}

/// What else is in a section changes nothing: two sections that agree on the two
/// knobs state the same schedule.
pub proof fn other_knobs_are_ignored(
    one: Map<Seq<char>, KnobView>,
    other: Map<Seq<char>, KnobView>,
    path: Seq<char>,
)
    requires
        entry(one, POLL_LEAF@) == entry(other, POLL_LEAF@),
        entry(one, SPLAY_MAX_LEAF@) == entry(other, SPLAY_MAX_LEAF@),
    ensures
        stated_schedule(one, path) == stated_schedule(other, path),
{
}

/// Every refusal names the document that was read.
pub proof fn every_refusal_is_about_the_document(read: DocumentRead, path: Seq<char>)
    ensures
        schedule_read(read, path) matches Err(refusal) ==> refusal.path() == path,
{
}

} // verus!
