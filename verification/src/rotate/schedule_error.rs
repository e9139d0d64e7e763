//! What a rotation schedule can fail to say, and why.

use crate::boundary;
use crate::rotate::schedule::{POLL_KNOB, SPLAY_MAX_KNOB};
use vstd::prelude::*;
use vstd::string::StringExecFns;

verus! {

/// A schedule a deployment stated and this process cannot use, or did not state
/// at all.
///
/// **EVERY VARIANT REFUSES THE BOOT AND NAMES A FILE.** A knob is read from the
/// configuration document and from nowhere else, with no compiled-in default, no
/// system-level fallback and no last-resort constant.
#[derive(Debug)]
pub enum ScheduleError {
    /// There is no document.
    Absent { path: String },
    /// There is a document and it cannot be read.
    Unreadable { path: String, source: std::io::Error },
    /// The document does not have the shape of one.
    Malformed { path: String, source: serde_norway::Error },
    /// The document does not define the knob.
    Missing { knob: &'static str, path: String },
    /// The document defines the knob and gives it no value.
    Empty { knob: &'static str, path: String },
    /// The document gives the knob a value that is not a whole number.
    Unparsable {
        knob: &'static str,
        path: String,
        value: String,
        source: std::num::ParseIntError,
    },
    /// The document asks for a poll interval of no time at all.
    ZeroPoll { path: String },
}

/// [`ScheduleError`], as plain values and the causes it carries.
pub enum Refusal {
    Absent { path: Seq<char> },
    Unreadable { path: Seq<char>, source: std::io::Error },
    Malformed { path: Seq<char>, source: serde_norway::Error },
    Missing { knob: Seq<char>, path: Seq<char> },
    Empty { knob: Seq<char>, path: Seq<char> },
    Unparsable {
        knob: Seq<char>,
        path: Seq<char>,
        value: Seq<char>,
        source: std::num::ParseIntError,
    },
    ZeroPoll { path: Seq<char> },
}

impl View for ScheduleError {
    type V = Refusal;

    open spec fn view(&self) -> Refusal {
        match *self {
            ScheduleError::Absent { path } => Refusal::Absent { path: path@ },
            ScheduleError::Unreadable { path, source } => Refusal::Unreadable {
                path: path@,
                source,
            },
            ScheduleError::Malformed { path, source } => Refusal::Malformed {
                path: path@,
                source,
            },
            ScheduleError::Missing { knob, path } => Refusal::Missing {
                knob: knob@,
                path: path@,
            },
            ScheduleError::Empty { knob, path } => Refusal::Empty { knob: knob@, path: path@ },
            ScheduleError::Unparsable { knob, path, value, source } => Refusal::Unparsable {
                knob: knob@,
                path: path@,
                value: value@,
                source,
            },
            ScheduleError::ZeroPoll { path } => Refusal::ZeroPoll { path: path@ },
        }
    }
}

/// What follows the path where there is no document.
pub const ABSENT_TAIL: &'static str =
    " does not exist, so no configuration was read. It is the shared document of the \
     configuration chart in yadgarhq/config, mounted from the ConfigMap `shared`. There is no \
     default to fall back to (ADR-0569): every knob has one source and this is it. If the pod \
     reached this point at all the volume mounted, so the likely fault is a mountPath that \
     disagrees with the chart rather than a missing ConfigMap — a missing ConfigMap keeps the \
     pod in ContainerCreating instead.";

/// What precedes the path where the document cannot be read.
pub const UNREADABLE_HEAD: &'static str =
    "A file this process must read exists and cannot be read. The likeliest cause is a \
     chart whose `mountPath` names the FILE rather than the directory holding it: kubelet \
     then creates a DIRECTORY at this path and the read fails as `Is a directory`. Mount the \
     ConfigMap at /etc/yadgar/config/<name> and let the key become the file inside it. \
     Reading ";

/// What follows the path where the document cannot be read.
pub const UNREADABLE_TAIL: &'static str = " failed";

/// What precedes the path where the document does not have the shape of one.
pub const MALFORMED_HEAD: &'static str =
    "The file is either not parseable YAML at all, or a part of it is the wrong KIND: the \
     document must be a mapping, and `tlsRotation` within it must be a mapping of knobs \
     rather than a scalar or a list. Note that a wrong-KIND file is still valid YAML, so a \
     YAML linter will call it clean. ";

/// What follows the path where the document does not have the shape of one.
pub const MALFORMED_TAIL: &'static str = " does not have the shape this reader expects";

/// What stands between a missing knob and the path.
pub const MISSING_MIDDLE: &'static str = " is not defined in ";

/// What follows the path where a knob is missing.
pub const MISSING_TAIL: &'static str =
    ". That file is the only place it is read from — there is \
     no compiled-in default and no fallback (ADR-0569) — so this process refuses to start \
     rather than run a value nobody chose. Add the line to the document, or restore it from \
     the template in yadgarhq/config.";

/// What stands between an empty knob and the path.
pub const EMPTY_MIDDLE: &'static str = " is present in ";

/// What follows the path where a knob is empty.
pub const EMPTY_TAIL: &'static str =
    " and has no value. That is a DIFFERENT fault from the knob \
     being missing and is reported separately on purpose: an empty setting is usually a \
     half-finished edit, and collapsing the two cases into one is how a deployment ends up \
     believing it configured something it did not.";

/// What precedes a knob that is not a whole number.
pub const UNPARSABLE_HEAD: &'static str =
    "A knob that is not a whole number of seconds is refused rather than replaced with a \
     default, because a deployment that believes it set this and did not would run an \
     interval nobody chose and see nothing wrong. ";

/// What stands between a knob and the path it is in.
pub const IN: &'static str = " in ";

/// What stands between the path and a value that is not a whole number.
pub const UNPARSABLE_TAIL: &'static str = " is ";

/// What stands between the path and the other knob where the poll interval is
/// zero.
pub const ZERO_POLL_MIDDLE: &'static str =
    " is 0, which is not a poll interval. Sleeping for no time at all \
     turns the rotation watcher into a loop that re-reads and re-hashes the watched files as \
     fast as a core allows, for the life of the pod. Set it to at least 1. Nothing is turned \
     OFF by setting it to 0 — an empty watch set is what leaves the watcher idle. ";

/// What follows the other knob where the poll interval is zero.
pub const ZERO_POLL_TAIL: &'static str =
    " is different: 0 there means exit at once, which is a supported choice.";

impl Refusal {
    /// The file the refusal is about.
    pub open spec fn path(self) -> Seq<char> {
        match self {
            Refusal::Absent { path } => path,
            Refusal::Unreadable { path, .. } => path,
            Refusal::Malformed { path, .. } => path,
            Refusal::Missing { path, .. } => path,
            Refusal::Empty { path, .. } => path,
            Refusal::Unparsable { path, .. } => path,
            Refusal::ZeroPoll { path } => path,
        }
    }

    /// The knobs the refusal is about: none where it is about the whole
    /// document, and both where the poll interval is zero.
    pub open spec fn knobs(self) -> Seq<Seq<char>> {
        match self {
            Refusal::Missing { knob, .. } => seq![knob],
            Refusal::Empty { knob, .. } => seq![knob],
            Refusal::Unparsable { knob, .. } => seq![knob],
            Refusal::ZeroPoll { .. } => seq![POLL_KNOB@, SPLAY_MAX_KNOB@],
            _ => Seq::empty(),
        }
    }

    /// The line an operator reads. The cause, where there is one, is not in it:
    /// it is a link of its own in the chain of errors, and a caller that walks
    /// the chain prints it from there.
    pub open spec fn message(self) -> Seq<char> {
        match self {
            Refusal::Absent { path } => path + ABSENT_TAIL@,
            Refusal::Unreadable { path, .. } => UNREADABLE_HEAD@ + path + UNREADABLE_TAIL@,
            Refusal::Malformed { path, .. } => MALFORMED_HEAD@ + path + MALFORMED_TAIL@,
            Refusal::Missing { knob, path } => knob + MISSING_MIDDLE@ + path + MISSING_TAIL@,
            Refusal::Empty { knob, path } => knob + EMPTY_MIDDLE@ + path + EMPTY_TAIL@,
            Refusal::Unparsable { knob, path, value, .. } => UNPARSABLE_HEAD@ + knob + IN@ + path
                + UNPARSABLE_TAIL@ + boundary::quoted(value),
            Refusal::ZeroPoll { path } => POLL_KNOB@ + IN@ + path + ZERO_POLL_MIDDLE@
                + SPLAY_MAX_KNOB@ + ZERO_POLL_TAIL@,
        }
    }
}

impl ScheduleError {
    /// The line an operator reads.
    pub fn message(&self) -> (text: String)
        ensures
            text@ == self@.message(),
    {
        let mut text: String = String::new();
        match self {
            ScheduleError::Absent { path } => {
                text.append(path.as_str());
                text.append(ABSENT_TAIL);
            },
            ScheduleError::Unreadable { path, .. } => {
                text.append(UNREADABLE_HEAD);
                text.append(path.as_str());
                text.append(UNREADABLE_TAIL);
            },
            ScheduleError::Malformed { path, .. } => {
                text.append(MALFORMED_HEAD);
                text.append(path.as_str());
                text.append(MALFORMED_TAIL);
            },
            ScheduleError::Missing { knob, path } => {
                text.append(knob);
                text.append(MISSING_MIDDLE);
                text.append(path.as_str());
                text.append(MISSING_TAIL);
            },
            ScheduleError::Empty { knob, path } => {
                text.append(knob);
                text.append(EMPTY_MIDDLE);
                text.append(path.as_str());
                text.append(EMPTY_TAIL);
            },
            ScheduleError::Unparsable { knob, path, value, .. } => {
                text.append(UNPARSABLE_HEAD);
                text.append(knob);
                text.append(IN);
                text.append(path.as_str());
                text.append(UNPARSABLE_TAIL);
                text.append(boundary::quoted_text(value.as_str()).as_str());
            },
            ScheduleError::ZeroPoll { path } => {
                text.append(POLL_KNOB);
                text.append(IN);
                text.append(path.as_str());
                text.append(ZERO_POLL_MIDDLE);
                text.append(SPLAY_MAX_KNOB);
                text.append(ZERO_POLL_TAIL);
            },
        }
        assert(text@ =~= self@.message());
        text
    }
}

/// Whether a text holds another, somewhere in it.
pub open spec fn mentions(text: Seq<char>, part: Seq<char>) -> bool {
    exists|before: Seq<char>, after: Seq<char>| text == #[trigger] (before + part + after)
}

proof fn lemma_mentions(text: Seq<char>, before: Seq<char>, part: Seq<char>, after: Seq<char>)
    requires
        text =~= before + part + after,
    ensures
        mentions(text, part),
{
}

/// **Every refusal names a file.** The line an operator reads holds the path of
/// the document, whichever way it failed.
pub proof fn every_refusal_names_its_file(refusal: Refusal)
    ensures
        mentions(refusal.message(), refusal.path()),
{
    let text = refusal.message();
    match refusal {
        Refusal::Absent { path } => {
            lemma_mentions(text, Seq::empty(), path, ABSENT_TAIL@);
        },
        Refusal::Unreadable { path, .. } => {
            lemma_mentions(text, UNREADABLE_HEAD@, path, UNREADABLE_TAIL@);
        },
        Refusal::Malformed { path, .. } => {
            lemma_mentions(text, MALFORMED_HEAD@, path, MALFORMED_TAIL@);
        },
        Refusal::Missing { knob, path } => {
            lemma_mentions(text, knob + MISSING_MIDDLE@, path, MISSING_TAIL@);
        },
        Refusal::Empty { knob, path } => {
            lemma_mentions(text, knob + EMPTY_MIDDLE@, path, EMPTY_TAIL@);
        },
        Refusal::Unparsable { knob, path, value, .. } => {
            lemma_mentions(
                text,
                UNPARSABLE_HEAD@ + knob + IN@,
                path,
                UNPARSABLE_TAIL@ + boundary::quoted(value),
            );
        },
        Refusal::ZeroPoll { path } => {
            lemma_mentions(
                text,
                POLL_KNOB@ + IN@,
                path,
                ZERO_POLL_MIDDLE@ + SPLAY_MAX_KNOB@ + ZERO_POLL_TAIL@,
            );
        },
    }
}

/// The line an operator reads holds the whole path of every knob the refusal is
/// about.
pub proof fn every_refusal_names_its_knobs(refusal: Refusal, i: int)
    requires
        0 <= i < refusal.knobs().len(),
    ensures
        mentions(refusal.message(), refusal.knobs()[i]),
{
    let text = refusal.message();
    match refusal {
        Refusal::Missing { knob, path } => {
            lemma_mentions(text, Seq::empty(), knob, MISSING_MIDDLE@ + path + MISSING_TAIL@);
        },
        Refusal::Empty { knob, path } => {
            lemma_mentions(text, Seq::empty(), knob, EMPTY_MIDDLE@ + path + EMPTY_TAIL@);
        },
        Refusal::Unparsable { knob, path, value, .. } => {
            lemma_mentions(
                text,
                UNPARSABLE_HEAD@,
                knob,
                IN@ + path + UNPARSABLE_TAIL@ + boundary::quoted(value),
            );
        },
        Refusal::ZeroPoll { path } => {
            lemma_mentions(
                text,
                Seq::empty(),
                POLL_KNOB@,
                IN@ + path + ZERO_POLL_MIDDLE@ + SPLAY_MAX_KNOB@ + ZERO_POLL_TAIL@,
            );
            lemma_mentions(
                text,
                POLL_KNOB@ + IN@ + path + ZERO_POLL_MIDDLE@,
                SPLAY_MAX_KNOB@,
                ZERO_POLL_TAIL@,
            );
        },
        _ => {},
    }
}

/// A missing knob and an empty one never read identically, wherever the document
/// is.
pub proof fn a_missing_knob_and_an_empty_one_read_differently(
    knob: Seq<char>,
    one: Seq<char>,
    other: Seq<char>,
)
    ensures
        (Refusal::Missing { knob, path: one }).message() != (Refusal::Empty {
            knob,
            path: other,
        }).message(),
{
    reveal_strlit(" is not defined in ");
    reveal_strlit(" is present in ");
    let missing = (Refusal::Missing { knob, path: one }).message();
    let empty = (Refusal::Empty { knob, path: other }).message();
    let at = knob.len() + 4;
    assert(missing[at as int] == 'n');
    assert(empty[at as int] == 'p');
}

/// The cause of a refusal is left to the chain of errors: two refusals that
/// differ only in their cause read identically.
pub proof fn the_cause_is_not_in_the_message(
    path: Seq<char>,
    knob: Seq<char>,
    value: Seq<char>,
    read: (std::io::Error, std::io::Error),
    parse: (serde_norway::Error, serde_norway::Error),
    number: (std::num::ParseIntError, std::num::ParseIntError),
)
    ensures
        (Refusal::Unreadable { path, source: read.0 }).message() == (Refusal::Unreadable {
            path,
            source: read.1,
        }).message(),
        (Refusal::Malformed { path, source: parse.0 }).message() == (Refusal::Malformed {
            path,
            source: parse.1,
        }).message(),
        (Refusal::Unparsable { knob, path, value, source: number.0 }).message() == (
        Refusal::Unparsable { knob, path, value, source: number.1 }).message(),
{
}

} // verus!
