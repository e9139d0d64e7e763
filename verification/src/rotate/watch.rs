//! The watcher: what it does at every moment, given what it was told at the
//! last one.
//!
//! Nothing here sleeps and nothing here reads a file. [`Watcher::start`] and
//! [`Watcher::advance`] say what to publish, what to log and what to do next,
//! and whoever runs the watcher does that and comes back with what happened.

use crate::duration::Duration;
use crate::path::FilePath;
use crate::rotate::inputs;
use crate::rotate::inputs::{Gauge, GaugeView, Inputs, InputsView};
use crate::rotate::schedule::{Schedule, ScheduleView};
use crate::rotate::splay;
use crate::rotate::Presented;
use crate::text;
use vstd::prelude::*;

verus! {

/// What happened since the watcher last said what to do next.
#[derive(Clone, Debug, PartialEq, Eq)]
pub enum Event {
    /// The poll interval went by, and reading each watched file, in the order
    /// of the watch set, gave this.
    Polled(Vec<Option<Vec<u8>>>),
    /// Reading the file each certificate was loaded from gave this. A
    /// certificate that was not configured has no file, and gives nothing.
    LeavesRead { serving: Option<Vec<u8>>, client: Option<Vec<u8>> },
    /// The splay went by.
    SplayElapsed,
}

/// [`Event`], as plain values.
pub enum EventView {
    Polled(Seq<Option<Seq<u8>>>),
    LeavesRead { serving: Option<Seq<u8>>, client: Option<Seq<u8>> },
    SplayElapsed,
}

impl View for Event {
    type V = EventView;

    open spec fn view(&self) -> EventView {
        match *self {
            Event::Polled(contents) => EventView::Polled(inputs::readings(contents@)),
            Event::LeavesRead { serving, client } => EventView::LeavesRead {
                serving: inputs::reading(serving),
                client: inputs::reading(client),
            },
            Event::SplayElapsed => EventView::SplayElapsed,
        }
    }
}

/// A line for the log.
#[derive(Clone, Debug, PartialEq, Eq)]
pub enum Notice {
    /// There are no watched files, so this process will not exit on a rotation.
    NothingWatched,
    /// These of the watched files could not be read at boot, of this many. That
    /// is a defect of the configuration, and the loudest line there is.
    UnreadAtBoot { unreadable: String, watched: usize },
    /// These of the watched files cannot be read now. That is transient: what
    /// was loaded is kept for them, and the rest are still watched.
    Unreadable { unreadable: String },
    /// These of the watched files have changed. The certificates are named as
    /// they were loaded and as they are on disk, and the wait is this pod's
    /// splay.
    Changed {
        serving_before: String,
        serving_after: String,
        client_before: String,
        client_after: String,
        changed: String,
        splay_secs: u64,
    },
    /// The splay went by, and the process drains.
    Draining,
}

/// [`Notice`], as plain values.
pub enum NoticeView {
    NothingWatched,
    UnreadAtBoot { unreadable: Seq<char>, watched: nat },
    Unreadable { unreadable: Seq<char> },
    Changed {
        serving_before: Seq<char>,
        serving_after: Seq<char>,
        client_before: Seq<char>,
        client_after: Seq<char>,
        changed: Seq<char>,
        splay_secs: nat,
    },
    Draining,
}

impl View for Notice {
    type V = NoticeView;

    open spec fn view(&self) -> NoticeView {
        match *self {
            Notice::NothingWatched => NoticeView::NothingWatched,
            Notice::UnreadAtBoot { unreadable, watched } => NoticeView::UnreadAtBoot {
                unreadable: unreadable@,
                watched: watched as nat,
            },
            Notice::Unreadable { unreadable } => NoticeView::Unreadable {
                unreadable: unreadable@,
            },
            Notice::Changed {
                serving_before,
                serving_after,
                client_before,
                client_after,
                changed,
                splay_secs,
            } => NoticeView::Changed {
                serving_before: serving_before@,
                serving_after: serving_after@,
                client_before: client_before@,
                client_after: client_after@,
                changed: changed@,
                splay_secs: splay_secs as nat,
            },
            Notice::Draining => NoticeView::Draining,
        }
    }
}

/// What to do until the next event.
#[derive(Clone, Copy, Debug, PartialEq, Eq)]
pub enum Next {
    /// Nothing, ever: there is nothing that could end this watch.
    Never,
    /// Sleep for this long, then read every watched file.
    PollAfter(Duration),
    /// Read the file each certificate was loaded from.
    ReadLeaves,
    /// Sleep for this long.
    SplayFor(Duration),
    /// End the watch.
    Done,
}

/// [`Next`], as plain values: spans in nanoseconds.
pub enum NextView {
    Never,
    PollAfter(nat),
    ReadLeaves,
    SplayFor(nat),
    Done,
}

impl View for Next {
    type V = NextView;

    open spec fn view(&self) -> NextView {
        match *self {
            Next::Never => NextView::Never,
            Next::PollAfter(span) => NextView::PollAfter(span@),
            Next::ReadLeaves => NextView::ReadLeaves,
            Next::SplayFor(span) => NextView::SplayFor(span@),
            Next::Done => NextView::Done,
        }
    }
}

/// One step of the watcher: what to publish, what to log, and what to do next.
#[derive(Clone, Debug, PartialEq, Eq)]
pub struct Step {
    pub gauge: Option<Gauge>,
    pub notice: Option<Notice>,
    pub next: Next,
}

/// [`Step`], as plain values.
pub struct StepView {
    pub gauge: Option<GaugeView>,
    pub notice: Option<NoticeView>,
    pub next: NextView,
}

impl View for Step {
    type V = StepView;

    open spec fn view(&self) -> StepView {
        StepView {
            gauge: match self.gauge {
                Some(gauge) => Some(gauge@),
                None => None,
            },
            notice: match self.notice {
                Some(notice) => Some(notice@),
                None => None,
            },
            next: self.next@,
        }
    }
}

/// Where a watcher is.
pub enum PhaseView {
    /// There is nothing to watch.
    Idle,
    /// The poll interval is going by. The files that could not be read at the
    /// last poll have been reported, and are these.
    Polling { reported: Seq<Seq<char>> },
    /// These files have changed, and the certificates are being read again.
    Changed { changed: Seq<Seq<char>> },
    /// The splay is going by.
    Splaying,
    /// The watch has ended.
    Ended,
}

/// [`Watcher`], as plain values.
pub struct WatcherView {
    pub inputs: InputsView,
    pub schedule: ScheduleView,
    pub seed: nat,
    pub phase: PhaseView,
}

/// The names of the files that could not be read at boot, in order.
pub open spec fn unread_names(set: InputsView) -> Seq<Seq<char>> {
    inputs::unread_paths(set.files).map_values(
        |path: Seq<u8>| crate::boundary::lossy(path),
    )
}

impl WatcherView {
    /// How long this pod waits before it acts on a rotation.
    pub open spec fn splay(self) -> nat {
        splay::wait(self.schedule.splay_max, self.seed)
    }

    /// What a watcher in this state is waiting for.
    pub open spec fn pending(self) -> NextView {
        match self.phase {
            PhaseView::Idle => NextView::Never,
            PhaseView::Polling { .. } => NextView::PollAfter(self.schedule.poll),
            PhaseView::Changed { .. } => NextView::ReadLeaves,
            PhaseView::Splaying => NextView::SplayFor(self.splay()),
            PhaseView::Ended => NextView::Done,
        }
    }

    /// The state of a watcher that has just begun.
    pub open spec fn started(inputs: InputsView, schedule: ScheduleView, seed: nat) -> Self {
        WatcherView {
            inputs,
            schedule,
            seed,
            phase: if inputs.files.len() == 0 {
                PhaseView::Idle
            } else {
                PhaseView::Polling { reported: Seq::empty() }
            },
        }
    }

    /// What a watcher that has just begun says: how many files could not be
    /// read at boot, and which. An empty watch set has nothing that could be
    /// unreadable, and publishes nothing.
    pub open spec fn first_step(self) -> StepView {
        let unread = unread_names(self.inputs);
        StepView {
            gauge: if self.inputs.files.len() == 0 {
                None
            } else {
                Some(self.inputs.unreadable_gauge(unread.len() as int))
            },
            notice: if self.inputs.files.len() == 0 {
                Some(NoticeView::NothingWatched)
            } else if unread.len() > 0 {
                Some(
                    NoticeView::UnreadAtBoot {
                        unreadable: text::comma_separated(unread),
                        watched: self.inputs.files.len(),
                    },
                )
            } else {
                None
            },
            next: self.pending(),
        }
    }

    /// The state after a poll, given the digest each watched file has now.
    pub open spec fn polled(self, now: Seq<Option<Seq<u8>>>) -> Self {
        let changed = inputs::changed_names(self.inputs.files, now);
        WatcherView {
            phase: if changed.len() > 0 {
                PhaseView::Changed { changed }
            } else {
                PhaseView::Polling {
                    reported: inputs::unreadable_names(self.inputs.files, now),
                }
            },
            ..self
        }
    }

    /// What a watcher says after a poll: how many files cannot be read, always,
    /// and which, where they are not the ones it last said.
    pub open spec fn poll_step(
        self,
        reported: Seq<Seq<char>>,
        now: Seq<Option<Seq<u8>>>,
    ) -> StepView {
        let unreadable = inputs::unreadable_names(self.inputs.files, now);
        StepView {
            gauge: Some(self.inputs.unreadable_gauge(unreadable.len() as int)),
            notice: if unreadable != reported && unreadable.len() > 0 {
                Some(NoticeView::Unreadable { unreadable: text::comma_separated(unreadable) })
            } else {
                None
            },
            next: self.polled(now).pending(),
        }
    }

    /// The state after the watched files were hashed again, and what the
    /// watcher says to it. Where it does not wait for that, nothing changes.
    pub open spec fn compared(self, now: Seq<Option<Seq<u8>>>) -> (Self, StepView) {
        match self.phase {
            PhaseView::Polling { reported } => (self.polled(now), self.poll_step(reported, now)),
            _ => (self, StepView { gauge: None, notice: None, next: self.pending() }),
        }
    }

    /// The line that reports a rotation.
    pub open spec fn change_notice(
        self,
        changed: Seq<Seq<char>>,
        serving: Option<Seq<u8>>,
        client: Option<Seq<u8>>,
    ) -> NoticeView {
        NoticeView::Changed {
            serving_before: self.inputs.reported(Presented::Serving, false, None),
            serving_after: self.inputs.reported(Presented::Serving, true, serving),
            client_before: self.inputs.reported(Presented::Client, false, None),
            client_after: self.inputs.reported(Presented::Client, true, client),
            changed: text::comma_separated(changed),
            splay_secs: self.splay() / (crate::duration::NANOS_PER_SEC as nat),
        }
    }

    /// The state after an event, and what the watcher says to it. An event that
    /// is not the one it waits for changes nothing and is answered with what it
    /// still waits for.
    pub open spec fn advance(self, event: EventView) -> (Self, StepView) {
        match (self.phase, event) {
            (PhaseView::Polling { .. }, EventView::Polled(contents)) => self.compared(
                self.inputs.on_disk(contents),
            ),
            (PhaseView::Changed { changed }, EventView::LeavesRead { serving, client }) => (
                WatcherView { phase: PhaseView::Splaying, ..self },
                StepView {
                    gauge: None,
                    notice: Some(self.change_notice(changed, serving, client)),
                    next: NextView::SplayFor(self.splay()),
                },
            ),
            (PhaseView::Splaying, EventView::SplayElapsed) => (
                WatcherView { phase: PhaseView::Ended, ..self },
                StepView {
                    gauge: None,
                    notice: Some(NoticeView::Draining),
                    next: NextView::Done,
                },
            ),
            _ => (self, StepView { gauge: None, notice: None, next: self.pending() }),
        }
    }

    /// The state after each of a list of events, in order.
    pub open spec fn after(self, events: Seq<EventView>) -> Self
        decreases events.len(),
    {
        if events.len() == 0 {
            self
        } else {
            self.after(events.drop_last()).advance(events.last()).0
        }
    }
}

/// Where a watcher is.
#[derive(Clone, Debug, PartialEq, Eq)]
enum Phase {
    Idle,
    Polling { reported: Vec<String> },
    Changed { changed: Vec<String> },
    Splaying,
    Ended,
}

impl Phase {
    spec fn model(self) -> PhaseView {
        match self {
            Phase::Idle => PhaseView::Idle,
            Phase::Polling { reported } => PhaseView::Polling {
                reported: text::texts(reported@),
            },
            Phase::Changed { changed } => PhaseView::Changed { changed: text::texts(changed@) },
            Phase::Splaying => PhaseView::Splaying,
            Phase::Ended => PhaseView::Ended,
        }
    }
}

/// A watch over the files a process read at boot. It ends when one of them has
/// changed on disk and this pod's splay has gone by, and never otherwise.
#[derive(Clone, Debug, PartialEq, Eq)]
pub struct Watcher {
    inputs: Inputs,
    schedule: Schedule,
    seed: u64,
    phase: Phase,
}

impl View for Watcher {
    type V = WatcherView;

    closed spec fn view(&self) -> WatcherView {
        WatcherView {
            inputs: self.inputs@,
            schedule: self.schedule@,
            seed: self.seed as nat,
            phase: self.phase.model(),
        }
    }
}

/// The names of a list of paths, in order.
fn names_of(paths: &Vec<&FilePath>) -> (names: Vec<String>)
    ensures
        text::texts(names@) == inputs::path_views(paths@).map_values(
            |path: Seq<u8>| crate::boundary::lossy(path),
        ),
{
    let mut names: Vec<String> = Vec::new();
    let ghost all = inputs::path_views(paths@).map_values(
        |path: Seq<u8>| crate::boundary::lossy(path),
    );
    let mut i: usize = 0;
    assert(text::texts(names@) =~= all.take(0));
    while i < paths.len()
        invariant
            i <= paths@.len(),
            all == inputs::path_views(paths@).map_values(
                |path: Seq<u8>| crate::boundary::lossy(path),
            ),
            text::texts(names@) == all.take(i as int),
        decreases paths@.len() - i,
    {
        let ghost before = text::texts(names@);
        names.push(paths[i].display());
        assert(text::texts(names@) =~= before.push(all[i as int]));
        assert(all.take(i as int + 1) =~= all.take(i as int).push(all[i as int]));
        i += 1;
    }
    assert(all.take(i as int) =~= all);
    names
}

/// A reading, borrowed.
fn lent(contents: &Option<Vec<u8>>) -> (found: Option<&[u8]>)
    ensures
        inputs::borrowed(found) == inputs::reading(*contents),
{
    match contents {
        Some(bytes) => Some(bytes.as_slice()),
        None => None,
    }
}

impl Watcher {
    /// Begin a watch, with the seed its splay is drawn from.
    pub fn start(inputs: Inputs, schedule: Schedule, seed: u64) -> (begun: (Self, Step))
        ensures
            begun.0@ == WatcherView::started(inputs@, schedule@, seed as nat),
            begun.1@ == begun.0@.first_step(),
    {
        if inputs.is_empty() {
            let step: Step = Step {
                gauge: None,
                notice: Some(Notice::NothingWatched),
                next: Next::Never,
            };
            return (Watcher { inputs, schedule, seed, phase: Phase::Idle }, step);
        }
        let (gauge, notice): (Gauge, Option<Notice>) = {
            let unread: Vec<&FilePath> = inputs.unread_at_boot();
            let watched: usize = inputs.watched().len();
            let names: Vec<String> = names_of(&unread);
            proof {
                assert(text::texts(names@).len() == names@.len());
                assert(inputs::paths(inputs@.files).len() == inputs@.files.len());
                assert(watched == inputs@.files.len());
            }
            let gauge: Gauge = inputs.publish_unreadable(names.len());
            if names.len() > 0 {
                (gauge, Some(Notice::UnreadAtBoot { unreadable: text::join(&names), watched }))
            } else {
                (gauge, None)
            }
        };
        let reported: Vec<String> = Vec::new();
        assert(text::texts(reported@) =~= Seq::empty());
        let step: Step = Step {
            gauge: Some(gauge),
            notice,
            next: Next::PollAfter(schedule.poll()),
        };
        (Watcher { inputs, schedule, seed, phase: Phase::Polling { reported } }, step)
    }

    /// What the watcher waits for.
    pub fn pending(&self) -> (next: Next)
        ensures
            next@ == self@.pending(),
    {
        match &self.phase {
            Phase::Idle => Next::Never,
            Phase::Polling { .. } => Next::PollAfter(self.schedule.poll()),
            Phase::Changed { .. } => Next::ReadLeaves,
            Phase::Splaying => Next::SplayFor(
                splay::splay(self.schedule.splay_max(), self.seed),
            ),
            Phase::Ended => Next::Done,
        }
    }

    /// Every file to read when the poll interval has gone by, in order.
    pub fn watched(&self) -> (list: Vec<&FilePath>)
        ensures
            inputs::path_views(list@) == inputs::paths(self@.inputs.files),
    {
        self.inputs.watched()
    }

    /// The file the certificate of this kind was loaded from, where one was
    /// configured.
    pub fn leaf_path(&self, which: Presented) -> (path: Option<&FilePath>)
        ensures
            match path {
                Some(path) => self@.inputs.loaded(which) is Some && self@.inputs.loaded(which)->0.path
                    == path@,
                None => self@.inputs.loaded(which) is None,
            },
    {
        self.inputs.leaf_path(which)
    }

    /// Take in what happened, and say what to do about it.
    pub fn advance(&mut self, event: Event) -> (step: Step)
        ensures
            (final(self)@, step@) == old(self)@.advance(event@),
    {
        match event {
            Event::Polled(contents) => {
                let current: Vec<Option<[u8; 32]>> = self.inputs.on_disk(contents.as_slice());
                return self.compare(current.as_slice());
            },
            Event::LeavesRead { serving, client } => {
                if matches!(self.phase, Phase::Changed { .. }) {
                    return self.take_leaves(&serving, &client);
                }
            },
            Event::SplayElapsed => {
                if matches!(self.phase, Phase::Splaying) {
                    self.phase = Phase::Ended;
                    return Step {
                        gauge: None,
                        notice: Some(Notice::Draining),
                        next: Next::Done,
                    };
                }
            },
        }
        Step { gauge: None, notice: None, next: self.pending() }
    }

    /// Take in the digest each watched file has now, and say what to do about
    /// it.
    pub fn compare(&mut self, current: &[Option<[u8; 32]>]) -> (step: Step)
        ensures
            (final(self)@, step@) == old(self)@.compared(inputs::digests(current@)),
    {
        let unreadable: Vec<String> = self.inputs.unreadable(current);
        assert(text::texts(unreadable@).len() == unreadable@.len());
        let moved: bool = match &self.phase {
            Phase::Polling { reported } => !text::same_texts(&unreadable, reported),
            _ => {
                return Step { gauge: None, notice: None, next: self.pending() };
            },
        };
        let gauge: Gauge = self.inputs.publish_unreadable(unreadable.len());
        let notice: Option<Notice> = if moved && unreadable.len() > 0 {
            Some(Notice::Unreadable { unreadable: text::join(&unreadable) })
        } else {
            None
        };
        let changed: Vec<String> = self.inputs.differing(current);
        assert(text::texts(changed@).len() == changed@.len());
        if changed.len() > 0 {
            self.phase = Phase::Changed { changed };
        } else {
            self.phase = Phase::Polling { reported: unreadable };
        }
        Step { gauge: Some(gauge), notice, next: self.pending() }
    }

    fn take_leaves(&mut self, serving: &Option<Vec<u8>>, client: &Option<Vec<u8>>) -> (step: Step)
        requires
            old(self)@.phase is Changed,
        ensures
            (final(self)@, step@) == old(self)@.advance(
                EventView::LeavesRead {
                    serving: inputs::reading(*serving),
                    client: inputs::reading(*client),
                },
            ),
    {
        let waited: Duration = splay::splay(self.schedule.splay_max(), self.seed);
        let changed: String = match &self.phase {
            Phase::Changed { changed } => text::join(changed),
            _ => String::new(),
        };
        let notice: Notice = Notice::Changed {
            serving_before: self.inputs.reported(Presented::Serving, false, None),
            serving_after: self.inputs.reported(Presented::Serving, true, lent(serving)),
            client_before: self.inputs.reported(Presented::Client, false, None),
            client_after: self.inputs.reported(Presented::Client, true, lent(client)),
            changed,
            splay_secs: waited.as_secs(),
        };
        self.phase = Phase::Splaying;
        Step { gauge: None, notice: Some(notice), next: Next::SplayFor(waited) }
    }
}

} // verus!
