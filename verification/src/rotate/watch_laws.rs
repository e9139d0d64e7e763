//! What holds of every watch, whatever happens to it.

use crate::boundary;
use crate::rotate::inputs;
use crate::duration::Duration;
use crate::rotate::inputs::{InputsView, LeafView};
use crate::rotate::laws;
use crate::rotate::report_laws;
use crate::rotate::schedule::ScheduleView;
use crate::rotate::splay;
use crate::rotate::watch::{Event, Next, Notice, Step};
use crate::rotate::watch::{EventView, NextView, NoticeView, PhaseView, WatcherView};
use crate::rotate::Presented;
use crate::text;
use vstd::prelude::*;

verus! {

/// Whether an event is a poll that found a changed file: one that could be read,
/// and whose digest is not the one it was loaded with.
pub open spec fn finds_a_change(set: InputsView, event: EventView) -> bool {
    event matches EventView::Polled(contents) && exists|i: int|
        0 <= i < set.files.len() && i < contents.len() && (#[trigger] contents[i]) is Some
            && set.files[i].loaded != Some(boundary::sha256(contents[i]->0))
}

proof fn lemma_a_change_is_found(set: InputsView, contents: Seq<Option<Seq<u8>>>)
    ensures
        finds_a_change(set, EventView::Polled(contents)) <==> inputs::changed_names(
            set.files,
            set.on_disk(contents),
        ).len() > 0,
{
    let now = set.on_disk(contents);
    laws::a_change_is_reported_by_name(set.files, now);
    if finds_a_change(set, EventView::Polled(contents)) {
        let i = choose|i: int|
            0 <= i < set.files.len() && i < contents.len() && (#[trigger] contents[i]) is Some
                && set.files[i].loaded != Some(boundary::sha256(contents[i]->0));
        assert(inputs::has_changed(set.files[i], now[i]));
    }
    if inputs::changed_names(set.files, now).len() > 0 {
        let i = choose|i: int|
            0 <= i < set.files.len() && inputs::has_changed(#[trigger] set.files[i], now[i]);
        assert(contents[i] is Some);
    }
}

/// Whether none of a list of files could be read.
pub open spec fn nothing_read(contents: Seq<Option<Seq<u8>>>) -> bool {
    forall|i: int| 0 <= i < contents.len() ==> (#[trigger] contents[i]) is None
}

/// A watcher says to do what it then waits for.
pub proof fn a_step_says_what_is_waited_for(state: WatcherView, event: EventView)
    ensures
        state.advance(event).1.next == state.advance(event).0.pending(),
{
}

/// No event changes what is watched, how often it is looked at, or the seed.
pub proof fn a_watch_is_over_what_it_began_with(state: WatcherView, events: Seq<EventView>)
    ensures
        state.after(events).inputs == state.inputs,
        state.after(events).schedule == state.schedule,
        state.after(events).seed == state.seed,
    decreases events.len(),
{
    if events.len() > 0 {
        a_watch_is_over_what_it_began_with(state, events.drop_last());
    }
}

/// **Nothing to watch is not a reason to exit.** A watch over an empty set never
/// ends and never leaves the state it began in, whatever happens, and it
/// publishes nothing.
pub proof fn a_watch_over_nothing_never_ends(
    set: InputsView,
    schedule: ScheduleView,
    seed: nat,
    events: Seq<EventView>,
)
    requires
        set.files.len() == 0,
    ensures
        WatcherView::started(set, schedule, seed).first_step().next == NextView::Never,
        WatcherView::started(set, schedule, seed).first_step().gauge is None,
        WatcherView::started(set, schedule, seed).after(events).pending() == NextView::Never,
    decreases events.len(),
{
    let start = WatcherView::started(set, schedule, seed);
    if events.len() > 0 {
        a_watch_over_nothing_never_ends(set, schedule, seed, events.drop_last());
    }
}

/// A watch that has ended stays ended.
pub proof fn a_watch_that_has_ended_stays_ended(state: WatcherView, events: Seq<EventView>)
    requires
        state.phase is Ended,
    ensures
        state.after(events) == state,
    decreases events.len(),
{
    if events.len() > 0 {
        a_watch_that_has_ended_stays_ended(state, events.drop_last());
    }
}

/// Whether a watch could have come to a phase by these events: by a poll that
/// found a change before it can be past polling, by the certificates being read
/// after that before it can be past the change, and by the splay going by after
/// that before it can have ended.
spec fn earned(start: WatcherView, events: Seq<EventView>) -> bool {
    let set = start.inputs;
    match start.after(events).phase {
        PhaseView::Changed { .. } => exists|i: int|
            0 <= i < events.len() && finds_a_change(set, #[trigger] events[i]),
        PhaseView::Splaying => exists|i: int, j: int|
            0 <= i < j < events.len() && finds_a_change(set, #[trigger] events[i])
                && #[trigger] events[j] is LeavesRead,
        PhaseView::Ended => exists|i: int, j: int, k: int|
            0 <= i < j < k < events.len() && finds_a_change(set, #[trigger] events[i])
                && #[trigger] events[j] is LeavesRead && #[trigger] events[k] is SplayElapsed
                && start.after(events.take(k)).phase is Splaying,
        _ => true,
    }
}

proof fn lemma_every_phase_is_earned(
    set: InputsView,
    schedule: ScheduleView,
    seed: nat,
    events: Seq<EventView>,
)
    ensures
        earned(WatcherView::started(set, schedule, seed), events),
    decreases events.len(),
{
    let start = WatcherView::started(set, schedule, seed);
    if events.len() > 0 {
        let before = events.drop_last();
        let last = events.len() - 1;
        lemma_every_phase_is_earned(set, schedule, seed, before);
        a_watch_is_over_what_it_began_with(start, before);
        let from = start.after(before);
        let to = start.after(events);
        assert(forall|i: int| 0 <= i < last ==> events[i] == before[i]);
        match (from.phase, events.last()) {
            (PhaseView::Polling { .. }, EventView::Polled(contents)) => {
                lemma_a_change_is_found(set, contents);
                if to.phase is Changed {
                    assert(finds_a_change(set, events[last]));
                }
            },
            (PhaseView::Changed { .. }, EventView::LeavesRead { .. }) => {
                let i = choose|i: int|
                    0 <= i < before.len() && finds_a_change(set, #[trigger] before[i]);
                assert(finds_a_change(set, events[i]) && events[last] is LeavesRead);
            },
            (PhaseView::Splaying, EventView::SplayElapsed) => {
                let (i, j) = choose|i: int, j: int|
                    0 <= i < j < before.len() && finds_a_change(set, #[trigger] before[i])
                        && #[trigger] before[j] is LeavesRead;
                assert(events.take(last) =~= before);
                assert(finds_a_change(set, events[i]) && events[j] is LeavesRead
                    && events[last] is SplayElapsed);
            },
            _ => {
                match to.phase {
                    PhaseView::Changed { .. } => {
                        let i = choose|i: int|
                            0 <= i < before.len() && finds_a_change(set, #[trigger] before[i]);
                        assert(finds_a_change(set, events[i]));
                    },
                    PhaseView::Splaying => {
                        let (i, j) = choose|i: int, j: int|
                            0 <= i < j < before.len() && finds_a_change(set, #[trigger] before[i])
                                && #[trigger] before[j] is LeavesRead;
                        assert(finds_a_change(set, events[i]) && events[j] is LeavesRead);
                    },
                    PhaseView::Ended => {
                        let (i, j, k) = choose|i: int, j: int, k: int|
                            0 <= i < j < k < before.len() && finds_a_change(
                                set,
                                #[trigger] before[i],
                            ) && #[trigger] before[j] is LeavesRead
                                && #[trigger] before[k] is SplayElapsed
                                && start.after(before.take(k)).phase is Splaying;
                        assert(events.take(k) =~= before.take(k));
                        assert(finds_a_change(set, events[i]) && events[j] is LeavesRead
                            && events[k] is SplayElapsed);
                    },
                    _ => {},
                }
            },
        }
    }
}

/// **A watch ends only after a change, and only after the splay.** Wherever a
/// watch has ended, a poll had found a changed file, the certificates had then
/// been read again, and this pod's splay had then been waited for and gone by.
pub proof fn a_watch_ends_only_on_a_change_and_after_its_splay(
    set: InputsView,
    schedule: ScheduleView,
    seed: nat,
    events: Seq<EventView>,
)
    requires
        WatcherView::started(set, schedule, seed).after(events).pending() == NextView::Done,
    ensures
        exists|i: int, j: int, k: int|
            0 <= i < j < k < events.len() && finds_a_change(set, #[trigger] events[i])
                && #[trigger] events[j] is LeavesRead && #[trigger] events[k] is SplayElapsed
                && WatcherView::started(set, schedule, seed).after(events.take(k)).pending()
                == NextView::SplayFor(splay::wait(schedule.splay_max, seed)),
{
    let start = WatcherView::started(set, schedule, seed);
    lemma_every_phase_is_earned(set, schedule, seed, events);
    let (i, j, k) = choose|i: int, j: int, k: int|
        0 <= i < j < k < events.len() && finds_a_change(set, #[trigger] events[i])
            && #[trigger] events[j] is LeavesRead && #[trigger] events[k] is SplayElapsed
            && start.after(events.take(k)).phase is Splaying;
    a_watch_is_over_what_it_began_with(start, events.take(k));
}

/// **A change ends the watch.** From any state between two polls, a poll that
/// finds a changed file, the certificates being read again and the splay going
/// by end the watch; the wait before the end is this pod's whole splay, and that
/// never exceeds the schedule's maximum.
pub proof fn a_change_ends_the_watch(
    state: WatcherView,
    contents: Seq<Option<Seq<u8>>>,
    serving: Option<Seq<u8>>,
    client: Option<Seq<u8>>,
)
    requires
        state.phase is Polling,
        finds_a_change(state.inputs, EventView::Polled(contents)),
    ensures
        ({
            let found = state.advance(EventView::Polled(contents)).0;
            let splaying = found.advance(EventView::LeavesRead { serving, client }).0;
            let ended = splaying.advance(EventView::SplayElapsed).0;
            &&& found.pending() == NextView::ReadLeaves
            &&& splaying.pending() == NextView::SplayFor(
                splay::wait(state.schedule.splay_max, state.seed),
            )
            &&& splay::wait(state.schedule.splay_max, state.seed) <= state.schedule.splay_max
            &&& ended.pending() == NextView::Done
        }),
{
    lemma_a_change_is_found(state.inputs, contents);
    splay::the_wait_never_exceeds_its_maximum(state.schedule.splay_max, state.seed);
}

/// A poll that finds no changed file leaves the watch watching, whichever files
/// could not be read.
pub proof fn without_a_change_the_watch_goes_on(
    set: InputsView,
    schedule: ScheduleView,
    seed: nat,
    polls: Seq<EventView>,
)
    requires
        set.files.len() > 0,
        forall|i: int|
            0 <= i < polls.len() ==> (#[trigger] polls[i]) is Polled && !finds_a_change(
                set,
                polls[i],
            ),
    ensures
        WatcherView::started(set, schedule, seed).after(polls).pending() == NextView::PollAfter(
            schedule.poll,
        ),
    decreases polls.len(),
{
    let start = WatcherView::started(set, schedule, seed);
    if polls.len() > 0 {
        let before = polls.drop_last();
        assert(forall|i: int| 0 <= i < before.len() ==> before[i] == polls[i]);
        without_a_change_the_watch_goes_on(set, schedule, seed, before);
        a_watch_is_over_what_it_began_with(start, before);
        assert(polls.last() == polls[polls.len() - 1]);
        lemma_a_change_is_found(set, polls.last()->Polled_0);
    }
}

/// Files that hold the very bytes that were read at boot never end a watch,
/// however often they are looked at.
pub proof fn identical_bytes_never_end_the_watch(
    set: InputsView,
    schedule: ScheduleView,
    seed: nat,
    disk: spec_fn(Seq<u8>) -> Option<Seq<u8>>,
    polls: Seq<EventView>,
)
    requires
        set.files.len() > 0,
        forall|k: int|
            0 <= k < set.files.len() ==> (#[trigger] set.files[k]).loaded == inputs::digest_read(
                disk(set.files[k].path),
            ),
        forall|i: int|
            0 <= i < polls.len() ==> #[trigger] polls[i] == EventView::Polled(
                laws::readings_from(disk, set.files),
            ),
    ensures
        WatcherView::started(set, schedule, seed).after(polls).pending() == NextView::PollAfter(
            schedule.poll,
        ),
{
    laws::identical_bytes_are_not_a_change(set, disk);
    lemma_a_change_is_found(set, laws::readings_from(disk, set.files));
    without_a_change_the_watch_goes_on(set, schedule, seed, polls);
}

/// A mount that cannot be read never ends a watch, however often it is looked
/// at.
pub proof fn an_unreadable_mount_never_ends_the_watch(
    set: InputsView,
    schedule: ScheduleView,
    seed: nat,
    polls: Seq<EventView>,
)
    requires
        set.files.len() > 0,
        forall|i: int|
            0 <= i < polls.len() ==> (#[trigger] polls[i]) is Polled && nothing_read(
                polls[i]->Polled_0,
            ),
    ensures
        WatcherView::started(set, schedule, seed).after(polls).pending() == NextView::PollAfter(
            schedule.poll,
        ),
{
    assert forall|i: int| 0 <= i < polls.len() implies !finds_a_change(set, #[trigger] polls[i]) by {
        laws::an_unreadable_file_is_not_a_change(set.files, set.on_disk(polls[i]->Polled_0));
        lemma_a_change_is_found(set, polls[i]->Polled_0);
    }
    without_a_change_the_watch_goes_on(set, schedule, seed, polls);
}

/// **The gauge is written at every poll**, including when it is zero: it carries
/// how many of the watched files cannot be read at that poll.
pub proof fn every_poll_publishes_how_many_files_cannot_be_read(
    state: WatcherView,
    contents: Seq<Option<Seq<u8>>>,
)
    requires
        state.phase is Polling,
    ensures
        ({
            let now = state.inputs.on_disk(contents);
            let unreadable = inputs::unreadable_names(state.inputs.files, now);
            state.advance(EventView::Polled(contents)).1.gauge == Some(
                state.inputs.unreadable_gauge(unreadable.len() as int),
            )
        }),
{
}

/// **A standing condition is not logged twice.** A poll that finds the same
/// files unreadable as the poll before it says nothing of them; one that finds
/// others, and any at all, names them.
pub proof fn the_same_unreadable_files_are_logged_once(
    state: WatcherView,
    first: Seq<Option<Seq<u8>>>,
    second: Seq<Option<Seq<u8>>>,
)
    requires
        state.phase is Polling,
        !finds_a_change(state.inputs, EventView::Polled(first)),
    ensures
        ({
            let files = state.inputs.files;
            let one = inputs::unreadable_names(files, state.inputs.on_disk(first));
            let other = inputs::unreadable_names(files, state.inputs.on_disk(second));
            let between = state.advance(EventView::Polled(first)).0;
            let notice = between.advance(EventView::Polled(second)).1.notice;
            &&& one == other ==> notice is None
            &&& one != other && other.len() > 0 ==> notice == Some(
                NoticeView::Unreadable { unreadable: text::comma_separated(other) },
            )
            &&& other.len() == 0 ==> notice is None
        }),
{
    lemma_a_change_is_found(state.inputs, first);
}

/// The line that reports a rotation names the certificates that were loaded,
/// whatever is on disk by then, and every changed file.
pub proof fn a_rotation_is_reported_with_what_was_loaded(
    state: WatcherView,
    serving: Option<Seq<u8>>,
    client: Option<Seq<u8>>,
)
    requires
        state.phase is Changed,
    ensures
        ({
            let step = state.advance(EventView::LeavesRead { serving, client }).1;
            &&& step.notice is Some
            &&& step.notice->0 is Changed
            &&& step.notice->0->serving_before == state.inputs.reported(
                crate::rotate::Presented::Serving,
                false,
                serving,
            )
            &&& step.notice->0->client_before == state.inputs.reported(
                crate::rotate::Presented::Client,
                false,
                client,
            )
            &&& step.notice->0->changed == text::comma_separated(state.phase->changed)
        }),
{
}

/// **The first step of a watch over anything at all says to poll**, after the
/// schedule's interval, whether or not every file could be read at boot; and in
/// general the first step says what the watch then waits for.
pub proof fn a_watch_over_something_begins_by_polling(
    set: InputsView,
    schedule: ScheduleView,
    seed: nat,
)
    ensures
        ({
            let state = WatcherView::started(set, schedule, seed);
            &&& set.files.len() > 0 ==> state.first_step().next == NextView::PollAfter(
                schedule.poll,
            )
            &&& state.first_step().next == state.pending()
            &&& set.files.len() > 0 ==> state.pending() == NextView::PollAfter(schedule.poll)
            &&& set.files.len() == 0 ==> state.pending() == NextView::Never
            &&& set.files.len() > 0 ==> state.phase == (PhaseView::Polling {
                reported: Seq::empty(),
            })
            &&& state.inputs == set
            &&& state.schedule == schedule
            &&& state.seed == seed
        }),
{
}

/// A watch over anything at all begins by publishing how many of its files could
/// not be read at boot, zero included, and names them, in order, where there are
/// any.
pub proof fn a_watch_begins_with_what_could_not_be_read(
    set: InputsView,
    schedule: ScheduleView,
    seed: nat,
)
    requires
        set.files.len() > 0,
    ensures
        ({
            let step = WatcherView::started(set, schedule, seed).first_step();
            let unread = inputs::unread_paths(set.files);
            let names = Seq::new(unread.len(), |i: int| boundary::lossy(unread[i]));
            &&& step.gauge == Some(set.unreadable_gauge(unread.len() as int))
            &&& unread.len() == 0 ==> step.notice is None
            &&& unread.len() > 0 ==> step.notice == Some(
                NoticeView::UnreadAtBoot {
                    unreadable: text::comma_separated(names),
                    watched: set.files.len(),
                },
            )
        }),
{
    let unread = inputs::unread_paths(set.files);
    let names = Seq::new(unread.len(), |i: int| boundary::lossy(unread[i]));
    assert(crate::rotate::watch::unread_names(set) =~= names);
}

/// The first poll names every file it cannot read, though it may have been named
/// at boot: that was another fact.
pub proof fn the_first_poll_names_what_it_cannot_read(
    set: InputsView,
    schedule: ScheduleView,
    seed: nat,
    contents: Seq<Option<Seq<u8>>>,
)
    requires
        set.files.len() > 0,
    ensures
        ({
            let state = WatcherView::started(set, schedule, seed);
            let unreadable = inputs::unreadable_names(set.files, set.on_disk(contents));
            let notice = state.advance(EventView::Polled(contents)).1.notice;
            &&& unreadable.len() > 0 ==> notice == Some(
                NoticeView::Unreadable { unreadable: text::comma_separated(unreadable) },
            )
            &&& unreadable.len() == 0 ==> notice is None
        }),
{
}

/// A watch over nothing says so, once.
pub proof fn a_watch_over_nothing_says_so(set: InputsView, schedule: ScheduleView, seed: nat)
    requires
        set.files.len() == 0,
    ensures
        WatcherView::started(set, schedule, seed).first_step().notice == Some(
            NoticeView::NothingWatched,
        ),
{
}

/// **A poll goes one of two ways.** Where it finds a changed file, the
/// certificates are read again and the changed files are kept to be reported;
/// where it does not, the next poll comes after the schedule's interval, and
/// what could not be read is remembered as reported.
pub proof fn a_poll_goes_one_of_two_ways(
    state: WatcherView,
    contents: Seq<Option<Seq<u8>>>,
)
    requires
        state.phase is Polling,
    ensures
        ({
            let (after, step) = state.advance(EventView::Polled(contents));
            let files = state.inputs.files;
            let now = state.inputs.on_disk(contents);
            let found = finds_a_change(state.inputs, EventView::Polled(contents));
            &&& found ==> step.next == NextView::ReadLeaves && after.phase == (
            PhaseView::Changed { changed: inputs::changed_names(files, now) })
            &&& !found ==> step.next == NextView::PollAfter(state.schedule.poll) && after.phase == (
            PhaseView::Polling { reported: inputs::unreadable_names(files, now) })
        }),
{
    lemma_a_change_is_found(state.inputs, contents);
}

/// A poll names the files that cannot be read exactly where there are any and
/// they are not the ones that were named last.
pub proof fn a_poll_names_the_unreadable_files_that_are_new(
    state: WatcherView,
    contents: Seq<Option<Seq<u8>>>,
)
    requires
        state.phase is Polling,
    ensures
        ({
            let step = state.advance(EventView::Polled(contents)).1;
            let unreadable = inputs::unreadable_names(
                state.inputs.files,
                state.inputs.on_disk(contents),
            );
            &&& unreadable.len() == 0 || unreadable == state.phase->reported
                ==> step.notice is None
            &&& unreadable.len() > 0 && unreadable != state.phase->reported ==> step.notice
                == Some(
                NoticeView::Unreadable { unreadable: text::comma_separated(unreadable) },
            )
        }),
{
}

/// **The line that reports a rotation names both certificates of each kind**: as
/// it was loaded, by the digest of its DER, and as it is on disk, by the digest
/// of the first certificate in what was read of its file. Neither depends on
/// whether there is one of the other kind.
pub proof fn a_rotation_names_the_old_certificate_and_the_new(
    state: WatcherView,
    which: Presented,
    leaf: LeafView,
    loaded: Seq<u8>,
    contents: Seq<u8>,
    der: Seq<u8>,
    other: Option<Seq<u8>>,
)
    requires
        state.phase is Changed,
        report_laws::configured(state.inputs, which, leaf),
        leaf.der == Some(loaded),
        boundary::first_certificate_in(contents) == Some(der),
    ensures
        ({
            let event = match which {
                Presented::Serving => EventView::LeavesRead {
                    serving: Some(contents),
                    client: other,
                },
                Presented::Client => EventView::LeavesRead {
                    serving: other,
                    client: Some(contents),
                },
            };
            let notice = state.advance(event).1.notice;
            &&& notice is Some
            &&& notice->0 is Changed
            &&& which is Serving ==> notice->0->serving_before == text::hex_of(
                boundary::sha256(loaded),
            )
            &&& which is Serving ==> notice->0->serving_after == text::hex_of(
                boundary::sha256(der),
            )
            &&& which is Client ==> notice->0->client_before == text::hex_of(
                boundary::sha256(loaded),
            )
            &&& which is Client ==> notice->0->client_after == text::hex_of(
                boundary::sha256(der),
            )
        }),
{
    report_laws::a_loaded_certificate_is_named_by_its_digest(
        state.inputs,
        which,
        leaf,
        loaded,
        None,
    );
    report_laws::the_certificate_on_disk_is_named_by_its_digest(
        state.inputs,
        which,
        leaf,
        contents,
        der,
    );
}

/// In the line that reports a rotation, a kind that was not configured reads
/// `none` on both sides, one that was not loaded reads `unknown` before, and one
/// that is not on disk reads `unknown` after.
pub proof fn a_rotation_says_what_it_cannot_name(
    state: WatcherView,
    serving: Option<Seq<u8>>,
    client: Option<Seq<u8>>,
)
    requires
        state.phase is Changed,
    ensures
        ({
            let notice = state.advance(EventView::LeavesRead { serving, client }).1.notice;
            let one = state.inputs.serving;
            let other = state.inputs.client;
            &&& notice is Some
            &&& notice->0 is Changed
            &&& one is None ==> notice->0->serving_before == "none"@ && notice->0->serving_after
                == "none"@
            &&& other is None ==> notice->0->client_before == "none"@ && notice->0->client_after
                == "none"@
            &&& one is Some && one->0.der is None ==> notice->0->serving_before == "unknown"@
            &&& other is Some && other->0.der is None ==> notice->0->client_before == "unknown"@
            &&& one is Some && (serving is None || boundary::first_certificate_in(serving->0) is None)
                ==> notice->0->serving_after == "unknown"@
            &&& other is Some && (client is None || boundary::first_certificate_in(client->0) is None)
                ==> notice->0->client_after == "unknown"@
        }),
{
}

/// Once a rotation was reported the splay is waited for, and the line carries
/// the whole seconds of it; once the splay went by the watch ends, and says so.
pub proof fn a_reported_rotation_is_splayed_and_then_ends(
    state: WatcherView,
    serving: Option<Seq<u8>>,
    client: Option<Seq<u8>>,
)
    requires
        state.phase is Changed,
    ensures
        ({
            let wait = splay::wait(state.schedule.splay_max, state.seed);
            let (splaying, step) = state.advance(EventView::LeavesRead { serving, client });
            let (ended, last) = splaying.advance(EventView::SplayElapsed);
            &&& step.gauge is None
            &&& step.next == NextView::SplayFor(wait)
            &&& step.notice is Some && step.notice->0 is Changed
            &&& step.notice->0->splay_secs == wait / 1_000_000_000
            &&& splaying.pending() == NextView::SplayFor(wait)
            &&& last.next == NextView::Done
            &&& last.notice == Some(NoticeView::Draining)
            &&& last.gauge is None
            &&& ended.pending() == NextView::Done
        }),
{
}

/// An event that is not the one a watch waits for changes nothing, publishes
/// nothing and says nothing; the watch still waits for what it waited for.
pub proof fn an_event_out_of_turn_changes_nothing(state: WatcherView, event: EventView)
    requires
        !(state.pending() is PollAfter && event is Polled),
        !(state.pending() is ReadLeaves && event is LeavesRead),
        !(state.pending() is SplayFor && event is SplayElapsed),
    ensures
        state.advance(event).0 == state,
        state.advance(event).1.gauge is None,
        state.advance(event).1.notice is None,
        state.advance(event).1.next == state.pending(),
{
}

/// Hashing the files first and handing in the digests comes to the same as
/// handing in what was read; where no poll is waited for neither changes
/// anything.
pub proof fn comparing_digests_is_polling(state: WatcherView, contents: Seq<Option<Seq<u8>>>)
    ensures
        state.compared(state.inputs.on_disk(contents)) == state.advance(
            EventView::Polled(contents),
        ),
{
}

/// Digests handed in where no poll is waited for change nothing.
pub proof fn digests_out_of_turn_change_nothing(state: WatcherView, now: Seq<Option<Seq<u8>>>)
    requires
        !(state.pending() is PollAfter),
    ensures
        state.compared(now).0 == state,
        state.compared(now).1.gauge is None,
        state.compared(now).1.notice is None,
        state.compared(now).1.next == state.pending(),
{
}

/// Digests handed in where a poll is waited for are compared as they are, file
/// by file.
pub proof fn digests_are_compared_as_they_are(state: WatcherView, now: Seq<Option<Seq<u8>>>)
    requires
        state.phase is Polling,
    ensures
        ({
            let files = state.inputs.files;
            let changed = inputs::changed_names(files, now);
            let unreadable = inputs::unreadable_names(files, now);
            let (after, step) = state.compared(now);
            &&& step.gauge == Some(state.inputs.unreadable_gauge(unreadable.len() as int))
            &&& changed.len() > 0 ==> after.phase == (PhaseView::Changed { changed })
            &&& changed.len() == 0 ==> after.phase == (PhaseView::Polling {
                reported: unreadable,
            })
            &&& step.next == after.pending()
            &&& after.inputs == state.inputs
            &&& after.schedule == state.schedule
            &&& after.seed == state.seed
        }),
{
}

/// What a watch waits for is what its phase says.
pub proof fn a_phase_says_what_is_waited_for(state: WatcherView)
    ensures
        state.phase is Idle ==> state.pending() == NextView::Never,
        state.phase is Polling ==> state.pending() == NextView::PollAfter(state.schedule.poll),
        state.phase is Changed ==> state.pending() == NextView::ReadLeaves,
        state.phase is Splaying ==> state.pending() == NextView::SplayFor(
            splay::wait(state.schedule.splay_max, state.seed),
        ),
        state.phase is Ended ==> state.pending() == NextView::Done,
{
}

/// An event is what was read, a step is what it holds, and a span is a span.
pub proof fn an_event_and_a_step_are_what_they_hold(
    contents: Vec<Option<Vec<u8>>>,
    serving: Option<Vec<u8>>,
    client: Option<Vec<u8>>,
    step: Step,
    span: Duration,
)
    ensures
        Event::Polled(contents)@ == EventView::Polled(inputs::readings(contents@)),
        (Event::LeavesRead { serving, client })@ == (EventView::LeavesRead {
            serving: inputs::reading(serving),
            client: inputs::reading(client),
        }),
        Event::SplayElapsed@ == EventView::SplayElapsed,
        step.gauge is Some ==> step@.gauge == Some(step.gauge->0@),
        step.gauge is None ==> step@.gauge is None,
        step.notice is Some ==> step@.notice == Some(step.notice->0@),
        step.notice is None ==> step@.notice is None,
        step@.next == step.next@,
        Next::Never@ == NextView::Never,
        Next::PollAfter(span)@ == NextView::PollAfter(span@),
        Next::ReadLeaves@ == NextView::ReadLeaves,
        Next::SplayFor(span)@ == NextView::SplayFor(span@),
        Next::Done@ == NextView::Done,
{
}

/// A line for the log is what it holds.
pub proof fn a_notice_is_what_it_holds(
    names: String,
    watched: usize,
    before: (String, String),
    after: (String, String),
    secs: u64,
)
    ensures
        Notice::NothingWatched@ == NoticeView::NothingWatched,
        (Notice::UnreadAtBoot { unreadable: names, watched })@ == (NoticeView::UnreadAtBoot {
            unreadable: names@,
            watched: watched as nat,
        }),
        (Notice::Unreadable { unreadable: names })@ == (NoticeView::Unreadable {
            unreadable: names@,
        }),
        (Notice::Changed {
            serving_before: before.0,
            serving_after: after.0,
            client_before: before.1,
            client_after: after.1,
            changed: names,
            splay_secs: secs,
        })@ == (NoticeView::Changed {
            serving_before: before.0@,
            serving_after: after.0@,
            client_before: before.1@,
            client_after: after.1@,
            changed: names@,
            splay_secs: secs as nat,
        }),
        Notice::Draining@ == NoticeView::Draining,
{
}

} // verus!
