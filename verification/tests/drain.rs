//! When the budget's clock starts, and what a drain comes to.

use yadgar_lifecycle::drain::{Act, Draining, Occurrence};
use yadgar_lifecycle::{Drain, Duration};

fn budget() -> Duration {
    Duration::from_millis(100)
}

/// A drain whose server was asked to stop, and whose clock runs.
fn stopping<T>() -> Draining<T> {
    Draining::within(budget())
        .observe(Occurrence::StopRequested)
        .observe(Occurrence::Asked)
}

#[test]
fn the_budget_does_not_run_until_something_asks_the_server_to_stop() {
    let draining: Draining<()> = Draining::within(budget());
    assert_eq!(draining.act(), Act::AwaitStop);

    // A clock that ran out before anything was asked is not looked at, and no
    // clock is started.
    let draining = draining.observe(Occurrence::Expired);
    assert_eq!(draining.act(), Act::AwaitStop);

    let draining = draining.observe(Occurrence::StopRequested);
    assert_eq!(draining.act(), Act::AskToStop);
    let draining = draining.observe(Occurrence::Expired);
    assert_eq!(draining.act(), Act::AskToStop);
    let draining = draining.observe(Occurrence::Asked);
    assert_eq!(draining.act(), Act::AwaitEnd(budget()));

    let draining = draining.observe(Occurrence::Ended(()));
    assert!(
        matches!(draining.outcome(), Some(Drain::Finished(()))),
        "a server with nothing in flight drains at once"
    );
}

#[test]
fn a_drain_that_is_not_over_has_no_outcome() {
    let serving: Draining<()> = Draining::within(budget());
    assert!(serving.outcome().is_none());
    let ended = Draining::within(budget()).observe(Occurrence::Ended(()));
    assert!(ended.outcome().is_none());
    let asking: Draining<()> = Draining::within(budget()).observe(Occurrence::StopRequested);
    assert!(asking.outcome().is_none());
    assert!(stopping::<()>().outcome().is_none());
}

#[test]
fn a_drain_that_finishes_inside_its_budget_carries_what_the_server_returned() {
    let draining = stopping().observe(Occurrence::Ended("returned"));
    assert_eq!(draining.act(), Act::Finish);
    assert!(matches!(
        draining.outcome(),
        Some(Drain::Finished("returned"))
    ));
}

#[test]
fn a_drain_that_overruns_its_budget_ends_anyway() {
    let draining = stopping::<()>().observe(Occurrence::Expired);
    assert_eq!(draining.act(), Act::Finish);
    assert!(matches!(draining.outcome(), Some(Drain::Overran)));
}

#[test]
fn what_became_of_a_drain_stands() {
    let draining: Draining<u8> = stopping()
        .observe(Occurrence::StopRequested)
        .observe(Occurrence::Asked)
        .observe(Occurrence::Ended(7))
        .observe(Occurrence::Expired)
        .observe(Occurrence::Ended(8));
    assert!(matches!(draining.outcome(), Some(Drain::Finished(7))));
}

#[test]
fn a_server_that_already_stopped_drains_at_once() {
    let draining =
        Draining::within(budget()).observe(Occurrence::Ended("whatever the server returned"));
    assert_eq!(
        draining.act(),
        Act::AwaitStop,
        "nothing has asked for a drain yet"
    );

    // What it returned is kept, whatever else occurs before it is asked for.
    let draining = draining
        .observe(Occurrence::Expired)
        .observe(Occurrence::Ended("something else"))
        .observe(Occurrence::StopRequested);
    assert_eq!(
        draining.act(),
        Act::AskToStop,
        "every stop is handed on, though nobody may be there to hear it"
    );
    let draining = draining.observe(Occurrence::Asked);
    assert_eq!(draining.act(), Act::Finish);
    assert!(matches!(
        draining.observe(Occurrence::Expired).outcome(),
        Some(Drain::Finished("whatever the server returned"))
    ));
}

#[test]
fn a_server_that_stops_as_it_is_asked_drains_at_once() {
    let draining: Draining<u8> = Draining::within(budget())
        .observe(Occurrence::StopRequested)
        .observe(Occurrence::Ended(7))
        .observe(Occurrence::Asked);
    assert!(matches!(draining.outcome(), Some(Drain::Finished(7))));
}
