# yadgar-lifecycle

How a server process starts, stops and restarts, with the decisions proved.

A process reads its certificates, keys and passwords once, at boot. When one of
those files is replaced on disk the process waits out a splay of its own, drains
and ends, and is restarted onto the new file. This crate decides when that is,
what is published and logged on the way, how long the wait is, and when the
clock that bounds the drain starts.

## Layout

| place                          | what it holds                                                           |
| ------------------------------ | ----------------------------------------------------------------------- |
| `src/rotate/inputs.rs`         | `Inputs`: the watch set, its baseline digests, the loaded certificates   |
| `src/rotate/laws.rs`           | what holds of every watch set                                           |
| `src/rotate/watch.rs`          | `Watcher`: the watch as a state machine                                 |
| `src/rotate/watch_laws.rs`     | what holds of every watch                                               |
| `src/rotate/splay.rs`          | the wait before a rotation is acted on, and its seed                    |
| `src/rotate/schedule.rs`       | `Configuration` and `Schedule`: the two knobs and how they are read     |
| `src/rotate/schedule_error.rs` | every way a document refuses, and the line each is reported with        |
| `src/drain.rs`                 | `Draining`: when the budget's clock starts and what a drain comes to    |
| `src/path.rs`                  | `FilePath`: when two spellings name one place                           |
| `src/duration.rs`, `src/text.rs` | spans of time, and small pieces of text                               |
| `src/boundary.rs`              | every contract that is taken on trust, and for which outside function   |
| `app/`                         | files, clocks, signals, tasks, metrics and log lines                    |

`src/` never touches the machine. What a file holds, what time it is and what a
task returned are handed in; what to publish, what to log and what to do next
are handed back.

## A file the watcher cannot read

Every watched file is watched on its own, and one that cannot be read disables
nothing but itself.

| at boot        | now             | what happens                                       |
| -------------- | --------------- | -------------------------------------------------- |
| read           | different bytes | a rotation: the splay, then the end of the watch   |
| could not read | readable        | a rotation: this material was never loaded         |
| read           | cannot be read  | not a change: what was loaded is kept              |

How many files cannot be read is published when a watch begins and at every
poll, including when it is zero. An empty watch set publishes nothing.

## Where the schedule comes from

`tlsRotation.pollSeconds` and `tlsRotation.splayMaxSeconds` are read from
`/etc/yadgar/config/shared/shared.yaml` and from nowhere else. There is no
default: a knob that is not stated refuses the boot, naming the knob and the
file.
