//! Reading the schedule out of a document, and every way it can refuse.

use std::fmt;

use serde::de::{Deserialize, Deserializer, IgnoredAny, MapAccess, Visitor};
use yadgar_lifecycle::boundary::Knob;
use yadgar_lifecycle::rotate::schedule::{POLL_KNOB, SPLAY_MAX_KNOB};
use yadgar_lifecycle::rotate::{
    Configuration, Document, DocumentRead, Inputs, Schedule, ScheduleError, CONFIG_DIR,
    SHARED_DOCUMENT,
};
use yadgar_lifecycle::{Duration, FilePath};

/// A document as YAML writes it: one section, and whatever else.
struct Parsed(Document);

struct ParsedVisitor;

impl<'de> Visitor<'de> for ParsedVisitor {
    type Value = Parsed;

    fn expecting(&self, out: &mut fmt::Formatter<'_>) -> fmt::Result {
        out.write_str("a mapping")
    }

    fn visit_map<A: MapAccess<'de>>(self, mut map: A) -> Result<Parsed, A::Error> {
        let mut tls_rotation: Option<serde_norway::Mapping> = None;
        while let Some(key) = map.next_key::<String>()? {
            if key == "tlsRotation" {
                tls_rotation = map.next_value()?;
            } else {
                map.next_value::<IgnoredAny>()?;
            }
        }
        Ok(Parsed(Document { tls_rotation }))
    }
}

impl<'de> Deserialize<'de> for Parsed {
    fn deserialize<D: Deserializer<'de>>(deserializer: D) -> Result<Self, D::Error> {
        deserializer.deserialize_map(ParsedVisitor)
    }
}

const ROOT: &str = "/tmp/yadgar-config";

/// A document under a root of its own, read and parsed.
fn document(body: &str) -> (FilePath, Configuration, DocumentRead) {
    let config = Configuration::under(&FilePath::new(ROOT));
    let read = match serde_norway::from_str::<Option<Parsed>>(body) {
        Ok(document) => DocumentRead::Parsed(document.map(|Parsed(document)| document)),
        Err(source) => DocumentRead::Malformed(source),
    };
    (config.path().clone(), config, read)
}

fn schedule(body: &str) -> Result<Schedule, ScheduleError> {
    let (_, config, read) = document(body);
    config.schedule(read)
}

/// What a caller prints that walks the chain of errors.
fn flattened(error: &ScheduleError) -> String {
    let cause = match error {
        ScheduleError::Unreadable { source, .. } => source.to_string(),
        ScheduleError::Malformed { source, .. } => source.to_string(),
        ScheduleError::Unparsable { source, .. } => source.to_string(),
        _ => return error.message(),
    };
    format!("{}: {cause}", error.message())
}

fn directory() -> std::io::Error {
    std::io::Error::new(std::io::ErrorKind::IsADirectory, "Is a directory (os error 21)")
}

#[test]
fn the_stated_values_are_the_ones_used() {
    let schedule = schedule("tlsRotation:\n  pollSeconds: 17\n  splayMaxSeconds: 941\n").unwrap();
    assert_eq!(schedule.poll(), Duration::from_secs(17));
    assert_eq!(schedule.splay_max(), Duration::from_secs(941));
}

#[test]
fn a_zero_splay_is_allowed() {
    let schedule = schedule("tlsRotation:\n  pollSeconds: 60\n  splayMaxSeconds: 0\n").unwrap();
    assert_eq!(schedule.splay_max(), Duration::from_secs(0));
    assert_eq!(schedule.poll(), Duration::from_secs(60));
}

#[test]
fn a_quoted_whole_number_is_the_same_value() {
    let schedule =
        schedule("tlsRotation:\n  pollSeconds: \"17\"\n  splayMaxSeconds: \"941\"\n").unwrap();
    assert_eq!(schedule.poll(), Duration::from_secs(17));
    assert_eq!(schedule.splay_max(), Duration::from_secs(941));
}

#[test]
fn a_knob_this_crate_does_not_read_is_ignored() {
    let schedule = schedule(
        "audit:\n  retentionDays: 90\ntlsRotation:\n  pollSeconds: 17\n  splayMaxSeconds: 941\n",
    )
    .unwrap();
    assert_eq!(schedule.poll(), Duration::from_secs(17));
}

#[test]
fn the_document_joins_the_watch_set() {
    let body = "tlsRotation:\n  pollSeconds: 60\n  splayMaxSeconds: 1\n";
    let (path, config, _) = document(body);
    let inputs = Inputs::of("test", &[&config], &[vec![Some(body.as_bytes().to_vec())]]);
    assert_eq!(inputs.watched(), vec![&path]);
}

#[test]
fn an_absent_document_refuses_and_names_the_file() {
    let config = Configuration::under(&FilePath::new(ROOT));
    let error = config.schedule(DocumentRead::NotFound).unwrap_err();
    assert!(
        matches!(error, ScheduleError::Absent { .. }),
        "an absent document must refuse, got {error:?}"
    );
    assert!(
        error.message().contains("shared/shared.yaml"),
        "the refusal must name the file: {}",
        error.message()
    );
}

#[test]
fn a_document_that_defines_nothing_refuses_naming_the_knob() {
    let (path, config, read) = document("# every knob deleted\n");
    let error = config.schedule(read).unwrap_err();
    assert!(
        matches!(error, ScheduleError::Missing { knob, .. } if knob == POLL_KNOB),
        "got {error:?}"
    );
    let message = error.message();
    assert!(
        message.contains("tlsRotation.pollSeconds"),
        "must name the knob: {message}"
    );
    assert!(
        message.contains(&path.display()),
        "must name the file: {message}"
    );
}

#[test]
fn each_knob_is_named_when_it_is_the_missing_one() {
    for (body, expected) in [
        ("tlsRotation:\n  splayMaxSeconds: 300\n", POLL_KNOB),
        ("tlsRotation:\n  pollSeconds: 60\n", SPLAY_MAX_KNOB),
    ] {
        let error = schedule(body).unwrap_err();
        assert!(
            matches!(error, ScheduleError::Missing { knob, .. } if knob == expected),
            "{body:?} must refuse naming {expected}, got {error:?}"
        );
    }
}

#[test]
fn an_empty_knob_is_not_the_same_case_as_a_missing_one() {
    let empty = schedule("tlsRotation:\n  pollSeconds:\n  splayMaxSeconds: 300\n").unwrap_err();
    let missing = schedule("tlsRotation:\n  splayMaxSeconds: 300\n").unwrap_err();
    assert!(
        matches!(empty, ScheduleError::Empty { knob, .. } if knob == POLL_KNOB),
        "an empty knob must report as empty, got {empty:?}"
    );
    assert!(matches!(missing, ScheduleError::Missing { .. }));
    assert_ne!(
        empty.message(),
        missing.message(),
        "the two faults must not read identically"
    );
    // The quoted-empty form is the same fault written another way.
    let quoted = schedule("tlsRotation:\n  pollSeconds: \"  \"\n  splayMaxSeconds: 1\n");
    assert!(matches!(quoted.unwrap_err(), ScheduleError::Empty { .. }));
}

#[test]
fn a_zero_poll_interval_is_refused() {
    let error = schedule("tlsRotation:\n  pollSeconds: 0\n  splayMaxSeconds: 300\n").unwrap_err();
    assert!(matches!(error, ScheduleError::ZeroPoll { .. }));

    let message = error.message();
    assert!(
        message.contains("tlsRotation.pollSeconds"),
        "must name the knob that is 0: {message}"
    );
    assert!(
        message.contains("tlsRotation.splayMaxSeconds"),
        "must name the knob whose 0 IS supported, or the contrast it draws is unreadable: {message}"
    );
}

#[test]
fn a_value_that_is_not_a_whole_number_of_seconds_is_refused() {
    for (knob, value) in [
        (POLL_KNOB, "60s"),
        (POLL_KNOB, "-1"),
        (POLL_KNOB, "1.5"),
        (SPLAY_MAX_KNOB, "five minutes"),
        (SPLAY_MAX_KNOB, "[1, 2]"),
    ] {
        let body = if knob == POLL_KNOB {
            format!("tlsRotation:\n  pollSeconds: {value}\n  splayMaxSeconds: 300\n")
        } else {
            format!("tlsRotation:\n  pollSeconds: 60\n  splayMaxSeconds: {value}\n")
        };
        let error = schedule(&body).unwrap_err();
        assert!(
            matches!(&error, ScheduleError::Unparsable { knob: named, .. } if *named == knob),
            "{knob}={value:?} must be refused naming the knob, got {error:?}"
        );
    }
}

#[test]
fn a_file_that_is_not_yaml_is_refused_as_malformed() {
    assert!(matches!(
        schedule("tlsRotation:\n  pollSeconds: 60\n :\n\t- broken\n"),
        Err(ScheduleError::Malformed { .. })
    ));
}

#[test]
fn a_directory_where_the_document_should_be_is_refused_with_the_reason() {
    let config = Configuration::under(&FilePath::new(ROOT));
    let error = config
        .schedule(DocumentRead::Failed(directory()))
        .unwrap_err();
    assert!(
        matches!(error, ScheduleError::Unreadable { .. }),
        "a directory at the document's path must refuse, got {error:?}"
    );
    let message = error.message();
    assert!(
        message.contains(&config.path().display()),
        "must name the file: {message}"
    );
    assert!(
        message.contains("mountPath"),
        "must name the likely cause: {message}"
    );
}

#[test]
fn the_mount_path_is_the_one_the_chart_writes() {
    assert_eq!(CONFIG_DIR, "/etc/yadgar/config");
    assert_eq!(SHARED_DOCUMENT, "shared/shared.yaml");
    assert_eq!(
        Configuration::mounted().path(),
        &FilePath::new("/etc/yadgar/config/shared/shared.yaml")
    );
}

#[test]
fn the_knob_paths_are_the_ones_an_operator_edits() {
    assert_eq!(POLL_KNOB, "tlsRotation.pollSeconds");
    assert_eq!(SPLAY_MAX_KNOB, "tlsRotation.splayMaxSeconds");
}

#[test]
fn a_source_bearing_variant_does_not_also_interpolate_it() {
    let config = Configuration::under(&FilePath::new(ROOT));
    let cases = vec![
        (
            "Unreadable",
            config
                .schedule(DocumentRead::Failed(directory()))
                .unwrap_err(),
        ),
        ("Malformed", schedule("tlsRotation: [1, 2]\n").unwrap_err()),
        (
            "Unparsable",
            schedule("tlsRotation:\n  pollSeconds: 60s\n  splayMaxSeconds: 300\n").unwrap_err(),
        ),
    ];
    for (variant, error) in cases {
        let cause = match (variant, &error) {
            ("Unreadable", ScheduleError::Unreadable { source, .. }) => source.to_string(),
            ("Malformed", ScheduleError::Malformed { source, .. }) => source.to_string(),
            ("Unparsable", ScheduleError::Unparsable { source, .. }) => source.to_string(),
            _ => panic!("the {variant} case produced {error:?} instead"),
        };
        let flat = flattened(&error);
        assert_eq!(
            flat.matches(&cause).count(),
            1,
            "{variant} prints its cause more than once in a walked chain.\n  cause:  {cause}\n  \
             walked: {flat}"
        );
    }
}

#[test]
fn the_walked_message_for_an_unparsable_knob_reads_end_to_end() {
    let (path, config, read) =
        document("tlsRotation:\n  pollSeconds: 60s\n  splayMaxSeconds: 300\n");
    let error = config.schedule(read).unwrap_err();
    assert_eq!(
        flattened(&error),
        format!(
            "A knob that is not a whole number of seconds is refused rather \
             than replaced with a default, because a deployment that \
             believes it set this and did not would run an interval nobody \
             chose and see nothing wrong. tlsRotation.pollSeconds in {} is \
             \"60s\": invalid digit found in string",
            path.display()
        )
    );
}

#[test]
fn every_message_reads_as_it_is_written_down() {
    let path = "/x/shared.yaml";
    let absent = ScheduleError::Absent {
        path: path.to_string(),
    };
    assert_eq!(
        absent.message(),
        "/x/shared.yaml does not exist, so no configuration was read. It is the shared document \
         of the configuration chart in yadgarhq/config, mounted from the ConfigMap `shared`. \
         There is no default to fall back to (ADR-0569): every knob has one source and this is \
         it. If the pod reached this point at all the volume mounted, so the likely fault is a \
         mountPath that disagrees with the chart rather than a missing ConfigMap — a missing \
         ConfigMap keeps the pod in ContainerCreating instead."
    );
    let unreadable = ScheduleError::Unreadable {
        path: path.to_string(),
        source: directory(),
    };
    assert_eq!(
        unreadable.message(),
        "A file this process must read exists and cannot be read. The likeliest cause is a chart \
         whose `mountPath` names the FILE rather than the directory holding it: kubelet then \
         creates a DIRECTORY at this path and the read fails as `Is a directory`. Mount the \
         ConfigMap at /etc/yadgar/config/<name> and let the key become the file inside it. \
         Reading /x/shared.yaml failed"
    );
    let malformed = ScheduleError::Malformed {
        path: path.to_string(),
        source: serde_norway::from_str::<u64>("[").unwrap_err(),
    };
    assert_eq!(
        malformed.message(),
        "The file is either not parseable YAML at all, or a part of it is the wrong KIND: the \
         document must be a mapping, and `tlsRotation` within it must be a mapping of knobs \
         rather than a scalar or a list. Note that a wrong-KIND file is still valid YAML, so a \
         YAML linter will call it clean. /x/shared.yaml does not have the shape this reader \
         expects"
    );
    let missing = ScheduleError::Missing {
        knob: POLL_KNOB,
        path: path.to_string(),
    };
    assert_eq!(
        missing.message(),
        "tlsRotation.pollSeconds is not defined in /x/shared.yaml. That file is the only place \
         it is read from — there is no compiled-in default and no fallback (ADR-0569) — so this \
         process refuses to start rather than run a value nobody chose. Add the line to the \
         document, or restore it from the template in yadgarhq/config."
    );
    let empty = ScheduleError::Empty {
        knob: SPLAY_MAX_KNOB,
        path: path.to_string(),
    };
    assert_eq!(
        empty.message(),
        "tlsRotation.splayMaxSeconds is present in /x/shared.yaml and has no value. That is a \
         DIFFERENT fault from the knob being missing and is reported separately on purpose: an \
         empty setting is usually a half-finished edit, and collapsing the two cases into one is \
         how a deployment ends up believing it configured something it did not."
    );
    let zero = ScheduleError::ZeroPoll {
        path: path.to_string(),
    };
    assert_eq!(
        zero.message(),
        "tlsRotation.pollSeconds in /x/shared.yaml is 0, which is not a poll interval. Sleeping \
         for no time at all turns the rotation watcher into a loop that re-reads and re-hashes \
         the watched files as fast as a core allows, for the life of the pod. Set it to at least \
         1. Nothing is turned OFF by setting it to 0 — an empty watch set is what leaves the \
         watcher idle. tlsRotation.splayMaxSeconds is different: 0 there means exit at once, \
         which is a supported choice."
    );
}

fn knob(null: bool, whole: Option<u64>, text: Option<&str>, rendered: Option<&str>) -> Option<Knob> {
    Some(Knob {
        null,
        whole,
        text: text.map(str::to_string),
        rendered: rendered.map(str::to_string),
    })
}

#[test]
fn one_knob_is_read_from_what_its_value_answers() {
    let config = Configuration::mounted();
    let seconds = |value: Option<Knob>| config.seconds(POLL_KNOB, value);

    assert!(matches!(seconds(None), Err(ScheduleError::Missing { .. })));
    assert!(matches!(
        seconds(knob(true, None, None, Some("null\n"))),
        Err(ScheduleError::Empty { .. })
    ));
    assert_eq!(
        seconds(knob(false, Some(u64::MAX), None, Some("18446744073709551615\n"))).unwrap(),
        Duration::from_secs(u64::MAX)
    );
    assert_eq!(
        seconds(knob(false, None, Some(" +042\t"), None)).unwrap(),
        Duration::from_secs(42)
    );
    assert!(matches!(
        seconds(knob(false, None, None, None)),
        Err(ScheduleError::Empty { .. })
    ));
    let error = seconds(knob(false, None, None, Some("1.5\n"))).unwrap_err();
    assert!(
        matches!(&error, ScheduleError::Unparsable { value, .. } if value == "1.5\n"),
        "the value is quoted as it was written: {error:?}"
    );
    assert!(error.message().ends_with("is \"1.5\\n\""));
    for text in ["", "+", "-", "++1", "1 2", "18446744073709551616", "0x10", "١"] {
        let outcome = seconds(knob(false, None, Some(text), None));
        if text.is_empty() {
            assert!(matches!(outcome, Err(ScheduleError::Empty { .. })));
        } else {
            assert!(
                matches!(outcome, Err(ScheduleError::Unparsable { .. })),
                "{text:?} states no whole number"
            );
        }
    }
}

#[test]
fn the_poll_interval_is_looked_at_before_the_splay() {
    let both = schedule("tlsRotation:\n  pollSeconds: x\n  splayMaxSeconds: y\n").unwrap_err();
    assert!(matches!(both, ScheduleError::Unparsable { knob, .. } if knob == POLL_KNOB));
    let zero = schedule("tlsRotation:\n  pollSeconds: 0\n").unwrap_err();
    assert!(matches!(zero, ScheduleError::ZeroPoll { .. }));
}

#[test]
fn a_document_without_its_section_defines_no_knob() {
    for body in ["", "audit:\n  retentionDays: 90\n", "tlsRotation:\n"] {
        assert!(matches!(
            schedule(body),
            Err(ScheduleError::Missing { knob, .. }) if knob == POLL_KNOB
        ));
    }
}

#[test]
fn another_knob_in_the_same_section_is_ignored() {
    let schedule = schedule(
        "tlsRotation:\n  7: x\n  pollSeconds: 17\n  other: [1]\n  splayMaxSeconds: 941\n",
    )
    .unwrap();
    assert_eq!(schedule.poll(), Duration::from_secs(17));
    assert_eq!(schedule.splay_max(), Duration::from_secs(941));
}

#[test]
fn the_document_is_read_under_any_root() {
    assert_eq!(
        Configuration::under(&FilePath::new("/srv/")).path().display(),
        "/srv/shared/shared.yaml"
    );
    assert_eq!(
        Configuration::under(&FilePath::new("")).path().display(),
        "shared/shared.yaml"
    );
}

#[test]
fn schedule_error_the_mount_path_is_the_one_the_chart_writes() {
    the_mount_path_is_the_one_the_chart_writes();
}

#[test]
fn schedule_error_the_knob_paths_are_the_ones_an_operator_edits() {
    the_knob_paths_are_the_ones_an_operator_edits();
}

#[test]
fn schedule_error_an_absent_document_refuses_and_names_the_file() {
    an_absent_document_refuses_and_names_the_file();
}

#[test]
fn schedule_error_a_document_that_defines_nothing_refuses_naming_the_knob() {
    a_document_that_defines_nothing_refuses_naming_the_knob();
}

#[test]
fn schedule_error_each_knob_is_named_when_it_is_the_missing_one() {
    each_knob_is_named_when_it_is_the_missing_one();
}

#[test]
fn schedule_error_an_empty_knob_is_not_the_same_case_as_a_missing_one() {
    an_empty_knob_is_not_the_same_case_as_a_missing_one();
}

#[test]
fn schedule_error_a_zero_poll_interval_is_refused() {
    a_zero_poll_interval_is_refused();
}

#[test]
fn schedule_error_a_value_that_is_not_a_whole_number_of_seconds_is_refused() {
    a_value_that_is_not_a_whole_number_of_seconds_is_refused();
}

#[test]
fn schedule_error_a_file_that_is_not_yaml_is_refused_as_malformed() {
    a_file_that_is_not_yaml_is_refused_as_malformed();
}
