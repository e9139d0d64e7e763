//! What holds of every document a schedule is read out of.

use crate::boundary;
use crate::boundary::{Knob, KnobView};
use crate::rotate::schedule;
use crate::rotate::schedule::{Document, DocumentRead, ScheduleView};
use crate::rotate::schedule_error::{Refusal, ScheduleError};
use crate::text;
use crate::text_laws;
use vstd::prelude::*;

verus! {

/// **A whole number of seconds is that number of seconds**, every one of them,
/// however it might be written besides.
pub proof fn a_whole_number_is_taken_as_it_is(
    knob: Seq<char>,
    path: Seq<char>,
    value: KnobView,
    n: u64,
)
    requires
        !value.null,
        value.whole == Some(n),
    ensures
        schedule::stated(knob, path, Some(value)) == Ok::<u64, Refusal>(n),
{
}

/// **A number in a text is the same number**: its decimal digits, with a plus
/// sign before them or without, and with any white space round them, state it as
/// the number itself would.
pub proof fn a_number_in_a_text_is_the_same_number(
    knob: Seq<char>,
    path: Seq<char>,
    value: KnobView,
    n: u64,
    plus: bool,
    before: Seq<char>,
    after: Seq<char>,
)
    requires
        !value.null,
        value.whole is None,
        value.text is Some,
        text_laws::is_blank(before),
        text_laws::is_blank(after),
        value.text->0 == before + (if plus {
            seq!['+'] + text_laws::decimal_digits(n as nat)
        } else {
            text_laws::decimal_digits(n as nat)
        }) + after,
    ensures
        schedule::stated(knob, path, Some(value)) == Ok::<u64, Refusal>(n),
{
    let digits = text_laws::decimal_digits(n as nat);
    let core = if plus {
        seq!['+'] + digits
    } else {
        digits
    };
    text_laws::the_digits_of_a_number_state_it(n);
    lemma_digits_are_not_blank(n as nat);
    assert(core.last() == digits.last());
    text_laws::trimming_undoes_padding(before, core, after);
}

proof fn lemma_digits_are_not_blank(n: nat)
    ensures
        text_laws::decimal_digits(n).len() > 0,
        '0' <= text_laws::decimal_digits(n)[0] <= '9',
        '0' <= text_laws::decimal_digits(n).last() <= '9',
    decreases n,
{
    if n >= 10 {
        lemma_digits_are_not_blank(n / 10);
    }
}

/// A knob that is not there is missing, and one with no value is empty: neither
/// is the other, and neither is a number.
pub proof fn a_missing_knob_is_not_an_empty_one(knob: Seq<char>, path: Seq<char>, value: KnobView)
    ensures
        schedule::stated(knob, path, None) == Err::<u64, Refusal>(Refusal::Missing { knob, path }),
        value.null ==> schedule::stated(knob, path, Some(value)) == Err::<u64, Refusal>(
            Refusal::Empty { knob, path },
        ),
{
}

/// What is blank is empty, whichever way it is written.
pub proof fn a_blank_knob_is_an_empty_one(knob: Seq<char>, path: Seq<char>, value: KnobView)
    requires
        value.whole is None,
        value.text is Some ==> text_laws::is_blank(value.text->0),
        value.text is None && value.rendered is Some ==> text_laws::is_blank(value.rendered->0),
    ensures
        schedule::stated(knob, path, Some(value)) == Err::<u64, Refusal>(
            Refusal::Empty { knob, path },
        ),
{
    let nothing = Seq::<char>::empty();
    let raw = schedule::raw(value);
    text_laws::trimming_undoes_padding(raw, nothing, nothing);
    assert(raw + nothing + nothing =~= raw);
}

/// **Anything else is refused by name**, with the value as it is written: a text
/// that, with the white space at its ends taken off, is neither nothing nor a
/// whole number; or a value that is no text, written out.
pub proof fn anything_else_is_refused_as_it_is_written(
    knob: Seq<char>,
    path: Seq<char>,
    value: KnobView,
    written: Seq<char>,
)
    requires
        !value.null,
        value.whole is None,
        value.text == Some(written) || (value.text is None && value.rendered == Some(written)),
        text::trimmed(written).len() > 0,
        boundary::decimal(text::trimmed(written)) is None,
    ensures
        schedule::stated(knob, path, Some(value)) == Err::<u64, Refusal>(
            Refusal::Unparsable {
                knob,
                path,
                value: written,
                source: boundary::decimal_fault(text::trimmed(written)),
            },
        ),
{
}

/// A value that is no text is read as it is written out, like a text.
pub proof fn a_value_that_is_no_text_is_read_as_it_is_written(
    knob: Seq<char>,
    path: Seq<char>,
    value: KnobView,
    written: Seq<char>,
    n: u64,
)
    requires
        !value.null,
        value.whole is None,
        value.text == Some(written) || (value.text is None && value.rendered == Some(written)),
        boundary::decimal(text::trimmed(written)) == Some(n),
    ensures
        schedule::stated(knob, path, Some(value)) == Ok::<u64, Refusal>(n),
{
    if text::trimmed(written).len() == 0 {
        text_laws::what_is_not_a_digit_states_no_number(text::trimmed(written), 0);
    }
}

/// **The schedule is the two numbers under the two keys of the section**: where
/// `pollSeconds` states a number that is not zero and `splayMaxSeconds` states
/// one, the schedule polls every so many seconds and waits for that many at
/// most.
pub proof fn the_schedule_is_the_two_numbers(
    section: Map<Seq<char>, KnobView>,
    path: Seq<char>,
    poll: u64,
    splay_max: u64,
)
    requires
        section.dom().contains("pollSeconds"@),
        section.dom().contains("splayMaxSeconds"@),
        schedule::stated(
            "tlsRotation.pollSeconds"@,
            path,
            Some(section["pollSeconds"@]),
        ) == Ok::<u64, Refusal>(poll),
        schedule::stated(
            "tlsRotation.splayMaxSeconds"@,
            path,
            Some(section["splayMaxSeconds"@]),
        ) == Ok::<u64, Refusal>(splay_max),
        poll > 0,
    ensures
        schedule::stated_schedule(section, path) is Ok,
        schedule::stated_schedule(section, path)->Ok_0.poll == poll * 1_000_000_000,
        schedule::stated_schedule(section, path)->Ok_0.splay_max == splay_max * 1_000_000_000,
{
}

/// **Two whole numbers are a schedule of that many seconds each**, whatever they
/// are, save a poll interval of zero.
pub proof fn two_whole_numbers_are_a_schedule(
    section: Map<Seq<char>, KnobView>,
    path: Seq<char>,
    poll: u64,
    splay_max: u64,
)
    requires
        section.dom().contains("pollSeconds"@),
        section.dom().contains("splayMaxSeconds"@),
        !section["pollSeconds"@].null,
        !section["splayMaxSeconds"@].null,
        section["pollSeconds"@].whole == Some(poll),
        section["splayMaxSeconds"@].whole == Some(splay_max),
    ensures
        poll > 0 ==> {
            &&& schedule::stated_schedule(section, path) is Ok
            &&& schedule::stated_schedule(section, path)->Ok_0.poll == poll * 1_000_000_000
            &&& schedule::stated_schedule(section, path)->Ok_0.splay_max == splay_max
                * 1_000_000_000
        },
        poll == 0 ==> schedule::stated_schedule(section, path) == Err::<ScheduleView, Refusal>(
            Refusal::ZeroPoll { path },
        ),
{
}

/// The poll interval is looked at first: where it is refused that is the
/// refusal, whatever the other knob says, and a poll interval of zero is refused
/// before the other knob is looked at.
pub proof fn the_poll_interval_is_looked_at_first(
    section: Map<Seq<char>, KnobView>,
    path: Seq<char>,
)
    ensures
        ({
            let key = "pollSeconds"@;
            let value = if section.dom().contains(key) {
                Some(section[key])
            } else {
                None
            };
            let poll = schedule::stated("tlsRotation.pollSeconds"@, path, value);
            &&& poll is Err ==> schedule::stated_schedule(section, path) == Err::<
                ScheduleView,
                Refusal,
            >(poll->Err_0)
            &&& poll == Ok::<u64, Refusal>(0) ==> schedule::stated_schedule(section, path) == Err::<
                ScheduleView,
                Refusal,
            >(Refusal::ZeroPoll { path })
        }),
{
}

/// Where the poll interval stands, a refusal of the other knob is the refusal.
pub proof fn the_splay_is_looked_at_second(section: Map<Seq<char>, KnobView>, path: Seq<char>)
    requires
        section.dom().contains("pollSeconds"@),
        schedule::stated(
            "tlsRotation.pollSeconds"@,
            path,
            Some(section["pollSeconds"@]),
        ) is Ok,
        schedule::stated(
            "tlsRotation.pollSeconds"@,
            path,
            Some(section["pollSeconds"@]),
        )->Ok_0 > 0,
    ensures
        ({
            let key = "splayMaxSeconds"@;
            let value = if section.dom().contains(key) {
                Some(section[key])
            } else {
                None
            };
            let splay_max = schedule::stated("tlsRotation.splayMaxSeconds"@, path, value);
            splay_max is Err ==> schedule::stated_schedule(section, path) == Err::<
                ScheduleView,
                Refusal,
            >(splay_max->Err_0)
        }),
{
}

/// **Every way a document can fail is its own refusal**, naming the document and
/// carrying its cause.
pub proof fn every_failed_read_is_its_own_refusal(
    path: Seq<char>,
    read: std::io::Error,
    parse: serde_norway::Error,
)
    ensures
        schedule::schedule_read(DocumentRead::NotFound, path) == Err::<ScheduleView, Refusal>(
            Refusal::Absent { path },
        ),
        schedule::schedule_read(DocumentRead::Failed(read), path) == Err::<ScheduleView, Refusal>(
            Refusal::Unreadable { path, source: read },
        ),
        schedule::schedule_read(DocumentRead::Malformed(parse), path) == Err::<
            ScheduleView,
            Refusal,
        >(Refusal::Malformed { path, source: parse }),
{
}

/// A document that was read states the schedule its section states; one that
/// holds nothing, or no section, misses the first knob.
pub proof fn a_document_states_what_its_section_states(
    path: Seq<char>,
    section: serde_norway::Mapping,
)
    ensures
        schedule::schedule_read(
            DocumentRead::Parsed(Some(Document { tls_rotation: Some(section) })),
            path,
        ) == schedule::stated_schedule(boundary::entries(section), path),
        schedule::schedule_read(
            DocumentRead::Parsed(Some(Document { tls_rotation: None })),
            path,
        ) == Err::<ScheduleView, Refusal>(
            Refusal::Missing { knob: "tlsRotation.pollSeconds"@, path },
        ),
        schedule::schedule_read(DocumentRead::Parsed(None), path) == Err::<ScheduleView, Refusal>(
            Refusal::Missing { knob: "tlsRotation.pollSeconds"@, path },
        ),
{
}

/// A knob is the answers its value gave.
pub proof fn a_knob_is_what_its_value_answers(knob: Knob)
    ensures
        knob@.null == knob.null,
        knob@.whole == knob.whole,
        knob.text is Some ==> knob@.text == Some(knob.text->0@),
        knob.text is None ==> knob@.text is None,
        knob.rendered is Some ==> knob@.rendered == Some(knob.rendered->0@),
        knob.rendered is None ==> knob@.rendered is None,
        schedule::knob_view(Some(knob)) == Some(knob@),
        schedule::knob_view(None) is None,
{
}

/// A refusal is what it holds.
pub proof fn a_refusal_is_what_it_holds(
    path: String,
    knob: &'static str,
    value: String,
    read: std::io::Error,
    parse: serde_norway::Error,
    number: std::num::ParseIntError,
)
    ensures
        (ScheduleError::Absent { path })@ == (Refusal::Absent { path: path@ }),
        (ScheduleError::Unreadable { path, source: read })@ == (Refusal::Unreadable {
            path: path@,
            source: read,
        }),
        (ScheduleError::Malformed { path, source: parse })@ == (Refusal::Malformed {
            path: path@,
            source: parse,
        }),
        (ScheduleError::Missing { knob, path })@ == (Refusal::Missing {
            knob: knob@,
            path: path@,
        }),
        (ScheduleError::Empty { knob, path })@ == (Refusal::Empty { knob: knob@, path: path@ }),
        (ScheduleError::Unparsable { knob, path, value, source: number })@ == (
        Refusal::Unparsable { knob: knob@, path: path@, value: value@, source: number }),
        (ScheduleError::ZeroPoll { path })@ == (Refusal::ZeroPoll { path: path@ }),
{
}

/// **Only the file, the knob and the value change in a message**: each reads as
/// the same refusal of another file, knob or value does, with these put in its
/// place, so that what one message says every message of its variant says.
pub proof fn a_message_is_its_text_with_the_names_put_in(
    path: Seq<char>,
    knob: Seq<char>,
    value: Seq<char>,
    read: std::io::Error,
    parse: serde_norway::Error,
    number: std::num::ParseIntError,
)
    ensures
        ({
            let none = Seq::<char>::empty();
            let absent = (Refusal::Absent { path: none }).message();
            (Refusal::Absent { path }).message() == path + absent
        }),
        ({
            let none = Seq::<char>::empty();
            let text = (Refusal::Unreadable { path: none, source: read }).message();
            let at = text.len() - " failed"@.len();
            (Refusal::Unreadable { path, source: read }).message() == text.take(at) + path
                + text.skip(at)
        }),
        ({
            let none = Seq::<char>::empty();
            let text = (Refusal::Malformed { path: none, source: parse }).message();
            let at = text.len() - " does not have the shape this reader expects"@.len();
            (Refusal::Malformed { path, source: parse }).message() == text.take(at) + path
                + text.skip(at)
        }),
        ({
            let none = Seq::<char>::empty();
            let text = (Refusal::Missing { knob: none, path: none }).message();
            let at = " is not defined in "@.len() as int;
            (Refusal::Missing { knob, path }).message() == knob + text.take(at) + path
                + text.skip(at)
        }),
        ({
            let none = Seq::<char>::empty();
            let text = (Refusal::Empty { knob: none, path: none }).message();
            let at = " is present in "@.len() as int;
            (Refusal::Empty { knob, path }).message() == knob + text.take(at) + path
                + text.skip(at)
        }),
        ({
            let none = Seq::<char>::empty();
            let text = (Refusal::ZeroPoll { path: none }).message();
            let at = ("tlsRotation.pollSeconds"@ + " in "@).len() as int;
            (Refusal::ZeroPoll { path }).message() == text.take(at) + path + text.skip(at)
        }),
        ({
            let none = Seq::<char>::empty();
            let text = (Refusal::Unparsable {
                knob: none,
                path: none,
                value: none,
                source: number,
            }).message();
            let head = text.len() - " in "@.len() - " is "@.len() - boundary::quoted(none).len();
            (Refusal::Unparsable { knob, path, value, source: number }).message() == text.take(
                head,
            ) + knob + " in "@ + path + " is "@ + boundary::quoted(value)
        }),
{
    let none = Seq::<char>::empty();
    let absent = (Refusal::Absent { path: none }).message();
    assert((Refusal::Absent { path }).message() =~= path + absent);
    let unreadable = (Refusal::Unreadable { path: none, source: read }).message();
    let at = unreadable.len() - " failed"@.len();
    assert((Refusal::Unreadable { path, source: read }).message() =~= unreadable.take(at) + path
        + unreadable.skip(at));
    let malformed = (Refusal::Malformed { path: none, source: parse }).message();
    let at = malformed.len() - " does not have the shape this reader expects"@.len();
    assert((Refusal::Malformed { path, source: parse }).message() =~= malformed.take(at) + path
        + malformed.skip(at));
    let missing = (Refusal::Missing { knob: none, path: none }).message();
    let at = " is not defined in "@.len() as int;
    assert((Refusal::Missing { knob, path }).message() =~= knob + missing.take(at) + path
        + missing.skip(at));
    let empty = (Refusal::Empty { knob: none, path: none }).message();
    let at = " is present in "@.len() as int;
    assert((Refusal::Empty { knob, path }).message() =~= knob + empty.take(at) + path + empty.skip(
        at,
    ));
    let zero = (Refusal::ZeroPoll { path: none }).message();
    let at = ("tlsRotation.pollSeconds"@ + " in "@).len() as int;
    assert((Refusal::ZeroPoll { path }).message() =~= zero.take(at) + path + zero.skip(at));
    let unparsable = (Refusal::Unparsable {
        knob: none,
        path: none,
        value: none,
        source: number,
    }).message();
    let head = unparsable.len() - " in "@.len() - " is "@.len() - boundary::quoted(none).len();
    assert((Refusal::Unparsable { knob, path, value, source: number }).message()
        =~= unparsable.take(head) + knob + " in "@ + path + " is "@ + boundary::quoted(value));
}

} // verus!
