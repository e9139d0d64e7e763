//! What holds of everything that is said of the certificates a process loaded,
//! and of every gauge.

use crate::boundary;
use crate::rotate::inputs;
use crate::rotate::inputs::{Expiry, Gauge, InputsView, LeafView};
use crate::rotate::Presented;
use crate::text;
use vstd::prelude::*;

verus! {

/// Whether this is the certificate of a kind that a set was configured with.
pub open spec fn configured(set: InputsView, which: Presented, leaf: LeafView) -> bool {
    match which {
        Presented::Serving => set.serving == Some(leaf),
        Presented::Client => set.client == Some(leaf),
    }
}

/// Whether a set was configured with no certificate of a kind.
pub open spec fn not_configured(set: InputsView, which: Presented) -> bool {
    match which {
        Presented::Serving => set.serving is None,
        Presented::Client => set.client is None,
    }
}

/// **A certificate that was loaded is named by the SHA-256 of its DER, in
/// hexadecimal**, and expires when its DER says, whatever else was loaded and
/// whatever is on disk by now.
pub proof fn a_loaded_certificate_is_named_by_its_digest(
    set: InputsView,
    which: Presented,
    leaf: LeafView,
    der: Seq<u8>,
    on_disk: Option<Seq<u8>>,
)
    requires
        configured(set, which, leaf),
        leaf.der == Some(der),
    ensures
        set.fingerprint(which) == Some(text::hex_of(boundary::sha256(der))),
        set.reported(which, false, on_disk) == text::hex_of(boundary::sha256(der)),
        set.not_after(which) == boundary::expiry_in(der),
        set.loaded(which) == Some(leaf),
{
}

/// A certificate that was configured and not loaded has no name and no expiry,
/// and reads `unknown`.
pub proof fn a_certificate_that_was_not_loaded_is_unknown(
    set: InputsView,
    which: Presented,
    leaf: LeafView,
    on_disk: Option<Seq<u8>>,
)
    requires
        configured(set, which, leaf),
        leaf.der is None,
    ensures
        set.fingerprint(which) is None,
        set.reported(which, false, on_disk) == "unknown"@,
        set.not_after(which) is None,
        set.expiry(which).len() == 0,
{
}

/// A certificate that was not configured has no name and no expiry, and reads
/// `none`, whatever was read.
pub proof fn a_certificate_that_was_not_configured_is_none(
    set: InputsView,
    which: Presented,
    on_disk: bool,
    contents: Option<Seq<u8>>,
)
    requires
        not_configured(set, which),
    ensures
        set.loaded(which) is None,
        set.fingerprint(which) is None,
        set.fingerprint_on_disk(which, contents) is None,
        set.reported(which, on_disk, contents) == "none"@,
        set.not_after(which) is None,
        set.expiry(which).len() == 0,
{
}

/// **The certificate on disk is named by the SHA-256 of the first one in what
/// was read**, in hexadecimal, whether or not one was loaded at boot and
/// whatever the other kind is.
pub proof fn the_certificate_on_disk_is_named_by_its_digest(
    set: InputsView,
    which: Presented,
    leaf: LeafView,
    contents: Seq<u8>,
    der: Seq<u8>,
)
    requires
        configured(set, which, leaf),
        boundary::first_certificate_in(contents) == Some(der),
    ensures
        set.fingerprint_on_disk(which, Some(contents)) == Some(
            text::hex_of(boundary::sha256(der)),
        ),
        set.reported(which, true, Some(contents)) == text::hex_of(boundary::sha256(der)),
{
}

/// A configured certificate whose file cannot be read, or holds none, reads
/// `unknown` on disk, whatever was loaded at boot.
pub proof fn a_certificate_that_is_not_on_disk_is_unknown(
    set: InputsView,
    which: Presented,
    leaf: LeafView,
    contents: Option<Seq<u8>>,
)
    requires
        configured(set, which, leaf),
        contents is None || boundary::first_certificate_in(contents->0) is None,
    ensures
        set.fingerprint_on_disk(which, contents) is None,
        set.reported(which, true, contents) == "unknown"@,
{
}

/// **Every loaded certificate's expiry is published on its own**: one reading,
/// under the name and the labels a dashboard asks for, with the second it
/// expires at and what names it, whatever is or is not loaded of the other kind.
pub proof fn every_loaded_certificate_is_published_on_its_own(
    set: InputsView,
    which: Presented,
    leaf: LeafView,
    der: Seq<u8>,
    seconds: i64,
)
    requires
        configured(set, which, leaf),
        leaf.der == Some(der),
        boundary::expiry_in(der) == Some(seconds),
    ensures
        set.expiry(which).len() == 1,
        set.expiry(which)[0].which == which,
        set.expiry(which)[0].fingerprint == text::hex_of(boundary::sha256(der)),
        set.expiry(which)[0].gauge.name == "yadgar_tls_certificate_not_after_seconds"@,
        set.expiry(which)[0].gauge.value == seconds,
        set.expiry(which)[0].gauge.labels.len() == 2,
        set.expiry(which)[0].gauge.labels[0] == ("service"@, set.service),
        set.expiry(which)[0].gauge.labels[1].0 == "kind"@,
        which is Serving ==> set.expiry(which)[0].gauge.labels[1].1 == "serving"@,
        which is Client ==> set.expiry(which)[0].gauge.labels[1].1 == "client"@,
{
}

/// **What is exported holds exactly one entry for each certificate that was
/// loaded and states an expiry**, the serving one first, and nothing else: the
/// entry of one kind is there whether or not there is one of the other.
pub proof fn what_is_exported_is_one_entry_for_each_certificate(set: InputsView)
    ensures
        ({
            let list = set.expiry(Presented::Serving) + set.expiry(Presented::Client);
            let serving = set.serving is Some && set.serving->0.der is Some && boundary::expiry_in(
                set.serving->0.der->0,
            ) is Some;
            let client = set.client is Some && set.client->0.der is Some && boundary::expiry_in(
                set.client->0.der->0,
            ) is Some;
            &&& list.len() == (if serving {
                1int
            } else {
                0
            }) + (if client {
                1int
            } else {
                0
            })
            &&& serving ==> list[0].which is Serving && list[0].gauge.value == boundary::expiry_in(
                set.serving->0.der->0,
            )->0 && list[0].fingerprint == text::hex_of(
                boundary::sha256(set.serving->0.der->0),
            )
            &&& client ==> list.last().which is Client && list.last().gauge.value
                == boundary::expiry_in(set.client->0.der->0)->0 && list.last().fingerprint
                == text::hex_of(boundary::sha256(set.client->0.der->0))
        }),
{
}

/// A certificate whose DER states no expiry publishes none: there is no invented
/// number.
pub proof fn no_expiry_is_invented(
    set: InputsView,
    which: Presented,
    leaf: LeafView,
    der: Seq<u8>,
)
    requires
        configured(set, which, leaf),
        leaf.der == Some(der),
        boundary::expiry_in(der) is None,
    ensures
        set.expiry(which).len() == 0,
{
}

/// What is published of one kind does not depend on the other.
pub proof fn each_kind_is_published_by_itself(set: InputsView, other: InputsView)
    requires
        set.service == other.service,
    ensures
        set.serving == other.serving ==> set.expiry(Presented::Serving) == other.expiry(
            Presented::Serving,
        ),
        set.client == other.client ==> set.expiry(Presented::Client) == other.expiry(
            Presented::Client,
        ),
{
}

/// How many watched files cannot be read is published as that number, under its
/// name, with the service and nothing else as a label.
pub proof fn the_count_is_published_as_it_is(set: InputsView, count: int)
    ensures
        set.unreadable_gauge(count).name == "yadgar_rotation_watched_files_unreadable"@,
        set.unreadable_gauge(count).labels == seq![("service"@, set.service)],
        set.unreadable_gauge(count).value == count,
{
}

/// A gauge is its name, its labels in order, and its number.
pub proof fn a_gauge_is_what_it_holds(gauge: Gauge, i: int)
    ensures
        gauge@.name == gauge.name@,
        gauge@.value == gauge.value,
        gauge@.labels.len() == gauge.labels@.len(),
        0 <= i < gauge.labels@.len() ==> gauge@.labels[i] == (
            gauge.labels@[i].0@,
            gauge.labels@[i].1@,
        ),
{
}

/// What is published of a certificate is which it is, its gauge and its name, in
/// its place in a list.
pub proof fn an_expiry_is_what_it_holds(expiry: Expiry, list: Seq<Expiry>, i: int)
    ensures
        expiry@.which == expiry.which,
        expiry@.gauge == expiry.gauge@,
        expiry@.fingerprint == expiry.fingerprint@,
        inputs::expiry_views(list).len() == list.len(),
        0 <= i < list.len() ==> inputs::expiry_views(list)[i] == list[i]@,
{
}

/// What is printed of a certificate, of every pair of facts.
pub proof fn what_is_printed_is_one_of_three(found: Option<Seq<char>>, fingerprint: Seq<char>)
    ensures
        inputs::shown(false, found) == "none"@,
        inputs::shown(true, None) == "unknown"@,
        inputs::shown(true, Some(fingerprint)) == fingerprint,
{
}

/// A text that is there is the text, and one that is not is not.
pub proof fn an_optional_text_is_the_text(text: String)
    ensures
        inputs::optional_text(Some(text)) == Some(text@),
        inputs::optional_text(None) is None,
{
}

} // verus!
