//! Everything this crate takes from outside on trust.
//!
//! Each item below hands a call to another crate, or to a part of the standard
//! library that carries no specification, and states what the callers rely on.
//! None of these contracts is proved; all the rest of the crate is proved from
//! them.

use rustls_pki_types::pem::PemObject;
use rustls_pki_types::CertificateDer;
use sha2::{Digest, Sha256};
use vstd::prelude::*;
use x509_parser::prelude::{FromDer, X509Certificate};

verus! {

/// `std::io::Error`, carried from a failed read into the refusal it causes.
#[verifier::external_type_specification]
#[verifier::external_body]
pub struct ExIoError(std::io::Error);

/// `std::num::ParseIntError`, carried into the refusal of a knob that is not a
/// whole number.
#[verifier::external_type_specification]
#[verifier::external_body]
pub struct ExParseIntError(std::num::ParseIntError);

/// `serde_norway::Error`, carried into the refusal of a malformed document.
#[verifier::external_type_specification]
#[verifier::external_body]
pub struct ExYamlError(serde_norway::Error);

/// `serde_norway::Mapping`, the section of a document that holds the knobs.
#[verifier::external_type_specification]
#[verifier::external_body]
pub struct ExMapping(serde_norway::Mapping);

/// The SHA-256 digest of a run of bytes.
pub uninterp spec fn sha256(bytes: Seq<u8>) -> Seq<u8>;

/// `sha2::Sha256::digest`: the digest is a function of the bytes alone, and is
/// thirty-two bytes long.
#[verifier::external_body]
pub(crate) fn digest_of(bytes: &[u8]) -> (digest: [u8; 32])
    ensures
        digest@ == sha256(bytes@),
{
    Sha256::digest(bytes).into()
}

/// The DER of the first certificate in a PEM file, or `None` where the first
/// section that yields anything yields a fault, or nothing yields anything.
pub uninterp spec fn first_certificate_in(pem: Seq<u8>) -> Option<Seq<u8>>;

/// `rustls_pki_types::pem::PemObject::pem_slice_iter` on certificates, first
/// item: what it gives is a function of the bytes alone.
#[verifier::external_body]
pub(crate) fn first_certificate(pem: &[u8]) -> (der: Option<Vec<u8>>)
    ensures
        match der {
            Some(der) => first_certificate_in(pem@) == Some(der@),
            None => first_certificate_in(pem@) is None,
        },
{
    Some(CertificateDer::pem_slice_iter(pem).next()?.ok()?.to_vec())
}

/// The end of a certificate's validity, in seconds since the epoch, or `None`
/// where the bytes are not a certificate.
pub uninterp spec fn expiry_in(der: Seq<u8>) -> Option<i64>;

/// `x509_parser::certificate::X509Certificate::from_der`, and the timestamp of
/// the `not_after` it parsed: a function of the bytes alone.
#[verifier::external_body]
pub(crate) fn expiry(der: &[u8]) -> (seconds: Option<i64>)
    ensures
        seconds == expiry_in(der@),
{
    let (_, parsed) = X509Certificate::from_der(der).ok()?;
    Some(parsed.validity().not_after.timestamp())
}

/// What one entry of a YAML mapping answers to each question a knob is asked.
pub struct Knob {
    /// The value is the untagged YAML null.
    pub null: bool,
    /// The value as an unsigned integer, where it is one.
    pub whole: Option<u64>,
    /// The value as a string, where it is one.
    pub text: Option<String>,
    /// The value written out as YAML, where it can be.
    pub rendered: Option<String>,
}

/// [`Knob`], as plain values.
pub struct KnobView {
    pub null: bool,
    pub whole: Option<u64>,
    pub text: Option<Seq<char>>,
    pub rendered: Option<Seq<char>>,
}

impl View for Knob {
    type V = KnobView;

    open spec fn view(&self) -> KnobView {
        KnobView {
            null: self.null,
            whole: self.whole,
            text: match self.text {
                Some(text) => Some(text@),
                None => None,
            },
            rendered: match self.rendered {
                Some(text) => Some(text@),
                None => None,
            },
        }
    }
}

/// The entries of a YAML mapping whose keys are strings, by key.
pub uninterp spec fn entries(section: serde_norway::Mapping) -> Map<Seq<char>, KnobView>;

/// `serde_norway::Mapping::get` with a string key: the entry stored under that
/// key, or `None` where there is none.
///
/// The value is handed out as the answers of `Value::as_u64`, `Value::as_str`
/// and `serde_norway::to_string`, and as whether its variant is `Null`.
#[verifier::external_body]
pub(crate) fn lookup(section: &serde_norway::Mapping, key: &str) -> (knob: Option<Knob>)
    ensures
        knob is Some <==> entries(*section).dom().contains(key@),
        knob matches Some(knob) ==> knob@ == entries(*section)[key@],
{
    match section.get(key) {
        None => None,
        Some(value) => Some(Knob {
            null: matches!(value, serde_norway::Value::Null),
            whole: value.as_u64(),
            text: value.as_str().map(str::to_string),
            rendered: serde_norway::to_string(value).ok(),
        }),
    }
}

/// The text a run of bytes reads as, with what is not UTF-8 replaced.
pub uninterp spec fn lossy(bytes: Seq<u8>) -> Seq<char>;

/// `String::from_utf8_lossy`: a function of the bytes alone, and exactly the
/// text they encode where they are UTF-8.
#[verifier::external_body]
pub(crate) fn lossy_text(bytes: &[u8]) -> (text: String)
    ensures
        text@ == lossy(bytes@),
        vstd::utf8::valid_utf8(bytes@) ==> text@ == vstd::utf8::decode_utf8(bytes@),
{
    String::from_utf8_lossy(bytes).into_owned()
}

/// A text in quotes, with what would not print escaped.
pub uninterp spec fn quoted(text: Seq<char>) -> Seq<char>;

/// The `Debug` rendering of a `str`: a function of the text alone.
#[verifier::external_body]
pub(crate) fn quoted_text(text: &str) -> (rendered: String)
    ensures
        rendered@ == quoted(text@),
{
    format!("{:?}", text)
}

/// The digits of a text that states a whole number: all of it, or all that
/// follows one leading plus sign.
pub open spec fn digits_of(text: Seq<char>) -> Seq<char> {
    if text.len() > 0 && text[0] == '+' {
        text.skip(1)
    } else {
        text
    }
}

/// The number a run of decimal digits states.
pub open spec fn value_of(digits: Seq<char>) -> nat
    decreases digits.len(),
{
    if digits.len() == 0 {
        0
    } else {
        10 * value_of(digits.drop_last()) + (digits.last() as nat - '0' as nat) as nat
    }
}

/// The whole number a text states, where it states one that fits in a `u64`.
pub open spec fn decimal(text: Seq<char>) -> Option<u64> {
    let digits = digits_of(text);
    if digits.len() > 0 && (forall|i: int| 0 <= i < digits.len() ==> '0' <= #[trigger] digits[i] <= '9')
        && value_of(digits) <= u64::MAX {
        Some(value_of(digits) as u64)
    } else {
        None
    }
}

/// Why a text that states no whole number was refused.
pub uninterp spec fn decimal_fault(text: Seq<char>) -> std::num::ParseIntError;

/// `str::parse::<u64>`: an optional plus sign and then only decimal digits, in
/// range; anything else is a fault that is a function of the text alone.
#[verifier::external_body]
pub(crate) fn parse_decimal(text: &str) -> (number: Result<u64, std::num::ParseIntError>)
    ensures
        match number {
            Ok(number) => decimal(text@) == Some(number),
            Err(fault) => decimal(text@) is None && fault == decimal_fault(text@),
        },
{
    text.parse()
}

} // verus!
