//! Validated IRIs.
//!
//! The grammar of IRIs and their comparison belong to the `iref` crate. This
//! module gives both a name that contracts can speak of, and wraps a text that
//! passed validation in a type of its own.

use vstd::prelude::*;

use crate::percent::{decodable, is_decodable};
use crate::text::text_eq;

verus! {

/// Whether `text` is a well-formed IRI: the outcome of `iref::IriBuf::new` on
/// that text, `true` where it returns `Ok`.
pub uninterp spec fn is_iri(text: Seq<char>) -> bool;

/// Whether two IRIs denote the same identifier: the outcome of `==` on
/// `iref::Iri`, which compares the two part by part (scheme, authority, path
/// without dot segments, query, fragment) with the escapes decoded, rather than
/// letter by letter.
pub uninterp spec fn iri_eq(left: Seq<char>, right: Seq<char>) -> bool;

/// Whether two IRIs are taken for the same identifier: they are the same text,
/// or their escapes can be decoded and `iref` finds them equal. An IRI whose
/// escapes cannot be decoded is the same as itself only.
pub open spec fn same_iri(left: Seq<char>, right: Seq<char>) -> bool {
    left == right || (decodable(left) && decodable(right) && iri_eq(left, right))
}

/// Calls `iref::IriBuf::new`, which runs the IRI grammar over the characters of
/// `text` and keeps the text as it is. The text comes back on both sides: as the
/// string of the accepted IRI, or as the payload of the error.
#[verifier::external_body]
fn check_iri(text: String) -> (outcome: Result<String, String>)
    ensures
        match outcome {
            Ok(kept) => is_iri(text@) && kept@ == text@,
            Err(refused) => !is_iri(text@) && refused@ == text@,
        },
{
    match iref::IriBuf::new(text) {
        Ok(iri) => Ok(iri.into_string()),
        Err(error) => Err(error.0),
    }
}

/// Calls `==` of `iref::Iri` on two texts. Both have to be IRIs, which
/// `iref::Iri::new` asks for, and the escapes of both have to be decodable: the
/// comparison decodes the escapes of a part and reads the bytes as UTF-8, and
/// panics on bytes that are not. The parts are cut at ASCII delimiters, so each
/// part of a text can be decoded where the whole text can.
#[verifier::external_body]
fn compare_iris(left: &str, right: &str) -> (same: bool)
    requires
        is_iri(left@),
        is_iri(right@),
        decodable(left@),
        decodable(right@),
    ensures
        same == iri_eq(left@, right@),
{
    iref::Iri::new(left).unwrap() == iref::Iri::new(right).unwrap()
}

/// An IRI: a text that the IRI grammar accepts. Two values are `==` where they
/// hold the same text; `same_as` compares them as identifiers.
#[derive(Debug, PartialEq, Eq)]
pub struct Iri {
    text: String,
}

impl View for Iri {
    type V = Seq<char>;

    closed spec fn view(&self) -> Seq<char> {
        self.text@
    }
}

impl Iri {
    #[verifier::type_invariant]
    spec fn well_formed(&self) -> bool {
        is_iri(self.text@)
    }

    /// Validates `text`. What is not an IRI comes back unchanged as the error.
    pub fn new(text: String) -> (made: Result<Iri, String>)
        ensures
            match made {
                Ok(iri) => is_iri(text@) && iri@ == text@,
                Err(refused) => !is_iri(text@) && refused@ == text@,
            },
    {
        match check_iri(text) {
            Ok(kept) => Ok(Iri { text: kept }),
            Err(refused) => Err(refused),
        }
    }

    /// The text of the IRI.
    pub fn as_str(&self) -> (text: &str)
        ensures
            text@ == self@,
            is_iri(text@),
    {
        proof {
            use_type_invariant(self);
        }
        self.text.as_str()
    }

    /// Whether the two IRIs denote the same identifier.
    pub fn same_as(&self, other: &Iri) -> (same: bool)
        ensures
            same == same_iri(self@, other@),
    {
        proof {
            use_type_invariant(self);
            use_type_invariant(other);
        }
        let left = self.text.as_str();
        let right = other.text.as_str();
        if text_eq(left, right) {
            true
        } else if is_decodable(left) && is_decodable(right) {
            compare_iris(left, right)
        } else {
            false
        }
    }
}

} // verus!
