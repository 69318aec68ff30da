//! What can be wrong with a declaration.

use vstd::prelude::*;
use vstd::string::*;

verus! {

/// The reason why nothing was generated for a declaration.
#[derive(Debug, PartialEq, Eq)]
pub enum DeriveError {
    /// An attribute of that name has no delimited group of arguments.
    MalformedAttribute { attribute: String },
    /// The arguments of an `iri_prefix` attribute are not a string literal, the
    /// sign `=` and a string literal.
    MalformedPrefixAttribute,
    /// The text `raw` that the prefix is declared with is no IRI.
    InvalidPrefixIri { prefix: String, raw: String },
    /// The compact form `raw` of the variant has a declared prefix, and what it
    /// expands to is no IRI.
    InvalidExpandedIri { raw: String, variant: String },
    /// The text `raw` of the variant is taken as it is, and is no IRI.
    InvalidIri { raw: String, variant: String },
    /// The variant has no field and no `iri` attribute.
    MissingIdentifier { variant: String },
    /// The variant has named fields, or a list of unnamed fields that does not
    /// hold exactly one.
    UnsupportedVariantShape { variant: String },
    /// The declaration is a struct or a union.
    NotAnEnum,
}

/// A `DeriveError` with its texts as sequences of characters.
pub enum DeriveErrorView {
    MalformedAttribute { attribute: Seq<char> },
    MalformedPrefixAttribute,
    InvalidPrefixIri { prefix: Seq<char>, raw: Seq<char> },
    InvalidExpandedIri { raw: Seq<char>, variant: Seq<char> },
    InvalidIri { raw: Seq<char>, variant: Seq<char> },
    MissingIdentifier { variant: Seq<char> },
    UnsupportedVariantShape { variant: Seq<char> },
    NotAnEnum,
}

impl View for DeriveError {
    type V = DeriveErrorView;

    open spec fn view(&self) -> DeriveErrorView {
        match *self {
            DeriveError::MalformedAttribute { attribute } => DeriveErrorView::MalformedAttribute {
                attribute: attribute@,
            },
            DeriveError::MalformedPrefixAttribute => DeriveErrorView::MalformedPrefixAttribute,
            DeriveError::InvalidPrefixIri { prefix, raw } => DeriveErrorView::InvalidPrefixIri {
                prefix: prefix@,
                raw: raw@,
            },
            DeriveError::InvalidExpandedIri { raw, variant } => DeriveErrorView::InvalidExpandedIri {
                raw: raw@,
                variant: variant@,
            },
            DeriveError::InvalidIri { raw, variant } => DeriveErrorView::InvalidIri {
                raw: raw@,
                variant: variant@,
            },
            DeriveError::MissingIdentifier { variant } => DeriveErrorView::MissingIdentifier {
                variant: variant@,
            },
            DeriveError::UnsupportedVariantShape { variant } => DeriveErrorView::UnsupportedVariantShape {
                variant: variant@,
            },
            DeriveError::NotAnEnum => DeriveErrorView::NotAnEnum,
        }
    }
}

/// The sentence that tells the author of the declaration what is wrong.
pub open spec fn message_text(error: DeriveErrorView) -> Seq<char> {
    match error {
        DeriveErrorView::MalformedAttribute { attribute } => "malformed `"@ + attribute
            + "` attribute"@,
        DeriveErrorView::MalformedPrefixAttribute =>
            "malformed `iri_prefix` attribute: expected a string literal, `=` and a string literal"@,
        DeriveErrorView::InvalidPrefixIri { prefix, raw } => "invalid IRI `"@ + raw
            + "` for prefix `"@ + prefix + "`"@,
        DeriveErrorView::InvalidExpandedIri { raw, variant } => "invalid IRI `"@ + raw
            + "` for variant `"@ + variant + "`"@,
        DeriveErrorView::InvalidIri { raw, variant } => "invalid IRI `"@ + raw
            + "` for variant `"@ + variant + "`"@,
        DeriveErrorView::MissingIdentifier { variant } => "missing IRI for enum variant `"@
            + variant + "`"@,
        DeriveErrorView::UnsupportedVariantShape { variant } =>
            "unsupported fields in enum variant `"@ + variant
            + "`: a variant has no field, or one unnamed field"@,
        DeriveErrorView::NotAnEnum => "only enums are handled by IriEnum"@,
    }
}

fn join3(first: &str, second: &str, third: &str) -> (text: String)
    ensures
        text@ == first@ + second@ + third@,
{
    let mut text = first.to_owned();
    text.append(second);
    text.append(third);
    text
}

fn join5(first: &str, second: &str, third: &str, fourth: &str, fifth: &str) -> (text: String)
    ensures
        text@ == first@ + second@ + third@ + fourth@ + fifth@,
{
    let mut text = join3(first, second, third);
    text.append(fourth);
    text.append(fifth);
    text
}

impl DeriveError {
    /// The sentence that tells the author of the declaration what is wrong.
    pub fn message(&self) -> (text: String)
        ensures
            text@ == message_text(self@),
    {
        match self {
            DeriveError::MalformedAttribute { attribute } => join3(
                "malformed `",
                attribute.as_str(),
                "` attribute",
            ),
            DeriveError::MalformedPrefixAttribute =>
                "malformed `iri_prefix` attribute: expected a string literal, `=` and a string literal".to_owned(),
            DeriveError::InvalidPrefixIri { prefix, raw } => join5(
                "invalid IRI `",
                raw.as_str(),
                "` for prefix `",
                prefix.as_str(),
                "`",
            ),
            DeriveError::InvalidExpandedIri { raw, variant } => join5(
                "invalid IRI `",
                raw.as_str(),
                "` for variant `",
                variant.as_str(),
                "`",
            ),
            DeriveError::InvalidIri { raw, variant } => join5(
                "invalid IRI `",
                raw.as_str(),
                "` for variant `",
                variant.as_str(),
                "`",
            ),
            DeriveError::MissingIdentifier { variant } => join3(
                "missing IRI for enum variant `",
                variant.as_str(),
                "`",
            ),
            DeriveError::UnsupportedVariantShape { variant } => join3(
                "unsupported fields in enum variant `",
                variant.as_str(),
                "`: a variant has no field, or one unnamed field",
            ),
            DeriveError::NotAnEnum => "only enums are handled by IriEnum".to_owned(),
        }
    }
}

} // verus!
