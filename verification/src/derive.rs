//! From a declaration to what is generated for it.

use vstd::prelude::*;

use crate::attribute::Attribute;
use crate::conversion::{Conversion, ConversionView};
use crate::emit::{code_text, emit_error, error_text};
use crate::error::{message_text, DeriveError, DeriveErrorView};
use crate::prefix::{collect_prefixes, declared_prefixes};
use crate::variant::{all_planned, analyze_variants, Variant};

verus! {

/// What a declaration declares.
#[derive(Debug, PartialEq, Eq)]
pub enum Data {
    /// An enum, with its variants in their order.
    Enum(Vec<Variant>),
    /// A struct.
    Struct,
    /// A union.
    Union,
}

/// The declaration that the derive is put on.
#[derive(Debug, PartialEq, Eq)]
pub struct Declaration {
    pub name: String,
    pub attrs: Vec<Attribute>,
    pub data: Data,
}

/// The plan for a declaration. The prefixes are read first, so a failure among
/// them comes before the finding that the declaration is no enum.
pub open spec fn derived(input: Declaration) -> Result<ConversionView, DeriveErrorView> {
    match declared_prefixes(input.attrs@) {
        Err(failure) => Err(failure),
        Ok(table) => match input.data {
            Data::Enum(variants) => match all_planned(variants@, table) {
                Err(failure) => Err(failure),
                Ok(plans) => Ok(ConversionView { name: input.name@, plans }),
            },
            _ => Err(DeriveErrorView::NotAnEnum),
        },
    }
}

/// What is generated for a declaration: the impls of its conversions, or the
/// directive that reports what is wrong with it, and never both.
pub open spec fn derived_text(input: Declaration) -> Seq<char> {
    match derived(input) {
        Ok(conversion) => code_text(conversion),
        Err(failure) => error_text(message_text(failure)),
    }
}

/// Makes the plan of the conversions of an enum from its declaration.
pub fn plan_conversion(input: &Declaration) -> (plan: Result<Conversion, DeriveError>)
    ensures
        match plan {
            Ok(conversion) => derived(*input) matches Ok(view) && view == conversion@,
            Err(error) => derived(*input) matches Err(failure) && failure == error@,
        },
{
    let prefixes = match collect_prefixes(&input.attrs) {
        Ok(prefixes) => prefixes,
        Err(error) => {
            return Err(error);
        },
    };
    match &input.data {
        Data::Enum(variants) => match analyze_variants(variants, &prefixes) {
            Ok(plans) => Ok(Conversion { name: input.name.clone(), plans }),
            Err(error) => Err(error),
        },
        _ => Err(DeriveError::NotAnEnum),
    }
}

/// Generates the conversions of an enum between its values and their IRIs. What
/// comes out is always source text: the impls, or one directive that reports
/// the first thing found wrong with the declaration.
pub fn iri_enum_derive(input: &Declaration) -> (output: String)
    ensures
        output@ == derived_text(*input),
{
    match plan_conversion(input) {
        Ok(conversion) => conversion.emit(),
        Err(error) => emit_error(&error),
    }
}

} // verus!
