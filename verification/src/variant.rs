//! The variants of an enum, and the plan that is made for each.

use vstd::prelude::*;

use crate::attribute::{filter_attribute, filtered, Attribute};
use crate::error::{DeriveError, DeriveErrorView};
use crate::expand::{expand_iri, expanded, ExpansionError};
use crate::iri::{is_iri, Iri};
use crate::prefix::PrefixTable;
use crate::token::{leading_literal_content, string_literal};

verus! {

/// The fields of a variant.
#[derive(Debug, PartialEq, Eq)]
pub enum Fields {
    /// No list of fields.
    Unit,
    /// Fields with names, between braces.
    Named,
    /// Fields without names, between parentheses: the type of each.
    Unnamed(Vec<String>),
}

/// A variant of the enum as it is declared.
#[derive(Debug, PartialEq, Eq)]
pub struct Variant {
    pub name: String,
    pub attrs: Vec<Attribute>,
    pub fields: Fields,
}

/// What the fields of a variant make of it.
#[derive(Debug, Clone, Copy, PartialEq, Eq)]
pub enum Shape<'a> {
    /// The variant has no field, and stands for one IRI.
    Unit,
    /// The variant wraps one value of this type, which has a conversion of its
    /// own.
    Wrapping(&'a String),
    /// The variant has named fields, or not exactly one unnamed field.
    Unsupported,
}

/// What the conversions do with one variant.
#[derive(Debug, PartialEq, Eq)]
pub enum VariantPlan {
    /// The variant `name` stands for `identifier`.
    Unit { name: String, identifier: Iri },
    /// The variant `name` wraps a value of the type `inner`.
    Wrapping { name: String, inner: String },
}

/// A `VariantPlan` with its texts as sequences of characters.
pub enum VariantPlanView {
    Unit { name: Seq<char>, identifier: Seq<char> },
    Wrapping { name: Seq<char>, inner: Seq<char> },
}

impl View for VariantPlan {
    type V = VariantPlanView;

    open spec fn view(&self) -> VariantPlanView {
        match *self {
            VariantPlan::Unit { name, identifier } => VariantPlanView::Unit {
                name: name@,
                identifier: identifier@,
            },
            VariantPlan::Wrapping { name, inner } => VariantPlanView::Wrapping {
                name: name@,
                inner: inner@,
            },
        }
    }
}

/// The shape that the fields give to a variant.
pub open spec fn shape_of<'a>(fields: &'a Fields) -> Shape<'a> {
    match fields {
        Fields::Unit => Shape::Unit,
        Fields::Named => Shape::Unsupported,
        Fields::Unnamed(types) => if types@.len() == 1 {
            Shape::Wrapping(&types@[0])
        } else {
            Shape::Unsupported
        },
    }
}

/// What one attribute of the variant `variant` says of its identifier: nothing
/// where it is not an `iri` attribute, else the IRI that its string literal
/// stands for under the prefixes of `table`.
pub open spec fn attribute_identifier(
    attr: Attribute,
    variant: Seq<char>,
    table: Map<Seq<char>, Seq<char>>,
) -> Result<Option<Seq<char>>, DeriveErrorView> {
    match filtered(attr, "iri"@) {
        Err(failure) => Err(failure),
        Ok(None) => Ok(None),
        Ok(Some(stream)) => match leading_literal_content(stream) {
            None => Err(DeriveErrorView::MalformedAttribute { attribute: "iri"@ }),
            Some(raw) => match expanded(raw, table) {
                Ok(identifier) => Ok(Some(identifier)),
                Err(ExpansionError::InvalidExpandedIri) => Err(
                    DeriveErrorView::InvalidExpandedIri { raw, variant },
                ),
                Err(ExpansionError::InvalidIri) => Err(DeriveErrorView::InvalidIri { raw, variant }),
            },
        },
    }
}

/// The identifier that the attributes give to the variant `variant`: that of
/// the last `iri` attribute, unless an attribute before or at it fails.
pub open spec fn identifier_of(
    attrs: Seq<Attribute>,
    variant: Seq<char>,
    table: Map<Seq<char>, Seq<char>>,
) -> Result<Option<Seq<char>>, DeriveErrorView>
    decreases attrs.len(),
{
    if attrs.len() == 0 {
        Ok(None)
    } else {
        match identifier_of(attrs.drop_last(), variant, table) {
            Err(failure) => Err(failure),
            Ok(before) => match attribute_identifier(attrs.last(), variant, table) {
                Err(failure) => Err(failure),
                Ok(None) => Ok(before),
                Ok(Some(identifier)) => Ok(Some(identifier)),
            },
        }
    }
}

/// The plan for a variant of that name and those fields, once its attributes
/// have given `identifier`. An identifier on a variant that wraps a value is
/// left unused.
pub open spec fn plan_of(name: Seq<char>, fields: Fields, identifier: Option<Seq<char>>) -> Result<
    VariantPlanView,
    DeriveErrorView,
> {
    match shape_of(&fields) {
        Shape::Unit => match identifier {
            Some(identifier) => Ok(VariantPlanView::Unit { name, identifier }),
            None => Err(DeriveErrorView::MissingIdentifier { variant: name }),
        },
        Shape::Wrapping(inner) => Ok(VariantPlanView::Wrapping { name, inner: inner@ }),
        Shape::Unsupported => Err(DeriveErrorView::UnsupportedVariantShape { variant: name }),
    }
}

/// The plan for `variant` under the prefixes of `table`. The attributes are
/// read before the fields are looked at.
pub open spec fn planned(variant: Variant, table: Map<Seq<char>, Seq<char>>) -> Result<
    VariantPlanView,
    DeriveErrorView,
> {
    match identifier_of(variant.attrs@, variant.name@, table) {
        Err(failure) => Err(failure),
        Ok(identifier) => plan_of(variant.name@, variant.fields, identifier),
    }
}

/// The plans for `variants` in their order, or the first failure.
pub open spec fn all_planned(variants: Seq<Variant>, table: Map<Seq<char>, Seq<char>>) -> Result<
    Seq<VariantPlanView>,
    DeriveErrorView,
>
    decreases variants.len(),
{
    if variants.len() == 0 {
        Ok(Seq::empty())
    } else {
        match all_planned(variants.drop_last(), table) {
            Err(failure) => Err(failure),
            Ok(plans) => match planned(variants.last(), table) {
                Err(failure) => Err(failure),
                Ok(plan) => Ok(plans.push(plan)),
            },
        }
    }
}

/// The text of an identifier that may be there.
pub open spec fn identifier_text(identifier: Option<Iri>) -> Option<Seq<char>> {
    match identifier {
        Some(iri) => Some(iri@),
        None => None,
    }
}

/// The views of the plans, in their order.
pub open spec fn plan_views(plans: Seq<VariantPlan>) -> Seq<VariantPlanView> {
    plans.map_values(|plan: VariantPlan| plan@)
}

/// Tells the shape of a variant from its fields.
pub fn classify<'a>(fields: &'a Fields) -> (shape: Shape<'a>)
    ensures
        shape == shape_of(fields),
{
    match fields {
        Fields::Unit => Shape::Unit,
        Fields::Named => Shape::Unsupported,
        Fields::Unnamed(types) => if types.len() == 1 {
            Shape::Wrapping(&types[0])
        } else {
            Shape::Unsupported
        },
    }
}

/// Reads one attribute of the variant `variant` for its identifier.
pub fn read_identifier(attr: &Attribute, variant: &str, prefixes: &PrefixTable) -> (read: Result<
    Option<Iri>,
    DeriveError,
>)
    ensures
        match read {
            Ok(Some(iri)) => attribute_identifier(*attr, variant@, prefixes@) matches Ok(Some(identifier))
                && identifier == iri@,
            Ok(None) => attribute_identifier(*attr, variant@, prefixes@) matches Ok(None),
            Err(error) => attribute_identifier(*attr, variant@, prefixes@) matches Err(failure)
                && failure == error@,
        },
{
    match filter_attribute(attr, "iri") {
        Err(error) => Err(error),
        Ok(None) => Ok(None),
        Ok(Some(stream)) => match string_literal(stream) {
            Err(_) => Err(DeriveError::MalformedAttribute { attribute: "iri".to_owned() }),
            Ok(raw) => match expand_iri(raw.as_str(), prefixes) {
                Ok(iri) => Ok(Some(iri)),
                Err(ExpansionError::InvalidExpandedIri) => Err(
                    DeriveError::InvalidExpandedIri { raw, variant: variant.to_owned() },
                ),
                Err(ExpansionError::InvalidIri) => Err(
                    DeriveError::InvalidIri { raw, variant: variant.to_owned() },
                ),
            },
        },
    }
}

/// Reads the attributes of a variant for its identifier.
pub fn variant_identifier(variant: &Variant, prefixes: &PrefixTable) -> (read: Result<
    Option<Iri>,
    DeriveError,
>)
    ensures
        match read {
            Ok(Some(iri)) => identifier_of(variant.attrs@, variant.name@, prefixes@) matches Ok(
                Some(identifier),
            ) && identifier == iri@,
            Ok(None) => identifier_of(variant.attrs@, variant.name@, prefixes@) matches Ok(None),
            Err(error) => identifier_of(variant.attrs@, variant.name@, prefixes@) matches Err(failure)
                && failure == error@,
        },
{
    let mut found: Option<Iri> = None;
    let mut at: usize = 0;
    while at < variant.attrs.len()
        invariant
            at <= variant.attrs.len(),
            match found {
                Some(iri) => identifier_of(variant.attrs@.take(at as int), variant.name@, prefixes@)
                    matches Ok(Some(identifier)) && identifier == iri@,
                None => identifier_of(variant.attrs@.take(at as int), variant.name@, prefixes@)
                    matches Ok(None),
            },
        decreases variant.attrs.len() - at,
    {
        proof {
            assert(variant.attrs@.take(at + 1).drop_last() == variant.attrs@.take(at as int));
        }
        match read_identifier(&variant.attrs[at], variant.name.as_str(), prefixes) {
            Err(error) => {
                proof {
                    lemma_failure_stays(variant.attrs@, at + 1, variant.name@, prefixes@);
                }
                return Err(error);
            },
            Ok(None) => {},
            Ok(Some(iri)) => {
                found = Some(iri);
            },
        }
        at = at + 1;
    }
    proof {
        assert(variant.attrs@.take(at as int) == variant.attrs@);
    }
    Ok(found)
}

/// A failure among the first attributes is the failure of them all.
proof fn lemma_failure_stays(
    attrs: Seq<Attribute>,
    count: int,
    variant: Seq<char>,
    table: Map<Seq<char>, Seq<char>>,
)
    requires
        0 <= count <= attrs.len(),
        identifier_of(attrs.take(count), variant, table) is Err,
    ensures
        identifier_of(attrs, variant, table) == identifier_of(attrs.take(count), variant, table),
    decreases attrs.len(),
{
    if count == attrs.len() {
        assert(attrs.take(count) == attrs);
    } else {
        assert(attrs.drop_last().take(count) == attrs.take(count));
        lemma_failure_stays(attrs.drop_last(), count, variant, table);
    }
}

/// Makes the plan for a variant whose attributes have given `identifier`.
pub fn plan_variant(variant: &Variant, identifier: Option<Iri>) -> (plan: Result<
    VariantPlan,
    DeriveError,
>)
    ensures
        match plan {
            Ok(made) => plan_of(variant.name@, variant.fields, identifier_text(identifier))
                matches Ok(view) && view == made@,
            Err(error) => plan_of(variant.name@, variant.fields, identifier_text(identifier))
                matches Err(failure) && failure == error@,
        },
{
    match classify(&variant.fields) {
        Shape::Unit => match identifier {
            Some(identifier) => Ok(VariantPlan::Unit { name: variant.name.clone(), identifier }),
            None => Err(DeriveError::MissingIdentifier { variant: variant.name.clone() }),
        },
        Shape::Wrapping(inner) => Ok(
            VariantPlan::Wrapping { name: variant.name.clone(), inner: inner.clone() },
        ),
        Shape::Unsupported => Err(
            DeriveError::UnsupportedVariantShape { variant: variant.name.clone() },
        ),
    }
}

/// Makes the plan for a variant under the prefixes of `prefixes`.
pub fn analyze_variant(variant: &Variant, prefixes: &PrefixTable) -> (plan: Result<
    VariantPlan,
    DeriveError,
>)
    ensures
        match plan {
            Ok(made) => planned(*variant, prefixes@) matches Ok(view) && view == made@,
            Err(error) => planned(*variant, prefixes@) matches Err(failure) && failure == error@,
        },
{
    match variant_identifier(variant, prefixes) {
        Err(error) => Err(error),
        Ok(identifier) => plan_variant(variant, identifier),
    }
}

/// A failure among the first variants is the failure of them all.
proof fn lemma_variant_failure_stays(
    variants: Seq<Variant>,
    count: int,
    table: Map<Seq<char>, Seq<char>>,
)
    requires
        0 <= count <= variants.len(),
        all_planned(variants.take(count), table) is Err,
    ensures
        all_planned(variants, table) == all_planned(variants.take(count), table),
    decreases variants.len(),
{
    if count == variants.len() {
        assert(variants.take(count) == variants);
    } else {
        assert(variants.drop_last().take(count) == variants.take(count));
        lemma_variant_failure_stays(variants.drop_last(), count, table);
    }
}

/// The plans keep the order of the declaration: there is one for each variant,
/// under its name, and it wraps a value exactly where the variant has one
/// unnamed field.
pub proof fn lemma_plans_follow_declaration(
    variants: Seq<Variant>,
    table: Map<Seq<char>, Seq<char>>,
    at: int,
)
    requires
        all_planned(variants, table) is Ok,
        0 <= at < variants.len(),
    ensures
        all_planned(variants, table)->Ok_0.len() == variants.len(),
        all_planned(variants, table)->Ok_0[at] == planned(variants[at], table)->Ok_0,
        planned(variants[at], table) is Ok,
        match all_planned(variants, table)->Ok_0[at] {
            VariantPlanView::Unit { name, .. } => name == variants[at].name@ && shape_of(
                &variants[at].fields,
            ) is Unit,
            VariantPlanView::Wrapping { name, inner } => {
                &&& name == variants[at].name@
                &&& shape_of(&variants[at].fields) matches Shape::Wrapping(wrapped)
                &&& inner == wrapped@
            },
        },
    decreases variants.len(),
{
    lemma_plans_count(variants, table);
    if at < variants.len() - 1 {
        lemma_plans_count(variants.drop_last(), table);
        lemma_plans_follow_declaration(variants.drop_last(), table, at);
    }
}

/// The identifier that the attributes give to a variant is an IRI.
pub proof fn lemma_identifier_is_iri(
    attrs: Seq<Attribute>,
    variant: Seq<char>,
    table: Map<Seq<char>, Seq<char>>,
)
    requires
        identifier_of(attrs, variant, table) matches Ok(Some(_)),
    ensures
        is_iri(identifier_of(attrs, variant, table)->Ok_0->0),
    decreases attrs.len(),
{
    if attrs.len() > 0 && attribute_identifier(attrs.last(), variant, table) matches Ok(None) {
        lemma_identifier_is_iri(attrs.drop_last(), variant, table);
    }
}

/// The identifier in the plan of a variant is an IRI.
pub proof fn lemma_planned_identifier_is_iri(variant: Variant, table: Map<Seq<char>, Seq<char>>)
    requires
        planned(variant, table) matches Ok(VariantPlanView::Unit { .. }),
    ensures
        is_iri(planned(variant, table)->Ok_0->Unit_identifier),
{
    lemma_identifier_is_iri(variant.attrs@, variant.name@, table);
}

/// There is one plan for each variant.
proof fn lemma_plans_count(variants: Seq<Variant>, table: Map<Seq<char>, Seq<char>>)
    requires
        all_planned(variants, table) is Ok,
    ensures
        all_planned(variants, table)->Ok_0.len() == variants.len(),
    decreases variants.len(),
{
    if variants.len() > 0 {
        lemma_plans_count(variants.drop_last(), table);
    }
}

/// Makes the plans for the variants of an enum, in their order. The first
/// variant that fails ends the work.
pub fn analyze_variants(variants: &Vec<Variant>, prefixes: &PrefixTable) -> (plans: Result<
    Vec<VariantPlan>,
    DeriveError,
>)
    ensures
        match plans {
            Ok(made) => all_planned(variants@, prefixes@) matches Ok(views) && views == plan_views(
                made@,
            ),
            Err(error) => all_planned(variants@, prefixes@) matches Err(failure) && failure
                == error@,
        },
{
    let mut made: Vec<VariantPlan> = Vec::new();
    let mut at: usize = 0;
    while at < variants.len()
        invariant
            at <= variants.len(),
            all_planned(variants@.take(at as int), prefixes@) matches Ok(views) && views
                == plan_views(made@),
        decreases variants.len() - at,
    {
        proof {
            assert(variants@.take(at + 1).drop_last() == variants@.take(at as int));
        }
        match analyze_variant(&variants[at], prefixes) {
            Err(error) => {
                proof {
                    lemma_variant_failure_stays(variants@, at + 1, prefixes@);
                }
                return Err(error);
            },
            Ok(plan) => {
                proof {
                    assert(plan_views(made@.push(plan)) == plan_views(made@).push(plan@));
                }
                made.push(plan);
            },
        }
        at = at + 1;
    }
    proof {
        assert(variants@.take(at as int) == variants@);
    }
    Ok(made)
}

} // verus!
