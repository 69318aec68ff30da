//! The two conversions of a derived enum, as they run.
//!
//! An IRI is turned into a value by trying the variants without fields first,
//! in the order of their declaration, and then the variants that wrap a value.
//! The conversion of a wrapped type is not known here: what it made of the IRI
//! is handed in.

use vstd::prelude::*;

use crate::iri::{same_iri, Iri};
use crate::variant::{plan_views, VariantPlan, VariantPlanView};

verus! {

/// The plan of the conversions of an enum: its name, and the plan of each
/// variant in the order of the declaration.
#[derive(Debug, PartialEq, Eq)]
pub struct Conversion {
    pub name: String,
    pub plans: Vec<VariantPlan>,
}

/// A `Conversion` with its texts as sequences of characters.
pub struct ConversionView {
    pub name: Seq<char>,
    pub plans: Seq<VariantPlanView>,
}

impl View for Conversion {
    type V = ConversionView;

    open spec fn view(&self) -> ConversionView {
        ConversionView { name: self.name@, plans: plan_views(self.plans@) }
    }
}

/// A value of a derived enum: the place of its variant in the declaration, and
/// the value that it wraps where the variant wraps one.
#[derive(Debug, PartialEq, Eq)]
pub enum EnumValue {
    Unit(usize),
    Wrapping(usize, Box<EnumValue>),
}

/// Whether the variant has no field and stands for `iri`.
pub open spec fn stands_for(plan: VariantPlanView, iri: Seq<char>) -> bool {
    plan matches VariantPlanView::Unit { identifier, .. } && same_iri(iri, identifier)
}

/// The first variant from `from` on that stands for `iri`.
pub open spec fn first_unit(plans: Seq<VariantPlanView>, iri: Seq<char>, from: int) -> Option<int>
    decreases plans.len() - from,
{
    if from < 0 || from >= plans.len() {
        None
    } else if stands_for(plans[from], iri) {
        Some(from)
    } else {
        first_unit(plans, iri, from + 1)
    }
}

/// Whether the variant at `at` wraps a value, and the conversion of that value's
/// type made one of the IRI.
pub open spec fn delegates(plans: Seq<VariantPlanView>, inner: Seq<Option<EnumValue>>, at: int) -> bool {
    &&& 0 <= at < plans.len()
    &&& plans[at] is Wrapping
    &&& at < inner.len()
    &&& inner[at] is Some
}

/// The first variant from `from` on that wraps a value made of the IRI.
pub open spec fn first_delegate(
    plans: Seq<VariantPlanView>,
    inner: Seq<Option<EnumValue>>,
    from: int,
) -> Option<int>
    decreases plans.len() - from,
{
    if from < 0 || from >= plans.len() {
        None
    } else if delegates(plans, inner, from) {
        Some(from)
    } else {
        first_delegate(plans, inner, from + 1)
    }
}

/// The value that `iri` is turned into. `inner` holds, at the place of each
/// variant that wraps a value, what the conversion of the wrapped type made of
/// `iri`; a place that is missing counts as a failure of that conversion.
pub open spec fn parsed(
    plans: Seq<VariantPlanView>,
    iri: Seq<char>,
    inner: Seq<Option<EnumValue>>,
) -> Result<EnumValue, ()> {
    match first_unit(plans, iri, 0) {
        Some(at) => Ok(EnumValue::Unit(at as usize)),
        None => match first_delegate(plans, inner, 0) {
            Some(at) => Ok(EnumValue::Wrapping(at as usize, Box::new(inner[at]->0))),
            None => Err(()),
        },
    }
}

/// Whether `value` is a value of the enum: its variant is declared, and wraps
/// a value exactly where the value does.
pub open spec fn is_value_of(plans: Seq<VariantPlanView>, value: EnumValue) -> bool {
    match value {
        EnumValue::Unit(at) => at < plans.len() && plans[at as int] is Unit,
        EnumValue::Wrapping(at, _) => at < plans.len() && plans[at as int] is Wrapping,
    }
}

/// The IRI that `value` stands for by its own variant, which a value of a
/// variant that wraps another does not.
pub open spec fn own_identifier(plans: Seq<VariantPlanView>, value: EnumValue) -> Option<Seq<char>> {
    match value {
        EnumValue::Unit(at) => if at < plans.len() {
            match plans[at as int] {
                VariantPlanView::Unit { identifier, .. } => Some(identifier),
                VariantPlanView::Wrapping { .. } => None,
            }
        } else {
            None
        },
        EnumValue::Wrapping(_, _) => None,
    }
}

/// What a value is turned into.
#[derive(Debug, PartialEq, Eq)]
pub enum Rendering<'a> {
    /// The IRI of the value's variant.
    Identifier(&'a Iri),
    /// The IRI that the conversion of the wrapped type turns this wrapped value
    /// into.
    Delegated(&'a EnumValue),
}

impl EnumValue {
    /// A copy of the value.
    pub fn duplicate(&self) -> (copy: EnumValue)
        ensures
            copy == *self,
        decreases *self,
    {
        match self {
            EnumValue::Unit(at) => EnumValue::Unit(*at),
            EnumValue::Wrapping(at, inner) => EnumValue::Wrapping(*at, Box::new(inner.duplicate())),
        }
    }
}

impl Conversion {
    /// Turns `iri` into a value of the enum. `inner` holds, at the place of each
    /// variant that wraps a value, what the conversion of the wrapped type made
    /// of `iri`.
    pub fn parse(&self, iri: &Iri, inner: &Vec<Option<EnumValue>>) -> (value: Result<EnumValue, ()>)
        ensures
            value == parsed(self@.plans, iri@, inner@),
    {
        let mut at: usize = 0;
        while at < self.plans.len()
            invariant
                at <= self.plans.len(),
                first_unit(self@.plans, iri@, 0) == first_unit(self@.plans, iri@, at as int),
            decreases self.plans.len() - at,
        {
            match &self.plans[at] {
                VariantPlan::Unit { identifier, .. } => {
                    if iri.same_as(identifier) {
                        return Ok(EnumValue::Unit(at));
                    }
                },
                VariantPlan::Wrapping { .. } => {},
            }
            at = at + 1;
        }
        let mut at: usize = 0;
        while at < self.plans.len()
            invariant
                at <= self.plans.len(),
                first_unit(self@.plans, iri@, 0) is None,
                first_delegate(self@.plans, inner@, 0) == first_delegate(
                    self@.plans,
                    inner@,
                    at as int,
                ),
            decreases self.plans.len() - at,
        {
            match &self.plans[at] {
                VariantPlan::Unit { .. } => {},
                VariantPlan::Wrapping { .. } => {
                    if at < inner.len() {
                        match &inner[at] {
                            Some(made) => {
                                return Ok(EnumValue::Wrapping(at, Box::new(made.duplicate())));
                            },
                            None => {},
                        }
                    }
                },
            }
            at = at + 1;
        }
        Err(())
    }

    /// Whether `value` is a value of the enum.
    pub fn admits(&self, value: &EnumValue) -> (admitted: bool)
        ensures
            admitted == is_value_of(self@.plans, *value),
    {
        match value {
            EnumValue::Unit(at) => *at < self.plans.len() && match &self.plans[*at] {
                VariantPlan::Unit { .. } => true,
                VariantPlan::Wrapping { .. } => false,
            },
            EnumValue::Wrapping(at, _) => *at < self.plans.len() && match &self.plans[*at] {
                VariantPlan::Unit { .. } => false,
                VariantPlan::Wrapping { .. } => true,
            },
        }
    }

    /// Turns a value of the enum into its IRI, or into the wrapped value whose
    /// IRI it has.
    pub fn render<'a>(&'a self, value: &'a EnumValue) -> (rendering: Rendering<'a>)
        requires
            is_value_of(self@.plans, *value),
        ensures
            match rendering {
                Rendering::Identifier(iri) => own_identifier(self@.plans, *value) == Some(iri@),
                Rendering::Delegated(wrapped) => *value matches EnumValue::Wrapping(_, inner)
                    && *inner == *wrapped,
            },
    {
        match value {
            EnumValue::Unit(at) => match &self.plans[*at] {
                VariantPlan::Unit { identifier, .. } => Rendering::Identifier(identifier),
                VariantPlan::Wrapping { .. } => unreached(),
            },
            EnumValue::Wrapping(_, inner) => Rendering::Delegated(inner),
        }
    }
}

/// What `first_unit` finds is the first variant from `from` on that stands for
/// `iri`, and it finds nothing only where there is none.
pub proof fn lemma_first_unit(plans: Seq<VariantPlanView>, iri: Seq<char>, from: int)
    requires
        0 <= from,
    ensures
        match first_unit(plans, iri, from) {
            Some(at) => {
                &&& from <= at < plans.len()
                &&& stands_for(plans[at], iri)
                &&& forall|j: int| from <= j < at ==> !stands_for(#[trigger] plans[j], iri)
            },
            None => forall|j: int| from <= j < plans.len() ==> !stands_for(#[trigger] plans[j], iri),
        },
    decreases plans.len() - from,
{
    if from < plans.len() && !stands_for(plans[from], iri) {
        lemma_first_unit(plans, iri, from + 1);
    }
}

/// What `first_delegate` finds is the first variant from `from` on that wraps a
/// value made of the IRI, and it finds nothing only where there is none.
pub proof fn lemma_first_delegate(
    plans: Seq<VariantPlanView>,
    inner: Seq<Option<EnumValue>>,
    from: int,
)
    requires
        0 <= from,
    ensures
        match first_delegate(plans, inner, from) {
            Some(at) => {
                &&& from <= at < plans.len()
                &&& delegates(plans, inner, at)
                &&& forall|j: int| from <= j < at ==> !delegates(plans, inner, j)
            },
            None => forall|j: int| from <= j < plans.len() ==> !delegates(plans, inner, j),
        },
    decreases plans.len() - from,
{
    if from < plans.len() && !delegates(plans, inner, from) {
        lemma_first_delegate(plans, inner, from + 1);
    }
}

/// A variant without fields comes back from its own IRI: the IRI of the variant
/// at `at` is turned into that variant, whatever the wrapped types make of it,
/// and that variant is turned into the IRI. This holds where no variant
/// declared before it stands for the same IRI.
pub proof fn lemma_unit_round_trip(
    plans: Seq<VariantPlanView>,
    at: int,
    inner: Seq<Option<EnumValue>>,
)
    requires
        plans.len() <= usize::MAX,
        0 <= at < plans.len(),
        plans[at] is Unit,
        forall|j: int| 0 <= j < at ==> !stands_for(#[trigger] plans[j], plans[at]->Unit_identifier),
    ensures
        parsed(plans, plans[at]->Unit_identifier, inner) == Ok::<_, ()>(EnumValue::Unit(at as usize)),
        is_value_of(plans, EnumValue::Unit(at as usize)),
        own_identifier(plans, EnumValue::Unit(at as usize)) == Some(plans[at]->Unit_identifier),
{
    lemma_first_unit(plans, plans[at]->Unit_identifier, 0);
}

/// An IRI that no variant stands for, and of which no wrapped type made a
/// value, is turned into nothing.
pub proof fn lemma_unknown_is_rejected(
    plans: Seq<VariantPlanView>,
    iri: Seq<char>,
    inner: Seq<Option<EnumValue>>,
)
    requires
        forall|j: int| 0 <= j < plans.len() ==> !stands_for(#[trigger] plans[j], iri),
        forall|j: int| 0 <= j < plans.len() ==> !delegates(plans, inner, j),
    ensures
        parsed(plans, iri, inner) == Err::<EnumValue, _>(()),
{
    lemma_first_unit(plans, iri, 0);
    lemma_first_delegate(plans, inner, 0);
}

/// The variants without fields come first: an IRI that one of them stands for is
/// turned into the first such variant, whatever the wrapped types make of it
/// and wherever the variants that wrap them are declared.
pub proof fn lemma_unit_has_priority(
    plans: Seq<VariantPlanView>,
    iri: Seq<char>,
    at: int,
    inner: Seq<Option<EnumValue>>,
)
    requires
        plans.len() <= usize::MAX,
        0 <= at < plans.len(),
        stands_for(plans[at], iri),
    ensures
        parsed(plans, iri, inner) matches Ok(EnumValue::Unit(first)) && first <= at && stands_for(
            plans[first as int],
            iri,
        ),
        parsed(plans, iri, inner) == parsed(plans, iri, Seq::empty()),
{
    lemma_first_unit(plans, iri, 0);
}

} // verus!
