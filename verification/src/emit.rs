//! The source text of what is generated: the impls of the two conversions, or
//! the directive that reports an error.

use vstd::prelude::*;
use vstd::string::*;

use crate::conversion::{Conversion, ConversionView};
use crate::error::{message_text, DeriveError, DeriveErrorView};
use crate::text::find_char;
use crate::variant::{plan_views, VariantPlan, VariantPlanView};

verus! {

/// `text` with each `needle` in it replaced by `with`.
pub open spec fn replaced(text: Seq<char>, needle: char, with: Seq<char>) -> Seq<char>
    decreases text.len(),
{
    if text.len() == 0 {
        Seq::empty()
    } else {
        replaced(text.drop_last(), needle, with) + if text.last() == needle {
            with
        } else {
            seq![text.last()]
        }
    }
}

/// Replacing goes through a text piece by piece.
pub proof fn lemma_replaced_concat(head: Seq<char>, tail: Seq<char>, needle: char, with: Seq<char>)
    ensures
        replaced(head + tail, needle, with) == replaced(head, needle, with) + replaced(
            tail,
            needle,
            with,
        ),
    decreases tail.len(),
{
    if tail.len() == 0 {
        assert(head + tail == head);
    } else {
        assert((head + tail).drop_last() == head + tail.drop_last());
        lemma_replaced_concat(head, tail.drop_last(), needle, with);
    }
}

/// A text without `needle` stays as it is.
pub proof fn lemma_replaced_plain(text: Seq<char>, needle: char, with: Seq<char>)
    requires
        forall|j: int| 0 <= j < text.len() ==> text[j] != needle,
    ensures
        replaced(text, needle, with) == text,
    decreases text.len(),
{
    if text.len() > 0 {
        lemma_replaced_plain(text.drop_last(), needle, with);
        assert(text.drop_last().push(text.last()) == text);
    }
}

/// Replaces each `needle` in `text` by `with`.
pub fn replace_char(text: &str, needle: char, with: &str) -> (out: String)
    ensures
        out@ == replaced(text@, needle, with@),
{
    let mut out = String::new();
    let mut rest: &str = text;
    let mut more = true;
    let ghost mut done: Seq<char> = Seq::empty();
    while more
        invariant
            text@ == done + rest@,
            out@ == replaced(done, needle, with@),
            !more ==> rest@.len() == 0,
        decreases rest@.len() + if more { 1nat } else { 0nat },
    {
        match find_char(rest, needle) {
            Some(at) => {
                let count: usize = rest.unicode_len();
                proof {
                    rest@.index_of_first_ensures(needle);
                }
                let plain = rest.substring_char(0, at);
                let after = rest.substring_char(at + 1, count);
                proof {
                    lemma_replaced_plain(plain@, needle, with@);
                    lemma_replaced_concat(done, plain@, needle, with@);
                    lemma_replaced_concat(done + plain@, seq![needle], needle, with@);
                    assert(replaced(seq![needle], needle, with@) == with@) by {
                        assert(seq![needle].drop_last() == Seq::<char>::empty());
                        assert(replaced(Seq::<char>::empty(), needle, with@) == Seq::<char>::empty());
                        assert(Seq::<char>::empty() + with@ == with@);
                    }
                    assert(rest@ == plain@ + seq![needle] + after@);
                    done = done + plain@ + seq![needle];
                }
                out.append(plain);
                out.append(with);
                rest = after;
            },
            None => {
                proof {
                    rest@.index_of_first_ensures(needle);
                    lemma_replaced_plain(rest@, needle, with@);
                    lemma_replaced_concat(done, rest@, needle, with@);
                    done = done + rest@;
                }
                out.append(rest);
                rest = "";
                more = false;
                proof {
                    reveal_strlit("");
                }
            },
        }
    }
    proof {
        assert(done + rest@ == done);
    }
    out
}

/// `text` as it stands inside a string literal: each backslash doubled, then
/// each double quote behind a backslash.
pub open spec fn escaped(text: Seq<char>) -> Seq<char> {
    replaced(replaced(text, '\\', seq!['\\', '\\']), '"', seq!['\\', '"'])
}

/// The string literal that holds `text`.
pub open spec fn quoted(text: Seq<char>) -> Seq<char> {
    seq!['"'] + escaped(text) + seq!['"']
}

/// Writes `text` as a string literal.
pub fn quote(text: &str) -> (literal: String)
    ensures
        literal@ == quoted(text@),
{
    proof {
        reveal_strlit("\\\\");
        reveal_strlit("\\\"");
        reveal_strlit("\"");
        assert("\\\\"@ == seq!['\\', '\\']);
        assert("\\\""@ == seq!['\\', '"']);
        assert("\""@ == seq!['"']);
    }
    let doubled = replace_char(text, '\\', "\\\\");
    let inside = replace_char(doubled.as_str(), '"', "\\\"");
    let mut literal = "\"".to_owned();
    literal.append(inside.as_str());
    literal.append("\"");
    literal
}

/// The directive that makes the compiler report `message`.
pub open spec fn error_text(message: Seq<char>) -> Seq<char> {
    "compile_error!("@ + quoted(message) + ");"@
}

/// Writes the directive that makes the compiler report `error`.
pub fn emit_error(error: &DeriveError) -> (code: String)
    ensures
        code@ == error_text(message_text(error@)),
{
    let message = error.message();
    let literal = quote(message.as_str());
    let mut code = "compile_error!(".to_owned();
    code.append(literal.as_str());
    code.append(");");
    code
}

/// The opening of the impl that turns an IRI into a value, with `$` for the name
/// of the enum.
pub const TRY_FROM_OPENING: &'static str =
    "impl<'a> ::std::convert::TryFrom<&'a ::iref::Iri> for $ {\n\ttype Error = ();\n\n\t#[inline]\n\tfn try_from(iri: &'a ::iref::Iri) -> ::std::result::Result<$, ()> {\n\t\tmatch iri {\n";

/// The closing of that impl.
pub const TRY_FROM_CLOSING: &'static str = "\n\t\t}\n\t}\n}\n\n";

/// The opening of the impl that turns a reference to a value into its IRI.
pub const INTO_OPENING: &'static str =
    "impl<'a, 'i> From<&'a $> for &'i ::iref::Iri {\n\t#[inline]\n\tfn from(vocab: &'a $) -> &'i ::iref::Iri {\n\t\tmatch vocab {\n";

/// The closing of that impl.
pub const INTO_CLOSING: &'static str = "\t\t}\n\t}\n}\n\n";

/// The impls that rest on the one before: from a value, to a reference to an
/// IRI reference, and `AsRef` for both.
pub const FORWARDING: &'static str =
    "impl<'i> From<$> for &'i ::iref::Iri {\n\t#[inline]\n\tfn from(vocab: $) -> &'i ::iref::Iri {\n\t\t<&::iref::Iri as From<&$>>::from(&vocab)\n\t}\n}\n\nimpl<'a, 'i> From<&'a $> for &'i ::iref::IriRef {\n\t#[inline]\n\tfn from(vocab: &'a $) -> &'i ::iref::IriRef {\n\t\t<&::iref::Iri as From<&$>>::from(vocab).as_iri_ref()\n\t}\n}\n\nimpl<'i> From<$> for &'i ::iref::IriRef {\n\t#[inline]\n\tfn from(vocab: $) -> &'i ::iref::IriRef {\n\t\t<&::iref::Iri as From<$>>::from(vocab).as_iri_ref()\n\t}\n}\n\nimpl AsRef<iref::Iri> for $ {\n\t#[inline]\n\tfn as_ref(&self) -> &::iref::Iri {\n\t\t<&::iref::Iri as From<&$>>::from(self)\n\t}\n}\n\nimpl AsRef<iref::IriRef> for $ {\n\t#[inline]\n\tfn as_ref(&self) -> &::iref::IriRef {\n\t\t<&::iref::IriRef as From<&$>>::from(self)\n\t}\n}\n";

/// The arm that tries one variant on an IRI: written for a variant without
/// fields, empty for one that wraps a value.
pub open spec fn try_arm(name: Seq<char>, plan: VariantPlanView) -> Seq<char> {
    match plan {
        VariantPlanView::Unit { name: variant, identifier } => "\t\t\t_ if iri == static_iref::iri!("@
            + quoted(identifier) + ") => Ok("@ + name + "::"@ + variant + "),\n"@,
        VariantPlanView::Wrapping { .. } => Seq::empty(),
    }
}

/// The arms that try the variants without fields, in the order of the plans.
pub open spec fn try_arms(name: Seq<char>, plans: Seq<VariantPlanView>) -> Seq<char>
    decreases plans.len(),
{
    if plans.len() == 0 {
        Seq::empty()
    } else {
        try_arms(name, plans.drop_last()) + try_arm(name, plans.last())
    }
}

/// What is tried once no variant without fields stands for the IRI: the
/// conversion of each wrapped type from `from` on, in the order of the plans,
/// each inside the failure of the one before, and a failure inside the last.
pub open spec fn fallback(name: Seq<char>, plans: Seq<VariantPlanView>, from: int) -> Seq<char>
    decreases plans.len() - from,
{
    if from < 0 || from >= plans.len() {
        "Err(())"@
    } else {
        match plans[from] {
            VariantPlanView::Unit { .. } => fallback(name, plans, from + 1),
            VariantPlanView::Wrapping { name: variant, inner } => "match "@ + inner
                + "::try_from(iri) { Ok(value) => Ok("@ + name + "::"@ + variant
                + "(value)), Err(_) => { "@ + fallback(name, plans, from + 1) + " } }"@,
        }
    }
}

/// The arm that turns one variant into its IRI.
pub open spec fn into_arm(name: Seq<char>, plan: VariantPlanView) -> Seq<char> {
    match plan {
        VariantPlanView::Unit { name: variant, identifier } => "\t\t\t"@ + name + "::"@ + variant
            + " => static_iref::iri!("@ + quoted(identifier) + "),\n"@,
        VariantPlanView::Wrapping { name: variant, .. } => "\t\t\t"@ + name + "::"@ + variant
            + "(v) => v.into(),\n"@,
    }
}

/// The arms that turn the variants into their IRIs, in the order of the plans.
pub open spec fn into_arms(name: Seq<char>, plans: Seq<VariantPlanView>) -> Seq<char>
    decreases plans.len(),
{
    if plans.len() == 0 {
        Seq::empty()
    } else {
        into_arms(name, plans.drop_last()) + into_arm(name, plans.last())
    }
}

/// The impl that turns an IRI into a value of the enum.
pub open spec fn try_from_text(conversion: ConversionView) -> Seq<char> {
    replaced(TRY_FROM_OPENING@, '$', conversion.name) + try_arms(conversion.name, conversion.plans)
        + "\t\t\t_ => "@ + fallback(conversion.name, conversion.plans, 0) + TRY_FROM_CLOSING@
}

/// The impl that turns a reference to a value of the enum into its IRI.
pub open spec fn into_text(conversion: ConversionView) -> Seq<char> {
    replaced(INTO_OPENING@, '$', conversion.name) + into_arms(conversion.name, conversion.plans)
        + INTO_CLOSING@
}

/// All that is generated for the enum.
pub open spec fn code_text(conversion: ConversionView) -> Seq<char> {
    try_from_text(conversion) + into_text(conversion) + replaced(FORWARDING@, '$', conversion.name)
}

fn emit_try_arm(name: &str, plan: &VariantPlan) -> (arm: String)
    ensures
        arm@ == try_arm(name@, plan@),
{
    match plan {
        VariantPlan::Unit { name: variant, identifier } => {
            let literal = quote(identifier.as_str());
            let mut arm = "\t\t\t_ if iri == static_iref::iri!(".to_owned();
            arm.append(literal.as_str());
            arm.append(") => Ok(");
            arm.append(name);
            arm.append("::");
            arm.append(variant.as_str());
            arm.append("),\n");
            arm
        },
        VariantPlan::Wrapping { .. } => String::new(),
    }
}

fn emit_into_arm(name: &str, plan: &VariantPlan) -> (arm: String)
    ensures
        arm@ == into_arm(name@, plan@),
{
    let mut arm = "\t\t\t".to_owned();
    arm.append(name);
    arm.append("::");
    match plan {
        VariantPlan::Unit { name: variant, identifier } => {
            let literal = quote(identifier.as_str());
            arm.append(variant.as_str());
            arm.append(" => static_iref::iri!(");
            arm.append(literal.as_str());
            arm.append("),\n");
        },
        VariantPlan::Wrapping { name: variant, .. } => {
            arm.append(variant.as_str());
            arm.append("(v) => v.into(),\n");
        },
    }
    arm
}

fn emit_fallback(name: &str, plans: &Vec<VariantPlan>, from: usize) -> (code: String)
    ensures
        code@ == fallback(name@, plan_views(plans@), from as int),
    decreases plans.len() - from,
{
    if from >= plans.len() {
        return "Err(())".to_owned();
    }
    let rest = emit_fallback(name, plans, from + 1);
    match &plans[from] {
        VariantPlan::Unit { .. } => rest,
        VariantPlan::Wrapping { name: variant, inner } => {
            let mut code = "match ".to_owned();
            code.append(inner.as_str());
            code.append("::try_from(iri) { Ok(value) => Ok(");
            code.append(name);
            code.append("::");
            code.append(variant.as_str());
            code.append("(value)), Err(_) => { ");
            code.append(rest.as_str());
            code.append(" } }");
            code
        },
    }
}

impl Conversion {
    /// Writes the impls of the two conversions.
    pub fn emit(&self) -> (code: String)
        ensures
            code@ == code_text(self@),
    {
        let name = self.name.as_str();
        let mut code = replace_char(TRY_FROM_OPENING, '$', name);
        let mut at: usize = 0;
        while at < self.plans.len()
            invariant
                at <= self.plans.len(),
                name@ == self@.name,
                code@ == replaced(TRY_FROM_OPENING@, '$', name@) + try_arms(
                    name@,
                    self@.plans.take(at as int),
                ),
            decreases self.plans.len() - at,
        {
            proof {
                assert(self@.plans.take(at + 1).drop_last() == self@.plans.take(at as int));
            }
            let arm = emit_try_arm(name, &self.plans[at]);
            code.append(arm.as_str());
            at = at + 1;
        }
        proof {
            assert(self@.plans.take(at as int) == self@.plans);
        }
        let last = emit_fallback(name, &self.plans, 0);
        code.append("\t\t\t_ => ");
        code.append(last.as_str());
        code.append(TRY_FROM_CLOSING);
        let opening = replace_char(INTO_OPENING, '$', name);
        code.append(opening.as_str());
        let ghost before = code@;
        let mut at: usize = 0;
        while at < self.plans.len()
            invariant
                at <= self.plans.len(),
                name@ == self@.name,
                code@ == before + into_arms(name@, self@.plans.take(at as int)),
            decreases self.plans.len() - at,
        {
            proof {
                assert(self@.plans.take(at + 1).drop_last() == self@.plans.take(at as int));
            }
            let arm = emit_into_arm(name, &self.plans[at]);
            code.append(arm.as_str());
            at = at + 1;
        }
        proof {
            assert(self@.plans.take(at as int) == self@.plans);
        }
        code.append(INTO_CLOSING);
        let forwarding = replace_char(FORWARDING, '$', name);
        code.append(forwarding.as_str());
        code
    }
}

} // verus!
