//! Verified core of a derive generator for enums whose variants stand for IRIs.
//!
//! A declaration is handed over as plain data: its attributes, its variants and
//! their fields. From it the library builds the table of prefixes, expands and
//! validates the identifier of every variant, and plans the two conversions of
//! the enum: from an IRI to a value, and from a value to its IRI. The plan can
//! be run as it is or written out as source text.
//!
//! Every function is verified against its contract. Three things are taken on
//! trust, each behind a private function with a contract of its own: the
//! grammar of IRIs and the comparison of two IRIs, which are those of the
//! `iref` crate, and the test for UTF-8 of the standard library.

pub mod attribute;
pub mod conversion;
pub mod derive;
pub mod emit;
pub mod error;
pub mod expand;
pub mod iri;
pub mod percent;
pub mod prefix;
pub mod text;
pub mod token;
pub mod variant;

pub use crate::attribute::{filter_attribute, Attribute};
pub use crate::conversion::{Conversion, EnumValue, Rendering};
pub use crate::derive::{iri_enum_derive, plan_conversion, Data, Declaration};
pub use crate::error::DeriveError;
pub use crate::expand::{expand_iri, ExpansionError};
pub use crate::iri::Iri;
pub use crate::prefix::{collect_prefixes, PrefixTable};
pub use crate::token::{string_literal, string_literal_token, NotAStringLiteral, TokenTree};
pub use crate::variant::{Fields, Shape, Variant, VariantPlan};
