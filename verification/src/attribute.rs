//! Attributes, and the picking of those that bear a given name.

use vstd::prelude::*;

use crate::error::{DeriveError, DeriveErrorView};
use crate::text::text_eq;
use crate::token::TokenTree;

verus! {

/// An attribute of a declaration or of a variant.
#[derive(Debug, PartialEq, Eq)]
pub struct Attribute {
    /// The name of the attribute, where its path is a single word.
    pub name: Option<String>,
    /// The tokens that follow the path.
    pub tokens: Vec<TokenTree>,
}

/// Whether the attribute bears that name.
pub open spec fn is_named(attr: Attribute, name: Seq<char>) -> bool {
    attr.name matches Some(word) && word@ == name
}

/// The stream inside the group that opens the attribute's tokens.
pub open spec fn arguments(attr: Attribute) -> Option<Seq<TokenTree>> {
    if attr.tokens@.len() > 0 {
        match attr.tokens@[0] {
            TokenTree::Group(stream) => Some(stream@),
            _ => None,
        }
    } else {
        None
    }
}

/// What the attribute gives to one who looks for `name`: nothing where it bears
/// another name, its arguments where it bears that name, and a failure where it
/// bears that name without a group of arguments.
pub open spec fn filtered(attr: Attribute, name: Seq<char>) -> Result<
    Option<Seq<TokenTree>>,
    DeriveErrorView,
> {
    if !is_named(attr, name) {
        Ok(None)
    } else {
        match arguments(attr) {
            Some(stream) => Ok(Some(stream)),
            None => Err(DeriveErrorView::MalformedAttribute { attribute: name }),
        }
    }
}

/// Looks whether `attr` is the attribute `name`, and hands out its arguments if
/// it is.
pub fn filter_attribute<'a>(attr: &'a Attribute, name: &str) -> (found: Result<
    Option<&'a Vec<TokenTree>>,
    DeriveError,
>)
    ensures
        match found {
            Ok(Some(stream)) => filtered(*attr, name@) matches Ok(Some(group)) && group == stream@,
            Ok(None) => filtered(*attr, name@) matches Ok(None),
            Err(error) => filtered(*attr, name@) matches Err(failure) && failure == error@,
        },
{
    match &attr.name {
        Some(word) => {
            if text_eq(word.as_str(), name) {
                if attr.tokens.len() > 0 {
                    match &attr.tokens[0] {
                        TokenTree::Group(stream) => Ok(Some(stream)),
                        _ => Err(DeriveError::MalformedAttribute { attribute: name.to_owned() }),
                    }
                } else {
                    Err(DeriveError::MalformedAttribute { attribute: name.to_owned() })
                }
            } else {
                Ok(None)
            }
        },
        None => Ok(None),
    }
}

} // verus!
