//! From the text of an `iri` attribute to the IRI that it stands for.
//!
//! A text is compact where it has a colon that is not its first character, what
//! follows that colon does not begin with `//`, and what stands before it is a
//! declared prefix. A compact text stands for the IRI of the prefix followed by
//! what follows the colon. Any other text stands for itself.

use vstd::prelude::*;
use vstd::string::*;

use crate::iri::{is_iri, Iri};
use crate::prefix::PrefixTable;
use crate::text::{find_char, starts_with};

verus! {

/// Why a text stands for no IRI.
#[derive(Debug, Clone, Copy, PartialEq, Eq, Structural)]
pub enum ExpansionError {
    /// The text is compact, and what it expands to is no IRI.
    InvalidExpandedIri,
    /// The text is taken as it is, and is no IRI.
    InvalidIri,
}

/// The two characters that open an authority.
pub open spec fn authority_mark() -> Seq<char> {
    seq!['/', '/']
}

/// What stands before and after the first colon of `raw`, where the text has the
/// shape of a compact IRI.
pub open spec fn compact_parts(raw: Seq<char>) -> Option<(Seq<char>, Seq<char>)> {
    match raw.index_of_first(':') {
        Some(colon) => if colon > 0 && !authority_mark().is_prefix_of(raw.skip(colon + 1)) {
            Some((raw.take(colon), raw.skip(colon + 1)))
        } else {
            None
        },
        None => None,
    }
}

/// What `raw` expands to under the prefixes of `table`, where it is compact.
pub open spec fn expansion(raw: Seq<char>, table: Map<Seq<char>, Seq<char>>) -> Option<Seq<char>> {
    match compact_parts(raw) {
        Some((prefix, suffix)) => if table.contains_key(prefix) {
            Some(table[prefix] + suffix)
        } else {
            None
        },
        None => None,
    }
}

/// The IRI that `raw` stands for under the prefixes of `table`. An expansion
/// that is no IRI is an error: the text is not tried as it is after that.
pub open spec fn expanded(raw: Seq<char>, table: Map<Seq<char>, Seq<char>>) -> Result<
    Seq<char>,
    ExpansionError,
> {
    match expansion(raw, table) {
        Some(text) => if is_iri(text) {
            Ok(text)
        } else {
            Err(ExpansionError::InvalidExpandedIri)
        },
        None => if is_iri(raw) {
            Ok(raw)
        } else {
            Err(ExpansionError::InvalidIri)
        },
    }
}

/// A compact text and the absolute text that it abbreviates stand for the same
/// IRI: the prefix, a colon and the suffix fare under a table that binds the
/// prefix as the IRI of the prefix followed by the suffix fares without any
/// table. Where both fail, each fails with the error of its own form.
pub proof fn lemma_compact_stands_for_absolute(
    prefix: Seq<char>,
    suffix: Seq<char>,
    table: Map<Seq<char>, Seq<char>>,
)
    requires
        prefix.len() > 0,
        !prefix.contains(':'),
        !authority_mark().is_prefix_of(suffix),
        table.contains_key(prefix),
    ensures
        match expanded(prefix + seq![':'] + suffix, table) {
            Ok(iri) => iri == table[prefix] + suffix && expanded(
                table[prefix] + suffix,
                Map::empty(),
            ) == Ok::<_, ExpansionError>(iri),
            Err(error) => error == ExpansionError::InvalidExpandedIri && expanded(
                table[prefix] + suffix,
                Map::empty(),
            ) == Err::<Seq<char>, _>(ExpansionError::InvalidIri),
        },
{
    let raw = prefix + seq![':'] + suffix;
    let colon = prefix.len() as int;
    raw.index_of_first_ensures(':');
    assert(raw[colon] == ':');
    assert(forall|j: int| 0 <= j < colon ==> raw[j] == prefix[j]);
    assert(raw.index_of_first(':') == Some(colon));
    assert(raw.take(colon) == prefix);
    assert(raw.skip(colon + 1) == suffix);
}

/// The mark of an authority guards a scheme: a text whose first colon is
/// followed by `//` is taken as it is, whatever prefixes are declared.
pub proof fn lemma_authority_is_guarded(raw: Seq<char>, table: Map<Seq<char>, Seq<char>>)
    requires
        raw.index_of_first(':') matches Some(colon) && authority_mark().is_prefix_of(
            raw.skip(colon + 1),
        ),
    ensures
        expansion(raw, table) is None,
        expanded(raw, table) == expanded(raw, Map::empty()),
{
}

/// A text whose prefix is not declared is taken as it is: it stands for itself
/// where it is an IRI, and for nothing where it is not.
pub proof fn lemma_unregistered_prefix_falls_back(raw: Seq<char>, table: Map<Seq<char>, Seq<char>>)
    requires
        compact_parts(raw) matches Some(parts) ==> !table.contains_key(parts.0),
    ensures
        expanded(raw, table) == if is_iri(raw) {
            Ok::<_, ExpansionError>(raw)
        } else {
            Err(ExpansionError::InvalidIri)
        },
{
}

/// What a text stands for is an IRI.
pub proof fn lemma_expanded_is_iri(raw: Seq<char>, table: Map<Seq<char>, Seq<char>>)
    requires
        expanded(raw, table) is Ok,
    ensures
        is_iri(expanded(raw, table)->Ok_0),
{
}

/// Splits `raw` at its first colon, where it has the shape of a compact IRI.
pub fn split_compact(raw: &str) -> (parts: Option<(&str, &str)>)
    ensures
        match parts {
            Some((prefix, suffix)) => compact_parts(raw@) == Some((prefix@, suffix@)),
            None => compact_parts(raw@) is None,
        },
{
    match find_char(raw, ':') {
        Some(colon) => {
            proof {
                raw@.index_of_first_ensures(':');
            }
            let count: usize = raw.unicode_len();
            let suffix = raw.substring_char(colon + 1, count);
            proof {
                reveal_strlit("//");
                assert("//"@ == authority_mark());
            }
            if colon > 0 && !starts_with(suffix, "//") {
                Some((raw.substring_char(0, colon), suffix))
            } else {
                None
            }
        },
        None => None,
    }
}

/// Expands `raw` under the prefixes of `table`, where it is compact.
pub fn expand_compact(raw: &str, table: &PrefixTable) -> (text: Option<String>)
    ensures
        match text {
            Some(long) => expansion(raw@, table@) == Some(long@),
            None => expansion(raw@, table@) is None,
        },
{
    match split_compact(raw) {
        Some((prefix, suffix)) => match table.get(prefix) {
            Some(base) => {
                let mut long = base.as_str().to_owned();
                long.append(suffix);
                Some(long)
            },
            None => None,
        },
        None => None,
    }
}

/// What the validation of a text amounts to: the IRI, or the error of an
/// expansion or of a text taken as it is.
pub fn expansion_outcome(compact: bool, validated: Result<Iri, String>) -> (outcome: Result<
    Iri,
    ExpansionError,
>)
    ensures
        match validated {
            Ok(iri) => outcome matches Ok(same) && same@ == iri@,
            Err(_) => outcome == Err::<Iri, _>(
                if compact {
                    ExpansionError::InvalidExpandedIri
                } else {
                    ExpansionError::InvalidIri
                },
            ),
        },
{
    match validated {
        Ok(iri) => Ok(iri),
        Err(_) => if compact {
            Err(ExpansionError::InvalidExpandedIri)
        } else {
            Err(ExpansionError::InvalidIri)
        },
    }
}

/// The IRI that `value` stands for under the prefixes of `prefixes`.
pub fn expand_iri(value: &str, prefixes: &PrefixTable) -> (iri: Result<Iri, ExpansionError>)
    ensures
        match iri {
            Ok(found) => expanded(value@, prefixes@) == Ok::<_, ExpansionError>(found@),
            Err(error) => expanded(value@, prefixes@) == Err::<Seq<char>, _>(error),
        },
{
    match expand_compact(value, prefixes) {
        Some(long) => expansion_outcome(true, Iri::new(long)),
        None => expansion_outcome(false, Iri::new(value.to_owned())),
    }
}

} // verus!
