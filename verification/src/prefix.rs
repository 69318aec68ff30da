//! The table of prefixes that a declaration sets up for its compact IRIs.

use vstd::prelude::*;

use crate::attribute::{filter_attribute, filtered, Attribute};
use crate::error::{DeriveError, DeriveErrorView};
use crate::iri::{is_iri, Iri};
use crate::text::text_eq;
use crate::token::{literal_content, string_literal_token, TokenTree};

verus! {

/// A prefix and the IRI that it stands for.
struct Binding {
    prefix: String,
    base: Iri,
}

/// The prefixes of a declaration, each with the IRI that it stands for. A prefix
/// that is bound again stands for the later IRI.
pub struct PrefixTable {
    bindings: Vec<Binding>,
}

/// The map that a row of bindings amounts to when each is written over those
/// before it.
spec fn bound(bindings: Seq<Binding>) -> Map<Seq<char>, Seq<char>>
    decreases bindings.len(),
{
    if bindings.len() == 0 {
        Map::empty()
    } else {
        bound(bindings.drop_last()).insert(bindings.last().prefix@, bindings.last().base@)
    }
}

/// A prefix that no binding from `from` on bears is bound by the whole row as
/// it is by the bindings before `from`.
proof fn lemma_bound_tail(bindings: Seq<Binding>, from: int, prefix: Seq<char>)
    requires
        0 <= from <= bindings.len(),
        forall|j: int| from <= j < bindings.len() ==> bindings[j].prefix@ != prefix,
    ensures
        bound(bindings).contains_key(prefix) == bound(bindings.take(from)).contains_key(prefix),
        bound(bindings).contains_key(prefix) ==> bound(bindings)[prefix] == bound(
            bindings.take(from),
        )[prefix],
    decreases bindings.len(),
{
    if from == bindings.len() {
        assert(bindings.take(from) == bindings);
    } else {
        assert(bindings.drop_last().take(from) == bindings.take(from));
        lemma_bound_tail(bindings.drop_last(), from, prefix);
    }
}

impl View for PrefixTable {
    type V = Map<Seq<char>, Seq<char>>;

    closed spec fn view(&self) -> Map<Seq<char>, Seq<char>> {
        bound(self.bindings@)
    }
}

impl PrefixTable {
    /// A table without prefixes.
    pub fn new() -> (table: PrefixTable)
        ensures
            table@ == Map::<Seq<char>, Seq<char>>::empty(),
    {
        PrefixTable { bindings: Vec::new() }
    }

    /// Binds `prefix` to `base`, whatever it was bound to before.
    pub fn insert(&mut self, prefix: String, base: Iri)
        ensures
            final(self)@ == old(self)@.insert(prefix@, base@),
    {
        self.bindings.push(Binding { prefix, base });
        assert(self.bindings@.drop_last() == old(self).bindings@);
    }

    /// The IRI that `prefix` stands for.
    pub fn get(&self, prefix: &str) -> (base: Option<&Iri>)
        ensures
            match base {
                Some(iri) => self@.contains_key(prefix@) && self@[prefix@] == iri@,
                None => !self@.contains_key(prefix@),
            },
    {
        let mut at: usize = self.bindings.len();
        while at > 0
            invariant
                at <= self.bindings.len(),
                forall|j: int| at <= j < self.bindings.len() ==> self.bindings[j].prefix@ != prefix@,
            decreases at,
        {
            at = at - 1;
            if text_eq(self.bindings[at].prefix.as_str(), prefix) {
                proof {
                    lemma_bound_tail(self.bindings@, at + 1, prefix@);
                    assert(self.bindings@.take(at + 1).drop_last() == self.bindings@.take(at as int));
                }
                return Some(&self.bindings[at].base);
            }
        }
        proof {
            lemma_bound_tail(self.bindings@, 0, prefix@);
        }
        None
    }
}

/// The prefix and the text of its IRI that the arguments of an `iri_prefix`
/// attribute declare: a string literal, the sign `=` and a string literal, and
/// nothing else.
pub open spec fn declaration_of(stream: Seq<TokenTree>) -> Option<(Seq<char>, Seq<char>)> {
    if stream.len() == 3 && stream[1] == TokenTree::Punct('=') {
        match (literal_content(stream[0]), literal_content(stream[2])) {
            (Some(prefix), Some(raw)) => Some((prefix, raw)),
            _ => None,
        }
    } else {
        None
    }
}

/// What one attribute of the declaration binds: nothing where it is not an
/// `iri_prefix` attribute, else the prefix and the IRI that it declares.
pub open spec fn attribute_binding(attr: Attribute) -> Result<
    Option<(Seq<char>, Seq<char>)>,
    DeriveErrorView,
> {
    match filtered(attr, "iri_prefix"@) {
        Err(failure) => Err(failure),
        Ok(None) => Ok(None),
        Ok(Some(stream)) => match declaration_of(stream) {
            None => Err(DeriveErrorView::MalformedPrefixAttribute),
            Some((prefix, raw)) => if is_iri(raw) {
                Ok(Some((prefix, raw)))
            } else {
                Err(DeriveErrorView::InvalidPrefixIri { prefix, raw })
            },
        },
    }
}

/// The table that the attributes set up, read in their order, or the first
/// failure among them.
pub open spec fn declared_prefixes(attrs: Seq<Attribute>) -> Result<
    Map<Seq<char>, Seq<char>>,
    DeriveErrorView,
>
    decreases attrs.len(),
{
    if attrs.len() == 0 {
        Ok(Map::empty())
    } else {
        match declared_prefixes(attrs.drop_last()) {
            Err(failure) => Err(failure),
            Ok(table) => match attribute_binding(attrs.last()) {
                Err(failure) => Err(failure),
                Ok(None) => Ok(table),
                Ok(Some((prefix, base))) => Ok(table.insert(prefix, base)),
            },
        }
    }
}

/// A failure among the first attributes is the failure of them all.
proof fn lemma_failure_stays(attrs: Seq<Attribute>, count: int)
    requires
        0 <= count <= attrs.len(),
        declared_prefixes(attrs.take(count)) is Err,
    ensures
        declared_prefixes(attrs) == declared_prefixes(attrs.take(count)),
    decreases attrs.len(),
{
    if count == attrs.len() {
        assert(attrs.take(count) == attrs);
    } else {
        assert(attrs.drop_last().take(count) == attrs.take(count));
        lemma_failure_stays(attrs.drop_last(), count);
    }
}

/// Every prefix of the table that the attributes set up stands for an IRI.
pub proof fn lemma_declared_bases_are_iris(attrs: Seq<Attribute>, prefix: Seq<char>)
    requires
        declared_prefixes(attrs) matches Ok(table) && table.contains_key(prefix),
    ensures
        is_iri(declared_prefixes(attrs)->Ok_0[prefix]),
    decreases attrs.len(),
{
    if attrs.len() > 0 {
        let before = declared_prefixes(attrs.drop_last())->Ok_0;
        if before.contains_key(prefix) {
            lemma_declared_bases_are_iris(attrs.drop_last(), prefix);
        }
    }
}

/// A prefix that is declared again stands for the IRI of the later
/// declaration: the last attribute that binds a prefix decides.
pub proof fn lemma_last_declaration_wins(attrs: Seq<Attribute>, prefix: Seq<char>, base: Seq<char>)
    requires
        attrs.len() > 0,
        declared_prefixes(attrs) is Ok,
        attribute_binding(attrs.last()) matches Ok(Some(binding)) && binding == (prefix, base),
    ensures
        declared_prefixes(attrs)->Ok_0.contains_key(prefix),
        declared_prefixes(attrs)->Ok_0[prefix] == base,
{
}

/// Reads the arguments of an `iri_prefix` attribute: the prefix, and the text of
/// its IRI.
pub fn parse_prefix(stream: &Vec<TokenTree>) -> (declared: Result<(String, String), DeriveError>)
    ensures
        match declared {
            Ok((prefix, raw)) => declaration_of(stream@) == Some((prefix@, raw@)),
            Err(error) => declaration_of(stream@) is None && error@
                == DeriveErrorView::MalformedPrefixAttribute,
        },
{
    if stream.len() != 3 {
        return Err(DeriveError::MalformedPrefixAttribute);
    }
    let assigns = match &stream[1] {
        TokenTree::Punct(sign) => *sign == '=',
        _ => false,
    };
    if !assigns {
        return Err(DeriveError::MalformedPrefixAttribute);
    }
    match string_literal_token(&stream[0]) {
        Ok(prefix) => match string_literal_token(&stream[2]) {
            Ok(raw) => Ok((prefix, raw)),
            Err(_) => Err(DeriveError::MalformedPrefixAttribute),
        },
        Err(_) => Err(DeriveError::MalformedPrefixAttribute),
    }
}

/// Reads one attribute of the declaration for the prefix that it binds.
pub fn read_binding(attr: &Attribute) -> (read: Result<Option<(String, Iri)>, DeriveError>)
    ensures
        match read {
            Ok(Some((prefix, base))) => attribute_binding(*attr) matches Ok(Some(binding))
                && binding == (prefix@, base@),
            Ok(None) => attribute_binding(*attr) matches Ok(None),
            Err(error) => attribute_binding(*attr) matches Err(failure) && failure == error@,
        },
{
    match filter_attribute(attr, "iri_prefix") {
        Err(error) => Err(error),
        Ok(None) => Ok(None),
        Ok(Some(stream)) => match parse_prefix(stream) {
            Err(error) => Err(error),
            Ok((prefix, raw)) => match Iri::new(raw) {
                Ok(base) => Ok(Some((prefix, base))),
                Err(raw) => Err(DeriveError::InvalidPrefixIri { prefix, raw }),
            },
        },
    }
}

/// Builds the table of prefixes from the attributes of a declaration.
pub fn collect_prefixes(attrs: &Vec<Attribute>) -> (collected: Result<PrefixTable, DeriveError>)
    ensures
        match collected {
            Ok(table) => declared_prefixes(attrs@) matches Ok(declared) && declared == table@,
            Err(error) => declared_prefixes(attrs@) matches Err(failure) && failure == error@,
        },
{
    let mut table = PrefixTable::new();
    let mut at: usize = 0;
    while at < attrs.len()
        invariant
            at <= attrs.len(),
            declared_prefixes(attrs@.take(at as int)) matches Ok(declared) && declared == table@,
        decreases attrs.len() - at,
    {
        proof {
            assert(attrs@.take(at + 1).drop_last() == attrs@.take(at as int));
        }
        match read_binding(&attrs[at]) {
            Err(error) => {
                proof {
                    lemma_failure_stays(attrs@, at + 1);
                }
                return Err(error);
            },
            Ok(None) => {},
            Ok(Some((prefix, base))) => {
                table.insert(prefix, base);
            },
        }
        at = at + 1;
    }
    proof {
        assert(attrs@.take(at as int) == attrs@);
    }
    Ok(table)
}

} // verus!
