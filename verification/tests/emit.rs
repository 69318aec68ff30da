use iref_enum::emit::{emit_error, quote, replace_char};
use iref_enum::{Conversion, DeriveError, Iri, VariantPlan};

fn unit(name: &str, identifier: &str) -> VariantPlan {
    VariantPlan::Unit {
        name: name.to_string(),
        identifier: Iri::new(identifier.to_string()).unwrap(),
    }
}

fn wrapping(name: &str, inner: &str) -> VariantPlan {
    VariantPlan::Wrapping {
        name: name.to_string(),
        inner: inner.to_string(),
    }
}

#[test]
fn every_needle_is_replaced() {
    assert_eq!(replace_char("for $ and &$", '$', "Vocab"), "for Vocab and &Vocab");
    assert_eq!(replace_char("$$", '$', "ab"), "abab");
    assert_eq!(replace_char("$", '$', ""), "");
    assert_eq!(replace_char("a$", '$', "$"), "a$");
    assert_eq!(replace_char("é$ü", '$', "ö"), "éöü");
}

#[test]
fn text_without_the_needle_is_kept() {
    assert_eq!(replace_char("plain", '$', "Vocab"), "plain");
    assert_eq!(replace_char("", '$', "Vocab"), "");
}

#[test]
fn quoting_escapes_quotes_and_backslashes() {
    assert_eq!(quote("https://schema.org/"), "\"https://schema.org/\"");
    assert_eq!(quote(""), "\"\"");
    assert_eq!(quote("a\"b"), "\"a\\\"b\"");
    assert_eq!(quote("a\\b"), "\"a\\\\b\"");
    assert_eq!(quote("\\\""), "\"\\\\\\\"\"");
}

#[test]
fn quoted_text_reads_back_as_the_text() {
    for text in ["https://schema.org/", "a\"b", "a\\b", "\\\"", "`x` \\n"] {
        let parsed: syn::LitStr = syn::parse_str(&quote(text)).unwrap();
        assert_eq!(parsed.value(), text);
    }
}

#[test]
fn error_is_written_as_a_directive() {
    assert_eq!(
        emit_error(&DeriveError::NotAnEnum),
        "compile_error!(\"only enums are handled by IriEnum\");"
    );
    assert_eq!(
        emit_error(&DeriveError::MissingIdentifier {
            variant: "Name".to_string()
        }),
        "compile_error!(\"missing IRI for enum variant `Name`\");"
    );
}

#[test]
fn directive_is_valid_whatever_the_message_holds() {
    let error = DeriveError::InvalidIri {
        raw: "a\"b\\".to_string(),
        variant: "Name".to_string(),
    };
    let code = emit_error(&error);
    assert_eq!(
        code,
        "compile_error!(\"invalid IRI `a\\\"b\\\\` for variant `Name`\");"
    );
    let parsed: syn::Macro = syn::parse_str(code.trim_end_matches(';')).unwrap();
    let message: syn::LitStr = parsed.parse_body().unwrap();
    assert_eq!(message.value(), error.message());
}

#[test]
fn conversions_are_written_out() {
    let vocab = Conversion {
        name: "Vocab".to_string(),
        plans: vec![
            unit("Name", "https://schema.org/name"),
            wrapping("Other", "OtherVocab"),
            unit("Knows", "https://schema.org/knows"),
        ],
    };
    let expected = "\
impl<'a> ::std::convert::TryFrom<&'a ::iref::Iri> for Vocab {
\ttype Error = ();

\t#[inline]
\tfn try_from(iri: &'a ::iref::Iri) -> ::std::result::Result<Vocab, ()> {
\t\tmatch iri {
\t\t\t_ if iri == static_iref::iri!(\"https://schema.org/name\") => Ok(Vocab::Name),
\t\t\t_ if iri == static_iref::iri!(\"https://schema.org/knows\") => Ok(Vocab::Knows),
\t\t\t_ => match OtherVocab::try_from(iri) { Ok(value) => Ok(Vocab::Other(value)), Err(_) => { Err(()) } }
\t\t}
\t}
}

impl<'a, 'i> From<&'a Vocab> for &'i ::iref::Iri {
\t#[inline]
\tfn from(vocab: &'a Vocab) -> &'i ::iref::Iri {
\t\tmatch vocab {
\t\t\tVocab::Name => static_iref::iri!(\"https://schema.org/name\"),
\t\t\tVocab::Other(v) => v.into(),
\t\t\tVocab::Knows => static_iref::iri!(\"https://schema.org/knows\"),
\t\t}
\t}
}

impl<'i> From<Vocab> for &'i ::iref::Iri {
\t#[inline]
\tfn from(vocab: Vocab) -> &'i ::iref::Iri {
\t\t<&::iref::Iri as From<&Vocab>>::from(&vocab)
\t}
}

impl<'a, 'i> From<&'a Vocab> for &'i ::iref::IriRef {
\t#[inline]
\tfn from(vocab: &'a Vocab) -> &'i ::iref::IriRef {
\t\t<&::iref::Iri as From<&Vocab>>::from(vocab).as_iri_ref()
\t}
}

impl<'i> From<Vocab> for &'i ::iref::IriRef {
\t#[inline]
\tfn from(vocab: Vocab) -> &'i ::iref::IriRef {
\t\t<&::iref::Iri as From<Vocab>>::from(vocab).as_iri_ref()
\t}
}

impl AsRef<iref::Iri> for Vocab {
\t#[inline]
\tfn as_ref(&self) -> &::iref::Iri {
\t\t<&::iref::Iri as From<&Vocab>>::from(self)
\t}
}

impl AsRef<iref::IriRef> for Vocab {
\t#[inline]
\tfn as_ref(&self) -> &::iref::IriRef {
\t\t<&::iref::IriRef as From<&Vocab>>::from(self)
\t}
}
";
    assert_eq!(vocab.emit(), expected);
}

#[test]
fn wrapped_types_are_nested_in_the_order_of_the_declaration() {
    let vocab = Conversion {
        name: "V".to_string(),
        plans: vec![wrapping("A", "TypeA"), unit("N", "https://schema.org/n"), wrapping("B", "TypeB")],
    };
    let code = vocab.emit();
    let nested = "_ => match TypeA::try_from(iri) { Ok(value) => Ok(V::A(value)), Err(_) => { \
                  match TypeB::try_from(iri) { Ok(value) => Ok(V::B(value)), Err(_) => { Err(()) } } } }";
    assert!(code.contains(nested));
}

#[test]
fn enum_without_wrapped_types_falls_back_to_a_failure() {
    let vocab = Conversion {
        name: "V".to_string(),
        plans: vec![unit("N", "https://schema.org/n")],
    };
    assert!(vocab.emit().contains("\t\t\t_ => Err(())\n"));
}

#[test]
fn written_conversions_are_seven_impls() {
    let vocab = Conversion {
        name: "Vocab".to_string(),
        plans: vec![
            unit("Name", "https://schema.org/name"),
            wrapping("Other", "OtherVocab"),
            wrapping("More", "more::Vocab"),
            unit("Knows", "https://schema.org/knows"),
        ],
    };
    let file = syn::parse_file(&vocab.emit()).unwrap();
    assert_eq!(file.items.len(), 7);
    for item in &file.items {
        assert!(matches!(item, syn::Item::Impl(_)));
    }
    let tokens: proc_macro2::TokenStream = vocab.emit().parse().unwrap();
    assert!(!tokens.is_empty());
}
