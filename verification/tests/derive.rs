use iref_enum::{
    iri_enum_derive, plan_conversion, Attribute, Data, Declaration, DeriveError, EnumValue, Fields,
    Iri, Rendering, TokenTree, Variant, VariantPlan,
};

fn literal(text: &str) -> TokenTree {
    TokenTree::Literal(format!("\"{}\"", text))
}

fn attribute(name: &str, stream: Vec<TokenTree>) -> Attribute {
    Attribute {
        name: Some(name.to_string()),
        tokens: vec![TokenTree::Group(stream)],
    }
}

fn iri_prefix(prefix: &str, iri: &str) -> Attribute {
    attribute(
        "iri_prefix",
        vec![literal(prefix), TokenTree::Punct('='), literal(iri)],
    )
}

fn unit(name: &str, iri: &str) -> Variant {
    Variant {
        name: name.to_string(),
        attrs: vec![attribute("iri", vec![literal(iri)])],
        fields: Fields::Unit,
    }
}

fn vocab(variants: Vec<Variant>) -> Declaration {
    Declaration {
        name: "Vocab".to_string(),
        attrs: vec![iri_prefix("schema", "https://schema.org/")],
        data: Data::Enum(variants),
    }
}

fn iri(text: &str) -> Iri {
    Iri::new(text.to_string()).unwrap()
}

#[test]
fn enum_with_a_prefix_is_derived_end_to_end() {
    let declaration = vocab(vec![unit("Name", "schema:name"), unit("Knows", "schema:knows")]);
    let conversion = plan_conversion(&declaration).unwrap();
    assert_eq!(conversion.name, "Vocab");
    assert_eq!(
        conversion.plans,
        vec![
            VariantPlan::Unit {
                name: "Name".to_string(),
                identifier: iri("https://schema.org/name")
            },
            VariantPlan::Unit {
                name: "Knows".to_string(),
                identifier: iri("https://schema.org/knows")
            },
        ]
    );
    let name = EnumValue::Unit(0);
    let knows = EnumValue::Unit(1);
    assert_eq!(
        conversion.parse(&iri("https://schema.org/name"), &vec![]),
        Ok(name)
    );
    assert_eq!(
        conversion.parse(&iri("https://schema.org/other"), &vec![]),
        Err(())
    );
    assert!(conversion.admits(&knows));
    assert_eq!(
        conversion.render(&knows),
        Rendering::Identifier(&iri("https://schema.org/knows"))
    );
}

#[test]
fn derive_writes_the_conversions_of_an_enum() {
    let declaration = vocab(vec![unit("Name", "schema:name"), unit("Knows", "schema:knows")]);
    let code = iri_enum_derive(&declaration);
    assert_eq!(code, plan_conversion(&declaration).unwrap().emit());
    assert!(code.contains("_ if iri == static_iref::iri!(\"https://schema.org/name\") => Ok(Vocab::Name),"));
    assert!(code.contains("Vocab::Knows => static_iref::iri!(\"https://schema.org/knows\"),"));
    assert!(!code.contains("compile_error!"));
    assert_eq!(syn::parse_file(&code).unwrap().items.len(), 7);
}

#[test]
fn derive_writes_one_directive_for_a_failure() {
    let declaration = vocab(vec![
        unit("Name", "schema:name"),
        Variant {
            name: "Knows".to_string(),
            attrs: vec![],
            fields: Fields::Unit,
        },
    ]);
    assert_eq!(
        iri_enum_derive(&declaration),
        "compile_error!(\"missing IRI for enum variant `Knows`\");"
    );
}

#[test]
fn enum_without_variants_is_derived() {
    let conversion = plan_conversion(&vocab(vec![])).unwrap();
    assert_eq!(conversion.plans, vec![]);
    assert_eq!(conversion.parse(&iri("https://schema.org/name"), &vec![]), Err(()));
}

#[test]
fn struct_and_union_are_refused() {
    for data in [Data::Struct, Data::Union] {
        let declaration = Declaration {
            name: "Vocab".to_string(),
            attrs: vec![],
            data,
        };
        assert_eq!(plan_conversion(&declaration), Err(DeriveError::NotAnEnum));
        assert_eq!(
            iri_enum_derive(&declaration),
            "compile_error!(\"only enums are handled by IriEnum\");"
        );
    }
}

#[test]
fn prefixes_are_read_before_the_kind_of_declaration() {
    let declaration = Declaration {
        name: "Vocab".to_string(),
        attrs: vec![attribute(
            "iri_prefix",
            vec![literal("schema"), literal("https://schema.org/")],
        )],
        data: Data::Struct,
    };
    assert_eq!(
        plan_conversion(&declaration),
        Err(DeriveError::MalformedPrefixAttribute)
    );
}

#[test]
fn prefix_failure_comes_before_any_variant() {
    let declaration = Declaration {
        name: "Vocab".to_string(),
        attrs: vec![iri_prefix("schema", "no iri")],
        data: Data::Enum(vec![Variant {
            name: "Name".to_string(),
            attrs: vec![],
            fields: Fields::Unit,
        }]),
    };
    assert_eq!(
        plan_conversion(&declaration),
        Err(DeriveError::InvalidPrefixIri {
            prefix: "schema".to_string(),
            raw: "no iri".to_string()
        })
    );
}

#[test]
fn terminal_rejections() {
    let missing = vocab(vec![Variant {
        name: "Name".to_string(),
        attrs: vec![],
        fields: Fields::Unit,
    }]);
    assert_eq!(
        plan_conversion(&missing),
        Err(DeriveError::MissingIdentifier {
            variant: "Name".to_string()
        })
    );
    let pair = vocab(vec![Variant {
        name: "Pair".to_string(),
        attrs: vec![],
        fields: Fields::Unnamed(vec!["A".to_string(), "B".to_string()]),
    }]);
    assert_eq!(
        plan_conversion(&pair),
        Err(DeriveError::UnsupportedVariantShape {
            variant: "Pair".to_string()
        })
    );
    let no_equals = Declaration {
        name: "Vocab".to_string(),
        attrs: vec![attribute(
            "iri_prefix",
            vec![literal("schema"), literal("https://schema.org/")],
        )],
        data: Data::Enum(vec![]),
    };
    assert_eq!(
        plan_conversion(&no_equals),
        Err(DeriveError::MalformedPrefixAttribute)
    );
}

#[test]
fn unregistered_prefix_in_a_variant_is_taken_as_a_scheme() {
    let declaration = vocab(vec![unit("Name", "foaf:name")]);
    assert_eq!(
        plan_conversion(&declaration).unwrap().plans,
        vec![VariantPlan::Unit {
            name: "Name".to_string(),
            identifier: iri("foaf:name")
        }]
    );
}

#[test]
fn every_error_has_its_message() {
    let text = |text: &str| text.to_string();
    assert_eq!(
        DeriveError::MalformedAttribute { attribute: text("iri") }.message(),
        "malformed `iri` attribute"
    );
    assert_eq!(
        DeriveError::MalformedPrefixAttribute.message(),
        "malformed `iri_prefix` attribute: expected a string literal, `=` and a string literal"
    );
    assert_eq!(
        DeriveError::InvalidPrefixIri { prefix: text("schema"), raw: text("no iri") }.message(),
        "invalid IRI `no iri` for prefix `schema`"
    );
    assert_eq!(
        DeriveError::InvalidExpandedIri { raw: text("schema:na me"), variant: text("Name") }.message(),
        "invalid IRI `schema:na me` for variant `Name`"
    );
    assert_eq!(
        DeriveError::InvalidIri { raw: text("no iri"), variant: text("Name") }.message(),
        "invalid IRI `no iri` for variant `Name`"
    );
    assert_eq!(
        DeriveError::MissingIdentifier { variant: text("Name") }.message(),
        "missing IRI for enum variant `Name`"
    );
    assert_eq!(
        DeriveError::UnsupportedVariantShape { variant: text("Pair") }.message(),
        "unsupported fields in enum variant `Pair`: a variant has no field, or one unnamed field"
    );
    assert_eq!(
        DeriveError::NotAnEnum.message(),
        "only enums are handled by IriEnum"
    );
}
