use iref_enum::{collect_prefixes, Attribute, DeriveError, Iri, PrefixTable, TokenTree};

fn literal(text: &str) -> TokenTree {
    TokenTree::Literal(format!("\"{}\"", text))
}

fn attribute(name: &str, stream: Vec<TokenTree>) -> Attribute {
    Attribute {
        name: Some(name.to_string()),
        tokens: vec![TokenTree::Group(stream)],
    }
}

fn iri_prefix(prefix: &str, iri: &str) -> Attribute {
    attribute(
        "iri_prefix",
        vec![literal(prefix), TokenTree::Punct('='), literal(iri)],
    )
}

fn base(table: &PrefixTable, prefix: &str) -> Option<String> {
    table.get(prefix).map(|iri| iri.as_str().to_string())
}

#[test]
fn new_table_binds_nothing() {
    let table = PrefixTable::new();
    assert_eq!(table.get("schema"), None);
    assert_eq!(table.get(""), None);
}

#[test]
fn inserted_prefix_is_found() {
    let mut table = PrefixTable::new();
    table.insert(
        "schema".to_string(),
        Iri::new("https://schema.org/".to_string()).unwrap(),
    );
    assert_eq!(base(&table, "schema"), Some("https://schema.org/".to_string()));
    assert_eq!(base(&table, "schem"), None);
    assert_eq!(base(&table, "schema2"), None);
}

#[test]
fn later_binding_replaces_the_earlier() {
    let mut table = PrefixTable::new();
    table.insert("a".to_string(), Iri::new("https://one.example/".to_string()).unwrap());
    table.insert("b".to_string(), Iri::new("https://two.example/".to_string()).unwrap());
    table.insert("a".to_string(), Iri::new("https://three.example/".to_string()).unwrap());
    assert_eq!(base(&table, "a"), Some("https://three.example/".to_string()));
    assert_eq!(base(&table, "b"), Some("https://two.example/".to_string()));
}

#[test]
fn prefixes_are_collected_from_the_attributes() {
    let attrs = vec![
        attribute("doc", vec![literal("a vocabulary")]),
        iri_prefix("schema", "https://schema.org/"),
        Attribute {
            name: None,
            tokens: vec![],
        },
        iri_prefix("foaf", "http://xmlns.com/foaf/0.1/"),
    ];
    let table = collect_prefixes(&attrs).unwrap();
    assert_eq!(base(&table, "schema"), Some("https://schema.org/".to_string()));
    assert_eq!(base(&table, "foaf"), Some("http://xmlns.com/foaf/0.1/".to_string()));
    assert_eq!(base(&table, "doc"), None);
}

#[test]
fn no_attribute_gives_an_empty_table() {
    let table = collect_prefixes(&vec![]).unwrap();
    assert_eq!(table.get("schema"), None);
}

#[test]
fn prefix_declared_twice_keeps_the_last_iri() {
    let attrs = vec![
        iri_prefix("schema", "http://schema.org/"),
        iri_prefix("schema", "https://schema.org/"),
    ];
    let table = collect_prefixes(&attrs).unwrap();
    assert_eq!(base(&table, "schema"), Some("https://schema.org/".to_string()));
}

#[test]
fn prefix_attribute_without_the_equals_sign_is_malformed() {
    let attrs = vec![attribute(
        "iri_prefix",
        vec![literal("schema"), literal("https://schema.org/")],
    )];
    assert_eq!(
        collect_prefixes(&attrs).err(),
        Some(DeriveError::MalformedPrefixAttribute)
    );
}

#[test]
fn prefix_attribute_with_another_sign_is_malformed() {
    let attrs = vec![attribute(
        "iri_prefix",
        vec![
            literal("schema"),
            TokenTree::Punct(','),
            literal("https://schema.org/"),
        ],
    )];
    assert_eq!(
        collect_prefixes(&attrs).err(),
        Some(DeriveError::MalformedPrefixAttribute)
    );
}

#[test]
fn prefix_attribute_with_more_or_fewer_tokens_is_malformed() {
    let too_many = vec![attribute(
        "iri_prefix",
        vec![
            literal("schema"),
            TokenTree::Punct('='),
            literal("https://schema.org/"),
            TokenTree::Punct(','),
        ],
    )];
    assert_eq!(
        collect_prefixes(&too_many).err(),
        Some(DeriveError::MalformedPrefixAttribute)
    );
    let too_few = vec![attribute(
        "iri_prefix",
        vec![literal("schema"), TokenTree::Punct('=')],
    )];
    assert_eq!(
        collect_prefixes(&too_few).err(),
        Some(DeriveError::MalformedPrefixAttribute)
    );
    let none = vec![attribute("iri_prefix", vec![])];
    assert_eq!(
        collect_prefixes(&none).err(),
        Some(DeriveError::MalformedPrefixAttribute)
    );
}

#[test]
fn prefix_attribute_without_string_literals_is_malformed() {
    let word = vec![attribute(
        "iri_prefix",
        vec![
            TokenTree::Ident("schema".to_string()),
            TokenTree::Punct('='),
            literal("https://schema.org/"),
        ],
    )];
    assert_eq!(
        collect_prefixes(&word).err(),
        Some(DeriveError::MalformedPrefixAttribute)
    );
    let number = vec![attribute(
        "iri_prefix",
        vec![
            literal("schema"),
            TokenTree::Punct('='),
            TokenTree::Literal("12".to_string()),
        ],
    )];
    assert_eq!(
        collect_prefixes(&number).err(),
        Some(DeriveError::MalformedPrefixAttribute)
    );
}

#[test]
fn prefix_attribute_without_a_group_is_a_malformed_attribute() {
    let attrs = vec![Attribute {
        name: Some("iri_prefix".to_string()),
        tokens: vec![],
    }];
    assert_eq!(
        collect_prefixes(&attrs).err(),
        Some(DeriveError::MalformedAttribute {
            attribute: "iri_prefix".to_string()
        })
    );
}

#[test]
fn prefix_bound_to_what_is_no_iri_is_refused() {
    let attrs = vec![iri_prefix("schema", "not an iri")];
    assert_eq!(
        collect_prefixes(&attrs).err(),
        Some(DeriveError::InvalidPrefixIri {
            prefix: "schema".to_string(),
            raw: "not an iri".to_string()
        })
    );
}

#[test]
fn prefix_bound_to_a_relative_reference_is_refused() {
    let attrs = vec![iri_prefix("schema", "schema.org/")];
    assert_eq!(
        collect_prefixes(&attrs).err(),
        Some(DeriveError::InvalidPrefixIri {
            prefix: "schema".to_string(),
            raw: "schema.org/".to_string()
        })
    );
}

#[test]
fn first_failure_among_the_attributes_is_reported() {
    let attrs = vec![
        iri_prefix("a", "https://a.example/"),
        iri_prefix("b", "no iri"),
        attribute("iri_prefix", vec![]),
    ];
    assert_eq!(
        collect_prefixes(&attrs).err(),
        Some(DeriveError::InvalidPrefixIri {
            prefix: "b".to_string(),
            raw: "no iri".to_string()
        })
    );
}
