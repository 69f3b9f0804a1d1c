use flat_path::codec::decode_field;
use flat_path::codec::encode_field;
use flat_path::codec::Value;
use flat_path::generate::flat_path;
use flat_path::model::AdapterRef;
use flat_path::model::ChainSpec;
use flat_path::model::Customization;
use flat_path::model::Expansion;
use flat_path::model::FieldAttr;
use flat_path::model::FieldSet;
use flat_path::model::GenError;
use flat_path::model::ItemDef;
use flat_path::model::NamedField;
use flat_path::model::Namespace;
use flat_path::model::NamespaceBody;
use flat_path::model::PositionalField;
use flat_path::model::RecordDef;
use flat_path::model::UnionDef;
use flat_path::model::Variant;
use flat_path::model::VariantScope;

fn s(x: &str) -> String {
    x.to_string()
}

fn keys(xs: &[&str]) -> Vec<String> {
    xs.iter().map(|x| s(x)).collect()
}

fn flat(xs: &[&str]) -> FieldAttr {
    FieldAttr::FlatPath(keys(xs))
}

fn adapter(owner: &str, variant: Option<&str>, field: &str) -> AdapterRef {
    AdapterRef { owner: s(owner), variant: variant.map(s), field: s(field) }
}

fn named(name: &str, attrs: Vec<FieldAttr>) -> NamedField {
    NamedField { name: s(name), attrs }
}

fn record(name: &str, fields: Vec<NamedField>) -> ItemDef {
    ItemDef::Record(RecordDef { name: s(name), fields: FieldSet::Named(fields) })
}

#[test]
fn record_rewrite() {
    let item = record(
        "Doc",
        vec![
            named(
                "x",
                vec![
                    FieldAttr::Other(s("note")),
                    flat(&["a", "b", "c"]),
                    FieldAttr::Custom(Customization::SkipIf(s("u64_is_zero"))),
                ],
            ),
            named("y", vec![FieldAttr::Custom(Customization::Rename(s("why")))]),
        ],
    );
    let expected = Expansion {
        item: record(
            "Doc",
            vec![
                named(
                    "x",
                    vec![
                        FieldAttr::Other(s("note")),
                        FieldAttr::Redirect { key: s("a"), adapter: adapter("Doc", None, "x") },
                    ],
                ),
                named("y", vec![FieldAttr::Custom(Customization::Rename(s("why")))]),
            ],
        ),
        namespace: Some(Namespace {
            owner: s("Doc"),
            body: NamespaceBody::Record(vec![ChainSpec {
                field: s("x"),
                first_key: s("a"),
                rest_keys: keys(&["b", "c"]),
                leaf_customizations: vec![Customization::SkipIf(s("u64_is_zero"))],
                adapter: adapter("Doc", None, "x"),
            }]),
        }),
    };
    assert_eq!(flat_path(item), Ok(expected));
}

#[test]
fn unannotated_record_is_unchanged() {
    let item = record(
        "Plain",
        vec![
            named("x", vec![FieldAttr::Custom(Customization::Rename(s("ex")))]),
            named("y", vec![FieldAttr::Other(s("docs"))]),
        ],
    );
    let expected = Expansion { item: item.clone(), namespace: None };
    assert_eq!(flat_path(item), Ok(expected));
}

#[test]
fn unit_record_is_unchanged() {
    let item = ItemDef::Record(RecordDef { name: s("Unitish"), fields: FieldSet::Unit });
    let expected = Expansion { item: item.clone(), namespace: None };
    assert_eq!(flat_path(item), Ok(expected));
}

#[test]
fn unannotated_positional_record_is_unchanged() {
    let item = ItemDef::Record(RecordDef {
        name: s("Pair"),
        fields: FieldSet::Positional(vec![
            PositionalField { attrs: vec![FieldAttr::Other(s("left"))] },
            PositionalField { attrs: vec![] },
        ]),
    });
    let expected = Expansion { item: item.clone(), namespace: None };
    assert_eq!(flat_path(item), Ok(expected));
}

#[test]
fn duplicate_annotation_is_rejected() {
    let item = record("Doc", vec![named("x", vec![flat(&["a"]), flat(&["b"])])]);
    assert_eq!(flat_path(item), Err(GenError::DuplicateAnnotation));
}

#[test]
fn duplicate_annotation_wins_over_empty_path() {
    // The duplicate is diagnosed before either path is looked at.
    let item = record("Doc", vec![named("x", vec![flat(&[]), flat(&["b"])])]);
    assert_eq!(flat_path(item), Err(GenError::DuplicateAnnotation));
}

#[test]
fn empty_path_is_rejected() {
    let item = record("Doc", vec![named("x", vec![flat(&[])])]);
    assert_eq!(flat_path(item), Err(GenError::EmptyPath));
}

#[test]
fn annotated_positional_field_is_rejected() {
    let item = ItemDef::Record(RecordDef {
        name: s("Pair"),
        fields: FieldSet::Positional(vec![
            PositionalField { attrs: vec![] },
            PositionalField { attrs: vec![flat(&["a", "b"])] },
        ]),
    });
    assert_eq!(flat_path(item), Err(GenError::UnnamedFieldNotSupported));
}

#[test]
fn annotated_positional_variant_field_is_rejected() {
    let item = ItemDef::Union(UnionDef {
        name: s("E"),
        variants: vec![Variant {
            name: s("A"),
            fields: FieldSet::Positional(vec![PositionalField { attrs: vec![flat(&["a"])] }]),
        }],
    });
    assert_eq!(flat_path(item), Err(GenError::UnnamedFieldNotSupported));
}

#[test]
fn unsupported_shape_is_rejected() {
    assert_eq!(flat_path(ItemDef::Unsupported), Err(GenError::UnsupportedShape));
}

#[test]
fn union_variants_get_their_own_scopes() {
    // Two variants flatten a field along the very same path; each gets its
    // own scope and its own adapters.
    let item = ItemDef::Union(UnionDef {
        name: s("E"),
        variants: vec![
            Variant {
                name: s("A"),
                fields: FieldSet::Named(vec![named("x", vec![flat(&["p", "q"])])]),
            },
            Variant {
                name: s("B"),
                fields: FieldSet::Named(vec![named("x", vec![flat(&["p", "q"])])]),
            },
        ],
    });
    let chain_for = |variant: &str| ChainSpec {
        field: s("x"),
        first_key: s("p"),
        rest_keys: keys(&["q"]),
        leaf_customizations: vec![],
        adapter: adapter("E", Some(variant), "x"),
    };
    let rewritten_variant = |variant: &str| Variant {
        name: s(variant),
        fields: FieldSet::Named(vec![named(
            "x",
            vec![FieldAttr::Redirect { key: s("p"), adapter: adapter("E", Some(variant), "x") }],
        )]),
    };
    let expected = Expansion {
        item: ItemDef::Union(UnionDef {
            name: s("E"),
            variants: vec![rewritten_variant("A"), rewritten_variant("B")],
        }),
        namespace: Some(Namespace {
            owner: s("E"),
            body: NamespaceBody::Union(vec![
                VariantScope { variant: s("A"), chains: vec![chain_for("A")] },
                VariantScope { variant: s("B"), chains: vec![chain_for("B")] },
            ]),
        }),
    };
    assert_eq!(flat_path(item), Ok(expected));

    // Both variants' chains round-trip independently.
    for variant in ["A", "B"] {
        let chain = chain_for(variant);
        let entry = encode_field(&chain, Value::Leaf(21), false).unwrap();
        let variant_obj = Value::Obj(vec![entry]);
        assert_eq!(decode_field(&chain, variant_obj), Ok(Value::Leaf(21)));
    }
}

#[test]
fn variant_without_named_fields_is_skipped() {
    // A unit variant contributes no scope and does not fail the union.
    let item = ItemDef::Union(UnionDef {
        name: s("E"),
        variants: vec![
            Variant { name: s("Quiet"), fields: FieldSet::Unit },
            Variant {
                name: s("Loud"),
                fields: FieldSet::Named(vec![named("x", vec![flat(&["p"])])]),
            },
        ],
    });
    let result = flat_path(item).unwrap();
    match result.namespace {
        Some(Namespace { body: NamespaceBody::Union(scopes), .. }) => {
            assert_eq!(scopes.len(), 1);
            assert_eq!(scopes[0].variant, s("Loud"));
        }
        other => panic!("expected a union namespace, got {:?}", other),
    }
}

#[test]
fn unannotated_union_is_unchanged() {
    let item = ItemDef::Union(UnionDef {
        name: s("E"),
        variants: vec![
            Variant { name: s("A"), fields: FieldSet::Named(vec![named("x", vec![])]) },
            Variant { name: s("B"), fields: FieldSet::Unit },
        ],
    });
    let expected = Expansion { item: item.clone(), namespace: None };
    assert_eq!(flat_path(item), Ok(expected));
}

#[test]
fn error_in_one_variant_rejects_the_whole_union() {
    let item = ItemDef::Union(UnionDef {
        name: s("E"),
        variants: vec![
            Variant {
                name: s("A"),
                fields: FieldSet::Named(vec![named("x", vec![flat(&["p"])])]),
            },
            Variant {
                name: s("B"),
                fields: FieldSet::Named(vec![named("x", vec![flat(&[])])]),
            },
        ],
    });
    assert_eq!(flat_path(item), Err(GenError::EmptyPath));
}

#[test]
fn single_segment_path_rewrite() {
    let item = record("Doc", vec![named("x", vec![flat(&["a"])])]);
    let result = flat_path(item).unwrap();
    match result.namespace {
        Some(Namespace { body: NamespaceBody::Record(chains), .. }) => {
            assert_eq!(chains.len(), 1);
            assert_eq!(chains[0].first_key, s("a"));
            assert_eq!(chains[0].rest_keys, keys(&[]));
        }
        other => panic!("expected a record namespace, got {:?}", other),
    }
}
