use struct_auto_from::ast::{FieldAttr, FieldDecl, StructDecl, TypePath, TypeShape};
use struct_auto_from::classify::{extract_defaults_from_input, field_default_value,
    from_parsed_input, remove_attrs, GenError};
use struct_auto_from::emit::{auto_from, auto_from_ns, construct_conversion, Conversion,
    InitClause};
use struct_auto_from::semantics::{eval_conversion, EvalError};
use struct_auto_from::value::{lookup_field, record_eq, value_eq, ExprVal, FieldVal, RecordVal,
    Value};

fn field(name: &str, shape: TypeShape, attrs: Vec<FieldAttr>) -> FieldDecl {
    FieldDecl { name: name.to_string(), shape, attrs }
}

fn decl(name: &str, fields: Vec<FieldDecl>) -> StructDecl {
    StructDecl { name: name.to_string(), generics: vec![], fields }
}

fn path(segments: &[&str]) -> TypePath {
    TypePath { segments: segments.iter().map(|s| s.to_string()).collect() }
}

fn record(fields: Vec<(&str, Value)>) -> RecordVal {
    RecordVal {
        fields: fields
            .into_iter()
            .map(|(n, v)| FieldVal { name: n.to_string(), value: v })
            .collect(),
    }
}

fn env(entries: Vec<(&str, Value)>) -> Vec<ExprVal> {
    entries
        .into_iter()
        .map(|(e, v)| ExprVal { expr: e.to_string(), value: v })
        .collect()
}

fn get<'a>(r: &'a RecordVal, name: &str) -> &'a Value {
    lookup_field(r, &name.to_string()).expect("field missing")
}

#[test]
fn classifier_buckets_in_declaration_order() {
    let d = decl(
        "Dest",
        vec![
            field("a", TypeShape::Plain, vec![]),
            field("arr1", TypeShape::Array(3), vec![]),
            field("b", TypeShape::Plain, vec![FieldAttr::DefaultValue("1 + 1".to_string())]),
            field("c", TypeShape::Plain, vec![]),
            field("arr2", TypeShape::Array(2), vec![]),
        ],
    );
    let data = from_parsed_input(d).expect("classification failed");
    assert_eq!(data.into, "Dest");
    assert_eq!(data.fields, vec!["a".to_string(), "c".to_string()]);
    assert_eq!(data.array_fields.len(), 2);
    assert_eq!(data.array_fields[0].name, "arr1");
    assert_eq!(data.array_fields[0].len, 3);
    assert_eq!(data.array_fields[1].name, "arr2");
    assert_eq!(data.array_fields[1].len, 2);
    assert_eq!(data.defaults.len(), 1);
    assert_eq!(data.defaults[0].field, "b");
    assert_eq!(data.defaults[0].expr, "1 + 1");
}

#[test]
fn defaulted_array_field_is_only_defaulted() {
    // single-default-wins: an array-typed field with a default attribute is
    // classified solely as defaulted; no array bucket entry, no overwrite.
    let d = decl(
        "Dest",
        vec![field("data", TypeShape::Array(4), vec![FieldAttr::DefaultValue("zeroes()".to_string())])],
    );
    let data = from_parsed_input(d).expect("classification failed");
    assert!(data.fields.is_empty());
    assert!(data.array_fields.is_empty());
    assert_eq!(data.defaults.len(), 1);
    assert_eq!(data.defaults[0].field, "data");

    let a = auto_from(path(&["Src"]), decl(
        "Dest",
        vec![field("data", TypeShape::Array(4), vec![FieldAttr::DefaultValue("zeroes()".to_string())])],
    )).expect("generation failed");
    assert!(a.conv.overwrites.is_empty());
    assert_eq!(a.conv.inits.len(), 1);
    assert!(matches!(&a.conv.inits[0], InitClause::Default { field, expr }
        if field == "data" && expr == "zeroes()"));
}

#[test]
fn field_default_value_extracts_first_expression() {
    let f = field(
        "x",
        TypeShape::Plain,
        vec![
            FieldAttr::Other("#[serde(rename = \"y\")]".to_string()),
            FieldAttr::DefaultValue("-1".to_string()),
        ],
    );
    assert_eq!(field_default_value(&f).unwrap(), Some("-1".to_string()));
    let g = field("x", TypeShape::Plain, vec![FieldAttr::Other("#[doc]".to_string())]);
    assert_eq!(field_default_value(&g).unwrap(), None);
}

#[test]
fn malformed_attribute_fails_generation() {
    let d = decl("Dest", vec![field("x", TypeShape::Plain, vec![FieldAttr::Malformed])]);
    let r = auto_from(path(&["Src"]), d);
    assert!(matches!(r, Err(GenError::MalformedAttribute { field }) if field == "x"));
}

#[test]
fn duplicate_default_fails_generation() {
    let d = decl(
        "Dest",
        vec![field(
            "x",
            TypeShape::Plain,
            vec![
                FieldAttr::DefaultValue("1".to_string()),
                FieldAttr::DefaultValue("2".to_string()),
            ],
        )],
    );
    let r = auto_from(path(&["Src"]), d);
    assert!(matches!(r, Err(GenError::DuplicateDefault { field }) if field == "x"));
}

#[test]
fn extraction_error_leaves_declaration_untouched() {
    let mut d = decl(
        "Dest",
        vec![field(
            "x",
            TypeShape::Plain,
            vec![FieldAttr::Other("#[doc]".to_string()), FieldAttr::Malformed],
        )],
    );
    let r = extract_defaults_from_input(&mut d);
    assert!(matches!(r, Err(GenError::MalformedAttribute { .. })));
    assert_eq!(d.fields.len(), 1);
    assert_eq!(d.fields[0].attrs.len(), 2);
}

#[test]
fn extraction_strips_recognized_attributes() {
    let mut d = decl(
        "Dest",
        vec![
            field(
                "x",
                TypeShape::Plain,
                vec![
                    FieldAttr::Other("#[serde(skip)]".to_string()),
                    FieldAttr::DefaultValue("7".to_string()),
                ],
            ),
            field("y", TypeShape::Plain, vec![FieldAttr::Other("#[doc]".to_string())]),
        ],
    );
    let ds = extract_defaults_from_input(&mut d).expect("extraction failed");
    assert_eq!(ds.len(), 1);
    assert_eq!(ds[0].field, "x");
    assert_eq!(ds[0].expr, "7");
    assert_eq!(d.fields[0].attrs.len(), 1);
    assert!(matches!(&d.fields[0].attrs[0], FieldAttr::Other(t) if t == "#[serde(skip)]"));
    assert_eq!(d.fields[1].attrs.len(), 1);
}

#[test]
fn remove_attrs_keeps_unrecognized_in_order() {
    let mut f = field(
        "x",
        TypeShape::Plain,
        vec![
            FieldAttr::Other("#[a]".to_string()),
            FieldAttr::DefaultValue("1".to_string()),
            FieldAttr::Other("#[b]".to_string()),
        ],
    );
    remove_attrs(&mut f);
    assert_eq!(f.attrs.len(), 2);
    assert!(matches!(&f.attrs[0], FieldAttr::Other(t) if t == "#[a]"));
    assert!(matches!(&f.attrs[1], FieldAttr::Other(t) if t == "#[b]"));
}

#[test]
fn attribute_stripping_in_emitted_declaration() {
    // the emitted declaration carries no generator-private attributes; the
    // user's other attributes survive.
    let d = decl(
        "Dest",
        vec![field(
            "id",
            TypeShape::Plain,
            vec![
                FieldAttr::Other("#[serde(rename = \"i\")]".to_string()),
                FieldAttr::DefaultValue("-1".to_string()),
            ],
        )],
    );
    let a = auto_from(path(&["Src"]), d).expect("generation failed");
    assert_eq!(a.decl.fields[0].attrs.len(), 1);
    assert!(matches!(&a.decl.fields[0].attrs[0], FieldAttr::Other(t)
        if t == "#[serde(rename = \"i\")]"));
}

#[test]
fn round_trip_identity_for_matching_fields() {
    // destination fields are a subset of the source's: converted fields
    // equal the source's.
    let d = decl(
        "Dest",
        vec![field("id", TypeShape::Plain, vec![]), field("name", TypeShape::Plain, vec![])],
    );
    let a = auto_from(path(&["Src"]), d).expect("generation failed");
    let source = record(vec![
        ("id", Value::Int(7)),
        ("name", Value::Text("ada".to_string())),
        ("extra", Value::Int(99)),
    ]);
    let out = eval_conversion(&a.conv, &source, &vec![]).expect("conversion failed");
    assert!(value_eq(get(&out, "id"), &Value::Int(7)));
    assert!(value_eq(get(&out, "name"), &Value::Text("ada".to_string())));
    assert!(lookup_field(&out, &"extra".to_string()).is_none());
}

#[test]
fn default_precedence_over_source_value() {
    // the default expression wins even when the source has a same-named
    // field, and works when it has none.
    let d = decl(
        "Dest",
        vec![
            field("id", TypeShape::Plain, vec![FieldAttr::DefaultValue("-1".to_string())]),
            field("tag", TypeShape::Plain, vec![FieldAttr::DefaultValue("mk()".to_string())]),
        ],
    );
    let a = auto_from(path(&["Src"]), d).expect("generation failed");
    let source = record(vec![("id", Value::Int(123))]);
    let e = env(vec![("-1", Value::Int(-1)), ("mk()", Value::Text("t".to_string()))]);
    let out = eval_conversion(&a.conv, &source, &e).expect("conversion failed");
    assert!(value_eq(get(&out, "id"), &Value::Int(-1)));
    assert!(value_eq(get(&out, "tag"), &Value::Text("t".to_string())));
}

#[test]
fn array_field_converts_element_by_element() {
    let d = decl("Dest", vec![field("data", TypeShape::Array(3), vec![])]);
    let a = auto_from(path(&["Src"]), d).expect("generation failed");
    assert_eq!(a.conv.overwrites, vec!["data".to_string()]);
    let source = record(vec![(
        "data",
        Value::List(vec![Value::Int(1), Value::Int(2), Value::Int(3)]),
    )]);
    let out = eval_conversion(&a.conv, &source, &vec![]).expect("conversion failed");
    match get(&out, "data") {
        Value::List(items) => {
            assert_eq!(items.len(), 3);
            assert!(value_eq(&items[0], &Value::Int(1)));
            assert!(value_eq(&items[1], &Value::Int(2)));
            assert!(value_eq(&items[2], &Value::Int(3)));
        },
        _ => panic!("expected a list"),
    }
}

#[test]
fn array_length_mismatch_aborts() {
    let d = decl("Dest", vec![field("data", TypeShape::Array(3), vec![])]);
    let a = auto_from(path(&["Src"]), d).expect("generation failed");
    let source = record(vec![("data", Value::List(vec![Value::Int(1), Value::Int(2)]))]);
    let r = eval_conversion(&a.conv, &source, &vec![]);
    assert!(matches!(r, Err(EvalError::ArrayLengthMismatch)));
}

#[test]
fn missing_source_field_is_an_error() {
    let d = decl("Dest", vec![field("id", TypeShape::Plain, vec![])]);
    let a = auto_from(path(&["Src"]), d).expect("generation failed");
    let source = record(vec![("other", Value::Int(1))]);
    let r = eval_conversion(&a.conv, &source, &vec![]);
    assert!(matches!(r, Err(EvalError::MissingSourceField)));
}

#[test]
fn unbound_default_expression_is_an_error() {
    let d = decl(
        "Dest",
        vec![field("id", TypeShape::Plain, vec![FieldAttr::DefaultValue("-1".to_string())])],
    );
    let a = auto_from(path(&["Src"]), d).expect("generation failed");
    let r = eval_conversion(&a.conv, &record(vec![]), &vec![]);
    assert!(matches!(r, Err(EvalError::UnboundDefault)));
}

#[test]
fn source_array_of_wrong_shape_is_an_error() {
    let d = decl("Dest", vec![field("data", TypeShape::Array(2), vec![])]);
    let a = auto_from(path(&["Src"]), d).expect("generation failed");
    let source = record(vec![("data", Value::Int(5))]);
    let r = eval_conversion(&a.conv, &source, &vec![]);
    assert!(matches!(r, Err(EvalError::NotAnArray)));
}

#[test]
fn overwrite_of_unknown_field_is_an_error() {
    // a hand-built plan whose overwrite names no initialized field.
    let conv = Conversion {
        source: path(&["Src"]),
        dest: "Dest".to_string(),
        generics: vec![],
        inits: vec![],
        overwrites: vec!["ghostly".to_string()],
    };
    let r = eval_conversion(&conv, &record(vec![]), &vec![]);
    assert!(matches!(r, Err(EvalError::UnknownField)));
}

#[test]
fn namespace_entry_point_equivalence() {
    // two structurally identical types in different namespaces: the
    // namespace-based entry behaves exactly like the direct entry with the
    // fully qualified path.
    let mk = || decl(
        "Foo",
        vec![field("id", TypeShape::Plain, vec![]), field("data", TypeShape::Array(2), vec![])],
    );
    let a = auto_from_ns(path(&["super", "first"]), mk()).expect("generation failed");
    let b = auto_from(path(&["super", "first", "Foo"]), mk()).expect("generation failed");
    assert_eq!(a.conv.source.segments, b.conv.source.segments);
    assert_eq!(a.conv.inits.len(), b.conv.inits.len());
    assert_eq!(a.conv.overwrites, b.conv.overwrites);
    let source = record(vec![
        ("id", Value::Int(4)),
        ("data", Value::List(vec![Value::Int(8), Value::Int(9)])),
    ]);
    let oa = eval_conversion(&a.conv, &source, &vec![]).expect("conversion failed");
    let ob = eval_conversion(&b.conv, &source, &vec![]).expect("conversion failed");
    assert!(record_eq(&oa, &ob));
}

#[test]
fn model_conversion_scenario() {
    // source {id: 0, name: "M", attrs: []} converted into a destination with
    // defaults on id and metadata yields {id: -1, name: "M", attrs: [],
    // metadata: empty}.
    let d = decl(
        "Model2",
        vec![
            field("id", TypeShape::Plain, vec![FieldAttr::DefaultValue("-1".to_string())]),
            field("name", TypeShape::Plain, vec![]),
            field("attrs", TypeShape::Plain, vec![]),
            field(
                "metadata",
                TypeShape::Plain,
                vec![FieldAttr::DefaultValue("Default::default()".to_string())],
            ),
        ],
    );
    let a = auto_from(path(&["Model1"]), d).expect("generation failed");
    let source = record(vec![
        ("id", Value::Int(0)),
        ("name", Value::Text("M".to_string())),
        ("attrs", Value::List(vec![])),
    ]);
    let e = env(vec![
        ("-1", Value::Int(-1)),
        ("Default::default()", Value::List(vec![])),
    ]);
    let out = eval_conversion(&a.conv, &source, &e).expect("conversion failed");
    assert!(value_eq(get(&out, "id"), &Value::Int(-1)));
    assert!(value_eq(get(&out, "name"), &Value::Text("M".to_string())));
    assert!(value_eq(get(&out, "attrs"), &Value::List(vec![])));
    assert!(value_eq(get(&out, "metadata"), &Value::List(vec![])));
}

#[test]
fn large_array_scenario_across_namespaces() {
    // a 210000-element array field in a namespace-qualified conversion:
    // every element is carried over; reading element 0 gives the source's.
    let n = 210000;
    let d = decl("Foo", vec![field("data", TypeShape::Array(n), vec![])]);
    let a = auto_from_ns(path(&["super", "first"]), d).expect("generation failed");
    assert_eq!(a.conv.source.segments, vec![
        "super".to_string(),
        "first".to_string(),
        "Foo".to_string(),
    ]);
    let elems: Vec<Value> = (0..n).map(|_| Value::Text("1.0".to_string())).collect();
    let source = record(vec![("data", Value::List(elems))]);
    let out = eval_conversion(&a.conv, &source, &vec![]).expect("conversion failed");
    match get(&out, "data") {
        Value::List(items) => {
            assert_eq!(items.len(), n);
            assert!(value_eq(&items[0], &Value::Text("1.0".to_string())));
            assert!(value_eq(&items[n - 1], &Value::Text("1.0".to_string())));
        },
        _ => panic!("expected a list"),
    }
}

#[test]
fn empty_declaration_generates_empty_plan() {
    let a = construct_conversion(path(&["Src"]), decl("Dest", vec![])).expect("generation failed");
    assert!(a.conv.inits.is_empty());
    assert!(a.conv.overwrites.is_empty());
    let out = eval_conversion(&a.conv, &record(vec![]), &vec![]).expect("conversion failed");
    assert!(out.fields.is_empty());
}

#[test]
fn value_equality_is_structural() {
    let a = Value::List(vec![Value::Int(1), Value::Text("x".to_string())]);
    let b = Value::List(vec![Value::Int(1), Value::Text("x".to_string())]);
    let c = Value::List(vec![Value::Int(1), Value::Text("y".to_string())]);
    assert!(value_eq(&a, &b));
    assert!(!value_eq(&a, &c));
    assert!(!value_eq(&a, &Value::Unit));
}
