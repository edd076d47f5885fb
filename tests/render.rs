use ridl::log::{ErrorLogs, Log};
use ridl::model::{
    KAttrREST, KAttrs, KEnumType, KEnumTypeCase, KFuncType, KItem, KMod, KNewType, KPrimType, KProdType,
    KProdTypeField, KScalarType, KSumType, KSumTypeSerializationForm, KSumTypeVariant, KType,
};
use ridl::openapi3::{render_openapi3, render_response, ReferencedOrInlineSchema, Schema, SchemaMap};
use ridl::rename::{to_camel_case, Options, Rule};
use ridl::span::{KLineColumn, KSpan};
use ridl::swift5::render_swift5;
use ridl::typescript4::render_typescript4;

fn sp(line: usize) -> KSpan {
    KSpan { start: KLineColumn { line, column: 1 }, end: KLineColumn { line, column: 9 } }
}

fn attrs(rest: Vec<KAttrREST>) -> KAttrs {
    KAttrs { rest }
}

fn def(name: &str) -> KScalarType {
    KScalarType::Def(name.to_string())
}

fn prim(p: KPrimType) -> KType {
    KType::Scalar(KScalarType::Prim(p))
}

fn field(name: &str, content: KType, rest: Vec<KAttrREST>) -> KProdTypeField {
    KProdTypeField { span: sp(3), name: name.to_string(), comment: String::new(), attrs: attrs(rest), content }
}

fn record(name: &str, fields: Vec<KProdTypeField>) -> KItem {
    KItem::Prod(KProdType { span: sp(2), name: name.to_string(), comment: String::new(), attrs: attrs(vec![]), fields })
}

fn variant(name: &str, content: KType, rest: Vec<KAttrREST>) -> KSumTypeVariant {
    KSumTypeVariant { span: sp(4), name: name.to_string(), comment: String::new(), attrs: attrs(rest), content }
}

fn sum(name: &str, form: KSumTypeSerializationForm, rest: Vec<KAttrREST>, variants: Vec<KSumTypeVariant>) -> KItem {
    KItem::Sum(KSumType {
        span: sp(5),
        name: name.to_string(),
        comment: String::new(),
        serialization: form,
        attrs: attrs(rest),
        variants,
    })
}

fn module(items: Vec<KItem>) -> KMod {
    KMod { span: sp(0), name: "Shop".to_string(), comment: String::new(), items }
}

fn messages(e: &ErrorLogs) -> Vec<String> {
    e.0.iter().map(|l| l.message.clone()).collect()
}

fn entries(m: SchemaMap) -> Vec<(String, ReferencedOrInlineSchema)> {
    m.map.into_iter().collect()
}

fn entries_ref(m: &SchemaMap) -> Vec<(&String, &ReferencedOrInlineSchema)> {
    m.map.iter().collect()
}

fn inline(r: &ReferencedOrInlineSchema) -> &Schema {
    match r {
        ReferencedOrInlineSchema::Inline(s) => s,
        ReferencedOrInlineSchema::Referenced(_) => panic!("an inline schema"),
    }
}

/// Pet and Address, with `walk` a query parameter and `livingAddress` a path parameter.
fn pets() -> KMod {
    module(vec![
        record(
            "Pet",
            vec![
                field("name", KType::Vector(KScalarType::Prim(KPrimType::String)), vec![]),
                field("walk", prim(KPrimType::Bool), vec![KAttrREST::QueryParam]),
                field("livingAddress", KType::Option(def("Address")), vec![KAttrREST::PathParam]),
            ],
        ),
        record("Address", vec![field("city", prim(KPrimType::String), vec![])]),
    ])
}

#[test]
fn record_schema_with_optional_reference() {
    let doc = render_openapi3(&pets()).unwrap();
    let schemas = entries(doc.components.unwrap().schemas.unwrap());
    assert_eq!(schemas.len(), 2);
    assert_eq!(schemas[0].0, "Pet");
    let pet = inline(&schemas[0].1);
    assert_eq!(pet.schema_type.as_deref(), Some("object"));
    assert_eq!(pet.required, Some(vec!["name".to_string(), "walk".to_string()]));
    let props = entries_ref(pet.properties.as_ref().unwrap());
    assert_eq!(props.iter().map(|p| p.0.as_str()).collect::<Vec<_>>(), vec!["name", "walk", "livingAddress"]);
    let name = inline(props[0].1);
    assert_eq!(name.schema_type.as_deref(), Some("array"));
    let items = inline(name.items.as_ref().unwrap());
    assert_eq!(items.schema_type.as_deref(), Some("string"));
    assert_eq!(inline(props[1].1).schema_type.as_deref(), Some("boolean"));
    match props[2].1 {
        ReferencedOrInlineSchema::Referenced(r) => assert_eq!(r.reference, "#/components/schemas/Address"),
        _ => panic!("a reference"),
    }
    assert_eq!(doc.openapi, "3.0.1");
    assert_eq!(doc.info.title, "Shop");
}

fn dish() -> KItem {
    sum(
        "Dish",
        KSumTypeSerializationForm::NameBased,
        vec![KAttrREST::MessageOut],
        vec![
            variant(
                "Sushi",
                KType::Scalar(def("Tuna")),
                vec![KAttrREST::Status(200), KAttrREST::MIME("application/json".to_string())],
            ),
            variant(
                "PanFriedSteak",
                KType::Scalar(def("Salmon")),
                vec![KAttrREST::Status(401), KAttrREST::MIME("application/json".to_string())],
            ),
        ],
    )
}

#[test]
fn response_merges_shared_mime() {
    let doc = render_openapi3(&module(vec![dish()])).unwrap();
    let responses: Vec<_> = doc.components.unwrap().responses.unwrap().map.into_iter().collect();
    assert_eq!(responses.len(), 1);
    assert_eq!(responses[0].0, "Dish");
    let content = entries_ref(responses[0].1.content.as_ref().unwrap());
    assert_eq!(content.len(), 1);
    assert_eq!(content[0].0, "application/json");
    match content[0].1 {
        ReferencedOrInlineSchema::Referenced(r) => assert_eq!(r.reference, "#/components/schemas/Salmon"),
        _ => panic!("the later variant's payload"),
    }
}

#[test]
fn response_needs_mime() {
    let item = sum(
        "Bad",
        KSumTypeSerializationForm::NameBased,
        vec![KAttrREST::MessageOut],
        vec![variant("A", KType::Scalar(def("Tuna")), vec![KAttrREST::Status(200)])],
    );
    match item {
        KItem::Sum(x) => {
            let e = render_response(&x).unwrap_err();
            assert_eq!(messages(&e), vec!["missing MIME-Type attribute"]);
        },
        _ => unreachable!(),
    }
}

#[test]
fn no_response_without_message_out() {
    let item = sum("Quiet", KSumTypeSerializationForm::NameBased, vec![], vec![variant("A", KType::Scalar(def("T")), vec![])]);
    let doc = render_openapi3(&module(vec![item])).unwrap();
    assert!(doc.components.unwrap().responses.is_none());
}

#[test]
fn typescript_rejects_wide_numbers() {
    let ok = module(vec![record("Flag", vec![field("on", prim(KPrimType::Bool), vec![])])]);
    assert_eq!(render_typescript4(&ok).unwrap(), "\ntype Flag = {\n    on: boolean\n}\n");
    let bad = module(vec![record("Count", vec![field("n", prim(KPrimType::I64), vec![])])]);
    let e = render_typescript4(&bad).unwrap_err();
    assert_eq!(messages(&e), vec!["`i64` is not supported in TypeScript"]);
    let f32 = module(vec![record("Ratio", vec![field("r", prim(KPrimType::F32), vec![])])]);
    assert_eq!(messages(&render_typescript4(&f32).unwrap_err()), vec!["`f32` is not supported in TypeScript"]);
}

#[test]
fn type_based_union_rejects_sequences() {
    let item = sum(
        "Catch",
        KSumTypeSerializationForm::TypeBased { discriminant: "kind".to_string() },
        vec![],
        vec![variant("Many", KType::Vector(def("Tuna")), vec![])],
    );
    let e = render_openapi3(&module(vec![item])).unwrap_err();
    assert_eq!(messages(&e), vec!["vector-type is not supported in type-based sum-type"]);
}

#[test]
fn type_based_union_has_discriminator() {
    let item = sum(
        "Catch",
        KSumTypeSerializationForm::TypeBased { discriminant: "kind".to_string() },
        vec![],
        vec![variant("One", KType::Scalar(def("Tuna")), vec![])],
    );
    let doc = render_openapi3(&module(vec![item])).unwrap();
    let schemas = entries(doc.components.unwrap().schemas.unwrap());
    let s = inline(&schemas[0].1);
    assert_eq!(s.discriminator.as_ref().unwrap().property_name, "kind");
    assert_eq!(s.one_of.as_ref().unwrap().len(), 1);
}

#[test]
fn name_based_union_wraps_variants() {
    let doc = render_openapi3(&module(vec![dish()])).unwrap();
    let schemas = entries(doc.components.unwrap().schemas.unwrap());
    let s = inline(&schemas[0].1);
    let one_of = s.one_of.as_ref().unwrap();
    assert_eq!(one_of.len(), 2);
    let wrapper = inline(&one_of[1]);
    assert_eq!(entries_ref(wrapper.properties.as_ref().unwrap())[0].0, "PanFriedSteak");
}

#[test]
fn api_description_rejects_unit_and_never() {
    let unit = module(vec![record("U", vec![field("u", KType::Scalar(KScalarType::Unit), vec![])])]);
    assert_eq!(messages(&render_openapi3(&unit).unwrap_err()), vec!["unit-type (`()`) is not supported"]);
    let never = module(vec![record("N", vec![field("n", KType::Never, vec![])])]);
    assert_eq!(messages(&render_openapi3(&never).unwrap_err()), vec!["never-type is not unsupported"]);
}

#[test]
fn api_description_accumulates_item_failures() {
    let m = module(vec![
        record("U", vec![field("u", KType::Scalar(KScalarType::Unit), vec![])]),
        record("Ok", vec![]),
        record("N", vec![field("n", KType::Never, vec![])]),
    ]);
    assert_eq!(
        messages(&render_openapi3(&m).unwrap_err()),
        vec!["unit-type (`()`) is not supported", "never-type is not unsupported"]
    );
}

#[test]
fn api_description_enumeration_and_formats() {
    let e = KItem::Enum(KEnumType {
        span: sp(1),
        name: "Mineral".to_string(),
        comment: "Ingredients.".to_string(),
        cases: vec![
            KEnumTypeCase { span: sp(1), name: "Iron".to_string(), comment: String::new() },
            KEnumTypeCase { span: sp(1), name: "Arcana".to_string(), comment: String::new() },
        ],
    });
    let n = KItem::New(KNewType {
        span: sp(1),
        name: "Weight".to_string(),
        attrs: attrs(vec![]),
        comment: String::new(),
        origin: prim(KPrimType::F64),
    });
    let f = KItem::Func(KFuncType {
        span: sp(1),
        name: "Cook".to_string(),
        comment: String::new(),
        attrs: attrs(vec![]),
        input: KType::Scalar(def("Tuna")),
        output: KType::Scalar(def("Salmon")),
    });
    let doc = render_openapi3(&module(vec![e, n, f])).unwrap();
    let schemas = entries(doc.components.unwrap().schemas.unwrap());
    assert_eq!(schemas.len(), 2);
    let m = inline(&schemas[0].1);
    assert_eq!(m.enum_values, Some(vec!["Iron".to_string(), "Arcana".to_string()]));
    assert_eq!(m.description.as_deref(), Some("Ingredients."));
    let w = inline(&schemas[1].1);
    assert_eq!(w.schema_type.as_deref(), Some("number"));
    assert_eq!(w.format.as_deref(), Some("double"));
}

#[test]
fn api_description_same_name_overwrites() {
    let m = module(vec![record("A", vec![]), record("B", vec![]), record("A", vec![field("x", prim(KPrimType::I32), vec![])])]);
    let schemas = entries(render_openapi3(&m).unwrap().components.unwrap().schemas.unwrap());
    assert_eq!(schemas.iter().map(|s| s.0.as_str()).collect::<Vec<_>>(), vec!["A", "B"]);
    assert!(inline(&schemas[0].1).properties.is_some());
}

#[test]
fn swift_types() {
    let m = module(vec![
        record(
            "Pet",
            vec![
                field("name", KType::Vector(KScalarType::Prim(KPrimType::String)), vec![]),
                field("home", KType::Option(def("Address")), vec![]),
            ],
        ),
        sum(
            "Fish",
            KSumTypeSerializationForm::NameBased,
            vec![],
            vec![variant("maybe", KType::Option(def("Tuna")), vec![])],
        ),
    ]);
    assert_eq!(
        render_swift5(&m).unwrap(),
        "\nstruct Pet: Equatable, Codable {\n    var name: [String]\n    var home: Address?\n}\n\nenum Fish: Equatable, Codable {\n    case maybe(Tuna?)\n}\n"
    );
}

#[test]
fn swift_enumeration_and_comments() {
    let e = KItem::Enum(KEnumType {
        span: sp(1),
        name: "Mineral".to_string(),
        comment: " Ingredients\nof magic. ".to_string(),
        cases: vec![KEnumTypeCase { span: sp(1), name: "iron".to_string(), comment: String::new() }],
    });
    assert_eq!(
        render_swift5(&module(vec![e])).unwrap(),
        "\n/// Ingredients\n/// of magic.\nenum Mineral: String, Equatable, Codable {\n    case iron = \"iron\"\n}\n"
    );
}

#[test]
fn typescript_types() {
    let m = module(vec![
        record(
            "Pet",
            vec![
                field("name", KType::Vector(KScalarType::Prim(KPrimType::String)), vec![]),
                field("home", KType::Option(def("Address")), vec![]),
            ],
        ),
        sum(
            "Fish",
            KSumTypeSerializationForm::NameBased,
            vec![],
            vec![variant("tuna", KType::Scalar(def("Tuna")), vec![]), variant("salmon", KType::Scalar(def("Salmon")), vec![])],
        ),
    ]);
    assert_eq!(
        render_typescript4(&m).unwrap(),
        "\ntype Pet = {\n    name: string[]\n    home?: Address\n}\n\ntype Fish = { tuna: Tuna } | { salmon: Salmon }\n"
    );
}

#[test]
fn text_renderers_reject_never_and_unit() {
    let never = module(vec![record("N", vec![field("n", KType::Never, vec![]), field("u", KType::Unknown, vec![])])]);
    assert_eq!(
        messages(&render_swift5(&never).unwrap_err()),
        vec!["never-type is not unsupported", "unsupported type pattern"]
    );
    let unit = module(vec![record("U", vec![field("u", KType::Scalar(KScalarType::Unit), vec![])])]);
    assert_eq!(messages(&render_typescript4(&unit).unwrap_err()), vec!["unit-type (`()`) is not supported"]);
}

#[test]
fn rename_to_lower_camel() {
    assert_eq!(to_camel_case("living_address"), "livingAddress");
    assert_eq!(to_camel_case("livingAddress"), "livingAddress");
    assert_eq!(to_camel_case("walk"), "walk");
    assert_eq!(to_camel_case("PanFriedSteak"), "panFriedSteak");
    assert_eq!(to_camel_case("_a__b"), "aB");
    assert_eq!(to_camel_case(""), "");
}

#[test]
fn rename_is_idempotent() {
    let o = Options { case: Some(Rule::CamelCase), variant: Some(Rule::CamelCase), field: Some(Rule::CamelCase) };
    let make = || {
        module(vec![
            record("Pet", vec![field("living_address", KType::Option(def("Address")), vec![])]),
            dish(),
        ])
    };
    let mut once = make();
    once.rename(&o);
    let mut twice = make();
    twice.rename(&o);
    twice.rename(&o);
    assert_eq!(once, twice);
    match &once.items[0] {
        KItem::Prod(p) => assert_eq!(p.fields[0].name, "livingAddress"),
        _ => unreachable!(),
    }
    match &once.items[1] {
        KItem::Sum(s) => assert_eq!(s.variants[1].name, "panFriedSteak"),
        _ => unreachable!(),
    }
    assert_eq!(once.items[0].name(), "Pet");
}

#[test]
fn rename_without_rules_keeps_names() {
    let mut m = module(vec![record("Pet", vec![field("living_address", prim(KPrimType::Bool), vec![])])]);
    m.rename(&Options::default());
    match &m.items[0] {
        KItem::Prod(p) => assert_eq!(p.fields[0].name, "living_address"),
        _ => unreachable!(),
    }
}

#[test]
fn skip_is_idempotent() {
    let make = || {
        let inner = KMod { span: sp(1), name: "inner".to_string(), comment: String::new(), items: vec![record("Address", vec![]), record("Keep", vec![])] };
        module(vec![record("Address", vec![]), KItem::Mod(inner), record("Pet", vec![])])
    };
    let names = vec!["Address".to_string()];
    let mut once = make();
    once.retain_only_non_skipping_items(&names);
    let mut twice = make();
    twice.retain_only_non_skipping_items(&names);
    twice.retain_only_non_skipping_items(&names);
    assert_eq!(once, twice);
    assert_eq!(once.items.iter().map(|i| i.name()).collect::<Vec<_>>(), vec!["inner", "Pet"]);
    match &once.items[0] {
        KItem::Mod(m) => assert_eq!(m.items.iter().map(|i| i.name()).collect::<Vec<_>>(), vec!["Keep"]),
        _ => unreachable!(),
    }
}

#[test]
fn skip_removes_whole_modules() {
    let inner = KMod { span: sp(1), name: "inner".to_string(), comment: String::new(), items: vec![record("A", vec![])] };
    let mut m = module(vec![KItem::Mod(inner)]);
    m.retain_only_non_skipping_items(&vec!["inner".to_string()]);
    assert!(m.items.is_empty());
}

#[test]
fn diagnostic_lines() {
    let l = Log { span: KSpan { start: KLineColumn { line: 12, column: 4 }, end: KLineColumn { line: 3, column: 0 } }, message: "bad".to_string() };
    assert_eq!(l.to_line(), "LOG(12:4-3:0): bad");
    let e = ErrorLogs(vec![l.clone(), Log { span: KSpan::default(), message: "x".to_string() }]);
    assert_eq!(e.to_lines(), vec!["LOG(12:4-3:0): bad".to_string(), "LOG(0:0-0:0): x".to_string()]);
}

#[test]
fn variant_status_and_mime() {
    let v = variant(
        "Sushi",
        KType::Scalar(def("Tuna")),
        vec![KAttrREST::MIME("text/plain".to_string()), KAttrREST::Status(200), KAttrREST::Status(404)],
    );
    assert_eq!(ridl::openapi3::status(&v), Some(200));
    assert_eq!(ridl::openapi3::mime(&v), Some("text/plain"));
    let bare = variant("Plain", KType::Scalar(def("Tuna")), vec![]);
    assert_eq!(ridl::openapi3::status(&bare), None);
    assert_eq!(ridl::openapi3::mime(&bare), None);
}

#[test]
fn span_text_round_trip() {
    let s = KSpan { start: KLineColumn { line: 120, column: 7 }, end: KLineColumn { line: 121, column: 0 } };
    assert_eq!(s.to_text(), "120:7-121:0");
    assert_eq!(KSpan::parse_text("120:7-121:0"), Some(s));
    assert_eq!(KSpan::parse_text("120:7"), None);
    assert_eq!(KSpan::parse_text("1:x-2:3"), None);
    assert_eq!(KSpan::parse_text("1:2-3:"), None);
}
