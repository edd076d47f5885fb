use ridl::attr::{scan_attr, scan_attrs, Attr, AttrParam, AttrValue};
use ridl::log::Log;
use ridl::model::{
    KAttrREST, KAttrs, KItem, KPrimType, KScalarType, KSumTypeSerializationForm, KType,
};
use ridl::scan::{scan as scan_source, scan_module};
use ridl::span::{KLineColumn, KSpan};
use ridl::syntax::{
    GenericArg, Lit, Meta, MetaPath, NestedMeta, PathArguments, PathSegment, SAlias, SAttribute, SEnum, SField,
    SFields, SFieldsShape, SGenerics, SModule, SModuleDecl, SStruct, STypeExpr, SVariant, TypeSegment,
};
use ridl::swift5::render_swift5;
use ridl::ty::{path_parts, scan_type};
use ridl::typescript4::render_typescript4;

fn sp(line: usize) -> KSpan {
    KSpan { start: KLineColumn { line, column: 0 }, end: KLineColumn { line, column: 10 } }
}

fn mpath(name: &str) -> MetaPath {
    MetaPath {
        span: sp(1),
        segments: vec![PathSegment { span: sp(1), ident: name.to_string(), has_arguments: false }],
    }
}

fn attr(meta: Meta) -> SAttribute {
    let path = match &meta {
        Meta::Path(p) => p.clone(),
        Meta::List(p, _) => p.clone(),
        Meta::NameValue(p, _) => p.clone(),
    };
    SAttribute { span: sp(1), path, meta: Ok(meta) }
}

fn doc(text: &str) -> SAttribute {
    attr(Meta::NameValue(mpath("doc"), Lit::Str(text.to_string())))
}

fn list(name: &str, params: Vec<NestedMeta>) -> SAttribute {
    attr(Meta::List(mpath(name), params))
}

fn key(name: &str) -> NestedMeta {
    NestedMeta::Meta(Meta::Path(mpath(name)))
}

fn int_lit(digits: &str) -> NestedMeta {
    NestedMeta::Lit(Lit::Int(sp(1), digits.to_string()))
}

fn text(s: &str) -> NestedMeta {
    NestedMeta::Lit(Lit::Str(s.to_string()))
}

fn tseg(name: &str) -> TypeSegment {
    TypeSegment { ident: name.to_string(), arguments: PathArguments::Bare }
}

fn ty(name: &str) -> STypeExpr {
    STypeExpr::Path { span: sp(2), qualified_self: false, segments: vec![tseg(name)] }
}

fn generic(name: &str, args: Vec<STypeExpr>) -> STypeExpr {
    STypeExpr::Path {
        span: sp(2),
        qualified_self: false,
        segments: vec![TypeSegment {
            ident: name.to_string(),
            arguments: PathArguments::AngleBracketed(args.into_iter().map(GenericArg::Type).collect()),
        }],
    }
}

fn no_generics() -> SGenerics {
    SGenerics { span: sp(0), count: 0 }
}

fn field(name: &str, t: STypeExpr, attrs: Vec<SAttribute>) -> SField {
    SField { span: sp(3), name: Some(name.to_string()), attrs, tyx: t }
}

fn record(name: &str, fields: Vec<SField>) -> SModuleDecl {
    SModuleDecl::Struct(SStruct {
        span: sp(4),
        name: name.to_string(),
        attrs: vec![],
        generics: no_generics(),
        fields: SFields { span: sp(4), shape: SFieldsShape::Named, fields },
    })
}

fn variant(name: &str, payload: Vec<STypeExpr>) -> SVariant {
    let shape = if payload.is_empty() { SFieldsShape::Unit } else { SFieldsShape::Unnamed };
    SVariant {
        span: sp(5),
        name: name.to_string(),
        attrs: vec![],
        fields: SFields {
            span: sp(5),
            shape,
            fields: payload.into_iter().map(|t| SField { span: sp(5), name: None, attrs: vec![], tyx: t }).collect(),
        },
    }
}

fn enumeration(name: &str, attrs: Vec<SAttribute>, variants: Vec<SVariant>) -> SModuleDecl {
    SModuleDecl::Enum(SEnum { span: sp(6), name: name.to_string(), attrs, generics: no_generics(), variants })
}

fn alias(name: &str, t: STypeExpr) -> SModuleDecl {
    SModuleDecl::Alias(SAlias { span: sp(7), name: name.to_string(), attrs: vec![], generics: no_generics(), tyx: t })
}

fn file(decls: Vec<SModuleDecl>) -> SModule {
    SModule { span: KSpan::default(), name: String::new(), attrs: vec![], decls: Some(decls) }
}

fn messages(logs: &[Log]) -> Vec<String> {
    logs.iter().map(|l| l.message.clone()).collect()
}

#[test]
fn scan() {
    let a = vec![list("rest", vec![key("in")])];
    assert_eq!(a.len(), 1);
    let d = scan_attrs(&a).unwrap();
    assert_eq!(d, KAttrs { rest: vec![KAttrREST::MessageIn] });
}

#[test]
fn scan_attr_1() {
    let c = vec![attr(Meta::Path(mpath("abc")))];
    assert_eq!(c.len(), 1);
    let e = scan_attr(&c[0]).unwrap();
    assert_eq!(e, Attr { name: "abc".to_owned(), params: vec![] });
}

#[test]
fn scan_attr_2() {
    let c = vec![list("abc", vec![key("d"), key("e")])];
    assert_eq!(c.len(), 1);
    let e = scan_attr(&c[0]).unwrap();
    assert_eq!(
        e,
        Attr { name: "abc".to_owned(), params: vec![AttrParam::Key("d".to_owned()), AttrParam::Key("e".to_owned())] }
    );
}

#[test]
fn scan_attr_3() {
    let kv = |k: &str, l: Lit| NestedMeta::Meta(Meta::NameValue(mpath(k), l));
    let c = vec![list(
        "abc",
        vec![kv("a", Lit::Int(sp(1), "10".to_string())), kv("c", Lit::Str("d".to_string())), kv("e", Lit::Bool(true))],
    )];
    assert_eq!(c.len(), 1);
    let e = scan_attr(&c[0]).unwrap();
    assert_eq!(
        e,
        Attr {
            name: "abc".to_owned(),
            params: vec![
                AttrParam::KeyValue("a".to_owned(), AttrValue::I64(10)),
                AttrParam::KeyValue("c".to_owned(), AttrValue::String("d".to_owned())),
                AttrParam::KeyValue("e".to_owned(), AttrValue::Bool(true)),
            ]
        }
    );
}

#[test]
fn case1() {
    // std::collections::HashMap<u32, std::path::PathBuf>
    let path_buf = STypeExpr::Path {
        span: sp(2),
        qualified_self: false,
        segments: vec![tseg("std"), tseg("path"), tseg("PathBuf")],
    };
    let t = STypeExpr::Path {
        span: sp(2),
        qualified_self: false,
        segments: vec![
            tseg("std"),
            tseg("collections"),
            TypeSegment {
                ident: "HashMap".to_string(),
                arguments: PathArguments::AngleBracketed(vec![GenericArg::Type(ty("u32")), GenericArg::Type(path_buf)]),
            },
        ],
    };
    let c = path_parts(&t).unwrap();
    assert_eq!(c.name, "HashMap");
    assert_eq!(c.count, 2);
    assert_eq!(path_parts(c.first.unwrap()).unwrap().name, "u32");
}

#[test]
fn attr_top_level_key_value_is_nameless() {
    let a = attr(Meta::NameValue(mpath("doc"), Lit::Str("x".to_string())));
    let e = scan_attr(&a).unwrap();
    assert_eq!(e.name, "");
    assert_eq!(e.params, vec![AttrParam::KeyValue("doc".to_owned(), AttrValue::String("x".to_owned()))]);
}

#[test]
fn attr_errors() {
    let generic = SAttribute {
        span: sp(1),
        path: mpath("abc"),
        meta: Ok(Meta::Path(MetaPath {
            span: sp(1),
            segments: vec![PathSegment { span: sp(9), ident: "abc".to_string(), has_arguments: true }],
        })),
    };
    let e = scan_attr(&generic).unwrap_err();
    assert_eq!(messages(&e.0), vec!["generic parameter is not supported"]);
    assert_eq!(e.0[0].span, sp(9));

    let empty = attr(Meta::Path(MetaPath { span: sp(8), segments: vec![] }));
    assert_eq!(messages(&scan_attr(&empty).unwrap_err().0), vec!["zero-length path segment is not supported"]);

    let float = list("abc", vec![NestedMeta::Lit(Lit::Other(sp(7)))]);
    assert_eq!(messages(&scan_attr(&float).unwrap_err().0), vec!["unsupported literal form"]);

    let nested = list("abc", vec![NestedMeta::Meta(Meta::List(mpath("x"), vec![]))]);
    assert_eq!(messages(&scan_attr(&nested).unwrap_err().0), vec!["unsupported attribute form"]);

    let huge = list("status", vec![int_lit("99999999999999999999")]);
    assert_eq!(messages(&scan_attr(&huge).unwrap_err().0), vec!["number too large to fit in target type"]);

    let unreadable = SAttribute {
        span: sp(1),
        path: mpath("x"),
        meta: Err(Log { span: sp(4), message: "expected literal".to_string() }),
    };
    assert_eq!(messages(&scan_attr(&unreadable).unwrap_err().0), vec!["expected literal"]);
}

#[test]
fn attr_largest_integer() {
    let a = list("status", vec![int_lit("9223372036854775807")]);
    assert_eq!(scan_attrs(&vec![a]).unwrap().rest, vec![KAttrREST::Status(i64::MAX)]);
    let b = list("status", vec![int_lit("9223372036854775808")]);
    assert!(scan_attrs(&vec![b]).is_err());
}

#[test]
fn facets_table() {
    let attrs = vec![
        list("rest", vec![key("out")]),
        attr(Meta::Path(mpath("path"))),
        attr(Meta::Path(mpath("query"))),
        attr(Meta::Path(mpath("body"))),
        list("status", vec![int_lit("200")]),
        list("mime", vec![text("application/json")]),
        list("serde", vec![key("Serialize")]),
        doc("ignored by the facet table"),
    ];
    let d = scan_attrs(&attrs).unwrap();
    assert_eq!(
        d.rest,
        vec![
            KAttrREST::MessageOut,
            KAttrREST::PathParam,
            KAttrREST::QueryParam,
            KAttrREST::BodyParam,
            KAttrREST::Status(200),
            KAttrREST::MIME("application/json".to_string()),
        ]
    );
}

#[test]
fn facets_malformed() {
    let bad_status = vec![list("status", vec![text("ok")])];
    assert_eq!(messages(&scan_attrs(&bad_status).unwrap_err().0), vec!["badly formed attribute"]);
    let bad_mime = vec![attr(Meta::Path(mpath("mime")))];
    assert_eq!(messages(&scan_attrs(&bad_mime).unwrap_err().0), vec!["badly formed attribute"]);
}

#[test]
fn type_shapes() {
    assert_eq!(scan_type(&generic("Vec", vec![ty("String")])).unwrap(), KType::Vector(KScalarType::Prim(KPrimType::String)));
    assert_eq!(
        scan_type(&generic("Option", vec![ty("Address")])).unwrap(),
        KType::Option(KScalarType::Def("Address".to_string()))
    );
    let slice = STypeExpr::Wrapped(Box::new(STypeExpr::Array(sp(2), Box::new(ty("i32")))));
    assert_eq!(scan_type(&slice).unwrap(), KType::Vector(KScalarType::Prim(KPrimType::I32)));
    let reference = STypeExpr::Wrapped(Box::new(ty("str")));
    assert_eq!(scan_type(&reference).unwrap(), KType::Scalar(KScalarType::Prim(KPrimType::String)));
    for (n, p) in [
        ("bool", KPrimType::Bool),
        ("i32", KPrimType::I32),
        ("i64", KPrimType::I64),
        ("f32", KPrimType::F32),
        ("f64", KPrimType::F64),
        ("String", KPrimType::String),
    ] {
        assert_eq!(scan_type(&ty(n)).unwrap(), KType::Scalar(KScalarType::Prim(p)));
    }
}

#[test]
fn type_nesting_is_rejected() {
    let nested = generic("Vec", vec![generic("Vec", vec![ty("i32")])]);
    assert_eq!(messages(&scan_type(&nested).unwrap_err().0), vec!["scalar type with generic parameter is not supported"]);
    let two = generic("Option", vec![ty("i32"), ty("i64")]);
    assert_eq!(messages(&scan_type(&two).unwrap_err().0), vec!["`Option` type must have one parameter"]);
    let tuple = STypeExpr::Other(sp(2));
    assert_eq!(messages(&scan_type(&tuple).unwrap_err().0), vec!["bad/unsupported type form"]);
    let map = generic("HashMap", vec![ty("u32"), ty("String")]);
    assert!(scan_type(&map).is_err());
}

/// The declarations of the sample schema: two aliases, an enumeration, a sum
/// type and three records.
fn sample() -> SModule {
    let serde = || list("serde", vec![key("Serialize"), key("Deserialize")]);
    let mut pet_walk = field("walk", ty("bool"), vec![doc(" Did they take a walk today?")]);
    pet_walk.attrs.push(serde());
    file(vec![
        alias("Tuna", ty("String")),
        alias("Salmon", ty("String")),
        enumeration(
            "Mineral",
            vec![doc(" Ingredients of magic."), serde()],
            vec![variant("Iron", vec![]), variant("Alumina", vec![]), variant("Arcana", vec![])],
        ),
        enumeration(
            "Fish",
            vec![doc(" Edible objects."), serde()],
            vec![variant("Tuna", vec![ty("Tuna")]), {
                let mut v = variant("Salmon", vec![ty("Salmon")]);
                v.attrs.push(doc(" Good salmons are reddish."));
                v
            }],
        ),
        record(
            "Pet",
            vec![
                field("name", generic("Vec", vec![ty("String")]), vec![]),
                pet_walk,
                field("living_address", generic("Option", vec![ty("Address")]), vec![]),
            ],
        ),
        record("Address", vec![field("city", ty("String"), vec![])]),
        record("APIError", vec![field("message", ty("String"), vec![])]),
    ])
}

#[test]
fn mod_test_scan_model() {
    let m = scan_source(&sample()).unwrap();
    let names: Vec<&str> = m.items.iter().map(|i| i.name()).collect();
    assert_eq!(names, vec!["Tuna", "Salmon", "Mineral", "Fish", "Pet", "Address", "APIError"]);
    match &m.items[2] {
        KItem::Enum(e) => {
            assert_eq!(e.comment, "Ingredients of magic.");
            assert_eq!(e.cases.len(), 3);
        },
        _ => panic!("Mineral is an enumeration"),
    }
    match &m.items[3] {
        KItem::Sum(s) => {
            assert_eq!(s.serialization, KSumTypeSerializationForm::NameBased);
            assert_eq!(s.variants[0].content, KType::Scalar(KScalarType::Def("Tuna".to_string())));
        },
        _ => panic!("Fish is a sum type"),
    }
    match &m.items[4] {
        KItem::Prod(p) => {
            assert_eq!(p.fields[1].comment, "Did they take a walk today?");
            assert_eq!(p.fields[2].content, KType::Option(KScalarType::Def("Address".to_string())));
        },
        _ => panic!("Pet is a record"),
    }
    assert_eq!(*m.items[4].span(), sp(4));
}

#[test]
fn doc_lines_are_trimmed_and_joined() {
    let m = SModule {
        span: sp(0),
        name: "m".to_string(),
        attrs: vec![doc("  first line  "), list("serde", vec![]), doc("second")],
        decls: None,
    };
    let k = scan_module(&m).unwrap();
    assert_eq!(k.comment, "first line\nsecond");
    assert!(k.items.is_empty());
}

#[test]
fn accumulation_reports_every_invalid_sibling() {
    let tuple_struct = SModuleDecl::Struct(SStruct {
        span: sp(4),
        name: "T".to_string(),
        attrs: vec![],
        generics: no_generics(),
        fields: SFields { span: sp(11), shape: SFieldsShape::Unnamed, fields: vec![] },
    });
    let generic_alias = SModuleDecl::Alias(SAlias {
        span: sp(7),
        name: "G".to_string(),
        attrs: vec![],
        generics: SGenerics { span: sp(12), count: 1 },
        tyx: ty("i32"),
    });
    let decls = vec![
        record("A", vec![]),
        tuple_struct,
        SModuleDecl::Use,
        generic_alias,
        record("B", vec![field("x", ty("i32"), vec![])]),
        SModuleDecl::Unknown(sp(13)),
    ];
    let e = scan_source(&file(decls)).unwrap_err();
    assert_eq!(
        messages(&e.0),
        vec![
            "only named fields are supported in struct (no support for unnamed fields)",
            "generic parameter is not supported",
            "unsupported item",
        ]
    );
    assert_eq!(e.0.iter().map(|l| l.span).collect::<Vec<_>>(), vec![sp(11), sp(12), sp(13)]);

    let valid = scan_source(&file(vec![record("A", vec![]), SModuleDecl::Use, record("B", vec![field("x", ty("i32"), vec![])])]))
        .unwrap();
    assert_eq!(valid.items.len(), 2);
}

#[test]
fn classification_of_enumerations() {
    let m = scan_source(&file(vec![enumeration("E", vec![], vec![variant("A", vec![]), variant("B", vec![])])])).unwrap();
    assert!(matches!(m.items[0], KItem::Enum(_)));

    let m = scan_source(&file(vec![enumeration("S", vec![], vec![variant("A", vec![ty("i32")]), variant("B", vec![ty("bool")])])]))
        .unwrap();
    assert!(matches!(m.items[0], KItem::Sum(_)));

    let mixed = enumeration(
        "M",
        vec![],
        vec![variant("A", vec![ty("i32")]), variant("B", vec![]), variant("C", vec![ty("i32"), ty("i32")])],
    );
    let e = scan_source(&file(vec![mixed])).unwrap_err();
    assert_eq!(e.0.len(), 2);
    assert!(e.0.iter().all(|l| l.message.starts_with("only single variant field is supported")));

    let mut named = variant("N", vec![ty("i32")]);
    named.fields.shape = SFieldsShape::Named;
    let e = scan_source(&file(vec![enumeration("X", vec![], vec![named])])).unwrap_err();
    assert_eq!(messages(&e.0), vec!["only unnamed field is supported (no support for named field)"]);
}

#[test]
fn function_alias() {
    let f = STypeExpr::BareFn { span: sp(2), inputs: vec![ty("Tuna")], output: Some(Box::new(ty("Salmon"))) };
    let m = scan_source(&file(vec![alias("Cook", f)])).unwrap();
    match &m.items[0] {
        KItem::Func(x) => {
            assert_eq!(x.input, KType::Scalar(KScalarType::Def("Tuna".to_string())));
            assert_eq!(x.output, KType::Scalar(KScalarType::Def("Salmon".to_string())));
        },
        _ => panic!("a bare function type makes a function alias"),
    }
    let two = STypeExpr::BareFn { span: sp(2), inputs: vec![ty("A"), ty("B")], output: Some(Box::new(ty("C"))) };
    let e = scan_source(&file(vec![alias("Two", two)])).unwrap_err();
    assert_eq!(messages(&e.0), vec!["only 1 input argument is supported"]);
}

#[test]
fn nested_module() {
    let inner = SModule { span: sp(9), name: "inner".to_string(), attrs: vec![doc("Inner.")], decls: Some(vec![record("A", vec![])]) };
    let m = scan_source(&file(vec![SModuleDecl::Module(inner)])).unwrap();
    match &m.items[0] {
        KItem::Mod(x) => {
            assert_eq!(x.name, "inner");
            assert_eq!(x.comment, "Inner.");
            assert_eq!(x.items.len(), 1);
        },
        _ => panic!("a module"),
    }
}

/// The sample schema with its file-level doc comment.
fn documented_sample() -> SModule {
    let mut m = sample();
    m.attrs = vec![doc(" Here be dragons."), doc(" Features below this line are currently supported.")];
    m
}

#[test]
fn mod_test_render_swift5() {
    let m = scan_source(&documented_sample()).unwrap();
    let x = render_swift5(&m).unwrap().trim().to_owned();
    let z = r#"/// Here be dragons.
/// Features below this line are currently supported.
typealias Tuna = String

typealias Salmon = String

/// Ingredients of magic.
enum Mineral: String, Equatable, Codable {
    case Iron = "Iron"
    case Alumina = "Alumina"
    case Arcana = "Arcana"
}

/// Edible objects.
enum Fish: Equatable, Codable {
    case Tuna(Tuna)
    /// Good salmons are reddish.
    case Salmon(Salmon)
}

struct Pet: Equatable, Codable {
    var name: [String]
    /// Did they take a walk today?
    var walk: Bool
    var living_address: Address?
}

struct Address: Equatable, Codable {
    var city: String
}

struct APIError: Equatable, Codable {
    var message: String
}"#;
    assert_eq!(x, z);
}

#[test]
fn mod_test_render_typescript4() {
    let m = scan_source(&documented_sample()).unwrap();
    let x = render_typescript4(&m).unwrap().trim().to_owned();
    let z = "/// Here be dragons.
/// Features below this line are currently supported.
type Tuna = string

type Salmon = string

/// Ingredients of magic.
enum Mineral {
    Iron = \"Iron\",
    Alumina = \"Alumina\",
    Arcana = \"Arcana\"  \n}

/// Edible objects.
type Fish = { Tuna: Tuna } | { Salmon: Salmon }

type Pet = {
    name: string[]
    /// Did they take a walk today?
    walk: boolean
    living_address?: Address
}

type Address = {
    city: string
}

type APIError = {
    message: string
}";
    assert_eq!(x, z);
}

#[test]
fn mod_test_render_openapi3() {
    let m = scan_source(&documented_sample()).unwrap();
    let doc = ridl::openapi3::render_openapi3(&m).unwrap();
    assert_eq!(doc.info.description.as_deref(), Some("Here be dragons.\nFeatures below this line are currently supported."));
    let names: Vec<String> = doc.components.unwrap().schemas.unwrap().map.into_iter().map(|e| e.0).collect();
    assert_eq!(names, vec!["Tuna", "Salmon", "Mineral", "Fish", "Pet", "Address", "APIError"]);
}

#[test]
fn test_test_render_swift5() {
    let m = scan_source(&sample()).unwrap();
    render_swift5(&m).unwrap();
}

#[test]
fn test_test_render_typescript4() {
    let m = scan_source(&sample()).unwrap();
    render_typescript4(&m).unwrap();
}

#[test]
fn test_test_render_openapi3() {
    let m = scan_source(&sample()).unwrap();
    ridl::openapi3::render_openapi3(&m).unwrap();
}

#[test]
fn test_test_scan_model() {
    scan_source(&sample()).unwrap();
}
