use vstd::prelude::*;
use crate::span::KSpan;
use crate::keyed::{entries_view, map_insert, map_insert_all};
use crate::log::{
    accumulate, err, fail, map_collect_result, res_view, LogResult, LogV,
};
use crate::model::{
    EnumV, FacetV, FieldV, FormV, ItemV, KAttrREST, KEnumType, KItem, KMod, KPrimType, KProdType, KScalarType,
    KSumType, KSumTypeSerializationForm, KSumTypeVariant, KType, ModV, ProdV, ScalarV, SumV, TypeV, VariantV,
};
use crate::text::{trim_str, trimmed};

verus! {

// ----- The API-description document -----

/// A pointer to a schema of the same document.
#[derive(Clone, Debug, PartialEq, Eq)]
pub struct Reference {
    pub reference: String,
}

#[derive(Clone, Debug, PartialEq, Eq)]
pub struct Discriminator {
    pub property_name: String,
}

/// A schema object: the subset of fields that rendering fills.
#[derive(Debug, PartialEq, Eq)]
pub struct Schema {
    pub title: Option<String>,
    pub description: Option<String>,
    pub schema_type: Option<String>,
    pub format: Option<String>,
    pub enum_values: Option<Vec<String>>,
    pub items: Option<Box<ReferencedOrInlineSchema>>,
    pub properties: Option<SchemaMap>,
    pub required: Option<Vec<String>>,
    pub one_of: Option<Vec<ReferencedOrInlineSchema>>,
    pub discriminator: Option<Discriminator>,
}

#[derive(Debug, PartialEq, Eq)]
pub enum ReferencedOrInlineSchema {
    Referenced(Reference),
    Inline(Schema),
}

#[derive(Debug, PartialEq, Eq)]
pub struct Response {
    pub description: String,
    /// The payload schema of each MIME type.
    pub content: Option<SchemaMap>,
}

#[derive(Debug, PartialEq, Eq)]
pub struct Components {
    /// The schema of each item, by name.
    pub schemas: Option<SchemaMap>,
    /// The response of each outgoing-message union, by name.
    pub responses: Option<ResponseMap>,
}

#[derive(Clone, Debug, PartialEq, Eq)]
pub struct Info {
    pub title: String,
    pub description: Option<String>,
    pub version: String,
}

#[derive(Debug, PartialEq, Eq)]
pub struct Doc {
    pub openapi: String,
    pub info: Info,
    pub components: Option<Components>,
}

// ----- Ordered maps -----

/// An ordered map from names to schemas, kept in a `linear_map::LinearMap`.
#[verifier::external_body]
#[derive(Debug, PartialEq, Eq)]
pub struct SchemaMap {
    pub map: linear_map::LinearMap<String, ReferencedOrInlineSchema>,
}

/// The entries of a schema map, in map order.
pub uninterp spec fn schema_map_entries(m: SchemaMap) -> Seq<(Seq<char>, RoiV)>;

impl SchemaMap {
    /// Relies on `LinearMap::new`: a map without entries.
    #[verifier::external_body]
    fn new() -> (r: SchemaMap)
        ensures
            schema_map_entries(r) == Seq::<(Seq<char>, RoiV)>::empty(),
    {
        SchemaMap { map: linear_map::LinearMap::new() }
    }

    /// Relies on `LinearMap::insert`: the value of a present key is replaced
    /// in its position; a new key is appended.
    #[verifier::external_body]
    fn insert(&mut self, k: String, v: ReferencedOrInlineSchema)
        ensures
            schema_map_entries(*final(self)) == map_insert(schema_map_entries(*old(self)), k@, v@),
    {
        self.map.insert(k, v);
    }

    /// Relies on `LinearMap::len`: the number of entries.
    #[verifier::external_body]
    fn len(&self) -> (r: usize)
        ensures
            r == schema_map_entries(*self).len(),
    {
        self.map.len()
    }
}

/// An ordered map from names to responses, kept in a `linear_map::LinearMap`.
#[verifier::external_body]
#[derive(Debug, PartialEq, Eq)]
pub struct ResponseMap {
    pub map: linear_map::LinearMap<String, Response>,
}

/// The entries of a response map, in map order.
pub uninterp spec fn response_map_entries(m: ResponseMap) -> Seq<(Seq<char>, ResponseV)>;

impl ResponseMap {
    /// Relies on `LinearMap::new`: a map without entries.
    #[verifier::external_body]
    fn new() -> (r: ResponseMap)
        ensures
            response_map_entries(r) == Seq::<(Seq<char>, ResponseV)>::empty(),
    {
        ResponseMap { map: linear_map::LinearMap::new() }
    }

    /// Relies on `LinearMap::insert`: the value of a present key is replaced
    /// in its position; a new key is appended.
    #[verifier::external_body]
    fn insert(&mut self, k: String, v: Response)
        ensures
            response_map_entries(*final(self)) == map_insert(response_map_entries(*old(self)), k@, v@),
    {
        self.map.insert(k, v);
    }
}

// ----- Models -----

pub struct SchemaV {
    pub title: Option<Seq<char>>,
    pub description: Option<Seq<char>>,
    pub schema_type: Option<Seq<char>>,
    pub format: Option<Seq<char>>,
    pub enum_values: Option<Seq<Seq<char>>>,
    pub items: Option<Box<RoiV>>,
    pub properties: Option<Seq<(Seq<char>, RoiV)>>,
    pub required: Option<Seq<Seq<char>>>,
    pub one_of: Option<Seq<RoiV>>,
    pub discriminator: Option<Seq<char>>,
}

pub enum RoiV {
    Referenced(Seq<char>),
    Inline(SchemaV),
}

pub open spec fn opt_str_view(o: Option<String>) -> Option<Seq<char>> {
    match o {
        Some(s) => Some(s@),
        None => None,
    }
}

pub open spec fn schema_view(s: Schema) -> SchemaV
    decreases s,
{
    SchemaV {
        title: opt_str_view(s.title),
        description: opt_str_view(s.description),
        schema_type: opt_str_view(s.schema_type),
        format: opt_str_view(s.format),
        enum_values: match s.enum_values {
            Some(v) => Some(v@.map_values(|x: String| x@)),
            None => None,
        },
        items: match s.items {
            Some(b) => Some(Box::new(roi_view(*b))),
            None => None,
        },
        properties: match s.properties {
            Some(m) => Some(schema_map_entries(m)),
            None => None,
        },
        required: match s.required {
            Some(v) => Some(v@.map_values(|x: String| x@)),
            None => None,
        },
        one_of: match s.one_of {
            Some(os) => Some(
                Seq::new(
                    os@.len(),
                    |i: int|
                        if 0 <= i < os@.len() {
                            roi_view(os@[i])
                        } else {
                            RoiV::Referenced(seq![])
                        },
                ),
            ),
            None => None,
        },
        discriminator: match s.discriminator {
            Some(d) => Some(d.property_name@),
            None => None,
        },
    }
}

pub open spec fn roi_view(r: ReferencedOrInlineSchema) -> RoiV
    decreases r,
{
    match r {
        ReferencedOrInlineSchema::Referenced(x) => RoiV::Referenced(x.reference@),
        ReferencedOrInlineSchema::Inline(s) => RoiV::Inline(schema_view(s)),
    }
}

impl View for ReferencedOrInlineSchema {
    type V = RoiV;

    open spec fn view(&self) -> RoiV {
        roi_view(*self)
    }
}

pub struct ResponseV {
    pub description: Seq<char>,
    pub content: Option<Seq<(Seq<char>, RoiV)>>,
}

impl View for Response {
    type V = ResponseV;

    open spec fn view(&self) -> ResponseV {
        ResponseV {
            description: self.description@,
            content: match self.content {
                Some(c) => Some(schema_map_entries(c)),
                None => None,
            },
        }
    }
}

/// An empty schema.
pub open spec fn empty_schema() -> SchemaV {
    SchemaV {
        title: None,
        description: None,
        schema_type: None,
        format: None,
        enum_values: None,
        items: None,
        properties: None,
        required: None,
        one_of: None,
        discriminator: None,
    }
}

fn new_schema() -> (r: Schema)
    ensures
        schema_view(r) == empty_schema(),
{
    Schema {
        title: None,
        description: None,
        schema_type: None,
        format: None,
        enum_values: None,
        items: None,
        properties: None,
        required: None,
        one_of: None,
        discriminator: None,
    }
}

/// A text field that is left out when empty.
pub open spec fn set_text(s: Seq<char>) -> Option<Seq<char>> {
    if s.len() == 0 {
        None
    } else {
        Some(s)
    }
}

pub fn set(s: &str) -> (r: Option<String>)
    ensures
        opt_str_view(r) == set_text(s@),
{
    if s.unicode_len() == 0 {
        None
    } else {
        Some(String::from_str(s))
    }
}

// ----- Types -----

/// An inline schema with a type and a format.
pub open spec fn inline_schema(schema_type: Seq<char>, format: Seq<char>) -> RoiV {
    RoiV::Inline(SchemaV { schema_type: set_text(schema_type), format: set_text(format), ..empty_schema() })
}

/// The document-local reference to a named schema.
pub open spec fn schema_ref(name: Seq<char>) -> Seq<char> {
    "#/components/schemas/"@ + name
}

pub fn make_opanapi3_ref(name: &str) -> (r: String)
    ensures
        r@ == schema_ref(name@),
{
    String::from_str("#/components/schemas/").concat(name)
}

fn inline(schema_type: &str, format: &str) -> (r: ReferencedOrInlineSchema)
    ensures
        r@ == inline_schema(schema_type@, format@),
{
    let mut k = new_schema();
    k.schema_type = set(schema_type);
    k.format = set(format);
    ReferencedOrInlineSchema::Inline(k)
}

/// A scalar as a schema: unit is rejected; a named type becomes a reference.
pub open spec fn oa_scalar(s: ScalarV, span: KSpan) -> Result<RoiV, Seq<LogV>> {
    match s {
        ScalarV::Unit => fail(span, "unit-type (`()`) is not supported"@),
        ScalarV::Prim(KPrimType::Bool) => Ok(inline_schema("boolean"@, ""@)),
        ScalarV::Prim(KPrimType::I32) => Ok(inline_schema("integer"@, "int32"@)),
        ScalarV::Prim(KPrimType::I64) => Ok(inline_schema("integer"@, "int64"@)),
        ScalarV::Prim(KPrimType::F32) => Ok(inline_schema("number"@, "float"@)),
        ScalarV::Prim(KPrimType::F64) => Ok(inline_schema("number"@, "double"@)),
        ScalarV::Prim(KPrimType::String) => Ok(inline_schema("string"@, ""@)),
        ScalarV::Def(n) => Ok(RoiV::Referenced(schema_ref(n))),
    }
}

fn render_scalar(s: &KScalarType, span: KSpan) -> (r: LogResult<ReferencedOrInlineSchema>)
    ensures
        res_view(r) == oa_scalar(s@, span),
{
    match s {
        KScalarType::Unit => err(span, "unit-type (`()`) is not supported"),
        KScalarType::Prim(KPrimType::Bool) => Ok(inline("boolean", "")),
        KScalarType::Prim(KPrimType::I32) => Ok(inline("integer", "int32")),
        KScalarType::Prim(KPrimType::I64) => Ok(inline("integer", "int64")),
        KScalarType::Prim(KPrimType::F32) => Ok(inline("number", "float")),
        KScalarType::Prim(KPrimType::F64) => Ok(inline("number", "double")),
        KScalarType::Prim(KPrimType::String) => Ok(inline("string", "")),
        KScalarType::Def(n) => Ok(
            ReferencedOrInlineSchema::Referenced(Reference { reference: make_opanapi3_ref(n.as_str()) }),
        ),
    }
}

/// A type as a schema: a sequence is an array schema; an optional is its
/// scalar, optionality being decided by the parent.
pub open spec fn oa_type(t: TypeV, span: KSpan) -> Result<RoiV, Seq<LogV>> {
    match t {
        TypeV::Vector(x) => match oa_scalar(x, span) {
            Err(e) => Err(e),
            Ok(i) => Ok(RoiV::Inline(SchemaV { items: Some(Box::new(i)), schema_type: Some("array"@), ..empty_schema() })),
        },
        TypeV::Option(x) => oa_scalar(x, span),
        TypeV::Scalar(x) => oa_scalar(x, span),
        TypeV::Never => fail(span, "never-type is not unsupported"@),
        TypeV::Unknown => fail(span, "unsupported type pattern"@),
    }
}

fn render_type(t: &KType, span: KSpan) -> (r: LogResult<ReferencedOrInlineSchema>)
    ensures
        res_view(r) == oa_type(t@, span),
{
    match t {
        KType::Vector(x) => {
            let i = render_scalar(x, span)?;
            let mut k = new_schema();
            k.items = Some(Box::new(i));
            k.schema_type = Some(String::from_str("array"));
            Ok(ReferencedOrInlineSchema::Inline(k))
        },
        KType::Option(x) => render_scalar(x, span),
        KType::Scalar(x) => render_scalar(x, span),
        KType::Never => err(span, "never-type is not unsupported"),
        KType::Unknown => err(span, "unsupported type pattern"),
    }
}

// ----- Enumerations -----

/// The case comments of an enumeration, concatenated.
pub open spec fn case_comments(cs: Seq<crate::model::CaseV>) -> Seq<char>
    decreases cs.len(),
{
    if cs.len() == 0 {
        seq![]
    } else {
        case_comments(cs.drop_last()) + cs.last().comment
    }
}

/// The comment of an enumeration, a line break, then every case's comment.
pub open spec fn all_comments(e: EnumV) -> Seq<char> {
    e.comment + "\n"@ + case_comments(e.cases)
}

pub fn collect_all_comments(e: &KEnumType) -> (r: String)
    ensures
        r@ == all_comments(e@),
{
    let mut s = e.comment.clone();
    s.append("\n");
    let ghost head = s@;
    let mut i: usize = 0;
    while i < e.cases.len()
        invariant
            i <= e.cases.len(),
            head == e.comment@ + "\n"@,
            s@ == head + case_comments(e@.cases.subrange(0, i as int)),
        decreases e.cases.len() - i,
    {
        s.append(e.cases[i].comment.as_str());
        proof {
            assert(e@.cases.subrange(0, i + 1).drop_last() =~= e@.cases.subrange(0, i as int));
        }
        i = i + 1;
    }
    proof {
        assert(e@.cases.subrange(0, i as int) =~= e@.cases);
    }
    s
}

/// An enumeration: a string schema listing the case names.
pub open spec fn oa_enum(e: EnumV) -> RoiV {
    RoiV::Inline(
        SchemaV {
            title: set_text(e.name),
            description: set_text(trimmed(all_comments(e))),
            schema_type: Some("string"@),
            enum_values: Some(e.cases.map_values(|c: crate::model::CaseV| c.name)),
            ..empty_schema()
        },
    )
}

fn render_enum(e: &KEnumType) -> (r: ReferencedOrInlineSchema)
    ensures
        r@ == oa_enum(e@),
{
    let mut k = new_schema();
    k.title = set(e.name.as_str());
    let all = collect_all_comments(e);
    k.description = set(trim_str(all.as_str()));
    k.schema_type = Some(String::from_str("string"));
    let mut names: Vec<String> = Vec::new();
    let mut i: usize = 0;
    while i < e.cases.len()
        invariant
            i <= e.cases.len(),
            names@.map_values(|x: String| x@) == e@.cases.subrange(0, i as int).map_values(|c: crate::model::CaseV| c.name),
        decreases e.cases.len() - i,
    {
        let n = e.cases[i].name.clone();
        proof {
            assert(names@.push(n).map_values(|x: String| x@) =~= names@.map_values(|x: String| x@).push(n@));
            assert(e@.cases.subrange(0, i + 1).map_values(|c: crate::model::CaseV| c.name)
                =~= e@.cases.subrange(0, i as int).map_values(|c: crate::model::CaseV| c.name).push(e@.cases[i as int].name));
        }
        names.push(n);
        i = i + 1;
    }
    proof {
        assert(e@.cases.subrange(0, i as int) =~= e@.cases);
    }
    k.enum_values = Some(names);
    ReferencedOrInlineSchema::Inline(k)
}

// ----- Sum types -----

/// A variant in name-based form: a single-property wrapper keyed by the
/// variant's name.
pub open spec fn oa_variant_name_based(v: VariantV) -> Result<RoiV, Seq<LogV>> {
    match oa_type(v.content, v.span) {
        Err(e) => Err(e),
        Ok(p) => Ok(RoiV::Inline(
            SchemaV { description: set_text(v.comment), properties: Some(seq![(v.name, p)]), ..empty_schema() },
        )),
    }
}

fn render_variant_name_based(v: &KSumTypeVariant) -> (r: LogResult<ReferencedOrInlineSchema>)
    ensures
        res_view(r) == oa_variant_name_based(v@),
{
    let p = render_type(&v.content, v.span)?;
    let mut x = new_schema();
    x.description = set(v.comment.as_str());
    let mut ps = SchemaMap::new();
    let ghost pv = p@;
    ps.insert(v.name.clone(), p);
    proof {
        let e = Seq::<(Seq<char>, RoiV)>::empty();
        assert(!crate::keyed::has_key(e, v@.name));
        assert(e.push((v@.name, pv)) =~= seq![(v@.name, pv)]);
    }
    x.properties = Some(ps);
    Ok(ReferencedOrInlineSchema::Inline(x))
}

/// A variant in type-based form: its own payload schema, which may be
/// neither a sequence nor an optional.
pub open spec fn oa_variant_type_based(v: VariantV) -> Result<RoiV, Seq<LogV>> {
    if v.content is Vector {
        fail(v.span, "vector-type is not supported in type-based sum-type"@)
    } else if v.content is Option {
        fail(v.span, "option-type is not supported in type-based sum-type"@)
    } else {
        oa_type(v.content, v.span)
    }
}

fn render_variant_type_based(v: &KSumTypeVariant) -> (r: LogResult<ReferencedOrInlineSchema>)
    ensures
        res_view(r) == oa_variant_type_based(v@),
{
    if v.content.is_vector() {
        return err(v.span, "vector-type is not supported in type-based sum-type");
    }
    if v.content.is_option() {
        return err(v.span, "option-type is not supported in type-based sum-type");
    }
    render_type(&v.content, v.span)
}

/// A sum type: an object schema whose one-of list holds one schema per
/// variant, in the form its serialization asks for.
pub open spec fn oa_sum(x: SumV) -> Result<RoiV, Seq<LogV>> {
    let base = SchemaV {
        title: set_text(x.name),
        description: set_text(trimmed(x.comment)),
        schema_type: Some("object"@),
        ..empty_schema()
    };
    match x.serialization {
        FormV::NameBased => match accumulate(x.variants.map_values(|v: VariantV| oa_variant_name_based(v))) {
            Err(e) => Err(e),
            Ok(os) => Ok(RoiV::Inline(SchemaV { one_of: Some(os), ..base })),
        },
        FormV::TypeBased { discriminant } => match accumulate(
            x.variants.map_values(|v: VariantV| oa_variant_type_based(v)),
        ) {
            Err(e) => Err(e),
            Ok(os) => Ok(RoiV::Inline(SchemaV { one_of: Some(os), discriminator: Some(discriminant), ..base })),
        },
    }
}

fn render_sum(x: &KSumType) -> (r: LogResult<ReferencedOrInlineSchema>)
    ensures
        res_view(r) == oa_sum(x@),
{
    let name_based = match &x.serialization {
        KSumTypeSerializationForm::NameBased => true,
        KSumTypeSerializationForm::TypeBased { .. } => false,
    };
    let mut rs: Vec<LogResult<ReferencedOrInlineSchema>> = Vec::new();
    let mut i: usize = 0;
    while i < x.variants.len()
        invariant
            i <= x.variants.len(),
            name_based == (x@.serialization is NameBased),
            rs@.map_values(|r: LogResult<ReferencedOrInlineSchema>| res_view(r)) == x@.variants.subrange(0, i as int).map_values(
                |v: VariantV|
                    if name_based {
                        oa_variant_name_based(v)
                    } else {
                        oa_variant_type_based(v)
                    },
            ),
        decreases x.variants.len() - i,
    {
        let r = if name_based {
            render_variant_name_based(&x.variants[i])
        } else {
            render_variant_type_based(&x.variants[i])
        };
        proof {
            assert(rs@.push(r).map_values(|r: LogResult<ReferencedOrInlineSchema>| res_view(r))
                =~= rs@.map_values(|r: LogResult<ReferencedOrInlineSchema>| res_view(r)).push(res_view(r)));
            assert(x@.variants.subrange(0, i + 1).map_values(
                |v: VariantV|
                    if name_based {
                        oa_variant_name_based(v)
                    } else {
                        oa_variant_type_based(v)
                    },
            ) =~= x@.variants.subrange(0, i as int).map_values(
                |v: VariantV|
                    if name_based {
                        oa_variant_name_based(v)
                    } else {
                        oa_variant_type_based(v)
                    },
            ).push(res_view(r)));
        }
        rs.push(r);
        i = i + 1;
    }
    proof {
        assert(x@.variants.subrange(0, i as int) =~= x@.variants);
        if name_based {
            assert(x@.variants.map_values(
                |v: VariantV|
                    if name_based {
                        oa_variant_name_based(v)
                    } else {
                        oa_variant_type_based(v)
                    },
            ) =~= x@.variants.map_values(|v: VariantV| oa_variant_name_based(v)));
        } else {
            assert(x@.variants.map_values(
                |v: VariantV|
                    if name_based {
                        oa_variant_name_based(v)
                    } else {
                        oa_variant_type_based(v)
                    },
            ) =~= x@.variants.map_values(|v: VariantV| oa_variant_type_based(v)));
        }
    }
    let os = map_collect_result(rs)?;
    let mut k = new_schema();
    k.title = set(x.name.as_str());
    k.description = set(trim_str(x.comment.as_str()));
    k.schema_type = Some(String::from_str("object"));
    k.one_of = Some(os);
    match &x.serialization {
        KSumTypeSerializationForm::TypeBased { discriminant } => {
            k.discriminator = Some(Discriminator { property_name: discriminant.clone() });
        },
        KSumTypeSerializationForm::NameBased => {},
    }
    proof {
        assert(schema_view(k).one_of->Some_0 =~= os@.map_values(|r: ReferencedOrInlineSchema| r@));
    }
    Ok(ReferencedOrInlineSchema::Inline(k))
}

// ----- Records -----

/// The required names and the properties of a record's fields, in order, or
/// the first field that cannot be rendered. Every field is rendered at the
/// record's span; a field is required unless its content is optional.
pub open spec fn oa_fields(fs: Seq<FieldV>, span: KSpan) -> Result<(Seq<Seq<char>>, Seq<(Seq<char>, RoiV)>), Seq<LogV>>
    decreases fs.len(),
{
    if fs.len() == 0 {
        Ok((seq![], seq![]))
    } else {
        match oa_fields(fs.drop_last(), span) {
            Err(e) => Err(e),
            Ok((req, props)) => {
                let f = fs.last();
                match oa_type(f.content, span) {
                    Err(e) => Err(e),
                    Ok(p) => Ok(
                        (
                            if f.content is Option {
                                req
                            } else {
                                req.push(f.name)
                            },
                            map_insert(props, f.name, p),
                        ),
                    ),
                }
            },
        }
    }
}

proof fn lemma_oa_fields_stops(fs: Seq<FieldV>, span: KSpan, k: int)
    requires
        0 <= k <= fs.len(),
        oa_fields(fs.subrange(0, k), span) is Err,
    ensures
        oa_fields(fs, span) == oa_fields(fs.subrange(0, k), span),
    decreases fs.len(),
{
    if k == fs.len() {
        assert(fs.subrange(0, k) =~= fs);
    } else {
        assert(fs.drop_last().subrange(0, k) =~= fs.subrange(0, k));
        lemma_oa_fields_stops(fs.drop_last(), span, k);
    }
}

/// A record: an object schema with the required list and the properties.
pub open spec fn oa_prod(p: ProdV) -> Result<RoiV, Seq<LogV>> {
    match oa_fields(p.fields, p.span) {
        Err(e) => Err(e),
        Ok((req, props)) => Ok(RoiV::Inline(
            SchemaV {
                title: set_text(p.name),
                description: set_text(trimmed(p.comment)),
                schema_type: Some("object"@),
                required: Some(req),
                properties: if props.len() == 0 {
                    None
                } else {
                    Some(props)
                },
                ..empty_schema()
            },
        )),
    }
}

fn render_prod(p: &KProdType) -> (r: LogResult<ReferencedOrInlineSchema>)
    ensures
        res_view(r) == oa_prod(p@),
{
    let mut reqs: Vec<String> = Vec::new();
    let mut props = SchemaMap::new();
    let mut i: usize = 0;
    proof {
        assert(p@.fields.subrange(0, 0) =~= seq![]);
        assert(reqs@.map_values(|x: String| x@) =~= seq![]);
    }
    while i < p.fields.len()
        invariant
            i <= p.fields.len(),
            oa_fields(p@.fields.subrange(0, i as int), p.span) == Ok::<(Seq<Seq<char>>, Seq<(Seq<char>, RoiV)>), Seq<LogV>>(
                (reqs@.map_values(|x: String| x@), schema_map_entries(props)),
            ),
        decreases p.fields.len() - i,
    {
        let f = &p.fields[i];
        proof {
            assert(p@.fields.subrange(0, i + 1).drop_last() =~= p@.fields.subrange(0, i as int));
            assert(p@.fields.subrange(0, i + 1).last() == f@);
        }
        let r = render_type(&f.content, p.span);
        match r {
            Err(e) => {
                proof {
                    lemma_oa_fields_stops(p@.fields, p.span, i + 1);
                }
                return Err(e);
            },
            Ok(x) => {
                if !f.content.is_option() {
                    let n = f.name.clone();
                    proof {
                        assert(reqs@.push(n).map_values(|x: String| x@) =~= reqs@.map_values(|x: String| x@).push(n@));
                    }
                    reqs.push(n);
                }
                props.insert(f.name.clone(), x);
            },
        }
        i = i + 1;
    }
    proof {
        assert(p@.fields.subrange(0, i as int) =~= p@.fields);
    }
    let mut k = new_schema();
    k.title = set(p.name.as_str());
    k.description = set(trim_str(p.comment.as_str()));
    k.schema_type = Some(String::from_str("object"));
    k.required = Some(reqs);
    if props.len() > 0 {
        k.properties = Some(props);
    }
    Ok(ReferencedOrInlineSchema::Inline(k))
}

// ----- Modules -----

/// The concatenation of lists.
pub open spec fn concat_all<T>(groups: Seq<Seq<T>>) -> Seq<T>
    decreases groups.len(),
{
    if groups.len() == 0 {
        seq![]
    } else {
        concat_all(groups.drop_last()) + groups.last()
    }
}

/// The named schemas of one item: a module contributes those of its items,
/// a function alias none.
pub open spec fn oa_item_entries(it: ItemV) -> Result<Seq<(Seq<char>, RoiV)>, Seq<LogV>>
    decreases it, 2nat,
{
    match it {
        ItemV::Mod(m) => oa_items(m),
        ItemV::New(x) => match oa_type(x.origin, x.span) {
            Err(e) => Err(e),
            Ok(r) => Ok(seq![(x.name, r)]),
        },
        ItemV::Enum(x) => Ok(seq![(x.name, oa_enum(x))]),
        ItemV::Sum(x) => match oa_sum(x) {
            Err(e) => Err(e),
            Ok(r) => Ok(seq![(x.name, r)]),
        },
        ItemV::Prod(x) => match oa_prod(x) {
            Err(e) => Err(e),
            Ok(r) => Ok(seq![(x.name, r)]),
        },
        ItemV::Func(_) => Ok(seq![]),
    }
}

pub open spec fn oa_item_results(m: ModV) -> Seq<Result<Seq<(Seq<char>, RoiV)>, Seq<LogV>>>
    decreases m, 0nat,
{
    Seq::new(
        m.items.len(),
        |i: int|
            if 0 <= i < m.items.len() {
                oa_item_entries(m.items[i])
            } else {
                Ok(seq![])
            },
    )
}

/// The named schemas of a module's items, nested modules flattened, with
/// every item's diagnostics accumulated.
pub open spec fn oa_items(m: ModV) -> Result<Seq<(Seq<char>, RoiV)>, Seq<LogV>>
    decreases m, 1nat,
{
    match accumulate(oa_item_results(m)) {
        Err(e) => Err(e),
        Ok(groups) => Ok(concat_all(groups)),
    }
}

fn render_item(it: &KItem) -> (r: LogResult<Vec<(String, ReferencedOrInlineSchema)>>)
    ensures
        match r {
            Ok(v) => oa_item_entries(it@) == Ok::<Seq<(Seq<char>, RoiV)>, Seq<LogV>>(entries_view(v@)),
            Err(e) => oa_item_entries(it@) == Err::<Seq<(Seq<char>, RoiV)>, Seq<LogV>>(e@),
        },
    decreases *it,
{
    let mut out: Vec<(String, ReferencedOrInlineSchema)> = Vec::new();
    let (name, r) = match it {
        KItem::Mod(m) => return render_items(m),
        KItem::New(x) => (&x.name, render_type(&x.origin, x.span)),
        KItem::Enum(x) => (&x.name, Ok(render_enum(x))),
        KItem::Sum(x) => (&x.name, render_sum(x)),
        KItem::Prod(x) => (&x.name, render_prod(x)),
        KItem::Func(_) => {
            proof {
                assert(entries_view(out@) =~= seq![]);
            }
            return Ok(out);
        },
    };
    let x = r?;
    out.push((name.clone(), x));
    proof {
        assert(entries_view(out@) =~= seq![(name@, x@)]);
    }
    Ok(out)
}

fn render_items(m: &KMod) -> (r: LogResult<Vec<(String, ReferencedOrInlineSchema)>>)
    ensures
        match r {
            Ok(v) => oa_items(m@) == Ok::<Seq<(Seq<char>, RoiV)>, Seq<LogV>>(entries_view(v@)),
            Err(e) => oa_items(m@) == Err::<Seq<(Seq<char>, RoiV)>, Seq<LogV>>(e@),
        },
    decreases *m,
{
    let ghost all = oa_item_results(m@);
    let mut out: Vec<(String, ReferencedOrInlineSchema)> = Vec::new();
    let mut logs: Vec<crate::log::Log> = Vec::new();
    let mut i: usize = 0;
    proof {
        assert(m@.items.len() == m.items@.len());
        assert(all.subrange(0, 0) =~= seq![]);
        assert(entries_view(out@) =~= seq![]);
        assert(logs@.map_values(|l: crate::log::Log| l@) =~= seq![]);
    }
    while i < m.items.len()
        invariant
            i <= m.items.len(),
            all == oa_item_results(m@),
            all.len() == m.items.len(),
            entries_view(out@) == concat_all(crate::log::oks_of(all.subrange(0, i as int))),
            logs@.map_values(|l: crate::log::Log| l@) == crate::log::errs_of(all.subrange(0, i as int)),
        decreases m.items.len() - i,
    {
        proof {
            assert(decreases_to!(*m => m.items@[i as int]));
            assert(m@.items[i as int] == m.items@[i as int]@);
            assert(all.subrange(0, i + 1).drop_last() =~= all.subrange(0, i as int));
        }
        let r = render_item(&m.items[i]);
        let ghost prev_out = entries_view(out@);
        let ghost prev_logs = logs@.map_values(|l: crate::log::Log| l@);
        match r {
            Err(mut e) => {
                let ghost ev = e@;
                logs.append(&mut e.0);
                proof {
                    assert(logs@.map_values(|l: crate::log::Log| l@) =~= prev_logs + ev);
                    assert(crate::log::oks_of(all.subrange(0, i + 1)) =~= crate::log::oks_of(all.subrange(0, i as int)));
                }
            },
            Ok(mut v) => {
                let ghost vv = entries_view(v@);
                out.append(&mut v);
                proof {
                    assert(entries_view(out@) =~= prev_out + vv);
                    let g = crate::log::oks_of(all.subrange(0, i as int));
                    assert(crate::log::oks_of(all.subrange(0, i + 1)) =~= g.push(vv));
                    assert(g.push(vv).drop_last() =~= g);
                    assert(crate::log::errs_of(all.subrange(0, i + 1)) =~= crate::log::errs_of(all.subrange(0, i as int)));
                }
            },
        }
        i = i + 1;
    }
    proof {
        assert(all.subrange(0, i as int) =~= all);
    }
    if logs.len() > 0 {
        return Err(crate::log::ErrorLogs(logs));
    }
    Ok(out)
}

// ----- Responses -----

/// The first MIME facet of a list of facets.
pub open spec fn first_mime(attrs: Seq<FacetV>) -> Option<Seq<char>>
    decreases attrs.len(),
{
    if attrs.len() == 0 {
        None
    } else {
        match first_mime(attrs.drop_last()) {
            Some(m) => Some(m),
            None => match attrs.last() {
                FacetV::MIME(m) => Some(m),
                _ => None,
            },
        }
    }
}

/// The first status facet of a list of facets.
pub open spec fn first_status(attrs: Seq<FacetV>) -> Option<i64>
    decreases attrs.len(),
{
    if attrs.len() == 0 {
        None
    } else {
        match first_status(attrs.drop_last()) {
            Some(n) => Some(n),
            None => match attrs.last() {
                FacetV::Status(n) => Some(n),
                _ => None,
            },
        }
    }
}

/// The MIME type of a variant: its first MIME facet.
pub fn mime(x: &KSumTypeVariant) -> (r: Option<&str>)
    ensures
        match r {
            Some(m) => first_mime(x@.attrs) == Some(m@),
            None => first_mime(x@.attrs) is None,
        },
{
    let mut i: usize = 0;
    while i < x.attrs.rest.len()
        invariant
            i <= x.attrs.rest.len(),
            first_mime(x@.attrs.subrange(0, i as int)) is None,
        decreases x.attrs.rest.len() - i,
    {
        proof {
            assert(x@.attrs.subrange(0, i + 1).drop_last() =~= x@.attrs.subrange(0, i as int));
        }
        if let KAttrREST::MIME(z) = &x.attrs.rest[i] {
            proof {
                lemma_first_mime_stays(x@.attrs, i + 1);
            }
            return Some(z.as_str());
        }
        i = i + 1;
    }
    proof {
        assert(x@.attrs.subrange(0, i as int) =~= x@.attrs);
    }
    None
}

proof fn lemma_first_mime_stays(s: Seq<FacetV>, k: int)
    requires
        0 <= k <= s.len(),
        first_mime(s.subrange(0, k)) is Some,
    ensures
        first_mime(s) == first_mime(s.subrange(0, k)),
    decreases s.len(),
{
    if k == s.len() {
        assert(s.subrange(0, k) =~= s);
    } else {
        assert(s.drop_last().subrange(0, k) =~= s.subrange(0, k));
        lemma_first_mime_stays(s.drop_last(), k);
    }
}

proof fn lemma_first_status_stays(s: Seq<FacetV>, k: int)
    requires
        0 <= k <= s.len(),
        first_status(s.subrange(0, k)) is Some,
    ensures
        first_status(s) == first_status(s.subrange(0, k)),
    decreases s.len(),
{
    if k == s.len() {
        assert(s.subrange(0, k) =~= s);
    } else {
        assert(s.drop_last().subrange(0, k) =~= s.subrange(0, k));
        lemma_first_status_stays(s.drop_last(), k);
    }
}

/// The status code of a variant: its first status facet.
pub fn status(x: &KSumTypeVariant) -> (r: Option<i64>)
    ensures
        r == first_status(x@.attrs),
{
    let mut i: usize = 0;
    while i < x.attrs.rest.len()
        invariant
            i <= x.attrs.rest.len(),
            first_status(x@.attrs.subrange(0, i as int)) is None,
        decreases x.attrs.rest.len() - i,
    {
        proof {
            assert(x@.attrs.subrange(0, i + 1).drop_last() =~= x@.attrs.subrange(0, i as int));
        }
        if let KAttrREST::Status(z) = &x.attrs.rest[i] {
            proof {
                lemma_first_status_stays(x@.attrs, i + 1);
            }
            return Some(*z);
        }
        i = i + 1;
    }
    proof {
        assert(x@.attrs.subrange(0, i as int) =~= x@.attrs);
    }
    None
}

/// The content map of a response: each variant's payload schema keyed by
/// its MIME type, later variants replacing earlier ones of the same MIME
/// type; or the first variant without a MIME type or a renderable payload.
pub open spec fn oa_response_content(vs: Seq<VariantV>) -> Result<Seq<(Seq<char>, RoiV)>, Seq<LogV>>
    decreases vs.len(),
{
    if vs.len() == 0 {
        Ok(seq![])
    } else {
        match oa_response_content(vs.drop_last()) {
            Err(e) => Err(e),
            Ok(c) => {
                let v = vs.last();
                match first_mime(v.attrs) {
                    None => fail(v.span, "missing MIME-Type attribute"@),
                    Some(m) => match oa_type(v.content, v.span) {
                        Err(e) => Err(e),
                        Ok(s) => Ok(map_insert(c, m, s)),
                    },
                }
            },
        }
    }
}

proof fn lemma_response_content_stops(vs: Seq<VariantV>, k: int)
    requires
        0 <= k <= vs.len(),
        oa_response_content(vs.subrange(0, k)) is Err,
    ensures
        oa_response_content(vs) == oa_response_content(vs.subrange(0, k)),
    decreases vs.len(),
{
    if k == vs.len() {
        assert(vs.subrange(0, k) =~= vs);
    } else {
        assert(vs.drop_last().subrange(0, k) =~= vs.subrange(0, k));
        lemma_response_content_stops(vs.drop_last(), k);
    }
}

/// The response of a sum type that carries the outgoing-message facet:
/// one response holding every variant's payload; `None` for other sum types.
pub open spec fn oa_response(x: SumV) -> Result<Option<ResponseV>, Seq<LogV>> {
    if !x.attrs.contains(FacetV::MessageOut) {
        Ok(None)
    } else {
        match oa_response_content(x.variants) {
            Err(e) => Err(e),
            Ok(c) => Ok(Some(ResponseV { description: seq![], content: Some(c) })),
        }
    }
}

fn is_message_out(attrs: &crate::model::KAttrs) -> (r: bool)
    ensures
        r == attrs@.contains(FacetV::MessageOut),
{
    let mut i: usize = 0;
    while i < attrs.rest.len()
        invariant
            i <= attrs.rest.len(),
            forall|j: int| 0 <= j < i ==> attrs@[j] != FacetV::MessageOut,
        decreases attrs.rest.len() - i,
    {
        if let KAttrREST::MessageOut = &attrs.rest[i] {
            proof {
                assert(attrs@[i as int] == FacetV::MessageOut);
            }
            return true;
        }
        i = i + 1;
    }
    false
}

/// Builds the response of a sum type, if it carries the outgoing-message facet.
pub fn render_response(x: &KSumType) -> (r: LogResult<Option<Response>>)
    ensures
        crate::log::opt_res_view(r) == oa_response(x@),
{
    if !is_message_out(&x.attrs) {
        return Ok(None);
    }
    let mut content = SchemaMap::new();
    let mut i: usize = 0;
    proof {
        assert(x@.variants.subrange(0, 0) =~= seq![]);
    }
    while i < x.variants.len()
        invariant
            i <= x.variants.len(),
            x@.attrs.contains(FacetV::MessageOut),
            oa_response_content(x@.variants.subrange(0, i as int)) == Ok::<Seq<(Seq<char>, RoiV)>, Seq<LogV>>(
                schema_map_entries(content),
            ),
        decreases x.variants.len() - i,
    {
        let v = &x.variants[i];
        proof {
            assert(x@.variants.subrange(0, i + 1).drop_last() =~= x@.variants.subrange(0, i as int));
            assert(x@.variants.subrange(0, i + 1).last() == v@);
        }
        let m = match mime(v) {
            None => {
                proof {
                    assert(first_mime(v@.attrs) is None);
                    assert(oa_response_content(x@.variants.subrange(0, i + 1)) is Err);
                    lemma_response_content_stops(x@.variants, i + 1);
                }
                return err(v.span, "missing MIME-Type attribute");
            },
            Some(m) => m,
        };
        let s = match render_type(&v.content, v.span) {
            Err(e) => {
                proof {
                    assert(oa_response_content(x@.variants.subrange(0, i + 1)) is Err);
                    lemma_response_content_stops(x@.variants, i + 1);
                }
                return Err(e);
            },
            Ok(s) => s,
        };
        content.insert(String::from_str(m), s);
        i = i + 1;
    }
    proof {
        assert(x@.variants.subrange(0, i as int) =~= x@.variants);
    }
    Ok(Some(Response { description: String::new(), content: Some(content) }))
}

/// The named responses of one item: a module contributes those of its items.
pub open spec fn oa_item_responses(it: ItemV) -> Result<Seq<(Seq<char>, ResponseV)>, Seq<LogV>>
    decreases it, 2nat,
{
    match it {
        ItemV::Mod(m) => oa_responses(m),
        ItemV::Sum(x) => match oa_response(x) {
            Err(e) => Err(e),
            Ok(Some(r)) => Ok(seq![(x.name, r)]),
            Ok(None) => Ok(seq![]),
        },
        _ => Ok(seq![]),
    }
}

pub open spec fn oa_response_results(m: ModV) -> Seq<Result<Seq<(Seq<char>, ResponseV)>, Seq<LogV>>>
    decreases m, 0nat,
{
    Seq::new(
        m.items.len(),
        |i: int|
            if 0 <= i < m.items.len() {
                oa_item_responses(m.items[i])
            } else {
                Ok(seq![])
            },
    )
}

/// The named responses of a module's items, nested modules flattened, with
/// every item's diagnostics accumulated.
pub open spec fn oa_responses(m: ModV) -> Result<Seq<(Seq<char>, ResponseV)>, Seq<LogV>>
    decreases m, 1nat,
{
    match accumulate(oa_response_results(m)) {
        Err(e) => Err(e),
        Ok(groups) => Ok(concat_all(groups)),
    }
}

fn item_responses(it: &KItem) -> (r: LogResult<Vec<(String, Response)>>)
    ensures
        match r {
            Ok(v) => oa_item_responses(it@) == Ok::<Seq<(Seq<char>, ResponseV)>, Seq<LogV>>(entries_view(v@)),
            Err(e) => oa_item_responses(it@) == Err::<Seq<(Seq<char>, ResponseV)>, Seq<LogV>>(e@),
        },
    decreases *it,
{
    let mut out: Vec<(String, Response)> = Vec::new();
    proof {
        assert(entries_view(out@) =~= seq![]);
    }
    match it {
        KItem::Mod(m) => render_responses(m),
        KItem::Sum(x) => {
            match render_response(x)? {
                Some(r) => {
                    out.push((x.name.clone(), r));
                    proof {
                        assert(entries_view(out@) =~= seq![(x@.name, r@)]);
                    }
                },
                None => {},
            }
            Ok(out)
        },
        _ => Ok(out),
    }
}

fn render_responses(m: &KMod) -> (r: LogResult<Vec<(String, Response)>>)
    ensures
        match r {
            Ok(v) => oa_responses(m@) == Ok::<Seq<(Seq<char>, ResponseV)>, Seq<LogV>>(entries_view(v@)),
            Err(e) => oa_responses(m@) == Err::<Seq<(Seq<char>, ResponseV)>, Seq<LogV>>(e@),
        },
    decreases *m,
{
    let ghost all = oa_response_results(m@);
    let mut out: Vec<(String, Response)> = Vec::new();
    let mut logs: Vec<crate::log::Log> = Vec::new();
    let mut i: usize = 0;
    proof {
        assert(m@.items.len() == m.items@.len());
        assert(all.subrange(0, 0) =~= seq![]);
        assert(entries_view(out@) =~= seq![]);
        assert(logs@.map_values(|l: crate::log::Log| l@) =~= seq![]);
    }
    while i < m.items.len()
        invariant
            i <= m.items.len(),
            all == oa_response_results(m@),
            all.len() == m.items.len(),
            entries_view(out@) == concat_all(crate::log::oks_of(all.subrange(0, i as int))),
            logs@.map_values(|l: crate::log::Log| l@) == crate::log::errs_of(all.subrange(0, i as int)),
        decreases m.items.len() - i,
    {
        proof {
            assert(decreases_to!(*m => m.items@[i as int]));
            assert(m@.items[i as int] == m.items@[i as int]@);
            assert(all.subrange(0, i + 1).drop_last() =~= all.subrange(0, i as int));
        }
        let r = item_responses(&m.items[i]);
        let ghost prev_out = entries_view(out@);
        let ghost prev_logs = logs@.map_values(|l: crate::log::Log| l@);
        match r {
            Err(mut e) => {
                let ghost ev = e@;
                logs.append(&mut e.0);
                proof {
                    assert(logs@.map_values(|l: crate::log::Log| l@) =~= prev_logs + ev);
                    assert(crate::log::oks_of(all.subrange(0, i + 1)) =~= crate::log::oks_of(all.subrange(0, i as int)));
                }
            },
            Ok(mut v) => {
                let ghost vv = entries_view(v@);
                out.append(&mut v);
                proof {
                    assert(entries_view(out@) =~= prev_out + vv);
                    let g = crate::log::oks_of(all.subrange(0, i as int));
                    assert(crate::log::oks_of(all.subrange(0, i + 1)) =~= g.push(vv));
                    assert(g.push(vv).drop_last() =~= g);
                    assert(crate::log::errs_of(all.subrange(0, i + 1)) =~= crate::log::errs_of(all.subrange(0, i as int)));
                }
            },
        }
        i = i + 1;
    }
    proof {
        assert(all.subrange(0, i as int) =~= all);
    }
    if logs.len() > 0 {
        return Err(crate::log::ErrorLogs(logs));
    }
    Ok(out)
}

// ----- The document -----

pub struct DocV {
    pub openapi: Seq<char>,
    pub title: Seq<char>,
    pub description: Option<Seq<char>>,
    pub version: Seq<char>,
    pub schemas: Option<Seq<(Seq<char>, RoiV)>>,
    pub responses: Option<Seq<(Seq<char>, ResponseV)>>,
}

impl View for Doc {
    type V = DocV;

    open spec fn view(&self) -> DocV {
        DocV {
            openapi: self.openapi@,
            title: self.info.title@,
            description: opt_str_view(self.info.description),
            version: self.info.version@,
            schemas: match self.components {
                Some(c) => match c.schemas {
                    Some(s) => Some(schema_map_entries(s)),
                    None => None,
                },
                None => None,
            },
            responses: match self.components {
                Some(c) => match c.responses {
                    Some(s) => Some(response_map_entries(s)),
                    None => None,
                },
                None => None,
            },
        }
    }
}

/// The document of a module: every item's schema under its name (a later
/// item of the same name replacing an earlier one), then the responses
/// synthesized from outgoing-message sum types, left out when there are none.
pub open spec fn oa_doc(m: ModV) -> Result<DocV, Seq<LogV>> {
    match oa_items(m) {
        Err(e) => Err(e),
        Ok(items) => match oa_responses(m) {
            Err(e) => Err(e),
            Ok(rs) => Ok(
                DocV {
                    openapi: "3.0.1"@,
                    title: m.name,
                    description: set_text(trimmed(m.comment)),
                    version: seq![],
                    schemas: Some(map_insert_all(seq![], items)),
                    responses: if rs.len() == 0 {
                        None
                    } else {
                        Some(map_insert_all(seq![], rs))
                    },
                },
            ),
        },
    }
}

/// Every schema and every response of a rendered document has a name of its
/// own: items of the same name collapse into one entry.
pub proof fn lemma_doc_names_unique(m: ModV)
    requires
        oa_doc(m) is Ok,
    ensures
        crate::keyed::keys_unique(oa_doc(m)->Ok_0.schemas->Some_0),
        oa_doc(m)->Ok_0.responses is Some ==> crate::keyed::keys_unique(oa_doc(m)->Ok_0.responses->Some_0),
{
    let items = oa_items(m)->Ok_0;
    crate::keyed::lemma_map_insert_all_keeps_keys_unique(Seq::<(Seq<char>, RoiV)>::empty(), items);
    if oa_responses(m) is Ok {
        let rs = oa_responses(m)->Ok_0;
        crate::keyed::lemma_map_insert_all_keeps_keys_unique(Seq::<(Seq<char>, ResponseV)>::empty(), rs);
    }
}

fn schema_map_of(es: Vec<(String, ReferencedOrInlineSchema)>) -> (r: SchemaMap)
    ensures
        schema_map_entries(r) == map_insert_all(seq![], entries_view(es@)),
{
    let ghost all = entries_view(es@);
    let mut rest = es;
    let mut out = SchemaMap::new();
    let ghost mut k: int = 0;
    proof {
        assert(all.subrange(0, 0) =~= seq![]);
    }
    while rest.len() > 0
        invariant
            0 <= k <= all.len(),
            entries_view(rest@) == all.subrange(k, all.len() as int),
            rest@.len() == all.len() - k,
            schema_map_entries(out) == map_insert_all(seq![], all.subrange(0, k)),
        decreases rest.len(),
    {
        let ghost before = rest@;
        let (key, v) = rest.remove(0);
        proof {
            assert(entries_view(before)[0] == crate::keyed::entry_view(before[0]));
            assert(all[k] == (key@, v@));
            let sub = all.subrange(0, k + 1);
            assert(sub.drop_last() =~= all.subrange(0, k));
            assert(sub.last() == (key@, v@));
            let rv = entries_view(rest@);
            let bv = entries_view(before);
            assert forall|j: int| 0 <= j < rv.len() implies #[trigger] rv[j] == all.subrange(k + 1, all.len() as int)[j] by {
                assert(rest@[j] == before[j + 1]);
                assert(bv[j + 1] == all.subrange(k, all.len() as int)[j + 1]);
            }
            assert(rv =~= all.subrange(k + 1, all.len() as int));
        }
        out.insert(key, v);
        proof {
            k = k + 1;
        }
    }
    proof {
        assert(all.subrange(0, k) =~= all);
    }
    out
}

fn response_map_of(es: Vec<(String, Response)>) -> (r: ResponseMap)
    ensures
        response_map_entries(r) == map_insert_all(seq![], entries_view(es@)),
{
    let ghost all = entries_view(es@);
    let mut rest = es;
    let mut out = ResponseMap::new();
    let ghost mut k: int = 0;
    proof {
        assert(all.subrange(0, 0) =~= seq![]);
    }
    while rest.len() > 0
        invariant
            0 <= k <= all.len(),
            entries_view(rest@) == all.subrange(k, all.len() as int),
            rest@.len() == all.len() - k,
            response_map_entries(out) == map_insert_all(seq![], all.subrange(0, k)),
        decreases rest.len(),
    {
        let ghost before = rest@;
        let (key, v) = rest.remove(0);
        proof {
            assert(entries_view(before)[0] == crate::keyed::entry_view(before[0]));
            assert(all[k] == (key@, v@));
            let sub = all.subrange(0, k + 1);
            assert(sub.drop_last() =~= all.subrange(0, k));
            assert(sub.last() == (key@, v@));
            let rv = entries_view(rest@);
            let bv = entries_view(before);
            assert forall|j: int| 0 <= j < rv.len() implies #[trigger] rv[j] == all.subrange(k + 1, all.len() as int)[j] by {
                assert(rest@[j] == before[j + 1]);
                assert(bv[j + 1] == all.subrange(k, all.len() as int)[j + 1]);
            }
            assert(rv =~= all.subrange(k + 1, all.len() as int));
        }
        out.insert(key, v);
        proof {
            k = k + 1;
        }
    }
    proof {
        assert(all.subrange(0, k) =~= all);
    }
    out
}

/// Renders a module as an API-description document.
pub fn render_openapi3(x: &KMod) -> (r: LogResult<Doc>)
    ensures
        res_view(r) == oa_doc(x@),
{
    let items = render_items(x)?;
    let responses = render_responses(x)?;
    let schemas = schema_map_of(items);
    let responses = if responses.len() == 0 {
        None
    } else {
        Some(response_map_of(responses))
    };
    Ok(Doc {
        openapi: String::from_str("3.0.1"),
        info: Info {
            title: x.name.clone(),
            description: set(trim_str(x.comment.as_str())),
            version: String::new(),
        },
        components: Some(Components { schemas: Some(schemas), responses }),
    })
}

} // verus!
