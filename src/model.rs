use vstd::prelude::*;
use crate::span::KSpan;

verus! {

/// A built-in primitive type.
#[derive(Clone, Copy, Debug, PartialEq, Eq, Structural)]
pub enum KPrimType {
    Bool,
    I32,
    I64,
    F32,
    F64,
    String,
}

/// A type that needs no wrapping: a named reference, a primitive, or unit.
#[derive(Clone, Debug, PartialEq, Eq)]
pub enum KScalarType {
    /// Name of a type defined in the schema.
    Def(String),
    Prim(KPrimType),
    Unit,
}

/// The shape of a type: at most one level of array or optional wrapping.
#[derive(Clone, Debug, PartialEq, Eq)]
pub enum KType {
    /// Zero or more instances.
    Vector(KScalarType),
    /// Zero or one instance.
    Option(KScalarType),
    /// Exactly one instance.
    Scalar(KScalarType),
    /// No instance at all.
    Never,
    /// A type expression that is not recognized.
    Unknown,
}

impl Default for KType {
    /// An unrecognized type.
    fn default() -> (r: KType)
        ensures
            r@ == TypeV::Unknown,
    {
        KType::Unknown
    }
}

impl Default for KScalarType {
    /// The unit type.
    fn default() -> (r: KScalarType)
        ensures
            r@ == ScalarV::Unit,
    {
        KScalarType::Unit
    }
}

impl Default for KSumTypeSerializationForm {
    /// Name-based serialization.
    fn default() -> (r: KSumTypeSerializationForm)
        ensures
            r@ == FormV::NameBased,
    {
        KSumTypeSerializationForm::NameBased
    }
}

impl KType {
    pub fn is_vector(&self) -> (r: bool)
        ensures
            r == self@ is Vector,
    {
        matches!(self, KType::Vector(_))
    }

    pub fn is_option(&self) -> (r: bool)
        ensures
            r == self@ is Option,
    {
        matches!(self, KType::Option(_))
    }

    pub fn is_scalar(&self) -> (r: bool)
        ensures
            r == self@ is Scalar,
    {
        matches!(self, KType::Scalar(_))
    }
}

/// A REST facet attached to a declaration.
#[derive(Clone, Debug, PartialEq, Eq)]
pub enum KAttrREST {
    FnMethod(String),
    FnPath(String),
    MessageIn,
    MessageOut,
    PathParam,
    QueryParam,
    BodyParam,
    Status(i64),
    MIME(String),
}

/// The ordered REST facets of a declaration.
#[derive(Clone, Debug, Default, PartialEq, Eq)]
pub struct KAttrs {
    pub rest: Vec<KAttrREST>,
}

/// How the discriminant of a sum type is serialized.
#[derive(Clone, Debug, PartialEq, Eq)]
pub enum KSumTypeSerializationForm {
    /// Each variant is a single-key wrapper named after the variant.
    NameBased,
    /// The discriminant is a property embedded in the variant's content.
    TypeBased { discriminant: String },
}

#[derive(Debug, PartialEq, Eq)]
pub struct KMod {
    pub span: KSpan,
    pub name: String,
    pub comment: String,
    pub items: Vec<KItem>,
}

#[derive(Debug, PartialEq, Eq)]
pub enum KItem {
    Mod(KMod),
    New(KNewType),
    Enum(KEnumType),
    Sum(KSumType),
    Prod(KProdType),
    Func(KFuncType),
}

/// A type alias.
#[derive(Clone, Debug, PartialEq, Eq)]
pub struct KNewType {
    pub span: KSpan,
    pub name: String,
    pub attrs: KAttrs,
    pub comment: String,
    pub origin: KType,
}

/// A finite set of constant cases.
#[derive(Clone, Debug, PartialEq, Eq)]
pub struct KEnumType {
    pub span: KSpan,
    pub name: String,
    pub comment: String,
    pub cases: Vec<KEnumTypeCase>,
}

#[derive(Clone, Debug, PartialEq, Eq)]
pub struct KEnumTypeCase {
    pub span: KSpan,
    pub name: String,
    pub comment: String,
}

/// A discriminated union.
#[derive(Clone, Debug, PartialEq, Eq)]
pub struct KSumType {
    pub span: KSpan,
    pub name: String,
    pub comment: String,
    pub serialization: KSumTypeSerializationForm,
    pub attrs: KAttrs,
    pub variants: Vec<KSumTypeVariant>,
}

#[derive(Clone, Debug, PartialEq, Eq)]
pub struct KSumTypeVariant {
    pub span: KSpan,
    pub name: String,
    pub comment: String,
    pub attrs: KAttrs,
    /// The payload stored in this variant.
    pub content: KType,
}

/// A record.
#[derive(Clone, Debug, PartialEq, Eq)]
pub struct KProdType {
    pub span: KSpan,
    pub name: String,
    pub comment: String,
    pub attrs: KAttrs,
    pub fields: Vec<KProdTypeField>,
}

#[derive(Clone, Debug, PartialEq, Eq)]
pub struct KProdTypeField {
    pub span: KSpan,
    pub name: String,
    pub comment: String,
    pub attrs: KAttrs,
    pub content: KType,
}

/// An alias of a single-argument function type.
#[derive(Clone, Debug, PartialEq, Eq)]
pub struct KFuncType {
    pub span: KSpan,
    pub name: String,
    pub comment: String,
    pub attrs: KAttrs,
    pub input: KType,
    pub output: KType,
}

/// A reference to a named item.
#[derive(Clone, Debug, PartialEq, Eq)]
pub struct KItemPath {
    pub span: KSpan,
    pub name: String,
}

// ----- Mathematical models -----

pub enum ScalarV {
    Def(Seq<char>),
    Prim(KPrimType),
    Unit,
}

pub enum TypeV {
    Vector(ScalarV),
    Option(ScalarV),
    Scalar(ScalarV),
    Never,
    Unknown,
}

pub enum FacetV {
    FnMethod(Seq<char>),
    FnPath(Seq<char>),
    MessageIn,
    MessageOut,
    PathParam,
    QueryParam,
    BodyParam,
    Status(i64),
    MIME(Seq<char>),
}

pub enum FormV {
    NameBased,
    TypeBased { discriminant: Seq<char> },
}

pub struct CaseV {
    pub span: KSpan,
    pub name: Seq<char>,
    pub comment: Seq<char>,
}

pub struct VariantV {
    pub span: KSpan,
    pub name: Seq<char>,
    pub comment: Seq<char>,
    pub attrs: Seq<FacetV>,
    pub content: TypeV,
}

pub struct FieldV {
    pub span: KSpan,
    pub name: Seq<char>,
    pub comment: Seq<char>,
    pub attrs: Seq<FacetV>,
    pub content: TypeV,
}

pub struct NewV {
    pub span: KSpan,
    pub name: Seq<char>,
    pub attrs: Seq<FacetV>,
    pub comment: Seq<char>,
    pub origin: TypeV,
}

pub struct EnumV {
    pub span: KSpan,
    pub name: Seq<char>,
    pub comment: Seq<char>,
    pub cases: Seq<CaseV>,
}

pub struct SumV {
    pub span: KSpan,
    pub name: Seq<char>,
    pub comment: Seq<char>,
    pub serialization: FormV,
    pub attrs: Seq<FacetV>,
    pub variants: Seq<VariantV>,
}

pub struct ProdV {
    pub span: KSpan,
    pub name: Seq<char>,
    pub comment: Seq<char>,
    pub attrs: Seq<FacetV>,
    pub fields: Seq<FieldV>,
}

pub struct FuncV {
    pub span: KSpan,
    pub name: Seq<char>,
    pub comment: Seq<char>,
    pub attrs: Seq<FacetV>,
    pub input: TypeV,
    pub output: TypeV,
}

pub struct ModV {
    pub span: KSpan,
    pub name: Seq<char>,
    pub comment: Seq<char>,
    pub items: Seq<ItemV>,
}

pub enum ItemV {
    Mod(ModV),
    New(NewV),
    Enum(EnumV),
    Sum(SumV),
    Prod(ProdV),
    Func(FuncV),
}

impl View for KScalarType {
    type V = ScalarV;

    open spec fn view(&self) -> ScalarV {
        match self {
            KScalarType::Def(n) => ScalarV::Def(n@),
            KScalarType::Prim(p) => ScalarV::Prim(*p),
            KScalarType::Unit => ScalarV::Unit,
        }
    }
}

impl View for KType {
    type V = TypeV;

    open spec fn view(&self) -> TypeV {
        match self {
            KType::Vector(s) => TypeV::Vector(s@),
            KType::Option(s) => TypeV::Option(s@),
            KType::Scalar(s) => TypeV::Scalar(s@),
            KType::Never => TypeV::Never,
            KType::Unknown => TypeV::Unknown,
        }
    }
}

impl View for KAttrREST {
    type V = FacetV;

    open spec fn view(&self) -> FacetV {
        match self {
            KAttrREST::FnMethod(s) => FacetV::FnMethod(s@),
            KAttrREST::FnPath(s) => FacetV::FnPath(s@),
            KAttrREST::MessageIn => FacetV::MessageIn,
            KAttrREST::MessageOut => FacetV::MessageOut,
            KAttrREST::PathParam => FacetV::PathParam,
            KAttrREST::QueryParam => FacetV::QueryParam,
            KAttrREST::BodyParam => FacetV::BodyParam,
            KAttrREST::Status(n) => FacetV::Status(*n),
            KAttrREST::MIME(s) => FacetV::MIME(s@),
        }
    }
}

impl View for KAttrs {
    type V = Seq<FacetV>;

    open spec fn view(&self) -> Seq<FacetV> {
        self.rest@.map_values(|f: KAttrREST| f@)
    }
}

impl View for KSumTypeSerializationForm {
    type V = FormV;

    open spec fn view(&self) -> FormV {
        match self {
            KSumTypeSerializationForm::NameBased => FormV::NameBased,
            KSumTypeSerializationForm::TypeBased { discriminant } => FormV::TypeBased {
                discriminant: discriminant@,
            },
        }
    }
}

impl View for KEnumTypeCase {
    type V = CaseV;

    open spec fn view(&self) -> CaseV {
        CaseV { span: self.span, name: self.name@, comment: self.comment@ }
    }
}

impl View for KSumTypeVariant {
    type V = VariantV;

    open spec fn view(&self) -> VariantV {
        VariantV {
            span: self.span,
            name: self.name@,
            comment: self.comment@,
            attrs: self.attrs@,
            content: self.content@,
        }
    }
}

impl View for KProdTypeField {
    type V = FieldV;

    open spec fn view(&self) -> FieldV {
        FieldV {
            span: self.span,
            name: self.name@,
            comment: self.comment@,
            attrs: self.attrs@,
            content: self.content@,
        }
    }
}

impl View for KNewType {
    type V = NewV;

    open spec fn view(&self) -> NewV {
        NewV {
            span: self.span,
            name: self.name@,
            attrs: self.attrs@,
            comment: self.comment@,
            origin: self.origin@,
        }
    }
}

impl View for KEnumType {
    type V = EnumV;

    open spec fn view(&self) -> EnumV {
        EnumV {
            span: self.span,
            name: self.name@,
            comment: self.comment@,
            cases: self.cases@.map_values(|c: KEnumTypeCase| c@),
        }
    }
}

impl View for KSumType {
    type V = SumV;

    open spec fn view(&self) -> SumV {
        SumV {
            span: self.span,
            name: self.name@,
            comment: self.comment@,
            serialization: self.serialization@,
            attrs: self.attrs@,
            variants: self.variants@.map_values(|v: KSumTypeVariant| v@),
        }
    }
}

impl View for KProdType {
    type V = ProdV;

    open spec fn view(&self) -> ProdV {
        ProdV {
            span: self.span,
            name: self.name@,
            comment: self.comment@,
            attrs: self.attrs@,
            fields: self.fields@.map_values(|f: KProdTypeField| f@),
        }
    }
}

impl View for KFuncType {
    type V = FuncV;

    open spec fn view(&self) -> FuncV {
        FuncV {
            span: self.span,
            name: self.name@,
            comment: self.comment@,
            attrs: self.attrs@,
            input: self.input@,
            output: self.output@,
        }
    }
}

pub open spec fn mod_view(m: KMod) -> ModV
    decreases m,
{
    ModV {
        span: m.span,
        name: m.name@,
        comment: m.comment@,
        items: Seq::new(
            m.items@.len(),
            |i: int|
                if 0 <= i < m.items@.len() {
                    item_view(m.items@[i])
                } else {
                    ItemV::Mod(ModV { span: m.span, name: m.name@, comment: m.comment@, items: seq![] })
                },
        ),
    }
}

pub open spec fn item_view(it: KItem) -> ItemV
    decreases it,
{
    match it {
        KItem::Mod(m) => ItemV::Mod(mod_view(m)),
        KItem::New(x) => ItemV::New(x@),
        KItem::Enum(x) => ItemV::Enum(x@),
        KItem::Sum(x) => ItemV::Sum(x@),
        KItem::Prod(x) => ItemV::Prod(x@),
        KItem::Func(x) => ItemV::Func(x@),
    }
}

impl View for KMod {
    type V = ModV;

    open spec fn view(&self) -> ModV {
        mod_view(*self)
    }
}

impl View for KItem {
    type V = ItemV;

    open spec fn view(&self) -> ItemV {
        item_view(*self)
    }
}

} // verus!
