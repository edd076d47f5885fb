use vstd::prelude::*;
use crate::span::KSpan;

verus! {

// The declarations that a source reader hands to the scanner: names, spans,
// raw annotations and type expressions, as plain values.

/// One segment of a path, such as `std` in `std::vec::Vec`.
#[derive(Clone, Debug, PartialEq, Eq)]
pub struct PathSegment {
    pub span: KSpan,
    pub ident: String,
    /// Whether the segment carries generic arguments.
    pub has_arguments: bool,
}

/// A path naming an annotation or one of its keys.
#[derive(Clone, Debug, PartialEq, Eq)]
pub struct MetaPath {
    pub span: KSpan,
    pub segments: Vec<PathSegment>,
}

/// A literal in an annotation.
#[derive(Clone, Debug, PartialEq, Eq)]
pub enum Lit {
    Bool(bool),
    /// An integer literal, as its decimal digits.
    Int(KSpan, String),
    Str(String),
    /// Any other literal kind (float, byte, char ...).
    Other(KSpan),
}

/// The structured form of an annotation.
#[derive(Debug, PartialEq, Eq)]
pub enum Meta {
    /// `#[name]`
    Path(MetaPath),
    /// `#[name(a, "b", c = 1)]`
    List(MetaPath, Vec<NestedMeta>),
    /// `#[name = "value"]`
    NameValue(MetaPath, Lit),
}

/// An entry of a parenthesized annotation list.
#[derive(Debug, PartialEq, Eq)]
pub enum NestedMeta {
    Meta(Meta),
    Lit(Lit),
}

/// One raw annotation on a declaration.
#[derive(Debug, PartialEq, Eq)]
pub struct SAttribute {
    pub span: KSpan,
    /// The path of the annotation, as written.
    pub path: MetaPath,
    /// The structured form, or the reader's diagnostic when the tokens have none.
    pub meta: Result<Meta, crate::log::Log>,
}

/// A generic argument of a path segment.
#[derive(Debug, PartialEq, Eq)]
pub enum GenericArg {
    Lifetime,
    Type(STypeExpr),
    Binding(KSpan),
    Constraint(KSpan),
    Const(KSpan),
}

/// The arguments of the last segment of a type path.
#[derive(Debug, PartialEq, Eq)]
pub enum PathArguments {
    Bare,
    AngleBracketed(Vec<GenericArg>),
    Parenthesized,
}

/// A path segment of a type, with its arguments.
#[derive(Debug, PartialEq, Eq)]
pub struct TypeSegment {
    pub ident: String,
    pub arguments: PathArguments,
}

/// A type expression.
#[derive(Debug, PartialEq, Eq)]
pub enum STypeExpr {
    /// A reference, a raw pointer or parentheses around a type.
    Wrapped(Box<STypeExpr>),
    /// A fixed-size array or a slice of the element type.
    Array(KSpan, Box<STypeExpr>),
    /// A path such as `std::vec::Vec<T>`.
    Path { span: KSpan, qualified_self: bool, segments: Vec<TypeSegment> },
    /// A bare function type such as `fn(A) -> B`.
    BareFn { span: KSpan, inputs: Vec<STypeExpr>, output: Option<Box<STypeExpr>> },
    /// Any other form (tuple, trait object, never, macro ...).
    Other(KSpan),
}

/// The generic parameters of a declaration.
#[derive(Clone, Copy, Debug, PartialEq, Eq)]
pub struct SGenerics {
    pub span: KSpan,
    pub count: usize,
}

/// A field of a struct or of an enum variant.
#[derive(Debug, PartialEq, Eq)]
pub struct SField {
    pub span: KSpan,
    pub name: Option<String>,
    pub attrs: Vec<SAttribute>,
    pub tyx: STypeExpr,
}

/// The shape of a field list.
#[derive(Clone, Copy, Debug, PartialEq, Eq, Structural)]
pub enum SFieldsShape {
    Named,
    Unnamed,
    Unit,
}

/// A field list with its shape.
#[derive(Debug, PartialEq, Eq)]
pub struct SFields {
    pub span: KSpan,
    pub shape: SFieldsShape,
    pub fields: Vec<SField>,
}

#[derive(Debug, PartialEq, Eq)]
pub struct SStruct {
    pub span: KSpan,
    pub name: String,
    pub attrs: Vec<SAttribute>,
    pub generics: SGenerics,
    pub fields: SFields,
}

#[derive(Debug, PartialEq, Eq)]
pub struct SVariant {
    pub span: KSpan,
    pub name: String,
    pub attrs: Vec<SAttribute>,
    pub fields: SFields,
}

#[derive(Debug, PartialEq, Eq)]
pub struct SEnum {
    pub span: KSpan,
    pub name: String,
    pub attrs: Vec<SAttribute>,
    pub generics: SGenerics,
    pub variants: Vec<SVariant>,
}

/// A type alias.
#[derive(Debug, PartialEq, Eq)]
pub struct SAlias {
    pub span: KSpan,
    pub name: String,
    pub attrs: Vec<SAttribute>,
    pub generics: SGenerics,
    pub tyx: STypeExpr,
}

/// A module, or the whole source file.
#[derive(Debug, PartialEq, Eq)]
pub struct SModule {
    /// The span of the module's name.
    pub span: KSpan,
    pub name: String,
    pub attrs: Vec<SAttribute>,
    /// `None` for a module declared without a body.
    pub decls: Option<Vec<SModuleDecl>>,
}

/// A declaration of a module.
#[derive(Debug, PartialEq, Eq)]
pub enum SModuleDecl {
    /// An import; not a schema item.
    Use,
    Module(SModule),
    Struct(SStruct),
    Enum(SEnum),
    Alias(SAlias),
    /// Unions, traits, functions and every other declaration kind.
    Unknown(KSpan),
}

} // verus!
