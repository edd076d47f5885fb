use vstd::prelude::*;
use crate::span::KSpan;
use crate::log::{err, fail, res_view, LogResult, LogV};
use crate::model::{
    CaseV, EnumV, FieldV, FuncV, ItemV, KEnumType, KEnumTypeCase, KFuncType, KItem, KMod, KNewType, KPrimType,
    KProdType, KProdTypeField, KScalarType, KSumType, KSumTypeVariant, KType, ModV, NewV, ProdV, ScalarV, SumV,
    TypeV, VariantV,
};
use crate::text::{
    commentize, indent, join_sep, join_with, map_join, spec_commentize, spec_indent, spec_map_join,
    spec_trim_result, trim_result, trimmed,
};

verus! {

// ----- Types -----

/// A scalar in Swift: unit is rejected.
pub open spec fn swift_scalar(s: ScalarV, span: KSpan) -> Result<Seq<char>, Seq<LogV>> {
    match s {
        ScalarV::Unit => fail(span, "unit-type (`()`) is not supported"@),
        ScalarV::Def(n) => Ok(n),
        ScalarV::Prim(KPrimType::Bool) => Ok("Bool"@),
        ScalarV::Prim(KPrimType::I32) => Ok("Int32"@),
        ScalarV::Prim(KPrimType::I64) => Ok("Int64"@),
        ScalarV::Prim(KPrimType::F32) => Ok("Int32"@),
        ScalarV::Prim(KPrimType::F64) => Ok("Int64"@),
        ScalarV::Prim(KPrimType::String) => Ok("String"@),
    }
}

/// A type in Swift: arrays as `[T]`, optionals as `T?`.
pub open spec fn swift_type(t: TypeV, span: KSpan) -> Result<Seq<char>, Seq<LogV>> {
    match t {
        TypeV::Vector(x) => match swift_scalar(x, span) {
            Err(e) => Err(e),
            Ok(c) => Ok("["@ + c + "]"@),
        },
        TypeV::Option(x) => match swift_scalar(x, span) {
            Err(e) => Err(e),
            Ok(c) => Ok(c + "?"@),
        },
        TypeV::Scalar(x) => swift_scalar(x, span),
        TypeV::Never => fail(span, "never-type is not unsupported"@),
        TypeV::Unknown => fail(span, "unsupported type pattern"@),
    }
}

fn render_scalar(s: &KScalarType, span: KSpan) -> (r: LogResult<String>)
    ensures
        res_view(r) == swift_scalar(s@, span),
{
    match s {
        KScalarType::Unit => err(span, "unit-type (`()`) is not supported"),
        KScalarType::Def(n) => Ok(n.clone()),
        KScalarType::Prim(KPrimType::Bool) => Ok(String::from_str("Bool")),
        KScalarType::Prim(KPrimType::I32) => Ok(String::from_str("Int32")),
        KScalarType::Prim(KPrimType::I64) => Ok(String::from_str("Int64")),
        KScalarType::Prim(KPrimType::F32) => Ok(String::from_str("Int32")),
        KScalarType::Prim(KPrimType::F64) => Ok(String::from_str("Int64")),
        KScalarType::Prim(KPrimType::String) => Ok(String::from_str("String")),
    }
}

fn render_type(t: &KType, span: KSpan) -> (r: LogResult<String>)
    ensures
        res_view(r) == swift_type(t@, span),
{
    match t {
        KType::Vector(x) => {
            let c = render_scalar(x, span)?;
            Ok(String::from_str("[").concat(c.as_str()).concat("]"))
        },
        KType::Option(x) => {
            let c = render_scalar(x, span)?;
            Ok(c.concat("?"))
        },
        KType::Scalar(x) => render_scalar(x, span),
        KType::Never => err(span, "never-type is not unsupported"),
        KType::Unknown => err(span, "unsupported type pattern"),
    }
}

// ----- Items -----

pub open spec fn swift_new(x: NewV) -> Result<Seq<char>, Seq<LogV>> {
    match swift_type(x.origin, x.span) {
        Err(e) => Err(e),
        Ok(o) => Ok(spec_commentize(x.comment) + "   \ntypealias "@ + x.name + " = "@ + o + "\n"@),
    }
}

fn render_new(x: &KNewType) -> (r: LogResult<String>)
    ensures
        res_view(r) == swift_new(x@),
{
    let o = render_type(&x.origin, x.span)?;
    let mut s = commentize(x.comment.as_str());
    s.append("   \ntypealias ");
    s.append(x.name.as_str());
    s.append(" = ");
    s.append(o.as_str());
    s.append("\n");
    Ok(s)
}

pub open spec fn swift_case(c: CaseV) -> Seq<char> {
    "case "@ + c.name + " = \""@ + c.name + "\""@
}

fn render_case(c: &KEnumTypeCase) -> (r: String)
    ensures
        r@ == swift_case(c@),
{
    let mut s = String::from_str("case ");
    s.append(c.name.as_str());
    s.append(" = \"");
    s.append(c.name.as_str());
    s.append("\"");
    s
}

pub open spec fn swift_enum(e: EnumV) -> Seq<char> {
    spec_commentize(e.comment) + "\nenum "@ + e.name + ": String, Equatable, Codable {\n"@ + spec_indent(
        join_sep(e.cases.map_values(|c: CaseV| swift_case(c)), "\n"@),
    ) + "\n}\n"@
}

fn render_enum(e: &KEnumType) -> (r: String)
    ensures
        r@ == swift_enum(e@),
{
    let mut cases: Vec<String> = Vec::new();
    let mut i: usize = 0;
    while i < e.cases.len()
        invariant
            i <= e.cases.len(),
            cases@.map_values(|s: String| s@) == e.cases@.subrange(0, i as int).map_values(|c: KEnumTypeCase| swift_case(c@)),
        decreases e.cases.len() - i,
    {
        let c = render_case(&e.cases[i]);
        proof {
            assert(cases@.push(c).map_values(|s: String| s@) =~= cases@.map_values(|s: String| s@).push(c@));
            assert(e.cases@.subrange(0, i + 1).map_values(|c: KEnumTypeCase| swift_case(c@))
                =~= e.cases@.subrange(0, i as int).map_values(|c: KEnumTypeCase| swift_case(c@)).push(swift_case(e.cases@[i as int]@)));
        }
        cases.push(c);
        i = i + 1;
    }
    proof {
        assert(e.cases@.subrange(0, i as int).map_values(|c: KEnumTypeCase| swift_case(c@))
            =~= e@.cases.map_values(|c: CaseV| swift_case(c)));
    }
    let body = indent(join_with(&cases, "\n").as_str());
    let mut s = commentize(e.comment.as_str());
    s.append("\nenum ");
    s.append(e.name.as_str());
    s.append(": String, Equatable, Codable {\n");
    s.append(body.as_str());
    s.append("\n}\n");
    s
}

pub open spec fn swift_variant(v: VariantV) -> Result<Seq<char>, Seq<LogV>> {
    match swift_type(v.content, v.span) {
        Err(e) => Err(e),
        Ok(t) => Ok(trimmed(spec_commentize(v.comment) + "\ncase "@ + v.name + "("@ + t + ")\n"@)),
    }
}

fn render_sum_type_variant(v: &KSumTypeVariant) -> (r: LogResult<String>)
    ensures
        res_view(r) == swift_variant(v@),
{
    let t = render_type(&v.content, v.span)?;
    let mut s = commentize(v.comment.as_str());
    s.append("\ncase ");
    s.append(v.name.as_str());
    s.append("(");
    s.append(t.as_str());
    s.append(")\n");
    trim_result(Ok(s))
}

pub open spec fn swift_sum(x: SumV) -> Result<Seq<char>, Seq<LogV>> {
    match spec_map_join(x.variants.map_values(|v: VariantV| swift_variant(v)), "\n"@) {
        Err(e) => Err(e),
        Ok(vs) => Ok(spec_commentize(x.comment) + "\nenum "@ + x.name + ": Equatable, Codable {\n"@ + spec_indent(vs) + "\n}\n"@),
    }
}

fn render_sum(x: &KSumType) -> (r: LogResult<String>)
    ensures
        res_view(r) == swift_sum(x@),
{
    let mut rs: Vec<LogResult<String>> = Vec::new();
    let mut i: usize = 0;
    while i < x.variants.len()
        invariant
            i <= x.variants.len(),
            rs@.map_values(|r: LogResult<String>| res_view(r))
                == x.variants@.subrange(0, i as int).map_values(|v: KSumTypeVariant| swift_variant(v@)),
        decreases x.variants.len() - i,
    {
        let r = render_sum_type_variant(&x.variants[i]);
        proof {
            assert(rs@.push(r).map_values(|r: LogResult<String>| res_view(r)) =~= rs@.map_values(|r: LogResult<String>| res_view(r)).push(res_view(r)));
            assert(x.variants@.subrange(0, i + 1).map_values(|v: KSumTypeVariant| swift_variant(v@))
                =~= x.variants@.subrange(0, i as int).map_values(|v: KSumTypeVariant| swift_variant(v@)).push(swift_variant(x.variants@[i as int]@)));
        }
        rs.push(r);
        i = i + 1;
    }
    proof {
        assert(x.variants@.subrange(0, i as int).map_values(|v: KSumTypeVariant| swift_variant(v@))
            =~= x@.variants.map_values(|v: VariantV| swift_variant(v)));
    }
    let vs = map_join(rs, "\n")?;
    let mut s = commentize(x.comment.as_str());
    s.append("\nenum ");
    s.append(x.name.as_str());
    s.append(": Equatable, Codable {\n");
    s.append(indent(vs.as_str()).as_str());
    s.append("\n}\n");
    Ok(s)
}

pub open spec fn swift_field(f: FieldV) -> Result<Seq<char>, Seq<LogV>> {
    match swift_type(f.content, f.span) {
        Err(e) => Err(e),
        Ok(t) => Ok(trimmed(spec_commentize(f.comment) + "\nvar "@ + f.name + ": "@ + t + "\n"@)),
    }
}

fn render_field(f: &KProdTypeField) -> (r: LogResult<String>)
    ensures
        res_view(r) == swift_field(f@),
{
    let t = render_type(&f.content, f.span)?;
    let mut s = commentize(f.comment.as_str());
    s.append("\nvar ");
    s.append(f.name.as_str());
    s.append(": ");
    s.append(t.as_str());
    s.append("\n");
    trim_result(Ok(s))
}

pub open spec fn swift_prod(x: ProdV) -> Result<Seq<char>, Seq<LogV>> {
    match spec_map_join(x.fields.map_values(|f: FieldV| swift_field(f)), "\n"@) {
        Err(e) => Err(e),
        Ok(fs) => Ok(spec_commentize(x.comment) + "\nstruct "@ + x.name + ": Equatable, Codable {\n"@ + spec_indent(fs) + "\n}\n"@),
    }
}

fn render_prod(x: &KProdType) -> (r: LogResult<String>)
    ensures
        res_view(r) == swift_prod(x@),
{
    let mut rs: Vec<LogResult<String>> = Vec::new();
    let mut i: usize = 0;
    while i < x.fields.len()
        invariant
            i <= x.fields.len(),
            rs@.map_values(|r: LogResult<String>| res_view(r))
                == x.fields@.subrange(0, i as int).map_values(|f: KProdTypeField| swift_field(f@)),
        decreases x.fields.len() - i,
    {
        let r = render_field(&x.fields[i]);
        proof {
            assert(rs@.push(r).map_values(|r: LogResult<String>| res_view(r)) =~= rs@.map_values(|r: LogResult<String>| res_view(r)).push(res_view(r)));
            assert(x.fields@.subrange(0, i + 1).map_values(|f: KProdTypeField| swift_field(f@))
                =~= x.fields@.subrange(0, i as int).map_values(|f: KProdTypeField| swift_field(f@)).push(swift_field(x.fields@[i as int]@)));
        }
        rs.push(r);
        i = i + 1;
    }
    proof {
        assert(x.fields@.subrange(0, i as int).map_values(|f: KProdTypeField| swift_field(f@))
            =~= x@.fields.map_values(|f: FieldV| swift_field(f)));
    }
    let fs = map_join(rs, "\n")?;
    let mut s = commentize(x.comment.as_str());
    s.append("\nstruct ");
    s.append(x.name.as_str());
    s.append(": Equatable, Codable {\n");
    s.append(indent(fs.as_str()).as_str());
    s.append("\n}\n");
    Ok(s)
}

pub open spec fn swift_func(x: FuncV) -> Result<Seq<char>, Seq<LogV>> {
    match swift_type(x.input, x.span) {
        Err(e) => Err(e),
        Ok(i) => match swift_type(x.output, x.span) {
            Err(e) => Err(e),
            Ok(o) => Ok(spec_commentize(x.comment) + "\ntypealias "@ + x.name + " = ("@ + i + ") -> ("@ + o + ")\n"@),
        },
    }
}

fn render_func(x: &KFuncType) -> (r: LogResult<String>)
    ensures
        res_view(r) == swift_func(x@),
{
    let i = render_type(&x.input, x.span)?;
    let o = render_type(&x.output, x.span)?;
    let mut s = commentize(x.comment.as_str());
    s.append("\ntypealias ");
    s.append(x.name.as_str());
    s.append(" = (");
    s.append(i.as_str());
    s.append(") -> (");
    s.append(o.as_str());
    s.append(")\n");
    Ok(s)
}

// ----- Modules -----

/// The rendering of each item of a module.
pub open spec fn swift_items(m: ModV) -> Seq<Result<Seq<char>, Seq<LogV>>>
    decreases m, 0nat,
{
    Seq::new(
        m.items.len(),
        |i: int|
            if 0 <= i < m.items.len() {
                swift_item(m.items[i])
            } else {
                Ok(seq![])
            },
    )
}

pub open spec fn swift_mod(m: ModV) -> Result<Seq<char>, Seq<LogV>>
    decreases m, 1nat,
{
    match spec_map_join(swift_items(m), "\n\n"@) {
        Err(e) => Err(e),
        Ok(items) => Ok(spec_commentize(m.comment) + "\n"@ + items + "\n"@),
    }
}

pub open spec fn swift_item(it: ItemV) -> Result<Seq<char>, Seq<LogV>>
    decreases it, 2nat,
{
    spec_trim_result(
        match it {
            ItemV::Mod(m) => swift_mod(m),
            ItemV::New(x) => swift_new(x),
            ItemV::Enum(x) => Ok(swift_enum(x)),
            ItemV::Sum(x) => swift_sum(x),
            ItemV::Prod(x) => swift_prod(x),
            ItemV::Func(x) => swift_func(x),
        },
    )
}

fn render_item(it: &KItem) -> (r: LogResult<String>)
    ensures
        res_view(r) == swift_item(it@),
    decreases *it,
{
    let r = match it {
        KItem::Mod(m) => render_mod(m),
        KItem::New(x) => render_new(x),
        KItem::Enum(x) => Ok(render_enum(x)),
        KItem::Sum(x) => render_sum(x),
        KItem::Prod(x) => render_prod(x),
        KItem::Func(x) => render_func(x),
    };
    trim_result(r)
}

fn render_mod(m: &KMod) -> (r: LogResult<String>)
    ensures
        res_view(r) == swift_mod(m@),
    decreases *m,
{
    let mut rs: Vec<LogResult<String>> = Vec::new();
    let mut i: usize = 0;
    while i < m.items.len()
        invariant
            i <= m.items.len(),
            rs@.len() == i,
            forall|j: int| 0 <= j < i ==> res_view(#[trigger] rs@[j]) == swift_item(m.items@[j]@),
        decreases m.items.len() - i,
    {
        proof {
            assert(decreases_to!(*m => m.items@[i as int]));
        }
        let r = render_item(&m.items[i]);
        rs.push(r);
        i = i + 1;
    }
    proof {
        assert(m@.items.len() == m.items@.len());
        assert forall|j: int| 0 <= j < m.items@.len() implies #[trigger] m@.items[j] == m.items@[j]@ by {}
        assert(rs@.map_values(|r: LogResult<String>| res_view(r)) =~= swift_items(m@));
    }
    let items = map_join(rs, "\n\n")?;
    let mut s = commentize(m.comment.as_str());
    s.append("\n");
    s.append(items.as_str());
    s.append("\n");
    Ok(s)
}

/// Renders a module as Swift 5 type declarations.
pub fn render_swift5(m: &KMod) -> (r: LogResult<String>)
    ensures
        res_view(r) == swift_mod(m@),
{
    render_mod(m)
}

} // verus!
