use vstd::prelude::*;
use crate::span::KSpan;
use crate::log::{err, fail, res_view, LogResult, LogV};
use crate::model::{
    CaseV, EnumV, FieldV, FuncV, ItemV, KEnumType, KEnumTypeCase, KFuncType, KItem, KMod, KNewType, KPrimType,
    KProdType, KProdTypeField, KScalarType, KSumType, KSumTypeVariant, KType, ModV, NewV, ProdV, ScalarV, SumV,
    TypeV, VariantV,
};
use crate::text::{
    commentize, indent, join_sep, join_with, map_join, spec_commentize, spec_indent, spec_map_join,
    spec_trim_result, trim_result, trimmed,
};

verus! {

// ----- Types -----

/// A scalar in TypeScript: unit, 64-bit integers and 32-bit floats are rejected.
pub open spec fn ts_scalar(s: ScalarV, span: KSpan) -> Result<Seq<char>, Seq<LogV>> {
    match s {
        ScalarV::Unit => fail(span, "unit-type (`()`) is not supported"@),
        ScalarV::Def(n) => Ok(n),
        ScalarV::Prim(KPrimType::Bool) => Ok("boolean"@),
        ScalarV::Prim(KPrimType::I32) => Ok("number"@),
        ScalarV::Prim(KPrimType::I64) => fail(span, "`i64` is not supported in TypeScript"@),
        ScalarV::Prim(KPrimType::F32) => fail(span, "`f32` is not supported in TypeScript"@),
        ScalarV::Prim(KPrimType::F64) => Ok("number"@),
        ScalarV::Prim(KPrimType::String) => Ok("string"@),
    }
}

/// A type in TypeScript: arrays as `T[]`; optionality is left to the field.
pub open spec fn ts_type(t: TypeV, span: KSpan) -> Result<Seq<char>, Seq<LogV>> {
    match t {
        TypeV::Vector(x) => match ts_scalar(x, span) {
            Err(e) => Err(e),
            Ok(c) => Ok(c + "[]"@),
        },
        TypeV::Option(x) => ts_scalar(x, span),
        TypeV::Scalar(x) => ts_scalar(x, span),
        TypeV::Never => fail(span, "never-type is not unsupported"@),
        TypeV::Unknown => fail(span, "unsupported type pattern"@),
    }
}

fn render_scalar(s: &KScalarType, span: KSpan) -> (r: LogResult<String>)
    ensures
        res_view(r) == ts_scalar(s@, span),
{
    match s {
        KScalarType::Unit => err(span, "unit-type (`()`) is not supported"),
        KScalarType::Def(n) => Ok(n.clone()),
        KScalarType::Prim(KPrimType::Bool) => Ok(String::from_str("boolean")),
        KScalarType::Prim(KPrimType::I32) => Ok(String::from_str("number")),
        KScalarType::Prim(KPrimType::I64) => err(span, "`i64` is not supported in TypeScript"),
        KScalarType::Prim(KPrimType::F32) => err(span, "`f32` is not supported in TypeScript"),
        KScalarType::Prim(KPrimType::F64) => Ok(String::from_str("number")),
        KScalarType::Prim(KPrimType::String) => Ok(String::from_str("string")),
    }
}

fn render_type(t: &KType, span: KSpan) -> (r: LogResult<String>)
    ensures
        res_view(r) == ts_type(t@, span),
{
    match t {
        KType::Vector(x) => {
            let c = render_scalar(x, span)?;
            Ok(c.concat("[]"))
        },
        KType::Option(x) => render_scalar(x, span),
        KType::Scalar(x) => render_scalar(x, span),
        KType::Never => err(span, "never-type is not unsupported"),
        KType::Unknown => err(span, "unsupported type pattern"),
    }
}

// ----- Items -----

pub open spec fn ts_new(x: NewV) -> Result<Seq<char>, Seq<LogV>> {
    match ts_type(x.origin, x.span) {
        Err(e) => Err(e),
        Ok(o) => Ok(spec_commentize(x.comment) + "   \ntype "@ + x.name + " = "@ + o + "\n"@),
    }
}

fn render_new(x: &KNewType) -> (r: LogResult<String>)
    ensures
        res_view(r) == ts_new(x@),
{
    let o = render_type(&x.origin, x.span)?;
    let mut s = commentize(x.comment.as_str());
    s.append("   \ntype ");
    s.append(x.name.as_str());
    s.append(" = ");
    s.append(o.as_str());
    s.append("\n");
    Ok(s)
}

pub open spec fn ts_case(c: CaseV) -> Seq<char> {
    c.name + " = \""@ + c.name + "\""@
}

fn render_case(c: &KEnumTypeCase) -> (r: String)
    ensures
        r@ == ts_case(c@),
{
    let mut s = c.name.clone();
    s.append(" = \"");
    s.append(c.name.as_str());
    s.append("\"");
    s
}

pub open spec fn ts_enum(e: EnumV) -> Seq<char> {
    spec_commentize(e.comment) + "\nenum "@ + e.name + " {\n"@ + spec_indent(
        join_sep(e.cases.map_values(|c: CaseV| ts_case(c)), ",\n"@),
    ) + "  \n}\n"@
}

fn render_enum(e: &KEnumType) -> (r: String)
    ensures
        r@ == ts_enum(e@),
{
    let mut cases: Vec<String> = Vec::new();
    let mut i: usize = 0;
    while i < e.cases.len()
        invariant
            i <= e.cases.len(),
            cases@.map_values(|s: String| s@) == e.cases@.subrange(0, i as int).map_values(|c: KEnumTypeCase| ts_case(c@)),
        decreases e.cases.len() - i,
    {
        let c = render_case(&e.cases[i]);
        proof {
            assert(cases@.push(c).map_values(|s: String| s@) =~= cases@.map_values(|s: String| s@).push(c@));
            assert(e.cases@.subrange(0, i + 1).map_values(|c: KEnumTypeCase| ts_case(c@))
                =~= e.cases@.subrange(0, i as int).map_values(|c: KEnumTypeCase| ts_case(c@)).push(ts_case(e.cases@[i as int]@)));
        }
        cases.push(c);
        i = i + 1;
    }
    proof {
        assert(e.cases@.subrange(0, i as int).map_values(|c: KEnumTypeCase| ts_case(c@))
            =~= e@.cases.map_values(|c: CaseV| ts_case(c)));
    }
    let body = indent(join_with(&cases, ",\n").as_str());
    let mut s = commentize(e.comment.as_str());
    s.append("\nenum ");
    s.append(e.name.as_str());
    s.append(" {\n");
    s.append(body.as_str());
    s.append("  \n}\n");
    s
}

pub open spec fn ts_variant(v: VariantV) -> Result<Seq<char>, Seq<LogV>> {
    match ts_type(v.content, v.span) {
        Err(e) => Err(e),
        Ok(t) => Ok(trimmed("{ "@ + v.name + ": "@ + t + " }\n"@)),
    }
}

fn render_sum_type_variant(v: &KSumTypeVariant) -> (r: LogResult<String>)
    ensures
        res_view(r) == ts_variant(v@),
{
    let t = render_type(&v.content, v.span)?;
    let mut s = String::from_str("{ ");
    s.append(v.name.as_str());
    s.append(": ");
    s.append(t.as_str());
    s.append(" }\n");
    trim_result(Ok(s))
}

pub open spec fn ts_sum(x: SumV) -> Result<Seq<char>, Seq<LogV>> {
    match spec_map_join(x.variants.map_values(|v: VariantV| ts_variant(v)), " | "@) {
        Err(e) => Err(e),
        Ok(vs) => Ok(spec_commentize(x.comment) + "\ntype "@ + x.name + " = "@ + vs + "\n"@),
    }
}

fn render_sum(x: &KSumType) -> (r: LogResult<String>)
    ensures
        res_view(r) == ts_sum(x@),
{
    let mut rs: Vec<LogResult<String>> = Vec::new();
    let mut i: usize = 0;
    while i < x.variants.len()
        invariant
            i <= x.variants.len(),
            rs@.map_values(|r: LogResult<String>| res_view(r))
                == x.variants@.subrange(0, i as int).map_values(|v: KSumTypeVariant| ts_variant(v@)),
        decreases x.variants.len() - i,
    {
        let r = render_sum_type_variant(&x.variants[i]);
        proof {
            assert(rs@.push(r).map_values(|r: LogResult<String>| res_view(r)) =~= rs@.map_values(|r: LogResult<String>| res_view(r)).push(res_view(r)));
            assert(x.variants@.subrange(0, i + 1).map_values(|v: KSumTypeVariant| ts_variant(v@))
                =~= x.variants@.subrange(0, i as int).map_values(|v: KSumTypeVariant| ts_variant(v@)).push(ts_variant(x.variants@[i as int]@)));
        }
        rs.push(r);
        i = i + 1;
    }
    proof {
        assert(x.variants@.subrange(0, i as int).map_values(|v: KSumTypeVariant| ts_variant(v@))
            =~= x@.variants.map_values(|v: VariantV| ts_variant(v)));
    }
    let vs = map_join(rs, " | ")?;
    let mut s = commentize(x.comment.as_str());
    s.append("\ntype ");
    s.append(x.name.as_str());
    s.append(" = ");
    s.append(vs.as_str());
    s.append("\n");
    Ok(s)
}

/// A field's name, marked `?` when its content is optional.
pub open spec fn ts_field_name(f: FieldV) -> Seq<char> {
    if f.content is Option {
        f.name + "?"@
    } else {
        f.name
    }
}

pub open spec fn ts_field(f: FieldV) -> Result<Seq<char>, Seq<LogV>> {
    match ts_type(f.content, f.span) {
        Err(e) => Err(e),
        Ok(t) => Ok(trimmed(spec_commentize(f.comment) + "\n"@ + ts_field_name(f) + ": "@ + t + "\n"@)),
    }
}

fn render_field(f: &KProdTypeField) -> (r: LogResult<String>)
    ensures
        res_view(r) == ts_field(f@),
{
    let t = render_type(&f.content, f.span)?;
    let mut s = commentize(f.comment.as_str());
    s.append("\n");
    s.append(f.name.as_str());
    if f.content.is_option() {
        s.append("?");
    }
    s.append(": ");
    s.append(t.as_str());
    s.append("\n");
    proof {
        assert(s@ =~= spec_commentize(f@.comment) + "\n"@ + ts_field_name(f@) + ": "@ + t@ + "\n"@);
    }
    trim_result(Ok(s))
}

pub open spec fn ts_prod(x: ProdV) -> Result<Seq<char>, Seq<LogV>> {
    match spec_map_join(x.fields.map_values(|f: FieldV| ts_field(f)), "\n"@) {
        Err(e) => Err(e),
        Ok(fs) => Ok(spec_commentize(x.comment) + "\ntype "@ + x.name + " = {\n"@ + spec_indent(fs) + "\n}\n"@),
    }
}

fn render_prod(x: &KProdType) -> (r: LogResult<String>)
    ensures
        res_view(r) == ts_prod(x@),
{
    let mut rs: Vec<LogResult<String>> = Vec::new();
    let mut i: usize = 0;
    while i < x.fields.len()
        invariant
            i <= x.fields.len(),
            rs@.map_values(|r: LogResult<String>| res_view(r))
                == x.fields@.subrange(0, i as int).map_values(|f: KProdTypeField| ts_field(f@)),
        decreases x.fields.len() - i,
    {
        let r = render_field(&x.fields[i]);
        proof {
            assert(rs@.push(r).map_values(|r: LogResult<String>| res_view(r)) =~= rs@.map_values(|r: LogResult<String>| res_view(r)).push(res_view(r)));
            assert(x.fields@.subrange(0, i + 1).map_values(|f: KProdTypeField| ts_field(f@))
                =~= x.fields@.subrange(0, i as int).map_values(|f: KProdTypeField| ts_field(f@)).push(ts_field(x.fields@[i as int]@)));
        }
        rs.push(r);
        i = i + 1;
    }
    proof {
        assert(x.fields@.subrange(0, i as int).map_values(|f: KProdTypeField| ts_field(f@))
            =~= x@.fields.map_values(|f: FieldV| ts_field(f)));
    }
    let fs = map_join(rs, "\n")?;
    let mut s = commentize(x.comment.as_str());
    s.append("\ntype ");
    s.append(x.name.as_str());
    s.append(" = {\n");
    s.append(indent(fs.as_str()).as_str());
    s.append("\n}\n");
    Ok(s)
}

pub open spec fn ts_func(x: FuncV) -> Result<Seq<char>, Seq<LogV>> {
    match ts_type(x.input, x.span) {
        Err(e) => Err(e),
        Ok(i) => match ts_type(x.output, x.span) {
            Err(e) => Err(e),
            Ok(o) => Ok(spec_commentize(x.comment) + "\ndeclare function "@ + x.name + "("@ + i + "): "@ + o + "\n}\n"@),
        },
    }
}

fn render_func(x: &KFuncType) -> (r: LogResult<String>)
    ensures
        res_view(r) == ts_func(x@),
{
    let i = render_type(&x.input, x.span)?;
    let o = render_type(&x.output, x.span)?;
    let mut s = commentize(x.comment.as_str());
    s.append("\ndeclare function ");
    s.append(x.name.as_str());
    s.append("(");
    s.append(i.as_str());
    s.append("): ");
    s.append(o.as_str());
    s.append("\n}\n");
    Ok(s)
}

// ----- Modules -----

/// The rendering of each item of a module.
pub open spec fn ts_items(m: ModV) -> Seq<Result<Seq<char>, Seq<LogV>>>
    decreases m, 0nat,
{
    Seq::new(
        m.items.len(),
        |i: int|
            if 0 <= i < m.items.len() {
                ts_item(m.items[i])
            } else {
                Ok(seq![])
            },
    )
}

pub open spec fn ts_mod(m: ModV) -> Result<Seq<char>, Seq<LogV>>
    decreases m, 1nat,
{
    match spec_map_join(ts_items(m), "\n\n"@) {
        Err(e) => Err(e),
        Ok(items) => Ok(spec_commentize(m.comment) + "\n"@ + items + "\n"@),
    }
}

pub open spec fn ts_item(it: ItemV) -> Result<Seq<char>, Seq<LogV>>
    decreases it, 2nat,
{
    spec_trim_result(
        match it {
            ItemV::Mod(m) => ts_mod(m),
            ItemV::New(x) => ts_new(x),
            ItemV::Enum(x) => Ok(ts_enum(x)),
            ItemV::Sum(x) => ts_sum(x),
            ItemV::Prod(x) => ts_prod(x),
            ItemV::Func(x) => ts_func(x),
        },
    )
}

fn render_item(it: &KItem) -> (r: LogResult<String>)
    ensures
        res_view(r) == ts_item(it@),
    decreases *it,
{
    let r = match it {
        KItem::Mod(m) => render_mod(m),
        KItem::New(x) => render_new(x),
        KItem::Enum(x) => Ok(render_enum(x)),
        KItem::Sum(x) => render_sum(x),
        KItem::Prod(x) => render_prod(x),
        KItem::Func(x) => render_func(x),
    };
    trim_result(r)
}

fn render_mod(m: &KMod) -> (r: LogResult<String>)
    ensures
        res_view(r) == ts_mod(m@),
    decreases *m,
{
    let mut rs: Vec<LogResult<String>> = Vec::new();
    let mut i: usize = 0;
    while i < m.items.len()
        invariant
            i <= m.items.len(),
            rs@.len() == i,
            forall|j: int| 0 <= j < i ==> res_view(#[trigger] rs@[j]) == ts_item(m.items@[j]@),
        decreases m.items.len() - i,
    {
        proof {
            assert(decreases_to!(*m => m.items@[i as int]));
        }
        let r = render_item(&m.items[i]);
        rs.push(r);
        i = i + 1;
    }
    proof {
        assert(m@.items.len() == m.items@.len());
        assert forall|j: int| 0 <= j < m.items@.len() implies #[trigger] m@.items[j] == m.items@[j]@ by {}
        assert(rs@.map_values(|r: LogResult<String>| res_view(r)) =~= ts_items(m@));
    }
    let items = map_join(rs, "\n\n")?;
    let mut s = commentize(m.comment.as_str());
    s.append("\n");
    s.append(items.as_str());
    s.append("\n");
    Ok(s)
}

/// Renders a module as TypeScript 4 type declarations.
pub fn render_typescript4(m: &KMod) -> (r: LogResult<String>)
    ensures
        res_view(r) == ts_mod(m@),
{
    render_mod(m)
}

} // verus!
