use vstd::prelude::*;
use crate::span::KSpan;
use crate::log::{err, fail, flatten_options, lemma_seq_first_step, lemma_seq_first_stops, seq_first, LogResult, LogV, res_view};
use crate::model::{KPrimType, KScalarType, KType, ScalarV, TypeV};
use crate::syntax::{GenericArg, PathArguments, STypeExpr};
use crate::text::str_eq;

verus! {

/// A type expression with references, pointers and parentheses removed.
pub open spec fn strip(t: STypeExpr) -> STypeExpr
    decreases t,
{
    match t {
        STypeExpr::Wrapped(b) => strip(*b),
        _ => t,
    }
}

/// The span of a type expression.
pub open spec fn span_of(t: STypeExpr) -> KSpan
    decreases t,
{
    match t {
        STypeExpr::Wrapped(b) => span_of(*b),
        STypeExpr::Array(span, _) => span,
        STypeExpr::Path { span, .. } => span,
        STypeExpr::BareFn { span, .. } => span,
        STypeExpr::Other(span) => span,
    }
}

/// Removes references, pointers and parentheses around a type.
pub fn strip_type(t: &STypeExpr) -> (r: &STypeExpr)
    ensures
        *r == strip(*t),
        !(r is Wrapped),
        span_of(*r) == span_of(*t),
    decreases t,
{
    match t {
        STypeExpr::Wrapped(b) => strip_type(b),
        _ => t,
    }
}

/// A generic argument: a type, nothing (a lifetime), or a diagnostic.
pub open spec fn spec_arg(a: GenericArg) -> Result<Option<STypeExpr>, Seq<LogV>> {
    match a {
        GenericArg::Lifetime => Ok(None),
        GenericArg::Type(t) => Ok(Some(t)),
        GenericArg::Binding(span) => fail(span, "binding generic parameter is not supported"@),
        GenericArg::Constraint(span) => fail(span, "constraint generic parameter is not supported"@),
        GenericArg::Const(span) => fail(span, "const generic parameter is not supported"@),
    }
}

/// The type arguments of a path segment, in order.
pub open spec fn spec_type_args(args: Seq<GenericArg>) -> Result<Seq<STypeExpr>, Seq<LogV>> {
    match seq_first(args.map_values(|a: GenericArg| spec_arg(a))) {
        Err(e) => Err(e),
        Ok(os) => Ok(flatten_options(os)),
    }
}

/// The last name of a path type and its type arguments.
pub open spec fn spec_path_parts(s: STypeExpr) -> Result<(Seq<char>, Seq<STypeExpr>), Seq<LogV>> {
    match s {
        STypeExpr::Path { span, qualified_self, segments } => {
            if qualified_self || segments@.len() == 0 {
                fail(span, "bad/unsupported type form"@)
            } else if exists|i: int| 0 <= i < segments@.len() - 1 && !(#[trigger] segments@[i].arguments is Bare) {
                fail(span, "type argument in an intermediate path segment is not supported"@)
            } else {
                let last = segments@.last();
                match last.arguments {
                    PathArguments::Bare => Ok((last.ident@, seq![])),
                    PathArguments::Parenthesized => fail(span, "unsupported generic parameter form"@),
                    PathArguments::AngleBracketed(args) => match spec_type_args(args@) {
                        Err(e) => Err(e),
                        Ok(ts) => Ok((last.ident@, ts)),
                    },
                }
            }
        },
        _ => fail(span_of(s), "bad/unsupported type form"@),
    }
}

/// What the recognizer reads of a path type: its last name, how many type
/// arguments it has, and the first of them.
pub struct PathParts<'a> {
    pub name: &'a str,
    pub count: usize,
    pub first: Option<&'a STypeExpr>,
}

pub open spec fn parts_match(p: PathParts, s: STypeExpr) -> bool {
    &&& spec_path_parts(s) is Ok
    &&& p.name@ == spec_path_parts(s)->Ok_0.0
    &&& p.count == spec_path_parts(s)->Ok_0.1.len()
    &&& p.count > 0 ==> (p.first is Some && *p.first->Some_0 == spec_path_parts(s)->Ok_0.1[0])
}

fn type_args<'a>(args: &'a Vec<GenericArg>) -> (r: LogResult<(usize, Option<&'a STypeExpr>)>)
    ensures
        match r {
            Ok((n, first)) => {
                &&& spec_type_args(args@) is Ok
                &&& n == spec_type_args(args@)->Ok_0.len()
                &&& n > 0 ==> (first is Some && *first->Some_0 == spec_type_args(args@)->Ok_0[0])
            },
            Err(e) => spec_type_args(args@) == Err::<Seq<STypeExpr>, Seq<LogV>>(e@),
        },
{
    let ghost all = args@.map_values(|a: GenericArg| spec_arg(a));
    let ghost mut os: Seq<Option<STypeExpr>> = seq![];
    let mut n: usize = 0;
    let mut first: Option<&STypeExpr> = None;
    let mut i: usize = 0;
    proof {
        assert(all.subrange(0, 0) =~= seq![]);
    }
    while i < args.len()
        invariant
            i <= args.len(),
            all == args@.map_values(|a: GenericArg| spec_arg(a)),
            seq_first(all.subrange(0, i as int)) == Ok::<Seq<Option<STypeExpr>>, Seq<LogV>>(os),
            n == flatten_options(os).len(),
            n <= i,
            n > 0 ==> (first is Some && *first->Some_0 == flatten_options(os)[0]),
        decreases args.len() - i,
    {
        proof {
            lemma_seq_first_step(all, i as int);
            assert(all[i as int] == spec_arg(args@[i as int]));
        }
        match &args[i] {
            GenericArg::Lifetime => {
                proof {
                    assert(os.push(None).drop_last() =~= os);
                    assert(flatten_options(os.push(None)) =~= flatten_options(os));
                    os = os.push(None);
                }
            },
            GenericArg::Type(t) => {
                proof {
                    assert(os.push(Some(*t)).drop_last() =~= os);
                    assert(flatten_options(os.push(Some(*t))) =~= flatten_options(os).push(*t));
                    os = os.push(Some(*t));
                }
                if n == 0 {
                    first = Some(t);
                }
                n = n + 1;
            },
            GenericArg::Binding(span) => {
                let r = err(*span, "binding generic parameter is not supported");
                proof {
                    lemma_seq_first_stops(all, i + 1);
                }
                return r;
            },
            GenericArg::Constraint(span) => {
                let r = err(*span, "constraint generic parameter is not supported");
                proof {
                    lemma_seq_first_stops(all, i + 1);
                }
                return r;
            },
            GenericArg::Const(span) => {
                let r = err(*span, "const generic parameter is not supported");
                proof {
                    lemma_seq_first_stops(all, i + 1);
                }
                return r;
            },
        }
        i = i + 1;
    }
    proof {
        assert(all.subrange(0, i as int) =~= all);
    }
    Ok((n, first))
}

/// Reads the last name and the type arguments of a path type.
#[verifier::loop_isolation(false)]
pub fn path_parts<'a>(s: &'a STypeExpr) -> (r: LogResult<PathParts<'a>>)
    ensures
        match r {
            Ok(p) => parts_match(p, *s),
            Err(e) => spec_path_parts(*s) == Err::<(Seq<char>, Seq<STypeExpr>), Seq<LogV>>(e@),
        },
{
    match s {
        STypeExpr::Path { span, qualified_self, segments } => {
            let len = segments.len();
            if *qualified_self || len == 0 {
                return err(*span, "bad/unsupported type form");
            }
            let mut i: usize = 0;
            while i + 1 < len
                invariant
                    len == segments@.len(),
                    len > 0,
                    i < len,
                    forall|j: int| 0 <= j < i ==> (#[trigger] segments@[j].arguments) is Bare,
                decreases len - i,
            {
                match &segments[i].arguments {
                    PathArguments::Bare => {},
                    _ => {
                        proof {
                            assert(!(segments@[i as int].arguments is Bare));
                            assert(0 <= i < segments@.len() - 1);
                            assert(exists|j: int| 0 <= j < segments@.len() - 1 && !(#[trigger] segments@[j].arguments is Bare));
                        }
                        return err(*span, "type argument in an intermediate path segment is not supported");
                    },
                }
                i = i + 1;
            }
            let last = &segments[len - 1];
            match &last.arguments {
                PathArguments::Bare => Ok(PathParts { name: last.ident.as_str(), count: 0, first: None }),
                PathArguments::Parenthesized => err(*span, "unsupported generic parameter form"),
                PathArguments::AngleBracketed(args) => {
                    let (n, first) = type_args(args)?;
                    Ok(PathParts { name: last.ident.as_str(), count: n, first })
                },
            }
        },
        STypeExpr::Wrapped(_) => {
            err(span_of_type(s), "bad/unsupported type form")
        },
        STypeExpr::Array(span, _) => err(*span, "bad/unsupported type form"),
        STypeExpr::BareFn { span, .. } => err(*span, "bad/unsupported type form"),
        STypeExpr::Other(span) => err(*span, "bad/unsupported type form"),
    }
}

/// The span of a type expression.
pub fn span_of_type(t: &STypeExpr) -> (r: KSpan)
    ensures
        r == span_of(*t),
    decreases t,
{
    match t {
        STypeExpr::Wrapped(b) => span_of_type(b),
        STypeExpr::Array(span, _) => *span,
        STypeExpr::Path { span, .. } => *span,
        STypeExpr::BareFn { span, .. } => *span,
        STypeExpr::Other(span) => *span,
    }
}

/// The scalar that a bare name denotes: one of the primitive spellings, or a
/// reference to a named type.
pub open spec fn spec_named_scalar(name: Seq<char>) -> ScalarV {
    if name == "bool"@ {
        ScalarV::Prim(KPrimType::Bool)
    } else if name == "i32"@ {
        ScalarV::Prim(KPrimType::I32)
    } else if name == "i64"@ {
        ScalarV::Prim(KPrimType::I64)
    } else if name == "f32"@ {
        ScalarV::Prim(KPrimType::F32)
    } else if name == "f64"@ {
        ScalarV::Prim(KPrimType::F64)
    } else if name == "str"@ || name == "String"@ {
        ScalarV::Prim(KPrimType::String)
    } else {
        ScalarV::Def(name)
    }
}

pub fn named_scalar(name: &str) -> (r: KScalarType)
    ensures
        r@ == spec_named_scalar(name@),
{
    if str_eq(name, "bool") {
        KScalarType::Prim(KPrimType::Bool)
    } else if str_eq(name, "i32") {
        KScalarType::Prim(KPrimType::I32)
    } else if str_eq(name, "i64") {
        KScalarType::Prim(KPrimType::I64)
    } else if str_eq(name, "f32") {
        KScalarType::Prim(KPrimType::F32)
    } else if str_eq(name, "f64") {
        KScalarType::Prim(KPrimType::F64)
    } else if str_eq(name, "str") || str_eq(name, "String") {
        KScalarType::Prim(KPrimType::String)
    } else {
        KScalarType::Def(String::from_str(name))
    }
}

/// Scalar resolution of an already stripped type: a bare name without
/// generic arguments.
pub open spec fn spec_scalar(s: STypeExpr) -> Result<ScalarV, Seq<LogV>> {
    match spec_path_parts(s) {
        Err(e) => Err(e),
        Ok((name, params)) => if params.len() > 0 {
            fail(span_of(s), "scalar type with generic parameter is not supported"@)
        } else {
            Ok(spec_named_scalar(name))
        },
    }
}

pub fn scan_scalar_type(s: &STypeExpr) -> (r: LogResult<KScalarType>)
    ensures
        res_view(r) == spec_scalar(*s),
{
    let p = path_parts(s)?;
    if p.count > 0 {
        return err(span_of_type(s), "scalar type with generic parameter is not supported");
    }
    Ok(named_scalar(p.name))
}

/// The shape of a type expression: a sequence (array, slice or `Vec` of a
/// scalar), an optional (`Option` of a scalar), or a scalar.
pub open spec fn spec_type(t: STypeExpr) -> Result<TypeV, Seq<LogV>> {
    let s = strip(t);
    match s {
        STypeExpr::Array(_, elem) => match spec_scalar(strip(*elem)) {
            Err(e) => Err(e),
            Ok(x) => Ok(TypeV::Vector(x)),
        },
        _ => match spec_path_parts(s) {
            Err(e) => Err(e),
            Ok((name, params)) => if name == "Vec"@ {
                if params.len() != 1 {
                    fail(span_of(s), "`Vec` type must have one parameter"@)
                } else {
                    match spec_scalar(strip(params[0])) {
                        Err(e) => Err(e),
                        Ok(x) => Ok(TypeV::Vector(x)),
                    }
                }
            } else if name == "Option"@ {
                if params.len() != 1 {
                    fail(span_of(s), "`Option` type must have one parameter"@)
                } else {
                    match spec_scalar(strip(params[0])) {
                        Err(e) => Err(e),
                        Ok(x) => Ok(TypeV::Option(x)),
                    }
                }
            } else if params.len() > 0 {
                fail(span_of(s), "scalar type with generic parameter is not supported"@)
            } else {
                Ok(TypeV::Scalar(spec_named_scalar(name)))
            },
        },
    }
}

/// Recognizes the shape of a type expression.
pub fn scan_type(t: &STypeExpr) -> (r: LogResult<KType>)
    ensures
        res_view(r) == spec_type(*t),
{
    let s = strip_type(t);
    if let STypeExpr::Array(_, elem) = s {
        let x = scan_scalar_type(strip_type(elem))?;
        return Ok(KType::Vector(x));
    }
    let p = path_parts(s)?;
    if str_eq(p.name, "Vec") {
        if p.count != 1 {
            return err(span_of_type(s), "`Vec` type must have one parameter");
        }
        let x = scan_scalar_type(strip_type(p.first.unwrap()))?;
        return Ok(KType::Vector(x));
    }
    if str_eq(p.name, "Option") {
        if p.count != 1 {
            return err(span_of_type(s), "`Option` type must have one parameter");
        }
        let x = scan_scalar_type(strip_type(p.first.unwrap()))?;
        return Ok(KType::Option(x));
    }
    if p.count > 0 {
        return err(span_of_type(s), "scalar type with generic parameter is not supported");
    }
    Ok(KType::Scalar(named_scalar(p.name)))
}

} // verus!
