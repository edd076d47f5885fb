use vstd::prelude::*;
use crate::log::{
    count_errs, errs_of, lemma_accumulation, lemma_errs_of_includes, accumulate, accumulate_optional, err, fail, map_collect_optional_result, map_collect_result,
    opt_res_view, res_view, LogResult, LogV,
};
use crate::model::{
    CaseV, EnumV, FieldV, FormV, FuncV, ItemV, KEnumType, KEnumTypeCase, KFuncType, KItem, KMod, KNewType,
    KProdType, KProdTypeField, KSumType, KSumTypeSerializationForm, KSumTypeVariant, ModV, NewV, ProdV, SumV,
    VariantV,
};
use crate::attr::{scan_attrs, scan_doc_comment, spec_doc_comment, spec_facets};
use crate::ty::{scan_type, spec_type};
use crate::syntax::{SAlias, SEnum, SField, SFieldsShape, SModule, SModuleDecl, SStruct, STypeExpr, SVariant};

verus! {

// ----- Records -----

/// A record field: it must be named.
pub open spec fn spec_field(f: SField) -> Result<FieldV, Seq<LogV>> {
    match f.name {
        None => fail(f.span, "only named fields are supported in prod-type"@),
        Some(n) => match spec_facets(f.attrs@) {
            Err(e) => Err(e),
            Ok(a) => match spec_doc_comment(f.attrs@) {
                Err(e) => Err(e),
                Ok(c) => match spec_type(f.tyx) {
                    Err(e) => Err(e),
                    Ok(t) => Ok(FieldV { span: f.span, name: n@, comment: c, attrs: a, content: t }),
                },
            },
        },
    }
}

pub fn scan_prod_type_field(f: &SField) -> (r: LogResult<KProdTypeField>)
    ensures
        res_view(r) == spec_field(*f),
{
    let name = match &f.name {
        None => return err(f.span, "only named fields are supported in prod-type"),
        Some(n) => n.clone(),
    };
    let attrs = scan_attrs(&f.attrs)?;
    let comment = scan_doc_comment(&f.attrs)?;
    let content = scan_type(&f.tyx)?;
    Ok(KProdTypeField { span: f.span, name, comment, attrs, content })
}

/// A record declaration: no generics, named (or no) fields.
pub open spec fn spec_struct(s: SStruct) -> Result<ItemV, Seq<LogV>> {
    if s.generics.count > 0 {
        fail(s.generics.span, "generic parameter is not supported"@)
    } else if s.fields.shape == SFieldsShape::Unnamed {
        fail(s.fields.span, "only named fields are supported in struct (no support for unnamed fields)"@)
    } else {
        match spec_facets(s.attrs@) {
            Err(e) => Err(e),
            Ok(a) => match spec_doc_comment(s.attrs@) {
                Err(e) => Err(e),
                Ok(c) => match accumulate(s.fields.fields@.map_values(|f: SField| spec_field(f))) {
                    Err(e) => Err(e),
                    Ok(fs) => Ok(ItemV::Prod(ProdV { span: s.span, name: s.name@, comment: c, attrs: a, fields: fs })),
                },
            },
        }
    }
}

pub fn scan_struct(s: &SStruct) -> (r: LogResult<KItem>)
    ensures
        res_view(r) == spec_struct(*s),
{
    if s.generics.count > 0 {
        return err(s.generics.span, "generic parameter is not supported");
    }
    if s.fields.shape == SFieldsShape::Unnamed {
        return err(s.fields.span, "only named fields are supported in struct (no support for unnamed fields)");
    }
    let attrs = scan_attrs(&s.attrs)?;
    let comment = scan_doc_comment(&s.attrs)?;
    let fs = &s.fields.fields;
    let mut rs: Vec<LogResult<KProdTypeField>> = Vec::new();
    let mut i: usize = 0;
    while i < fs.len()
        invariant
            i <= fs.len(),
            rs@.map_values(|x: LogResult<KProdTypeField>| res_view(x))
                == fs@.subrange(0, i as int).map_values(|f: SField| spec_field(f)),
        decreases fs.len() - i,
    {
        let x = scan_prod_type_field(&fs[i]);
        proof {
            assert(rs@.push(x).map_values(|x: LogResult<KProdTypeField>| res_view(x))
                =~= rs@.map_values(|x: LogResult<KProdTypeField>| res_view(x)).push(res_view(x)));
            assert(fs@.subrange(0, i + 1).map_values(|f: SField| spec_field(f))
                =~= fs@.subrange(0, i as int).map_values(|f: SField| spec_field(f)).push(spec_field(fs@[i as int])));
        }
        rs.push(x);
        i = i + 1;
    }
    proof {
        assert(fs@.subrange(0, i as int) =~= fs@);
    }
    let fields = map_collect_result(rs)?;
    Ok(KItem::Prod(KProdType { span: s.span, name: s.name.clone(), comment, attrs, fields }))
}

// ----- Enumerations and sum types -----

/// A case of an enumeration (a variant without payload).
pub open spec fn spec_case(v: SVariant) -> Result<CaseV, Seq<LogV>> {
    match spec_doc_comment(v.attrs@) {
        Err(e) => Err(e),
        Ok(c) => Ok(CaseV { span: v.span, name: v.name@, comment: c }),
    }
}

pub fn scan_enum_type_case(v: &SVariant) -> (r: LogResult<KEnumTypeCase>)
    ensures
        res_view(r) == spec_case(*v),
{
    let comment = scan_doc_comment(&v.attrs)?;
    Ok(KEnumTypeCase { span: v.span, name: v.name.clone(), comment })
}

/// A variant of a sum type: exactly one unnamed payload field.
pub open spec fn spec_variant(v: SVariant) -> Result<VariantV, Seq<LogV>> {
    if v.fields.fields@.len() != 1 {
        fail(v.fields.span, "only single variant field is supported (make an explicitly named struct to store multiple fields)"@)
    } else if v.fields.shape == SFieldsShape::Named {
        fail(v.fields.span, "only unnamed field is supported (no support for named field)"@)
    } else if v.fields.shape == SFieldsShape::Unit {
        fail(v.fields.span, "all sum-type variant must have a data"@)
    } else {
        match spec_facets(v.attrs@) {
            Err(e) => Err(e),
            Ok(a) => match spec_doc_comment(v.attrs@) {
                Err(e) => Err(e),
                Ok(c) => match spec_type(v.fields.fields@[0].tyx) {
                    Err(e) => Err(e),
                    Ok(t) => Ok(VariantV { span: v.span, name: v.name@, comment: c, attrs: a, content: t }),
                },
            },
        }
    }
}

pub fn scan_sum_type_variant(v: &SVariant) -> (r: LogResult<KSumTypeVariant>)
    ensures
        res_view(r) == spec_variant(*v),
{
    if v.fields.fields.len() != 1 {
        return err(
            v.fields.span,
            "only single variant field is supported (make an explicitly named struct to store multiple fields)",
        );
    }
    if v.fields.shape == SFieldsShape::Named {
        return err(v.fields.span, "only unnamed field is supported (no support for named field)");
    }
    if v.fields.shape == SFieldsShape::Unit {
        return err(v.fields.span, "all sum-type variant must have a data");
    }
    let attrs = scan_attrs(&v.attrs)?;
    let comment = scan_doc_comment(&v.attrs)?;
    let content = scan_type(&v.fields.fields[0].tyx)?;
    Ok(KSumTypeVariant { span: v.span, name: v.name.clone(), comment, attrs, content })
}

/// Whether no variant of an enumeration carries a payload.
pub open spec fn spec_no_payload(e: SEnum) -> bool {
    forall|i: int| 0 <= i < e.variants@.len() ==> (#[trigger] e.variants@[i]).fields.fields@.len() == 0
}

pub fn has_no_variant_with_payload(e: &SEnum) -> (r: bool)
    ensures
        r == spec_no_payload(*e),
{
    let mut i: usize = 0;
    while i < e.variants.len()
        invariant
            i <= e.variants.len(),
            forall|j: int| 0 <= j < i ==> (#[trigger] e.variants@[j]).fields.fields@.len() == 0,
        decreases e.variants.len() - i,
    {
        if e.variants[i].fields.fields.len() > 0 {
            return false;
        }
        i = i + 1;
    }
    true
}

/// An enumeration-like declaration: an enumeration when no case has a
/// payload, else a name-based sum type.
pub open spec fn spec_enum(e: SEnum) -> Result<ItemV, Seq<LogV>> {
    if e.generics.count > 0 {
        fail(e.generics.span, "generic parameter is not supported"@)
    } else if spec_no_payload(e) {
        match spec_doc_comment(e.attrs@) {
            Err(x) => Err(x),
            Ok(c) => match accumulate(e.variants@.map_values(|v: SVariant| spec_case(v))) {
                Err(x) => Err(x),
                Ok(cs) => Ok(ItemV::Enum(EnumV { span: e.span, name: e.name@, comment: c, cases: cs })),
            },
        }
    } else {
        match spec_facets(e.attrs@) {
            Err(x) => Err(x),
            Ok(a) => match spec_doc_comment(e.attrs@) {
                Err(x) => Err(x),
                Ok(c) => match accumulate(e.variants@.map_values(|v: SVariant| spec_variant(v))) {
                    Err(x) => Err(x),
                    Ok(vs) => Ok(ItemV::Sum(SumV {
                        span: e.span,
                        name: e.name@,
                        comment: c,
                        serialization: FormV::NameBased,
                        attrs: a,
                        variants: vs,
                    })),
                },
            },
        }
    }
}

pub fn scan_enum(e: &SEnum) -> (r: LogResult<KItem>)
    ensures
        res_view(r) == spec_enum(*e),
{
    if e.generics.count > 0 {
        return err(e.generics.span, "generic parameter is not supported");
    }
    let vs = &e.variants;
    if has_no_variant_with_payload(e) {
        let comment = scan_doc_comment(&e.attrs)?;
        let mut rs: Vec<LogResult<KEnumTypeCase>> = Vec::new();
        let mut i: usize = 0;
        while i < vs.len()
            invariant
                i <= vs.len(),
                rs@.map_values(|x: LogResult<KEnumTypeCase>| res_view(x))
                    == vs@.subrange(0, i as int).map_values(|v: SVariant| spec_case(v)),
            decreases vs.len() - i,
        {
            let x = scan_enum_type_case(&vs[i]);
            proof {
                assert(rs@.push(x).map_values(|x: LogResult<KEnumTypeCase>| res_view(x))
                    =~= rs@.map_values(|x: LogResult<KEnumTypeCase>| res_view(x)).push(res_view(x)));
                assert(vs@.subrange(0, i + 1).map_values(|v: SVariant| spec_case(v))
                    =~= vs@.subrange(0, i as int).map_values(|v: SVariant| spec_case(v)).push(spec_case(vs@[i as int])));
            }
            rs.push(x);
            i = i + 1;
        }
        proof {
            assert(vs@.subrange(0, i as int) =~= vs@);
        }
        let cases = map_collect_result(rs)?;
        Ok(KItem::Enum(KEnumType { span: e.span, name: e.name.clone(), comment, cases }))
    } else {
        let attrs = scan_attrs(&e.attrs)?;
        let comment = scan_doc_comment(&e.attrs)?;
        let mut rs: Vec<LogResult<KSumTypeVariant>> = Vec::new();
        let mut i: usize = 0;
        while i < vs.len()
            invariant
                i <= vs.len(),
                rs@.map_values(|x: LogResult<KSumTypeVariant>| res_view(x))
                    == vs@.subrange(0, i as int).map_values(|v: SVariant| spec_variant(v)),
            decreases vs.len() - i,
        {
            let x = scan_sum_type_variant(&vs[i]);
            proof {
                assert(rs@.push(x).map_values(|x: LogResult<KSumTypeVariant>| res_view(x))
                    =~= rs@.map_values(|x: LogResult<KSumTypeVariant>| res_view(x)).push(res_view(x)));
                assert(vs@.subrange(0, i + 1).map_values(|v: SVariant| spec_variant(v))
                    =~= vs@.subrange(0, i as int).map_values(|v: SVariant| spec_variant(v)).push(spec_variant(vs@[i as int])));
            }
            rs.push(x);
            i = i + 1;
        }
        proof {
            assert(vs@.subrange(0, i as int) =~= vs@);
        }
        let variants = map_collect_result(rs)?;
        Ok(KItem::Sum(KSumType {
            span: e.span,
            name: e.name.clone(),
            comment,
            serialization: KSumTypeSerializationForm::NameBased,
            attrs,
            variants,
        }))
    }
}

/// Classification: an enumeration-like declaration that scans becomes an
/// enumeration exactly when no case has a payload, and a sum type exactly when
/// some case has one, in which case every case has exactly one field. A case
/// with another field count, among cases with payload, is a diagnostic of that
/// case, and the declaration fails.
pub proof fn lemma_classification(e: SEnum)
    ensures
        spec_enum(e) is Ok ==> (spec_enum(e)->Ok_0 is Enum <==> spec_no_payload(e)),
        spec_enum(e) is Ok ==> (spec_enum(e)->Ok_0 is Sum <==> !spec_no_payload(e)),
        spec_enum(e) is Ok && !spec_no_payload(e) ==> forall|i: int|
            0 <= i < e.variants@.len() ==> (#[trigger] e.variants@[i]).fields.fields@.len() == 1,
        forall|i: int|
            0 <= i < e.variants@.len() && (#[trigger] e.variants@[i]).fields.fields@.len() != 1
                ==> spec_variant(e.variants@[i]) is Err,
        forall|i: int|
            0 <= i < e.variants@.len() && (#[trigger] e.variants@[i]).fields.fields@.len() != 1
                && !spec_no_payload(e) ==> spec_enum(e) is Err,
{
    assert forall|i: int|
        0 <= i < e.variants@.len() && (#[trigger] e.variants@[i]).fields.fields@.len() != 1
            && !spec_no_payload(e) implies spec_enum(e) is Err by {
        let rs = e.variants@.map_values(|v: SVariant| spec_variant(v));
        assert(rs[i] == spec_variant(e.variants@[i]));
        lemma_errs_of_includes(rs, i);
    }
}

// ----- Aliases -----

/// A type alias: a function alias when the aliased type is a bare function
/// type, else an alias of the recognized type.
pub open spec fn spec_alias(a: SAlias) -> Result<ItemV, Seq<LogV>> {
    if a.generics.count > 0 {
        fail(a.generics.span, "generic parameter is not supported"@)
    } else {
        match a.tyx {
            STypeExpr::BareFn { span, inputs, output } => {
                if inputs@.len() != 1 {
                    fail(span, "only 1 input argument is supported"@)
                } else if output is None {
                    fail(span, "output type must be specified explicitly"@)
                } else {
                    match spec_facets(a.attrs@) {
                        Err(e) => Err(e),
                        Ok(at) => match spec_doc_comment(a.attrs@) {
                            Err(e) => Err(e),
                            Ok(c) => match spec_type(inputs@[0]) {
                                Err(e) => Err(e),
                                Ok(i) => match spec_type(*output->Some_0) {
                                    Err(e) => Err(e),
                                    Ok(o) => Ok(ItemV::Func(FuncV {
                                        span: a.span,
                                        name: a.name@,
                                        comment: c,
                                        attrs: at,
                                        input: i,
                                        output: o,
                                    })),
                                },
                            },
                        },
                    }
                }
            },
            _ => match spec_facets(a.attrs@) {
                Err(e) => Err(e),
                Ok(at) => match spec_doc_comment(a.attrs@) {
                    Err(e) => Err(e),
                    Ok(c) => match spec_type(a.tyx) {
                        Err(e) => Err(e),
                        Ok(t) => Ok(ItemV::New(NewV { span: a.span, name: a.name@, attrs: at, comment: c, origin: t })),
                    },
                },
            },
        }
    }
}

pub fn scan_alias(a: &SAlias) -> (r: LogResult<KItem>)
    ensures
        res_view(r) == spec_alias(*a),
{
    if a.generics.count > 0 {
        return err(a.generics.span, "generic parameter is not supported");
    }
    match &a.tyx {
        STypeExpr::BareFn { span, inputs, output } => {
            if inputs.len() != 1 {
                return err(*span, "only 1 input argument is supported");
            }
            let out = match output {
                None => return err(*span, "output type must be specified explicitly"),
                Some(o) => o,
            };
            let attrs = scan_attrs(&a.attrs)?;
            let comment = scan_doc_comment(&a.attrs)?;
            let input = scan_type(&inputs[0])?;
            let output = scan_type(out)?;
            Ok(KItem::Func(KFuncType { span: a.span, name: a.name.clone(), comment, attrs, input, output }))
        },
        _ => {
            let attrs = scan_attrs(&a.attrs)?;
            let comment = scan_doc_comment(&a.attrs)?;
            let origin = scan_type(&a.tyx)?;
            Ok(KItem::New(KNewType { span: a.span, name: a.name.clone(), attrs, comment, origin }))
        },
    }
}

// ----- Modules -----

/// The outcomes of a module's declarations, one per declaration.
pub open spec fn spec_decls(m: SModule) -> Seq<Result<Option<ItemV>, Seq<LogV>>>
    decreases m, 0nat,
{
    match m.decls {
        None => seq![],
        Some(ds) => Seq::new(
            ds@.len(),
            |i: int|
                if 0 <= i < ds@.len() {
                    spec_decl(ds@[i])
                } else {
                    Ok(None)
                },
        ),
    }
}

/// A module: every declaration is scanned, all failures are accumulated, and
/// imports are dropped.
pub open spec fn spec_module(m: SModule) -> Result<ModV, Seq<LogV>>
    decreases m, 1nat,
{
    match accumulate_optional(spec_decls(m)) {
        Err(e) => Err(e),
        Ok(items) => match spec_doc_comment(m.attrs@) {
            Err(e) => Err(e),
            Ok(c) => Ok(ModV { span: m.span, name: m.name@, comment: c, items }),
        },
    }
}

/// One declaration: `None` for an import, a diagnostic for an unsupported kind.
pub open spec fn spec_decl(d: SModuleDecl) -> Result<Option<ItemV>, Seq<LogV>>
    decreases d, 2nat,
{
    match d {
        SModuleDecl::Use => Ok(None),
        SModuleDecl::Module(m) => match spec_module(m) {
            Err(e) => Err(e),
            Ok(x) => Ok(Some(ItemV::Mod(x))),
        },
        SModuleDecl::Struct(s) => match spec_struct(s) {
            Err(e) => Err(e),
            Ok(x) => Ok(Some(x)),
        },
        SModuleDecl::Enum(e) => match spec_enum(e) {
            Err(x) => Err(x),
            Ok(x) => Ok(Some(x)),
        },
        SModuleDecl::Alias(a) => match spec_alias(a) {
            Err(e) => Err(e),
            Ok(x) => Ok(Some(x)),
        },
        SModuleDecl::Unknown(span) => fail(span, "unsupported item"@),
    }
}

pub fn scan_decl(d: &SModuleDecl) -> (r: LogResult<Option<KItem>>)
    ensures
        opt_res_view(r) == spec_decl(*d),
    decreases *d, 2nat,
{
    match d {
        SModuleDecl::Use => Ok(None),
        SModuleDecl::Module(m) => {
            let x = scan_module(m)?;
            Ok(Some(KItem::Mod(x)))
        },
        SModuleDecl::Struct(s) => {
            let x = scan_struct(s)?;
            Ok(Some(x))
        },
        SModuleDecl::Enum(e) => {
            let x = scan_enum(e)?;
            Ok(Some(x))
        },
        SModuleDecl::Alias(a) => {
            let x = scan_alias(a)?;
            Ok(Some(x))
        },
        SModuleDecl::Unknown(span) => err(*span, "unsupported item"),
    }
}

/// Scans a module (or a whole source file) into the canonical model.
pub fn scan_module(m: &SModule) -> (r: LogResult<KMod>)
    ensures
        res_view(r) == spec_module(*m),
    decreases *m, 1nat,
{
    let mut rs: Vec<LogResult<Option<KItem>>> = Vec::new();
    match &m.decls {
        None => {},
        Some(ds) => {
            let mut i: usize = 0;
            while i < ds.len()
                invariant
                    m.decls == Some(*ds),
                    i <= ds.len(),
                    rs@.map_values(|x: LogResult<Option<KItem>>| opt_res_view(x))
                        =~= spec_decls(*m).subrange(0, i as int),
                decreases ds.len() - i,
            {
                proof {
                    assert(decreases_to!(*m => ds@[i as int]));
                }
                let x = scan_decl(&ds[i]);
                proof {
                    assert(rs@.push(x).map_values(|x: LogResult<Option<KItem>>| opt_res_view(x))
                        =~= rs@.map_values(|x: LogResult<Option<KItem>>| opt_res_view(x)).push(opt_res_view(x)));
                }
                rs.push(x);
                i = i + 1;
            }
        },
    }
    proof {
        assert(rs@.map_values(|x: LogResult<Option<KItem>>| opt_res_view(x)) =~= spec_decls(*m));
    }
    let items = map_collect_optional_result(rs)?;
    let comment = scan_doc_comment(&m.attrs)?;
    let r = KMod { span: m.span, name: m.name.clone(), comment, items };
    proof {
        assert(r@.items =~= items@.map_values(|x: KItem| x@));
    }
    Ok(r)
}

/// Accumulation in a module: when each of its N declarations that fails
/// yields one diagnostic, scanning the module fails exactly when k > 0 of them
/// fail, and then with exactly k diagnostics, in declaration order.
pub proof fn lemma_module_accumulation(m: SModule)
    requires
        spec_doc_comment(m.attrs@) is Ok,
        forall|i: int|
            0 <= i < spec_decls(m).len() && (#[trigger] spec_decls(m)[i]) is Err ==> spec_decls(m)[i]->Err_0.len() == 1,
    ensures
        spec_module(m) is Err <==> count_errs(spec_decls(m)) > 0,
        spec_module(m) is Err ==> spec_module(m)->Err_0 == errs_of(spec_decls(m)),
        spec_module(m) is Err ==> spec_module(m)->Err_0.len() == count_errs(spec_decls(m)),
{
    lemma_accumulation(spec_decls(m));
}

/// Scans a source file, given as its top-level module, into the canonical model.
pub fn scan(file: &SModule) -> (r: LogResult<KMod>)
    ensures
        res_view(r) == spec_module(*file),
{
    scan_module(file)
}

} // verus!
