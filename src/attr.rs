use vstd::prelude::*;
use crate::span::KSpan;
use crate::log::{err, fail, flatten_options, lemma_seq_first_step, lemma_seq_first_stops, lemma_view_push, seq_first, ErrorLogs, LogResult, LogV, opt_res_view, res_view};
use crate::model::{FacetV, KAttrREST, KAttrs};
use crate::syntax::{Lit, Meta, MetaPath, NestedMeta, SAttribute};
use crate::text::{join_sep, join_with, str_eq, trim_str, trimmed};

verus! {

/// A literal value of an annotation parameter.
#[derive(Clone, Debug, PartialEq, Eq)]
pub enum AttrValue {
    Bool(bool),
    I64(i64),
    String(String),
}

/// One parameter of a canonical annotation.
#[derive(Clone, Debug, PartialEq, Eq)]
pub enum AttrParam {
    Key(String),
    Value(AttrValue),
    KeyValue(String, AttrValue),
}

/// An annotation reduced to a name and an ordered parameter list.
#[derive(Clone, Debug, Default, PartialEq, Eq)]
pub struct Attr {
    pub name: String,
    pub params: Vec<AttrParam>,
}

pub enum ValueV {
    Bool(bool),
    I64(i64),
    String(Seq<char>),
}

pub enum ParamV {
    Key(Seq<char>),
    Value(ValueV),
    KeyValue(Seq<char>, ValueV),
}

pub struct AttrV {
    pub name: Seq<char>,
    pub params: Seq<ParamV>,
}

impl View for AttrValue {
    type V = ValueV;

    open spec fn view(&self) -> ValueV {
        match self {
            AttrValue::Bool(b) => ValueV::Bool(*b),
            AttrValue::I64(n) => ValueV::I64(*n),
            AttrValue::String(s) => ValueV::String(s@),
        }
    }
}

impl View for AttrParam {
    type V = ParamV;

    open spec fn view(&self) -> ParamV {
        match self {
            AttrParam::Key(k) => ParamV::Key(k@),
            AttrParam::Value(v) => ParamV::Value(v@),
            AttrParam::KeyValue(k, v) => ParamV::KeyValue(k@, v@),
        }
    }
}

impl View for Attr {
    type V = AttrV;

    open spec fn view(&self) -> AttrV {
        AttrV { name: self.name@, params: self.params@.map_values(|p: AttrParam| p@) }
    }
}

// ----- Decimal literals -----

pub open spec fn is_digit(c: char) -> bool {
    '0' <= c && c <= '9'
}

/// The value of a string of decimal digits.
pub open spec fn digits_value(s: Seq<char>) -> int
    decreases s.len(),
{
    if s.len() == 0 {
        0
    } else {
        digits_value(s.drop_last()) * 10 + (s.last() as int - '0' as int)
    }
}

/// The 64-bit integer that a decimal literal denotes, if it has one.
pub open spec fn spec_parse_i64(s: Seq<char>) -> Option<i64> {
    if s.len() > 0 && (forall|i: int| 0 <= i < s.len() ==> is_digit(#[trigger] s[i]))
        && digits_value(s) <= i64::MAX {
        Some(digits_value(s) as i64)
    } else {
        None
    }
}

/// Reads a decimal literal as a 64-bit integer.
pub fn parse_i64(s: &str) -> (r: Option<i64>)
    ensures
        r == spec_parse_i64(s@),
{
    let n = s.unicode_len();
    if n == 0 {
        return None;
    }
    let mut i: usize = 0;
    let mut value: i64 = 0;
    let mut overflowed = false;
    let ghost mut gv: int = 0;
    while i < n
        invariant
            n == s@.len(),
            i <= n,
            forall|j: int| 0 <= j < i ==> is_digit(#[trigger] s@[j]),
            gv == digits_value(s@.subrange(0, i as int)),
            gv >= 0,
            overflowed ==> gv > i64::MAX,
            !overflowed ==> value == gv,
        decreases n - i,
    {
        let c = s.get_char(i);
        if !('0' <= c && c <= '9') {
            return None;
        }
        let d = (c as u32 - '0' as u32) as i64;
        let ghost prev = gv;
        proof {
            assert(s@.subrange(0, i + 1).drop_last() =~= s@.subrange(0, i as int));
            gv = gv * 10 + d;
        }
        if !overflowed {
            if value > (i64::MAX - d) / 10 {
                overflowed = true;
                assert(gv > i64::MAX) by (nonlinear_arith)
                    requires value > (i64::MAX - d) / 10, gv == value * 10 + d, 0 <= d <= 9;
            } else {
                assert(value * 10 + d <= i64::MAX) by (nonlinear_arith)
                    requires value <= (i64::MAX - d) / 10, 0 <= d <= 9, value >= 0;
                value = value * 10 + d;
            }
        } else {
            assert(gv > i64::MAX) by (nonlinear_arith)
                requires prev > i64::MAX, gv == prev * 10 + d, 0 <= d <= 9;
        }
        i = i + 1;
    }
    proof {
        assert(s@.subrange(0, n as int) =~= s@);
    }
    if overflowed {
        None
    } else {
        Some(value)
    }
}

// ----- Canonicalizer -----

/// The last segment's name of a path that carries no generic arguments.
pub open spec fn spec_non_generic_name(p: MetaPath) -> Result<Seq<char>, Seq<LogV>> {
    if p.segments@.len() == 0 {
        fail(p.span, "zero-length path segment is not supported"@)
    } else if p.segments@.last().has_arguments {
        fail(p.segments@.last().span, "generic parameter is not supported"@)
    } else {
        Ok(p.segments@.last().ident@)
    }
}

pub fn scan_non_generic_name(p: &MetaPath) -> (r: LogResult<String>)
    ensures
        res_view(r) == spec_non_generic_name(*p),
{
    let n = p.segments.len();
    if n == 0 {
        return err(p.span, "zero-length path segment is not supported");
    }
    let seg = &p.segments[n - 1];
    if seg.has_arguments {
        return err(seg.span, "generic parameter is not supported");
    }
    Ok(seg.ident.clone())
}

/// The value of a literal: only bool, 64-bit integer and string literals are accepted.
pub open spec fn spec_value(l: Lit) -> Result<ValueV, Seq<LogV>> {
    match l {
        Lit::Bool(b) => Ok(ValueV::Bool(b)),
        Lit::Int(span, digits) => match spec_parse_i64(digits@) {
            Some(n) => Ok(ValueV::I64(n)),
            None => fail(span, "number too large to fit in target type"@),
        },
        Lit::Str(s) => Ok(ValueV::String(s@)),
        Lit::Other(span) => fail(span, "unsupported literal form"@),
    }
}

pub fn scan_value(l: &Lit) -> (r: LogResult<AttrValue>)
    ensures
        res_view(r) == spec_value(*l),
{
    match l {
        Lit::Bool(b) => Ok(AttrValue::Bool(*b)),
        Lit::Int(span, digits) => match parse_i64(digits.as_str()) {
            Some(n) => Ok(AttrValue::I64(n)),
            None => err(*span, "number too large to fit in target type"),
        },
        Lit::Str(s) => Ok(AttrValue::String(s.clone())),
        Lit::Other(span) => err(*span, "unsupported literal form"),
    }
}

/// One entry of a parenthesized annotation list.
pub open spec fn spec_param(n: NestedMeta) -> Result<ParamV, Seq<LogV>> {
    match n {
        NestedMeta::Meta(Meta::Path(p)) => match spec_non_generic_name(p) {
            Ok(k) => Ok(ParamV::Key(k)),
            Err(e) => Err(e),
        },
        NestedMeta::Meta(Meta::List(p, _)) => fail(p.span, "unsupported attribute form"@),
        NestedMeta::Meta(Meta::NameValue(p, l)) => match spec_non_generic_name(p) {
            Err(e) => Err(e),
            Ok(k) => match spec_value(l) {
                Err(e) => Err(e),
                Ok(v) => Ok(ParamV::KeyValue(k, v)),
            },
        },
        NestedMeta::Lit(l) => match spec_value(l) {
            Err(e) => Err(e),
            Ok(v) => Ok(ParamV::Value(v)),
        },
    }
}

pub fn scan_param(n: &NestedMeta) -> (r: LogResult<AttrParam>)
    ensures
        res_view(r) == spec_param(*n),
{
    match n {
        NestedMeta::Meta(Meta::Path(p)) => {
            let k = scan_non_generic_name(p)?;
            Ok(AttrParam::Key(k))
        },
        NestedMeta::Meta(Meta::List(p, _)) => err(p.span, "unsupported attribute form"),
        NestedMeta::Meta(Meta::NameValue(p, l)) => {
            let k = scan_non_generic_name(p)?;
            let v = scan_value(l)?;
            Ok(AttrParam::KeyValue(k, v))
        },
        NestedMeta::Lit(l) => {
            let v = scan_value(l)?;
            Ok(AttrParam::Value(v))
        },
    }
}

/// The entries of an annotation list, or the first malformed one's diagnostic.
pub open spec fn spec_params(ns: Seq<NestedMeta>) -> Result<Seq<ParamV>, Seq<LogV>> {
    seq_first(ns.map_values(|n: NestedMeta| spec_param(n)))
}

pub fn scan_params(ns: &Vec<NestedMeta>) -> (r: LogResult<Vec<AttrParam>>)
    ensures
        match r {
            Ok(ps) => spec_params(ns@) == Ok::<Seq<ParamV>, Seq<LogV>>(ps@.map_values(|p: AttrParam| p@)),
            Err(e) => spec_params(ns@) == Err::<Seq<ParamV>, Seq<LogV>>(e@),
        },
{
    let ghost all = ns@.map_values(|n: NestedMeta| spec_param(n));
    let mut ps: Vec<AttrParam> = Vec::new();
    let mut i: usize = 0;
    proof {
        assert(ps@.map_values(|p: AttrParam| p@) =~= seq![]);
        assert(all.subrange(0, 0) =~= seq![]);
    }
    while i < ns.len()
        invariant
            i <= ns.len(),
            all == ns@.map_values(|n: NestedMeta| spec_param(n)),
            seq_first(all.subrange(0, i as int)) == Ok::<Seq<ParamV>, Seq<LogV>>(ps@.map_values(|p: AttrParam| p@)),
        decreases ns.len() - i,
    {
        let r = scan_param(&ns[i]);
        proof {
            lemma_seq_first_step(all, i as int);
        }
        match r {
            Err(e) => {
                proof {
                    lemma_seq_first_stops(all, i + 1);
                }
                return Err(e);
            },
            Ok(p) => {
                proof {
                    lemma_view_push(ps@, p);
                }
                ps.push(p);
            },
        }
        i = i + 1;
    }
    proof {
        assert(all.subrange(0, i as int) =~= all);
    }
    Ok(ps)
}

/// The canonical form of an annotation: a bare name, a name with a
/// parenthesized list, or a single top-level `key = value` pair (nameless).
pub open spec fn spec_attr(a: SAttribute) -> Result<AttrV, Seq<LogV>> {
    match a.meta {
        Err(l) => Err(seq![l@]),
        Ok(Meta::Path(p)) => match spec_non_generic_name(p) {
            Err(e) => Err(e),
            Ok(n) => Ok(AttrV { name: n, params: seq![] }),
        },
        Ok(Meta::List(p, ns)) => match spec_non_generic_name(p) {
            Err(e) => Err(e),
            Ok(n) => match spec_params(ns@) {
                Err(e) => Err(e),
                Ok(ps) => Ok(AttrV { name: n, params: ps }),
            },
        },
        Ok(Meta::NameValue(p, l)) => match spec_non_generic_name(p) {
            Err(e) => Err(e),
            Ok(k) => match spec_value(l) {
                Err(e) => Err(e),
                Ok(v) => Ok(AttrV { name: ""@, params: seq![ParamV::KeyValue(k, v)] }),
            },
        },
    }
}

pub fn scan_attr(a: &SAttribute) -> (r: LogResult<Attr>)
    ensures
        res_view(r) == spec_attr(*a),
{
    match &a.meta {
        Err(l) => {
            let mut v: Vec<crate::log::Log> = Vec::new();
            v.push(crate::log::Log { span: l.span, message: l.message.clone() });
            proof {
                assert(v@.map_values(|x: crate::log::Log| x@) =~= seq![l@]);
            }
            Err(ErrorLogs(v))
        },
        Ok(Meta::Path(p)) => {
            let n = scan_non_generic_name(p)?;
            let ps: Vec<AttrParam> = Vec::new();
            proof {
                assert(ps@.map_values(|p: AttrParam| p@) =~= seq![]);
            }
            Ok(Attr { name: n, params: ps })
        },
        Ok(Meta::List(p, ns)) => {
            let n = scan_non_generic_name(p)?;
            let ps = scan_params(ns)?;
            Ok(Attr { name: n, params: ps })
        },
        Ok(Meta::NameValue(p, l)) => {
            let k = scan_non_generic_name(p)?;
            let v = scan_value(l)?;
            let mut ps: Vec<AttrParam> = Vec::new();
            ps.push(AttrParam::KeyValue(k, v));
            proof {
                assert(ps@.map_values(|p: AttrParam| p@) =~= seq![ps@[0]@]);
            }
            Ok(Attr { name: String::from_str(""), params: ps })
        },
    }
}

impl AttrParam {
    /// The key of a bare-key parameter; empty for every other form.
    pub fn key(&self) -> (r: &str)
        ensures
            r@ == spec_key(self@),
    {
        match self {
            AttrParam::Key(k) => k.as_str(),
            _ => "",
        }
    }

    /// The value of a bare-value parameter.
    pub fn value(&self) -> (r: Option<&AttrValue>)
        ensures
            r == match self {
                AttrParam::Value(v) => Some(v),
                _ => None::<&AttrValue>,
            },
    {
        match self {
            AttrParam::Value(v) => Some(v),
            _ => None,
        }
    }
}

pub open spec fn spec_key(p: ParamV) -> Seq<char> {
    match p {
        ParamV::Key(k) => k,
        _ => ""@,
    }
}

// ----- REST facets -----

/// The key of an annotation's first parameter, empty where there is none.
pub open spec fn first_key(a: AttrV) -> Seq<char> {
    if a.params.len() > 0 {
        spec_key(a.params[0])
    } else {
        ""@
    }
}

/// The facet that a canonical annotation denotes, `None` for an annotation
/// that is not one of the facet vocabulary.
pub open spec fn spec_facet(a: AttrV, span: KSpan) -> Result<Option<FacetV>, Seq<LogV>> {
    let k = first_key(a);
    if a.name == "rest"@ && k == "in"@ {
        Ok(Some(FacetV::MessageIn))
    } else if a.name == "rest"@ && k == "out"@ {
        Ok(Some(FacetV::MessageOut))
    } else if a.name == "path"@ && k == ""@ {
        Ok(Some(FacetV::PathParam))
    } else if a.name == "query"@ && k == ""@ {
        Ok(Some(FacetV::QueryParam))
    } else if a.name == "body"@ && k == ""@ {
        Ok(Some(FacetV::BodyParam))
    } else if a.name == "status"@ {
        if a.params.len() > 0 && a.params[0] is Value && a.params[0]->Value_0 is I64 {
            Ok(Some(FacetV::Status(a.params[0]->Value_0->I64_0)))
        } else {
            fail(span, "badly formed attribute"@)
        }
    } else if a.name == "mime"@ {
        if a.params.len() > 0 && a.params[0] is Value && a.params[0]->Value_0 is String {
            Ok(Some(FacetV::MIME(a.params[0]->Value_0->String_0)))
        } else {
            fail(span, "badly formed attribute"@)
        }
    } else {
        Ok(None)
    }
}

/// Matches one canonical annotation against the facet table.
pub fn scan_facet(a: &Attr, span: KSpan) -> (r: LogResult<Option<KAttrREST>>)
    ensures
        opt_res_view(r) == spec_facet(a@, span),
{
    let n = a.name.as_str();
    let k: &str = if a.params.len() > 0 {
        a.params[0].key()
    } else {
        ""
    };
    proof {
        assert(k@ == first_key(a@));
    }
    if str_eq(n, "rest") && str_eq(k, "in") {
        return Ok(Some(KAttrREST::MessageIn));
    }
    if str_eq(n, "rest") && str_eq(k, "out") {
        return Ok(Some(KAttrREST::MessageOut));
    }
    if str_eq(n, "path") && str_eq(k, "") {
        return Ok(Some(KAttrREST::PathParam));
    }
    if str_eq(n, "query") && str_eq(k, "") {
        return Ok(Some(KAttrREST::QueryParam));
    }
    if str_eq(n, "body") && str_eq(k, "") {
        return Ok(Some(KAttrREST::BodyParam));
    }
    if str_eq(n, "status") {
        if a.params.len() > 0 {
            if let AttrParam::Value(AttrValue::I64(x)) = &a.params[0] {
                return Ok(Some(KAttrREST::Status(*x)));
            }
        }
        return err(span, "badly formed attribute");
    }
    if str_eq(n, "mime") {
        if a.params.len() > 0 {
            if let AttrParam::Value(AttrValue::String(x)) = &a.params[0] {
                return Ok(Some(KAttrREST::MIME(x.clone())));
            }
        }
        return err(span, "badly formed attribute");
    }
    Ok(None)
}

/// The facet of one raw annotation, if any.
pub open spec fn spec_attr_facet(a: SAttribute) -> Result<Option<FacetV>, Seq<LogV>> {
    match spec_attr(a) {
        Err(e) => Err(e),
        Ok(av) => spec_facet(av, a.span),
    }
}

/// The facets of a declaration's annotations, in order, or the first
/// diagnostic met.
pub open spec fn spec_facets(attrs: Seq<SAttribute>) -> Result<Seq<FacetV>, Seq<LogV>> {
    match seq_first(attrs.map_values(|a: SAttribute| spec_attr_facet(a))) {
        Err(e) => Err(e),
        Ok(os) => Ok(flatten_options(os)),
    }
}

/// Reads the REST facets of a declaration's annotations; annotations outside
/// the facet vocabulary are ignored.
pub fn scan_attrs(attrs: &Vec<SAttribute>) -> (r: LogResult<KAttrs>)
    ensures
        res_view(r) == spec_facets(attrs@),
{
    let ghost all = attrs@.map_values(|a: SAttribute| spec_attr_facet(a));
    let mut out: Vec<KAttrREST> = Vec::new();
    let ghost mut os: Seq<Option<FacetV>> = seq![];
    let mut i: usize = 0;
    proof {
        assert(out@.map_values(|f: KAttrREST| f@) =~= seq![]);
        assert(all.subrange(0, 0) =~= seq![]);
    }
    while i < attrs.len()
        invariant
            i <= attrs.len(),
            all == attrs@.map_values(|a: SAttribute| spec_attr_facet(a)),
            seq_first(all.subrange(0, i as int)) == Ok::<Seq<Option<FacetV>>, Seq<LogV>>(os),
            out@.map_values(|f: KAttrREST| f@) == flatten_options(os),
        decreases attrs.len() - i,
    {
        proof {
            lemma_seq_first_step(all, i as int);
            assert(all[i as int] == spec_attr_facet(attrs@[i as int]));
        }
        let r = match scan_attr(&attrs[i]) {
            Err(e) => Err(e),
            Ok(a) => scan_facet(&a, attrs[i].span),
        };
        match r {
            Err(e) => {
                proof {
                    lemma_seq_first_stops(all, i + 1);
                }
                return Err(e);
            },
            Ok(Some(f)) => {
                proof {
                    lemma_view_push(out@, f);
                    assert(os.push(Some(f@)).drop_last() =~= os);
                    os = os.push(Some(f@));
                }
                out.push(f);
            },
            Ok(None) => {
                proof {
                    assert(os.push(None).drop_last() =~= os);
                    assert(flatten_options(os.push(None)) =~= flatten_options(os));
                    os = os.push(None);
                }
            },
        }
        i = i + 1;
    }
    proof {
        assert(all.subrange(0, i as int) =~= all);
    }
    Ok(KAttrs { rest: out })
}

// ----- Doc comments -----

/// Whether a path is the single plain name `doc`.
pub open spec fn is_doc_path(p: MetaPath) -> bool {
    p.segments@.len() == 1 && !p.segments@[0].has_arguments && p.segments@[0].ident@ == "doc"@
}

/// The trimmed text of a doc-comment annotation; `None` for other annotations.
pub open spec fn spec_doc_line(a: SAttribute) -> Result<Option<Seq<char>>, Seq<LogV>> {
    if !is_doc_path(a.path) {
        Ok(None)
    } else {
        match a.meta {
            Ok(Meta::NameValue(p, Lit::Str(s))) => if is_doc_path(p) {
                Ok(Some(trimmed(s@)))
            } else {
                fail(a.span, "unexpected comment form"@)
            },
            _ => fail(a.span, "unexpected comment form"@),
        }
    }
}

fn is_doc(p: &MetaPath) -> (r: bool)
    ensures
        r == is_doc_path(*p),
{
    p.segments.len() == 1 && !p.segments[0].has_arguments && str_eq(p.segments[0].ident.as_str(), "doc")
}

pub fn scan_doc_line(a: &SAttribute) -> (r: LogResult<Option<String>>)
    ensures
        opt_res_view(r) == spec_doc_line(*a),
{
    if !is_doc(&a.path) {
        return Ok(None);
    }
    match &a.meta {
        Ok(Meta::NameValue(p, Lit::Str(s))) => {
            if is_doc(p) {
                Ok(Some(String::from_str(trim_str(s.as_str()))))
            } else {
                err(a.span, "unexpected comment form")
            }
        },
        _ => err(a.span, "unexpected comment form"),
    }
}

/// The doc comment of a declaration: its trimmed doc lines joined by line
/// breaks, or the first malformed doc annotation's diagnostic.
pub open spec fn spec_doc_comment(attrs: Seq<SAttribute>) -> Result<Seq<char>, Seq<LogV>> {
    match seq_first(attrs.map_values(|a: SAttribute| spec_doc_line(a))) {
        Err(e) => Err(e),
        Ok(os) => Ok(join_sep(flatten_options(os), "\n"@)),
    }
}

pub fn scan_doc_comment(attrs: &Vec<SAttribute>) -> (r: LogResult<String>)
    ensures
        res_view(r) == spec_doc_comment(attrs@),
{
    let ghost all = attrs@.map_values(|a: SAttribute| spec_doc_line(a));
    let mut lines: Vec<String> = Vec::new();
    let ghost mut os: Seq<Option<Seq<char>>> = seq![];
    let mut i: usize = 0;
    proof {
        assert(lines@.map_values(|s: String| s@) =~= seq![]);
        assert(all.subrange(0, 0) =~= seq![]);
    }
    while i < attrs.len()
        invariant
            i <= attrs.len(),
            all == attrs@.map_values(|a: SAttribute| spec_doc_line(a)),
            seq_first(all.subrange(0, i as int)) == Ok::<Seq<Option<Seq<char>>>, Seq<LogV>>(os),
            lines@.map_values(|s: String| s@) == flatten_options(os),
        decreases attrs.len() - i,
    {
        proof {
            lemma_seq_first_step(all, i as int);
            assert(all[i as int] == spec_doc_line(attrs@[i as int]));
        }
        match scan_doc_line(&attrs[i]) {
            Err(e) => {
                proof {
                    lemma_seq_first_stops(all, i + 1);
                }
                return Err(e);
            },
            Ok(Some(l)) => {
                proof {
                    lemma_view_push(lines@, l);
                    assert(os.push(Some(l@)).drop_last() =~= os);
                    os = os.push(Some(l@));
                }
                lines.push(l);
            },
            Ok(None) => {
                proof {
                    assert(os.push(None).drop_last() =~= os);
                    assert(flatten_options(os.push(None)) =~= flatten_options(os));
                    os = os.push(None);
                }
            },
        }
        i = i + 1;
    }
    proof {
        assert(all.subrange(0, i as int) =~= all);
    }
    Ok(join_with(&lines, "\n"))
}

} // verus!
