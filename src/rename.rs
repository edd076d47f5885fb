use vstd::prelude::*;
use crate::model::{
    CaseV, EnumV, FieldV, ItemV, KEnumType, KEnumTypeCase, KItem, KMod, KProdType, KSumType, ModV, ProdV, SumV,
    VariantV,
};

verus! {

/// A case-conversion rule for names.
#[derive(Clone, Copy, Debug, PartialEq, Eq, Structural)]
pub enum Rule {
    /// Lower camel case, such as `livingAddress`.
    CamelCase,
}

/// Which names to convert, and by which rule.
#[derive(Clone, Copy, Debug, Default, PartialEq, Eq, Structural)]
pub struct Options {
    /// Enumeration case names.
    pub case: Option<Rule>,
    /// Sum type variant names.
    pub variant: Option<Rule>,
    /// Record field names.
    pub field: Option<Rule>,
}

// ----- Characters -----

pub open spec fn lower_char(c: char) -> char {
    if 'A' <= c && c <= 'Z' {
        ((c as u32) + 32) as char
    } else {
        c
    }
}

pub open spec fn upper_char(c: char) -> char {
    if 'a' <= c && c <= 'z' {
        ((c as u32) - 32) as char
    } else {
        c
    }
}

/// Relies on `char::to_ascii_lowercase`: maps `A`..=`Z` to `a`..=`z`, keeps
/// every other character.
#[verifier::external_body]
fn to_lower(c: char) -> (r: char)
    ensures
        r == lower_char(c),
{
    c.to_ascii_lowercase()
}

/// Relies on `char::to_ascii_uppercase`: maps `a`..=`z` to `A`..=`Z`, keeps
/// every other character.
#[verifier::external_body]
fn to_upper(c: char) -> (r: char)
    ensures
        r == upper_char(c),
{
    c.to_ascii_uppercase()
}

// ----- Lower camel case -----

/// The word separator.
pub open spec fn is_sep(c: char) -> bool {
    c == '_'
}

/// The text with separators removed and each character that followed a
/// separator capitalized.
pub open spec fn join_words(s: Seq<char>) -> Seq<char>
    decreases s.len(),
{
    if s.len() == 0 {
        seq![]
    } else {
        let p = s.drop_last();
        let c = s.last();
        join_words(p) + if is_sep(c) {
            seq![]
        } else if p.len() > 0 && is_sep(p.last()) {
            seq![upper_char(c)]
        } else {
            seq![c]
        }
    }
}

/// The text with its first character lower-cased.
pub open spec fn lower_first(s: Seq<char>) -> Seq<char> {
    if s.len() == 0 {
        s
    } else {
        s.update(0, lower_char(s[0]))
    }
}

/// The lower camel case of a name: split at separators, lower-case the first
/// letter of the first word, capitalize the first letter of every later word,
/// and concatenate.
pub open spec fn camel(s: Seq<char>) -> Seq<char> {
    lower_first(join_words(s))
}

/// Converts a name to lower camel case.
pub fn to_camel_case(n: &str) -> (r: String)
    ensures
        r@ == camel(n@),
{
    let len = n.unicode_len();
    let mut out = String::new();
    let mut after_sep = false;
    let mut i: usize = 0;
    while i < len
        invariant
            len == n@.len(),
            i <= len,
            out@ == lower_first(join_words(n@.subrange(0, i as int))),
            after_sep == (i > 0 && is_sep(n@[i - 1])),
        decreases len - i,
    {
        let c = n.get_char(i);
        let ghost before = out@;
        let ghost jw = join_words(n@.subrange(0, i as int));
        proof {
            let s = n@.subrange(0, i + 1);
            assert(s.drop_last() =~= n@.subrange(0, i as int));
            assert(s.last() == c);
        }
        if c != '_' {
            let d = if after_sep {
                to_upper(c)
            } else {
                c
            };
            if out.as_str().unicode_len() == 0 {
                crate::text::push_char(&mut out, to_lower(d));
                proof {
                    assert(jw.len() == 0);
                    assert(out@ =~= lower_first(jw.push(d)));
                }
            } else {
                crate::text::push_char(&mut out, d);
                proof {
                    assert(out@ =~= lower_first(jw.push(d)));
                }
            }
            proof {
                assert(join_words(n@.subrange(0, i + 1)) =~= jw.push(d));
            }
        } else {
            proof {
                assert(join_words(n@.subrange(0, i + 1)) =~= jw);
            }
        }
        after_sep = c == '_';
        i = i + 1;
    }
    proof {
        assert(n@.subrange(0, len as int) =~= n@);
    }
    out
}

pub open spec fn no_sep(s: Seq<char>) -> bool {
    forall|i: int| 0 <= i < s.len() ==> !is_sep(#[trigger] s[i])
}

proof fn lemma_join_words_no_sep(s: Seq<char>)
    ensures
        no_sep(join_words(s)),
    decreases s.len(),
{
    if s.len() > 0 {
        lemma_join_words_no_sep(s.drop_last());
    }
}

proof fn lemma_join_words_identity(s: Seq<char>)
    requires
        no_sep(s),
    ensures
        join_words(s) == s,
    decreases s.len(),
{
    if s.len() > 0 {
        lemma_join_words_identity(s.drop_last());
        assert(s.drop_last().push(s.last()) =~= s);
    }
}

/// Rename idempotence on one name: converting to lower camel case twice gives
/// the same name as converting once.
pub proof fn lemma_camel_idempotent(s: Seq<char>)
    ensures
        camel(camel(s)) == camel(s),
{
    let j = join_words(s);
    lemma_join_words_no_sep(s);
    let l = lower_first(j);
    assert(no_sep(l));
    lemma_join_words_identity(l);
    assert(lower_first(l) =~= l);
}

// ----- Renaming the model -----

pub open spec fn rename_name(rule: Option<Rule>, n: Seq<char>) -> Seq<char> {
    match rule {
        Some(Rule::CamelCase) => camel(n),
        None => n,
    }
}

pub open spec fn rename_mod(m: ModV, o: Options) -> ModV
    decreases m,
{
    ModV {
        span: m.span,
        name: m.name,
        comment: m.comment,
        items: Seq::new(
            m.items.len(),
            |i: int|
                if 0 <= i < m.items.len() {
                    rename_item(m.items[i], o)
                } else {
                    m.items[i]
                },
        ),
    }
}

pub open spec fn rename_item(it: ItemV, o: Options) -> ItemV
    decreases it,
{
    match it {
        ItemV::Mod(m) => ItemV::Mod(rename_mod(m, o)),
        ItemV::Enum(e) => ItemV::Enum(
            EnumV {
                cases: e.cases.map_values(|c: CaseV| CaseV { name: rename_name(o.case, c.name), ..c }),
                ..e
            },
        ),
        ItemV::Sum(x) => ItemV::Sum(
            SumV {
                variants: x.variants.map_values(
                    |v: VariantV| VariantV { name: rename_name(o.variant, v.name), ..v },
                ),
                ..x
            },
        ),
        ItemV::Prod(x) => ItemV::Prod(
            ProdV { fields: x.fields.map_values(|f: FieldV| FieldV { name: rename_name(o.field, f.name), ..f }), ..x },
        ),
        _ => it,
    }
}

proof fn lemma_rename_name_idempotent(rule: Option<Rule>, n: Seq<char>)
    ensures
        rename_name(rule, rename_name(rule, n)) == rename_name(rule, n),
{
    lemma_camel_idempotent(n);
}

/// Rename idempotence: renaming a module twice by the same options gives the
/// same module as renaming it once.
pub proof fn lemma_rename_idempotent(m: ModV, o: Options)
    ensures
        rename_mod(rename_mod(m, o), o) == rename_mod(m, o),
    decreases m,
{
    let once = rename_mod(m, o);
    assert forall|i: int| 0 <= i < m.items.len() implies rename_item(#[trigger] once.items[i], o) == once.items[i] by {
        lemma_rename_item_idempotent(m.items[i], o);
    }
    assert(rename_mod(once, o).items =~= once.items);
}

pub proof fn lemma_rename_item_idempotent(it: ItemV, o: Options)
    ensures
        rename_item(rename_item(it, o), o) == rename_item(it, o),
    decreases it,
{
    match it {
        ItemV::Mod(m) => {
            lemma_rename_idempotent(m, o);
        },
        ItemV::Enum(e) => {
            let once = e.cases.map_values(|c: CaseV| CaseV { name: rename_name(o.case, c.name), ..c });
            let twice = once.map_values(|c: CaseV| CaseV { name: rename_name(o.case, c.name), ..c });
            assert forall|i: int| 0 <= i < once.len() implies #[trigger] twice[i] == once[i] by {
                lemma_rename_name_idempotent(o.case, e.cases[i].name);
            }
            assert(twice =~= once);
        },
        ItemV::Sum(x) => {
            let once = x.variants.map_values(|v: VariantV| VariantV { name: rename_name(o.variant, v.name), ..v });
            let twice = once.map_values(|v: VariantV| VariantV { name: rename_name(o.variant, v.name), ..v });
            assert forall|i: int| 0 <= i < once.len() implies #[trigger] twice[i] == once[i] by {
                lemma_rename_name_idempotent(o.variant, x.variants[i].name);
            }
            assert(twice =~= once);
        },
        ItemV::Prod(x) => {
            let once = x.fields.map_values(|f: FieldV| FieldV { name: rename_name(o.field, f.name), ..f });
            let twice = once.map_values(|f: FieldV| FieldV { name: rename_name(o.field, f.name), ..f });
            assert forall|i: int| 0 <= i < once.len() implies #[trigger] twice[i] == once[i] by {
                lemma_rename_name_idempotent(o.field, x.fields[i].name);
            }
            assert(twice =~= once);
        },
        _ => {},
    }
}

fn rename_with(rule: Option<Rule>, n: &String) -> (r: String)
    ensures
        r@ == rename_name(rule, n@),
{
    match rule {
        Some(Rule::CamelCase) => to_camel_case(n.as_str()),
        None => n.clone(),
    }
}

impl KMod {
    /// Converts enumeration case, variant and field names by the selected rules.
    pub fn rename(&mut self, options: &Options)
        ensures
            final(self)@ == rename_mod(old(self)@, *options),
        decreases *old(self),
    {
        let ghost orig = self.items@;
        let mut rest: Vec<KItem> = Vec::new();
        std::mem::swap(&mut self.items, &mut rest);
        let mut done: Vec<KItem> = Vec::new();
        let ghost mut k: int = 0;
        while rest.len() > 0
            invariant
                0 <= k <= orig.len(),
                orig == old(self).items@,
                rest@ == orig.subrange(k, orig.len() as int),
                done@.len() == k,
                forall|j: int| 0 <= j < k ==> (#[trigger] done@[j])@ == rename_item(orig[j]@, *options),
            decreases rest.len(),
        {
            let mut it = rest.remove(0);
            proof {
                assert(it == orig[k]);
                assert(decreases_to!(*old(self) => orig[k]));
            }
            it.rename(options);
            done.push(it);
            proof {
                k = k + 1;
                assert(rest@ =~= orig.subrange(k, orig.len() as int));
            }
        }
        self.items = done;
        proof {
            assert(self@.items =~= rename_mod(old(self)@, *options).items);
        }
    }
}

impl KItem {
    fn rename(&mut self, options: &Options)
        ensures
            final(self)@ == rename_item(old(self)@, *options),
        decreases *old(self),
    {
        match self {
            KItem::Mod(x) => x.rename(options),
            KItem::Enum(x) => x.rename(options),
            KItem::Sum(x) => x.rename(options),
            KItem::Prod(x) => x.rename(options),
            _ => {},
        }
    }
}

impl KEnumType {
    fn rename(&mut self, options: &Options)
        ensures
            final(self)@ == (EnumV {
                cases: old(self)@.cases.map_values(|c: CaseV| CaseV { name: rename_name(options.case, c.name), ..c }),
                ..old(self)@
            }),
    {
        let mut i: usize = 0;
        while i < self.cases.len()
            invariant
                i <= self.cases.len(),
                self.cases.len() == old(self).cases.len(),
                self.span == old(self).span,
                self.name == old(self).name,
                self.comment == old(self).comment,
                forall|j: int| 0 <= j < i ==> (#[trigger] self.cases@[j])@ == (CaseV { name: rename_name(options.case, old(self).cases@[j]@.name), ..old(self).cases@[j]@ }),
                forall|j: int| i <= j < self.cases.len() ==> (#[trigger] self.cases@[j]) == old(self).cases@[j],
            decreases self.cases.len() - i,
        {
            let n = rename_with(options.case, &self.cases[i].name);
            let c = KEnumTypeCase { span: self.cases[i].span, name: n, comment: self.cases[i].comment.clone() };
            self.cases.set(i, c);
            i = i + 1;
        }
        proof {
            assert(self@.cases =~= old(self)@.cases.map_values(|c: CaseV| CaseV { name: rename_name(options.case, c.name), ..c }));
        }
    }
}

impl KSumType {
    fn rename(&mut self, options: &Options)
        ensures
            final(self)@ == (SumV {
                variants: old(self)@.variants.map_values(
                    |v: VariantV| VariantV { name: rename_name(options.variant, v.name), ..v },
                ),
                ..old(self)@
            }),
    {
        let mut i: usize = 0;
        while i < self.variants.len()
            invariant
                i <= self.variants.len(),
                self.variants.len() == old(self).variants.len(),
                self.span == old(self).span,
                self.name == old(self).name,
                self.comment == old(self).comment,
                self.serialization == old(self).serialization,
                self.attrs == old(self).attrs,
                forall|j: int| 0 <= j < i ==> (#[trigger] self.variants@[j])@ == (VariantV { name: rename_name(options.variant, old(self).variants@[j]@.name), ..old(self).variants@[j]@ }),
                forall|j: int| i <= j < self.variants.len() ==> (#[trigger] self.variants@[j]) == old(self).variants@[j],
            decreases self.variants.len() - i,
        {
            let n = rename_with(options.variant, &self.variants[i].name);
            let mut v = self.variants.remove(i);
            v.name = n;
            self.variants.insert(i, v);
            i = i + 1;
        }
        proof {
            assert(self@.variants =~= old(self)@.variants.map_values(
                |v: VariantV| VariantV { name: rename_name(options.variant, v.name), ..v },
            ));
        }
    }
}

impl KProdType {
    fn rename(&mut self, options: &Options)
        ensures
            final(self)@ == (ProdV {
                fields: old(self)@.fields.map_values(|f: FieldV| FieldV { name: rename_name(options.field, f.name), ..f }),
                ..old(self)@
            }),
    {
        let mut i: usize = 0;
        while i < self.fields.len()
            invariant
                i <= self.fields.len(),
                self.fields.len() == old(self).fields.len(),
                self.span == old(self).span,
                self.name == old(self).name,
                self.comment == old(self).comment,
                self.attrs == old(self).attrs,
                forall|j: int| 0 <= j < i ==> (#[trigger] self.fields@[j])@ == (FieldV { name: rename_name(options.field, old(self).fields@[j]@.name), ..old(self).fields@[j]@ }),
                forall|j: int| i <= j < self.fields.len() ==> (#[trigger] self.fields@[j]) == old(self).fields@[j],
            decreases self.fields.len() - i,
        {
            let n = rename_with(options.field, &self.fields[i].name);
            let mut f = self.fields.remove(i);
            f.name = n;
            self.fields.insert(i, f);
            i = i + 1;
        }
        proof {
            assert(self@.fields =~= old(self)@.fields.map_values(|f: FieldV| FieldV { name: rename_name(options.field, f.name), ..f }));
        }
    }
}

} // verus!
