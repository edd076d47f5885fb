use vstd::prelude::*;
use crate::model::{ItemV, KItem, KMod, ModV};

verus! {

/// The name of an item.
pub open spec fn item_name(it: ItemV) -> Seq<char> {
    match it {
        ItemV::Mod(x) => x.name,
        ItemV::New(x) => x.name,
        ItemV::Enum(x) => x.name,
        ItemV::Sum(x) => x.name,
        ItemV::Prod(x) => x.name,
        ItemV::Func(x) => x.name,
    }
}

/// A module without the items named in `names`, at any depth.
pub open spec fn skip_mod(m: ModV, names: Set<Seq<char>>) -> ModV
    decreases m,
{
    ModV { span: m.span, name: m.name, comment: m.comment, items: skip_items(m.items, names) }
}

/// The items whose names are not in `names`, each with its own skipped items removed.
pub open spec fn skip_items(items: Seq<ItemV>, names: Set<Seq<char>>) -> Seq<ItemV>
    decreases items,
{
    if items.len() == 0 {
        seq![]
    } else {
        skip_items(items.subrange(0, items.len() - 1), names) + if names.contains(item_name(items[items.len() - 1])) {
            seq![]
        } else {
            seq![skip_item(items[items.len() - 1], names)]
        }
    }
}

/// An item with the skipped items inside it removed.
pub open spec fn skip_item(it: ItemV, names: Set<Seq<char>>) -> ItemV
    decreases it,
{
    match it {
        ItemV::Mod(m) => ItemV::Mod(skip_mod(m, names)),
        _ => it,
    }
}

/// The names of a list, as a set.
pub open spec fn name_set(names: Seq<String>) -> Set<Seq<char>> {
    names.map_values(|s: String| s@).to_set()
}

fn contains_name(names: &Vec<String>, name: &str) -> (r: bool)
    ensures
        r == name_set(names@).contains(name@),
{
    let mut i: usize = 0;
    while i < names.len()
        invariant
            i <= names.len(),
            forall|j: int| 0 <= j < i ==> (#[trigger] names@[j])@ != name@,
        decreases names.len() - i,
    {
        if crate::text::str_eq(names[i].as_str(), name) {
            proof {
                assert(names@.map_values(|s: String| s@)[i as int] == name@);
            }
            return true;
        }
        i = i + 1;
    }
    proof {
        if name_set(names@).contains(name@) {
            let j = names@.map_values(|s: String| s@).index_of(name@);
            assert(names@[j]@ == name@);
        }
    }
    false
}

impl KItem {
    /// The name of the item.
    pub fn name(&self) -> (r: &str)
        ensures
            r@ == item_name(self@),
    {
        match self {
            KItem::Mod(x) => x.name.as_str(),
            KItem::New(x) => x.name.as_str(),
            KItem::Enum(x) => x.name.as_str(),
            KItem::Sum(x) => x.name.as_str(),
            KItem::Prod(x) => x.name.as_str(),
            KItem::Func(x) => x.name.as_str(),
        }
    }

    /// The span of the item.
    pub fn span(&self) -> (r: &crate::span::KSpan)
        ensures
            *r == match self@ {
                ItemV::Mod(x) => x.span,
                ItemV::New(x) => x.span,
                ItemV::Enum(x) => x.span,
                ItemV::Sum(x) => x.span,
                ItemV::Prod(x) => x.span,
                ItemV::Func(x) => x.span,
            },
    {
        match self {
            KItem::Mod(x) => &x.span,
            KItem::New(x) => &x.span,
            KItem::Enum(x) => &x.span,
            KItem::Sum(x) => &x.span,
            KItem::Prod(x) => &x.span,
            KItem::Func(x) => &x.span,
        }
    }

    fn retain_only_non_skipping_items_in_set(&mut self, names: &Vec<String>)
        ensures
            final(self)@ == skip_item(old(self)@, name_set(names@)),
        decreases *old(self),
    {
        match self {
            KItem::Mod(x) => x.retain_only_non_skipping_items_in_set(names),
            _ => {},
        }
    }
}

impl KMod {
    /// Removes every item, at any depth, whose name is in `skippings`.
    pub fn retain_only_non_skipping_items(&mut self, skippings: &Vec<String>)
        ensures
            final(self)@ == skip_mod(old(self)@, name_set(skippings@)),
    {
        self.retain_only_non_skipping_items_in_set(skippings)
    }

    fn retain_only_non_skipping_items_in_set(&mut self, names: &Vec<String>)
        ensures
            final(self)@ == skip_mod(old(self)@, name_set(names@)),
        decreases *old(self),
    {
        let ghost orig = self.items@;
        let ghost n = name_set(names@);
        let mut rest: Vec<KItem> = Vec::new();
        std::mem::swap(&mut self.items, &mut rest);
        let mut kept: Vec<KItem> = Vec::new();
        let ghost mut k: int = 0;
        while rest.len() > 0
            invariant
                0 <= k <= orig.len(),
                orig == old(self).items@,
                n == name_set(names@),
                rest@ == orig.subrange(k, orig.len() as int),
                kept@.map_values(|x: KItem| x@) == skip_items(
                    orig.subrange(0, k).map_values(|x: KItem| x@),
                    n,
                ),
            decreases rest.len(),
        {
            let mut it = rest.remove(0);
            proof {
                assert(it == orig[k]);
                assert(decreases_to!(*old(self) => orig[k]));
                let pre = orig.subrange(0, k).map_values(|x: KItem| x@);
                let post = orig.subrange(0, k + 1).map_values(|x: KItem| x@);
                assert(post.subrange(0, post.len() - 1) =~= pre);
                assert(post[post.len() - 1] == it@);
            }
            let ghost it0 = it@;
            let ghost pre = orig.subrange(0, k).map_values(|x: KItem| x@);
            let ghost post = orig.subrange(0, k + 1).map_values(|x: KItem| x@);
            if !contains_name(names, it.name()) {
                it.retain_only_non_skipping_items_in_set(names);
                proof {
                    lemma_push_view(kept@, it);
                    assert(skip_items(post, n) == skip_items(pre, n) + seq![skip_item(it0, n)]);
                }
                kept.push(it);
            } else {
                proof {
                    assert(skip_items(post, n) =~= skip_items(pre, n));
                }
            }
            proof {
                k = k + 1;
                assert(rest@ =~= orig.subrange(k, orig.len() as int));
            }
        }
        proof {
            assert(orig.subrange(0, k) =~= orig);
            assert(old(self)@.items =~= orig.map_values(|x: KItem| x@));
        }
        self.items = kept;
        proof {
            assert(self@.items =~= kept@.map_values(|x: KItem| x@));
        }
    }
}

proof fn lemma_push_view(s: Seq<KItem>, x: KItem)
    ensures
        s.push(x).map_values(|y: KItem| y@) == s.map_values(|y: KItem| y@).push(x@),
{
    assert(s.push(x).map_values(|y: KItem| y@) =~= s.map_values(|y: KItem| y@).push(x@));
}

/// Skip idempotence: removing the same names twice gives the same module as
/// removing them once.
pub proof fn lemma_skip_idempotent(m: ModV, names: Set<Seq<char>>)
    ensures
        skip_mod(skip_mod(m, names), names) == skip_mod(m, names),
    decreases m,
{
    lemma_skip_items_idempotent(m.items, names);
}

pub proof fn lemma_skip_items_idempotent(items: Seq<ItemV>, names: Set<Seq<char>>)
    ensures
        skip_items(skip_items(items, names), names) == skip_items(items, names),
    decreases items,
{
    if items.len() > 0 {
        let p = items.subrange(0, items.len() - 1);
        let x = items[items.len() - 1];
        lemma_skip_items_idempotent(p, names);
        let sp = skip_items(p, names);
        if !names.contains(item_name(x)) {
            let y = skip_item(x, names);
            let s = sp + seq![y];
            assert(s.subrange(0, s.len() - 1) =~= sp);
            assert(s[s.len() - 1] == y);
            lemma_skip_item_idempotent(x, names);
        } else {
            assert(skip_items(items, names) =~= sp);
        }
    }
}

pub proof fn lemma_skip_item_idempotent(it: ItemV, names: Set<Seq<char>>)
    ensures
        skip_item(skip_item(it, names), names) == skip_item(it, names),
    decreases it,
{
    if let ItemV::Mod(m) = it {
        lemma_skip_idempotent(m, names);
    }
}

} // verus!
