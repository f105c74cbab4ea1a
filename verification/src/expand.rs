//! The expansion of one annotated item: the arguments of the `fatality`
//! attribute are read first, then the item; an item with generic
//! parameters, an item that is neither an enum nor a struct, and an
//! annotation that does not resolve reject the expansion.

use vstd::prelude::*;
use crate::attr::{attr_of, Attr};
use crate::decl::{ItemBody, ItemDecl, VariantDecl};
use crate::plan::{
    enum_verdicts, kept_attrs, keep_mask, plan_enum, struct_verdict, struct_verdict_of, EnumPlan,
    Rejection, Verdict,
};

verus! {

/// The expansion plan of a struct.
#[derive(Debug)]
pub struct StructPlan {
    /// What `is_fatal` answers.
    pub verdict: Verdict,
    /// Which attributes of the struct stay on the emitted struct.
    pub keep: Vec<bool>,
    /// Whether the fatal and informational structs are generated.
    pub splitable: bool,
}

/// The expansion plan of an item.
pub enum ItemPlan {
    Enum(EnumPlan),
    Struct(StructPlan),
}

/// Why an expansion failed: the item was rejected, or it could not be read
/// as an item at all (with the reader's error).
#[derive(Debug)]
pub enum Failure<E> {
    Rejected(Rejection),
    Unparsed(E),
}

/// What planning the item `d` under the arguments `a` gives, short of the
/// enum plan itself: `Ok(None)` for an enum whose variants all resolve,
/// `Ok(Some(..))` with the verdict for a struct.
pub open spec fn item_outcome(a: Attr, d: ItemDecl) -> Result<Option<Verdict>, Rejection> {
    match d.body {
        ItemBody::Enum(e) => if d.has_generics {
            Err(Rejection::GenericsUnsupported)
        } else {
            match enum_verdicts(e.variants@) {
                Err(r) => Err(r),
                Ok(_) => Ok(None),
            }
        },
        ItemBody::Struct(v) => if d.has_generics {
            Err(Rejection::GenericsUnsupported)
        } else {
            match struct_verdict(v, a.splitable) {
                Err(r) => Err(r),
                Ok(verdict) => Ok(Some(verdict)),
            }
        },
        ItemBody::Other => Err(Rejection::UnsupportedItem),
    }
}

/// `p` is the plan of `d` under `a`, where `d` has one.
pub open spec fn plans(a: Attr, d: ItemDecl, p: ItemPlan) -> bool {
    match item_outcome(a, d) {
        Ok(None) => d.body matches ItemBody::Enum(e) && p matches ItemPlan::Enum(ep)
            && ep.well_formed() && enum_verdicts(e.variants@) == Ok::<Seq<Verdict>, Rejection>(
            ep.verdicts(),
        ) && ep.is_splitable() == a.splitable && ep.kept() == e.variants@.map_values(
            |v: VariantDecl| kept_attrs(v.attrs@),
        ),
        Ok(Some(verdict)) => d.body matches ItemBody::Struct(v) && p matches ItemPlan::Struct(sp)
            && sp.verdict == verdict && sp.keep@ == kept_attrs(v.attrs@) && sp.splitable
            == a.splitable,
        Err(_) => false,
    }
}

/// What the expansion of `item` under the attribute arguments `attr`
/// gives, short of the plan itself.
pub open spec fn outcome_of<E>(attr: Seq<char>, item: Result<ItemDecl, E>) -> Result<
    Option<Verdict>,
    Failure<E>,
> {
    match attr_of(attr) {
        Err(_) => Err(Failure::Rejected(Rejection::UnexpectedToken)),
        Ok(a) => match item {
            Err(e) => Err(Failure::Unparsed(e)),
            Ok(d) => match item_outcome(a, d) {
                Err(r) => Err(Failure::Rejected(r)),
                Ok(o) => Ok(o),
            },
        },
    }
}

/// `r` is the expansion of `item` under the attribute arguments `attr`.
pub open spec fn expands_to<E>(attr: Seq<char>, item: Result<ItemDecl, E>, r: Result<ItemPlan, Failure<E>>) -> bool {
    match outcome_of(attr, item) {
        Err(f) => r == Err::<ItemPlan, Failure<E>>(f),
        Ok(_) => item matches Ok(d) && attr_of(attr) matches Ok(a) && r matches Ok(p) && plans(a, d, p),
    }
}

/// Plans the item `d` under the arguments `a` of the `fatality` attribute.
pub fn plan_item(a: Attr, d: &ItemDecl) -> (r: Result<ItemPlan, Rejection>)
    ensures
        match item_outcome(a, *d) {
            Err(e) => r == Err::<ItemPlan, Rejection>(e),
            Ok(_) => r matches Ok(p) && plans(a, *d, p),
        },
{
    match &d.body {
        ItemBody::Enum(e) => {
            if d.has_generics {
                return Err(Rejection::GenericsUnsupported);
            }
            match plan_enum(&e.variants, a.splitable) {
                Ok(p) => Ok(ItemPlan::Enum(p)),
                Err(e) => Err(e),
            }
        },
        ItemBody::Struct(v) => {
            if d.has_generics {
                return Err(Rejection::GenericsUnsupported);
            }
            match struct_verdict_of(v, a.splitable) {
                Ok(verdict) => Ok(
                    ItemPlan::Struct(
                        StructPlan { verdict, keep: keep_mask(&v.attrs), splitable: a.splitable },
                    ),
                ),
                Err(e) => Err(e),
            }
        },
        ItemBody::Other => Err(Rejection::UnsupportedItem),
    }
}

/// Plans the expansion of `item`, which the caller has read as an item, or
/// failed to, under the arguments `attr` of the `fatality` attribute.
pub fn expand(attr: &str, item: &Result<ItemDecl, String>) -> (r: Result<ItemPlan, Failure<String>>)
    ensures
        expands_to(attr@, *item, r),
{
    let a: Attr = match Attr::parse(attr) {
        Ok(a) => a,
        Err(_) => {
            return Err(Failure::Rejected(Rejection::UnexpectedToken));
        },
    };
    match item {
        Err(e) => Err(Failure::Unparsed(e.clone())),
        Ok(d) => match plan_item(a, d) {
            Ok(p) => Ok(p),
            Err(r) => Err(Failure::Rejected(r)),
        },
    }
}

} // verus!
