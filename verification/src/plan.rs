//! The decisions of the expansion: for every variant what `is_fatal`
//! answers (a constant, or the answer of a forwarded field), which
//! attributes stay on the emitted item, and for a `splitable` enum which
//! variants make up its fatal and its informational part.

use vstd::prelude::*;
use crate::attr::{attribute_kind, attribute_kind_of, AttrError, AttributeKind, ResolutionMode};
use crate::decl::{
    first_index, forward_field, forward_target, marked_source_pred, named_source_pred, resolution,
    resolution_of, VariantDecl,
};

verus! {

/// What `is_fatal` answers for a variant (or a struct).
#[derive(Clone, Copy, Debug, PartialEq, Eq, Structural)]
pub enum Verdict {
    /// Always `false`.
    Jfyi,
    /// Always `true`.
    Fatal,
    /// The answer of the inner error held in the field with this index.
    Forward(usize),
}

/// Why an item cannot be expanded.
#[derive(Clone, Copy, Debug, PartialEq, Eq, Structural)]
pub enum Rejection {
    /// The `fatality` attribute holds something else than nothing or `splitable`.
    UnexpectedToken,
    /// The item has generic parameters.
    GenericsUnsupported,
    /// The item is neither an enum nor a struct.
    UnsupportedItem,
    /// A `#[fatal(..)]` holds something else than `forward`, `true` or `false`.
    ExpectedResolutionMode,
    /// `#[fatal(forward)]` where no field holds an inner error.
    NothingToForward,
    /// A `splitable` struct whose fatality is not forwarded.
    SplitableStruct,
}

impl Rejection {
    /// The message of the compile error that reports this rejection.
    pub fn message(&self) -> (r: &'static str)
        ensures
            r@ == message_of(*self),
    {
        match self {
            Rejection::UnexpectedToken => "unexpected token",
            Rejection::GenericsUnsupported => "Generics  `enum`-types are currently supported",
            Rejection::UnsupportedItem => "Only `enum` and `struct` types are supported",
            Rejection::ExpectedResolutionMode => "expected `forward`, `true` or `false`",
            Rejection::NothingToForward => "`#[fatal(forward)]` needs a field to forward to",
            Rejection::SplitableStruct => "Cannot use `splitable` on a `struct`",
        }
    }
}

/// The message of the compile error that reports a rejection.
pub open spec fn message_of(r: Rejection) -> Seq<char> {
    match r {
        Rejection::UnexpectedToken => "unexpected token"@,
        Rejection::GenericsUnsupported => "Generics  `enum`-types are currently supported"@,
        Rejection::UnsupportedItem => "Only `enum` and `struct` types are supported"@,
        Rejection::ExpectedResolutionMode => "expected `forward`, `true` or `false`"@,
        Rejection::NothingToForward => "`#[fatal(forward)]` needs a field to forward to"@,
        Rejection::SplitableStruct => "Cannot use `splitable` on a `struct`"@,
    }
}

/// A verdict that puts the variant into the fatal part of a split.
pub open spec fn goes_fatal(v: Verdict) -> bool {
    v is Fatal || v is Forward
}

/// A verdict that puts the variant into the informational part of a split.
pub open spec fn goes_jfyi(v: Verdict) -> bool {
    v is Jfyi || v is Forward
}

/// The verdict that a resolution mode gives, `target` being the field that
/// a forward would ask.
pub open spec fn verdict_for(m: ResolutionMode, target: Option<int>) -> Result<Verdict, Rejection> {
    match m {
        ResolutionMode::NoAnnotation => Ok(Verdict::Jfyi),
        ResolutionMode::Fatal => Ok(Verdict::Fatal),
        ResolutionMode::WithExplicitBool(b) => if b {
            Ok(Verdict::Fatal)
        } else {
            Ok(Verdict::Jfyi)
        },
        ResolutionMode::Forward => match target {
            Some(k) => Ok(Verdict::Forward(k as usize)),
            None => Err(Rejection::NothingToForward),
        },
    }
}

/// The verdict of an enum variant.
pub open spec fn variant_verdict(v: VariantDecl) -> Result<Verdict, Rejection> {
    match resolution_of(v.attrs@) {
        Err(_) => Err(Rejection::ExpectedResolutionMode),
        Ok(m) => verdict_for(m, forward_field(v)),
    }
}

/// The verdict of a struct.  A `splitable` struct splits its inner error,
/// so its fatality is forwarded: without annotation it forwards, and any
/// other annotation than `#[fatal(forward)]` is refused.
pub open spec fn struct_verdict(v: VariantDecl, splitable: bool) -> Result<Verdict, Rejection> {
    match resolution_of(v.attrs@) {
        Err(_) => Err(Rejection::ExpectedResolutionMode),
        Ok(m) => if splitable {
            match m {
                ResolutionMode::NoAnnotation => verdict_for(ResolutionMode::Forward, forward_field(v)),
                ResolutionMode::Forward => verdict_for(ResolutionMode::Forward, forward_field(v)),
                _ => Err(Rejection::SplitableStruct),
            }
        } else {
            verdict_for(m, forward_field(v))
        },
    }
}

/// An attribute that the expansion consumes: every `fatal` attribute.
pub open spec fn consumed(k: AttributeKind) -> bool {
    k is Fatal || k is MalformedFatal
}

/// Which attributes stay on the emitted item: all but the `fatal` ones.
pub open spec fn kept_attrs(attrs: Seq<String>) -> Seq<bool> {
    attrs.map_values(|a: String| !consumed(attribute_kind_of(a@)))
}

/// The verdicts of all variants, or the rejection of the first variant
/// that has none.
pub open spec fn enum_verdicts(vs: Seq<VariantDecl>) -> Result<Seq<Verdict>, Rejection>
    decreases vs.len(),
{
    if vs.len() == 0 {
        Ok(Seq::empty())
    } else {
        match enum_verdicts(vs.drop_last()) {
            Err(e) => Err(e),
            Ok(prefix) => match variant_verdict(vs.last()) {
                Err(e) => Err(e),
                Ok(v) => Ok(prefix.push(v)),
            },
        }
    }
}

/// The verdict of a variant, or the reason it has none.
pub fn verdict(v: &VariantDecl) -> (r: Result<Verdict, Rejection>)
    ensures
        r == variant_verdict(*v),
{
    let t = forward_target(v);
    match resolution(&v.attrs) {
        Err(_) => Err(Rejection::ExpectedResolutionMode),
        Ok(m) => match m {
            ResolutionMode::NoAnnotation => Ok(Verdict::Jfyi),
            ResolutionMode::Fatal => Ok(Verdict::Fatal),
            ResolutionMode::WithExplicitBool(b) => if b {
                Ok(Verdict::Fatal)
            } else {
                Ok(Verdict::Jfyi)
            },
            ResolutionMode::Forward => match t {
                Some(k) => Ok(Verdict::Forward(k)),
                None => Err(Rejection::NothingToForward),
            },
        },
    }
}

/// The verdict of a struct, or the reason it has none.
pub fn struct_verdict_of(v: &VariantDecl, splitable: bool) -> (r: Result<Verdict, Rejection>)
    ensures
        r == struct_verdict(*v, splitable),
{
    let t = forward_target(v);
    let forwarded = match t {
        Some(k) => Ok(Verdict::Forward(k)),
        None => Err(Rejection::NothingToForward),
    };
    match resolution(&v.attrs) {
        Err(_) => Err(Rejection::ExpectedResolutionMode),
        Ok(m) => if splitable {
            match m {
                ResolutionMode::NoAnnotation => forwarded,
                ResolutionMode::Forward => forwarded,
                _ => Err(Rejection::SplitableStruct),
            }
        } else {
            match m {
                ResolutionMode::NoAnnotation => Ok(Verdict::Jfyi),
                ResolutionMode::Fatal => Ok(Verdict::Fatal),
                ResolutionMode::WithExplicitBool(b) => if b {
                    Ok(Verdict::Fatal)
                } else {
                    Ok(Verdict::Jfyi)
                },
                ResolutionMode::Forward => forwarded,
            }
        },
    }
}

/// For each attribute, whether it stays on the emitted item.
pub fn keep_mask(attrs: &Vec<String>) -> (r: Vec<bool>)
    ensures
        r@ == kept_attrs(attrs@),
{
    let mut r: Vec<bool> = Vec::new();
    let mut i: usize = 0;
    while i < attrs.len()
        invariant
            i <= attrs@.len(),
            r@ == kept_attrs(attrs@.take(i as int)),
        decreases attrs@.len() - i,
    {
        let k = attribute_kind(attrs[i].as_str());
        let stays = match k {
            AttributeKind::Fatal(_) => false,
            AttributeKind::MalformedFatal => false,
            _ => true,
        };
        r.push(stays);
        assert(attrs@.take(i + 1) =~= attrs@.take(i as int).push(attrs@[i as int]));
        i = i + 1;
        assert(r@ =~= kept_attrs(attrs@.take(i as int)));
    }
    assert(attrs@.take(i as int) =~= attrs@);
    r
}

/// The expansion plan of an enum.
pub struct EnumPlan {
    verdicts: Vec<Verdict>,
    keep: Vec<Vec<bool>>,
    splitable: bool,
    fatal_variants: Vec<usize>,
    jfyi_variants: Vec<usize>,
    fatal_index: Vec<Option<usize>>,
    jfyi_index: Vec<Option<usize>>,
}

/// `part` lists, in increasing order, exactly the indices below
/// `verdicts.len()` whose verdict satisfies `p`, and `index` gives each such
/// index its place in `part`.
pub open spec fn is_part(
    verdicts: Seq<Verdict>,
    p: spec_fn(Verdict) -> bool,
    part: Seq<usize>,
    index: Seq<Option<usize>>,
) -> bool {
    &&& index.len() == verdicts.len()
    &&& forall|i: int|
        0 <= i < verdicts.len() ==> ((#[trigger] index[i] is Some) <==> p(verdicts[i]))
    &&& forall|i: int|
        0 <= i < verdicts.len() && index[i] is Some ==> (#[trigger] index[i]).unwrap() < part.len()
            && part[index[i].unwrap() as int] == i
    &&& forall|k: int|
        0 <= k < part.len() ==> (#[trigger] part[k]) < verdicts.len() && index[part[k] as int]
            == Some(k as usize)
    &&& forall|k1: int, k2: int| 0 <= k1 < k2 < part.len() ==> part[k1] < part[k2]
}

pub open spec fn goes_fatal_pred() -> spec_fn(Verdict) -> bool {
    |v: Verdict| goes_fatal(v)
}

pub open spec fn goes_jfyi_pred() -> spec_fn(Verdict) -> bool {
    |v: Verdict| goes_jfyi(v)
}

impl EnumPlan {
    #[verifier::type_invariant]
    pub closed spec fn well_formed(self) -> bool {
        &&& self.keep@.len() == self.verdicts@.len()
        &&& is_part(self.verdicts@, goes_fatal_pred(), self.fatal_variants@, self.fatal_index@)
        &&& is_part(self.verdicts@, goes_jfyi_pred(), self.jfyi_variants@, self.jfyi_index@)
    }

    /// The verdict of each variant.
    pub closed spec fn verdicts(&self) -> Seq<Verdict> {
        self.verdicts@
    }

    /// For each variant, which of its attributes stay.
    pub closed spec fn kept(&self) -> Seq<Seq<bool>> {
        self.keep@.map_values(|k: Vec<bool>| k@)
    }

    /// Whether the fatal and informational parts are generated.
    pub closed spec fn is_splitable(&self) -> bool {
        self.splitable
    }

    /// The variants of the fatal part, as indices of the enum's variants.
    pub closed spec fn fatal_part(&self) -> Seq<usize> {
        self.fatal_variants@
    }

    /// The variants of the informational part, as indices of the enum's variants.
    pub closed spec fn jfyi_part(&self) -> Seq<usize> {
        self.jfyi_variants@
    }

    /// The place of each variant in the fatal part.
    pub closed spec fn fatal_places(&self) -> Seq<Option<usize>> {
        self.fatal_index@
    }

    /// The place of each variant in the informational part.
    pub closed spec fn jfyi_places(&self) -> Seq<Option<usize>> {
        self.jfyi_index@
    }

    /// The number of variants.
    pub fn len(&self) -> (r: usize)
        ensures
            r == self.verdicts().len(),
    {
        self.verdicts.len()
    }

    /// The verdict of variant `i`.
    pub fn verdict(&self, i: usize) -> (r: Verdict)
        requires
            i < self.verdicts().len(),
        ensures
            r == self.verdicts()[i as int],
    {
        self.verdicts[i]
    }

    /// The verdict of each variant.
    pub fn verdict_list(&self) -> (r: &Vec<Verdict>)
        ensures
            r@ == self.verdicts(),
    {
        &self.verdicts
    }

    /// Which attributes of variant `i` stay on the emitted enum.
    pub fn kept_attrs(&self, i: usize) -> (r: &Vec<bool>)
        requires
            i < self.verdicts().len(),
        ensures
            r@ == self.kept()[i as int],
    {
        proof {
            use_type_invariant(self);
        }
        &self.keep[i]
    }

    /// Whether the fatal and informational parts are generated.
    pub fn splitable(&self) -> (r: bool)
        ensures
            r == self.is_splitable(),
    {
        self.splitable
    }

    /// The variants of the fatal part, in order.
    pub fn fatal_variants(&self) -> (r: &Vec<usize>)
        ensures
            r@ == self.fatal_part(),
    {
        &self.fatal_variants
    }

    /// The variants of the informational part, in order.
    pub fn jfyi_variants(&self) -> (r: &Vec<usize>)
        ensures
            r@ == self.jfyi_part(),
    {
        &self.jfyi_variants
    }

    /// The place of variant `i` in the fatal part, if it belongs there.
    pub fn fatal_place(&self, i: usize) -> (r: Option<usize>)
        requires
            i < self.verdicts().len(),
        ensures
            r == self.fatal_places()[i as int],
    {
        proof {
            use_type_invariant(self);
        }
        self.fatal_index[i]
    }

    /// The place of variant `i` in the informational part, if it belongs there.
    pub fn jfyi_place(&self, i: usize) -> (r: Option<usize>)
        requires
            i < self.verdicts().len(),
        ensures
            r == self.jfyi_places()[i as int],
    {
        proof {
            use_type_invariant(self);
        }
        self.jfyi_index[i]
    }

    /// The facts that every plan keeps.
    pub proof fn lemma_well_formed(&self)
        requires
            self.well_formed(),
        ensures
            self.kept().len() == self.verdicts().len(),
            is_part(self.verdicts(), goes_fatal_pred(), self.fatal_part(), self.fatal_places()),
            is_part(self.verdicts(), goes_jfyi_pred(), self.jfyi_part(), self.jfyi_places()),
    {
    }
}

/// Plans an enum with the given variants: the verdict and the kept
/// attributes of each variant, and the two parts of a split.  The first
/// variant without a verdict rejects the enum.
pub fn plan_enum(variants: &Vec<VariantDecl>, splitable: bool) -> (r: Result<EnumPlan, Rejection>)
    ensures
        match enum_verdicts(variants@) {
            Ok(vs) => r matches Ok(p) && p.verdicts() == vs && p.is_splitable() == splitable
                && p.kept() == variants@.map_values(|v: VariantDecl| kept_attrs(v.attrs@))
                && p.well_formed(),
            Err(e) => r == Err::<EnumPlan, Rejection>(e),
        },
{
    let mut verdicts: Vec<Verdict> = Vec::new();
    let mut keep: Vec<Vec<bool>> = Vec::new();
    let mut fatal_variants: Vec<usize> = Vec::new();
    let mut jfyi_variants: Vec<usize> = Vec::new();
    let mut fatal_index: Vec<Option<usize>> = Vec::new();
    let mut jfyi_index: Vec<Option<usize>> = Vec::new();
    let mut i: usize = 0;
    while i < variants.len()
        invariant
            i <= variants@.len(),
            enum_verdicts(variants@.take(i as int)) == Ok::<Seq<Verdict>, Rejection>(verdicts@),
            keep@.map_values(|k: Vec<bool>| k@) == variants@.take(i as int).map_values(
                |v: VariantDecl| kept_attrs(v.attrs@),
            ),
            keep@.len() == i,
            verdicts@.len() == i,
            fatal_variants@.len() <= i,
            jfyi_variants@.len() <= i,
            is_part(verdicts@, goes_fatal_pred(), fatal_variants@, fatal_index@),
            is_part(verdicts@, goes_jfyi_pred(), jfyi_variants@, jfyi_index@),
        decreases variants@.len() - i,
    {
        assert(variants@.take(i + 1).drop_last() =~= variants@.take(i as int));
        assert(variants@.take(i + 1).last() == variants@[i as int]);
        let v = match verdict(&variants[i]) {
            Ok(v) => v,
            Err(e) => {
                proof {
                    lemma_enum_verdicts_err(variants@, (i + 1) as int);
                }
                return Err(e);
            },
        };
        let ghost old_verdicts = verdicts@;
        let ghost old_fv = fatal_variants@;
        let ghost old_fi = fatal_index@;
        let ghost old_jv = jfyi_variants@;
        let ghost old_ji = jfyi_index@;
        let ghost old_keep = keep@;
        verdicts.push(v);
        let mask = keep_mask(&variants[i].attrs);
        let ghost mask_view = mask@;
        keep.push(mask);
        let to_fatal = match v {
            Verdict::Jfyi => false,
            _ => true,
        };
        let to_jfyi = match v {
            Verdict::Fatal => false,
            _ => true,
        };
        if to_fatal {
            fatal_index.push(Some(fatal_variants.len()));
            fatal_variants.push(i);
        } else {
            fatal_index.push(None);
        }
        if to_jfyi {
            jfyi_index.push(Some(jfyi_variants.len()));
            jfyi_variants.push(i);
        } else {
            jfyi_index.push(None);
        }
        proof {
            lemma_part_push(old_verdicts, goes_fatal_pred(), old_fv, old_fi, v);
            lemma_part_push(old_verdicts, goes_jfyi_pred(), old_jv, old_ji, v);
            let f = |k: Vec<bool>| k@;
            let g = |v: VariantDecl| kept_attrs(v.attrs@);
            assert(mask_view == kept_attrs(variants@[i as int].attrs@));
            assert(keep@.map_values(f) =~= old_keep.map_values(f).push(mask_view));
            assert(variants@.take(i + 1).map_values(g) =~= variants@.take(i as int).map_values(
                g,
            ).push(g(variants@[i as int])));
        }
        i = i + 1;
    }
    assert(variants@.take(i as int) =~= variants@);
    let p = EnumPlan {
        verdicts,
        keep,
        splitable,
        fatal_variants,
        jfyi_variants,
        fatal_index,
        jfyi_index,
    };
    Ok(p)
}

proof fn lemma_enum_verdicts_err(vs: Seq<VariantDecl>, n: int)
    requires
        0 < n <= vs.len(),
        enum_verdicts(vs.take(n - 1)) is Ok,
        variant_verdict(vs[n - 1]) is Err,
    ensures
        enum_verdicts(vs) == Err::<Seq<Verdict>, Rejection>(variant_verdict(vs[n - 1])->Err_0),
    decreases vs.len(),
{
    assert(vs.take(n).drop_last() =~= vs.take(n - 1));
    if n == vs.len() {
        assert(vs.take(n) =~= vs);
    } else {
        assert(vs.drop_last().take(n) =~= vs.take(n));
        assert(vs.drop_last().take(n - 1) =~= vs.take(n - 1));
        lemma_enum_verdicts_err(vs.drop_last(), n);
    }
}

proof fn lemma_part_push(
    verdicts: Seq<Verdict>,
    p: spec_fn(Verdict) -> bool,
    part: Seq<usize>,
    index: Seq<Option<usize>>,
    v: Verdict,
)
    requires
        is_part(verdicts, p, part, index),
        part.len() <= verdicts.len(),
        verdicts.len() < usize::MAX,
    ensures
        p(v) ==> is_part(
            verdicts.push(v),
            p,
            part.push(verdicts.len() as usize),
            index.push(Some(part.len() as usize)),
        ),
        !p(v) ==> is_part(verdicts.push(v), p, part, index.push(None)),
{
    let n = verdicts.len();
    if p(v) {
        let vs2 = verdicts.push(v);
        let part2 = part.push(n as usize);
        let index2 = index.push(Some(part.len() as usize));
        assert forall|i: int| 0 <= i < vs2.len() implies ((#[trigger] index2[i] is Some) <==> p(
            vs2[i],
        )) by {
            if i < n {
                assert(index2[i] == index[i]);
            }
        }
        assert forall|i: int|
            0 <= i < vs2.len() && index2[i] is Some implies (#[trigger] index2[i]).unwrap()
            < part2.len() && part2[index2[i].unwrap() as int] == i by {
            if i < n {
                assert(index2[i] == index[i]);
                assert(index[i].unwrap() < part.len());
            }
        }
        assert forall|k: int| 0 <= k < part2.len() implies (#[trigger] part2[k]) < vs2.len()
            && index2[part2[k] as int] == Some(k as usize) by {
            if k < part.len() {
                assert(part2[k] == part[k]);
            }
        }
        assert forall|k1: int, k2: int| 0 <= k1 < k2 < part2.len() implies part2[k1]
            < part2[k2] by {
            if k2 < part.len() {
                assert(part2[k1] == part[k1] && part2[k2] == part[k2]);
            } else {
                assert(part2[k1] == part[k1]);
                assert(part[k1] < n);
            }
        }
    } else {
        let vs2 = verdicts.push(v);
        let index2 = index.push(None);
        assert forall|i: int| 0 <= i < vs2.len() implies ((#[trigger] index2[i] is Some) <==> p(
            vs2[i],
        )) by {
            if i < n {
                assert(index2[i] == index[i]);
            }
        }
        assert forall|i: int|
            0 <= i < vs2.len() && index2[i] is Some implies (#[trigger] index2[i]).unwrap()
            < part.len() && part[index2[i].unwrap() as int] == i by {
            if i < n {
                assert(index2[i] == index[i]);
            }
        }
        assert forall|k: int| 0 <= k < part.len() implies (#[trigger] part[k]) < vs2.len()
            && index2[part[k] as int] == Some(k as usize) by {
            assert(index2[part[k] as int] == index[part[k] as int]);
        }
    }
}

} // verus!

verus! {

/// The parts of a split: a variant belongs to the fatal part exactly when
/// it is annotated fatal or forwards, to the informational part exactly when
/// it is not annotated fatal or forwards, so that a variant that does not
/// forward belongs to exactly one part; both parts keep the order of the
/// enum's variants.
pub proof fn lemma_parts_partition(p: EnumPlan)
    requires
        p.well_formed(),
    ensures
        forall|i: usize|
            i < p.verdicts().len() ==> (p.fatal_part().contains(i) <==> goes_fatal(
                #[trigger] p.verdicts()[i as int],
            )),
        forall|i: usize|
            i < p.verdicts().len() ==> (p.jfyi_part().contains(i) <==> goes_jfyi(
                #[trigger] p.verdicts()[i as int],
            )),
        forall|i: usize|
            i < p.verdicts().len() && !(#[trigger] p.verdicts()[i as int] is Forward) ==> (
            p.fatal_part().contains(i) != p.jfyi_part().contains(i)),
        forall|k: int| 0 <= k < p.fatal_part().len() ==> #[trigger] p.fatal_part()[k] < p.verdicts().len(),
        forall|k: int| 0 <= k < p.jfyi_part().len() ==> #[trigger] p.jfyi_part()[k] < p.verdicts().len(),
        forall|k1: int, k2: int|
            0 <= k1 < k2 < p.fatal_part().len() ==> p.fatal_part()[k1] < p.fatal_part()[k2],
        forall|k1: int, k2: int|
            0 <= k1 < k2 < p.jfyi_part().len() ==> p.jfyi_part()[k1] < p.jfyi_part()[k2],
{
    p.lemma_well_formed();
    assert forall|i: usize| i < p.verdicts().len() implies (p.fatal_part().contains(i)
        <==> goes_fatal(#[trigger] p.verdicts()[i as int])) by {
        if p.fatal_part().contains(i) {
            let k = choose|k: int| 0 <= k < p.fatal_part().len() && p.fatal_part()[k] == i;
            assert(p.fatal_places()[p.fatal_part()[k] as int] == Some(k as usize));
        }
        if goes_fatal(p.verdicts()[i as int]) {
            assert(p.fatal_places()[i as int] is Some);
            let k = p.fatal_places()[i as int].unwrap();
            assert(p.fatal_part()[k as int] == i);
        }
    }
    assert forall|i: usize| i < p.verdicts().len() implies (p.jfyi_part().contains(i)
        <==> goes_jfyi(#[trigger] p.verdicts()[i as int])) by {
        if p.jfyi_part().contains(i) {
            let k = choose|k: int| 0 <= k < p.jfyi_part().len() && p.jfyi_part()[k] == i;
            assert(p.jfyi_places()[p.jfyi_part()[k] as int] == Some(k as usize));
        }
        if goes_jfyi(p.verdicts()[i as int]) {
            assert(p.jfyi_places()[i as int] is Some);
            let k = p.jfyi_places()[i as int].unwrap();
            assert(p.jfyi_part()[k as int] == i);
        }
    }
}

} // verus!

verus! {

proof fn lemma_first_index_bound<A>(s: Seq<A>, p: spec_fn(A) -> bool)
    ensures
        first_index(s, p) matches Some(k) ==> 0 <= k < s.len() && p(s[k]),
    decreases s.len(),
{
    if s.len() > 0 {
        lemma_first_index_bound(s.drop_last(), p);
    }
}

/// A forward asks one of the fields of its variant.
pub proof fn lemma_forward_names_a_field(v: VariantDecl, splitable: bool)
    ensures
        variant_verdict(v) matches Ok(Verdict::Forward(k)) ==> k < v.fields@.len(),
        struct_verdict(v, splitable) matches Ok(Verdict::Forward(k)) ==> k < v.fields@.len(),
{
    lemma_first_index_bound(v.fields@, marked_source_pred());
    lemma_first_index_bound(v.fields@, named_source_pred());
}

/// The verdicts of an enum are, variant by variant, the verdicts of its
/// variants' own annotations.
pub proof fn lemma_enum_verdicts_per_variant(vs: Seq<VariantDecl>)
    ensures
        enum_verdicts(vs) matches Ok(ws) ==> ws.len() == vs.len() && forall|i: int|
            0 <= i < vs.len() ==> variant_verdict(#[trigger] vs[i]) == Ok::<Verdict, Rejection>(
                ws[i],
            ),
        enum_verdicts(vs) is Err ==> exists|i: int|
            0 <= i < vs.len() && #[trigger] variant_verdict(vs[i]) is Err,
    decreases vs.len(),
{
    if vs.len() > 0 {
        lemma_enum_verdicts_per_variant(vs.drop_last());
        if let Ok(ws) = enum_verdicts(vs) {
            let prefix = enum_verdicts(vs.drop_last())->Ok_0;
            assert forall|i: int| 0 <= i < vs.len() implies variant_verdict(#[trigger] vs[i])
                == Ok::<Verdict, Rejection>(ws[i]) by {
                if i < vs.len() - 1 {
                    assert(vs[i] == vs.drop_last()[i]);
                }
            }
        } else {
            if enum_verdicts(vs.drop_last()) is Err {
                let i = choose|i: int|
                    0 <= i < vs.drop_last().len() && #[trigger] variant_verdict(vs.drop_last()[i]) is Err;
                assert(vs[i] == vs.drop_last()[i]);
            } else {
                assert(variant_verdict(vs[vs.len() - 1]) is Err);
            }
        }
    }
}

} // verus!

verus! {

/// A variant's verdict follows its annotation: `#[fatal]` and
/// `#[fatal(true)]` make it fatal, `#[fatal(false)]` and no annotation make
/// it informational, `#[fatal(forward)]` forwards to the field that
/// `forward_field` names (and is refused where there is none), and an
/// annotation that does not resolve is refused.
pub proof fn lemma_verdict_follows_annotation(v: VariantDecl)
    ensures
        resolution_of(v.attrs@) is Err ==> variant_verdict(v) == Err::<Verdict, Rejection>(
            Rejection::ExpectedResolutionMode,
        ),
        resolution_of(v.attrs@) == Ok::<ResolutionMode, AttrError>(ResolutionMode::NoAnnotation)
            ==> variant_verdict(v) == Ok::<Verdict, Rejection>(Verdict::Jfyi),
        resolution_of(v.attrs@) == Ok::<ResolutionMode, AttrError>(ResolutionMode::Fatal)
            ==> variant_verdict(v) == Ok::<Verdict, Rejection>(Verdict::Fatal),
        resolution_of(v.attrs@) == Ok::<ResolutionMode, AttrError>(
            ResolutionMode::WithExplicitBool(true),
        ) ==> variant_verdict(v) == Ok::<Verdict, Rejection>(Verdict::Fatal),
        resolution_of(v.attrs@) == Ok::<ResolutionMode, AttrError>(
            ResolutionMode::WithExplicitBool(false),
        ) ==> variant_verdict(v) == Ok::<Verdict, Rejection>(Verdict::Jfyi),
        resolution_of(v.attrs@) == Ok::<ResolutionMode, AttrError>(ResolutionMode::Forward) ==> (
        variant_verdict(v) == match forward_field(v) {
            Some(k) => Ok::<Verdict, Rejection>(Verdict::Forward(k as usize)),
            None => Err::<Verdict, Rejection>(Rejection::NothingToForward),
        }),
        variant_verdict(v) is Ok ==> (goes_fatal(variant_verdict(v)->Ok_0) <==> !(
        resolution_of(v.attrs@) == Ok::<ResolutionMode, AttrError>(ResolutionMode::NoAnnotation)
            || resolution_of(v.attrs@) == Ok::<ResolutionMode, AttrError>(
            ResolutionMode::WithExplicitBool(false),
        ))),
{
}

/// A struct's verdict follows its annotation in the same way as a
/// variant's; a `splitable` struct forwards without annotation or with
/// `#[fatal(forward)]`, and refuses every other annotation.
pub proof fn lemma_struct_verdict_follows_annotation(v: VariantDecl, splitable: bool)
    ensures
        !splitable ==> struct_verdict(v, splitable) == variant_verdict(v),
        resolution_of(v.attrs@) is Err ==> struct_verdict(v, splitable) == Err::<Verdict, Rejection>(
            Rejection::ExpectedResolutionMode,
        ),
        splitable && (resolution_of(v.attrs@) == Ok::<ResolutionMode, AttrError>(
            ResolutionMode::Fatal,
        ) || resolution_of(v.attrs@) matches Ok(ResolutionMode::WithExplicitBool(_)))
            ==> struct_verdict(v, splitable) == Err::<Verdict, Rejection>(
            Rejection::SplitableStruct,
        ),
        splitable && (resolution_of(v.attrs@) == Ok::<ResolutionMode, AttrError>(
            ResolutionMode::NoAnnotation,
        ) || resolution_of(v.attrs@) == Ok::<ResolutionMode, AttrError>(ResolutionMode::Forward))
            ==> struct_verdict(v, splitable) == match forward_field(v) {
            Some(k) => Ok::<Verdict, Rejection>(Verdict::Forward(k as usize)),
            None => Err::<Verdict, Rejection>(Rejection::NothingToForward),
        },
{
}

} // verus!
