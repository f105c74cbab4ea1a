//! Error values of an annotated enum, as the expansion makes them behave:
//! a value is one of the enum's variants, holding the inner error that a
//! forwarding variant asks.  `is_fatal`, `split` and the conversions back
//! from the two parts are driven by the enum's plan.

use vstd::prelude::*;
use crate::expand::StructPlan;
use crate::plan::{goes_fatal, goes_jfyi, EnumPlan, Verdict};
use crate::{Fatality, Split};

verus! {

/// A value of an annotated enum: variant `variant`, holding `inner`.
pub struct AnnotatedError<'p, I> {
    plan: &'p EnumPlan,
    variant: usize,
    inner: Option<I>,
}

/// A value of the fatal part of a split: place `place` of the fatal part.
pub struct FatalError<'p, I> {
    plan: &'p EnumPlan,
    place: usize,
    inner: Option<I>,
}

/// A value of the informational part of a split: place `place` of that part.
pub struct JfyiError<'p, I> {
    plan: &'p EnumPlan,
    place: usize,
    inner: Option<I>,
}

impl<'p, I> AnnotatedError<'p, I> {
    /// A value is a variant of its plan, and a forwarding variant holds an
    /// inner error.
    #[verifier::type_invariant]
    pub closed spec fn well_formed(self) -> bool {
        &&& self.variant < self.plan.verdicts().len()
        &&& (self.plan.verdicts()[self.variant as int] is Forward ==> self.inner is Some)
    }

    pub closed spec fn plan(self) -> EnumPlan {
        *self.plan
    }

    pub closed spec fn variant(self) -> usize {
        self.variant
    }

    pub closed spec fn inner(self) -> Option<I> {
        self.inner
    }

    /// The verdict of the value's variant.
    pub open spec fn verdict(self) -> Verdict {
        self.plan().verdicts()[self.variant() as int]
    }

    /// Variant `variant` of the enum planned by `plan`, holding `inner`;
    /// `None` where there is no such variant, or where it forwards and
    /// `inner` is `None`.
    pub fn new(plan: &'p EnumPlan, variant: usize, inner: Option<I>) -> (r: Option<Self>)
        ensures
            r is Some <==> (variant < plan.verdicts().len() && (plan.verdicts()[variant as int] is Forward
                ==> inner is Some)),
            r matches Some(e) ==> e.plan() == *plan && e.variant() == variant && e.inner() == inner,
    {
        if variant >= plan.len() {
            return None;
        }
        let forwards = match plan.verdict(variant) {
            Verdict::Forward(_) => true,
            _ => false,
        };
        if forwards && inner.is_none() {
            return None;
        }
        Some(AnnotatedError { plan, variant, inner })
    }

    /// The index of the value's variant.
    pub fn variant_index(&self) -> (r: usize)
        ensures
            r == self.variant(),
    {
        self.variant
    }

    /// The inner error the value holds.
    pub fn inner_error(&self) -> (r: &Option<I>)
        ensures
            *r == self.inner(),
    {
        &self.inner
    }
}

impl<'p, I> FatalError<'p, I> {
    /// A value is a place of the fatal part, and one whose variant forwards
    /// holds an inner error.
    #[verifier::type_invariant]
    pub closed spec fn well_formed(self) -> bool {
        &&& self.place < self.plan.fatal_part().len()
        &&& (self.plan.verdicts()[self.plan.fatal_part()[self.place as int] as int] is Forward
            ==> self.inner is Some)
    }

    pub closed spec fn plan(self) -> EnumPlan {
        *self.plan
    }

    pub closed spec fn place(self) -> usize {
        self.place
    }

    pub closed spec fn inner(self) -> Option<I> {
        self.inner
    }

    /// The value of the whole enum that this part's value stands for.
    pub closed spec fn rejoined(self) -> AnnotatedError<'p, I> {
        AnnotatedError {
            plan: self.plan,
            variant: self.plan.fatal_part()[self.place as int],
            inner: self.inner,
        }
    }

    /// The index, among the enum's variants, of the value's variant.
    pub fn variant_index(&self) -> (r: usize)
        ensures
            r == self.plan().fatal_part()[self.place() as int],
    {
        proof {
            use_type_invariant(self);
        }
        self.plan.fatal_variants()[self.place]
    }

    /// The inner error the value holds.
    pub fn inner_error(&self) -> (r: &Option<I>)
        ensures
            *r == self.inner(),
    {
        &self.inner
    }
}

impl<'p, I> JfyiError<'p, I> {
    /// A value is a place of the informational part, and one whose variant
    /// forwards holds an inner error.
    #[verifier::type_invariant]
    pub closed spec fn well_formed(self) -> bool {
        &&& self.place < self.plan.jfyi_part().len()
        &&& (self.plan.verdicts()[self.plan.jfyi_part()[self.place as int] as int] is Forward
            ==> self.inner is Some)
    }

    pub closed spec fn plan(self) -> EnumPlan {
        *self.plan
    }

    pub closed spec fn place(self) -> usize {
        self.place
    }

    pub closed spec fn inner(self) -> Option<I> {
        self.inner
    }

    /// The value of the whole enum that this part's value stands for.
    pub closed spec fn rejoined(self) -> AnnotatedError<'p, I> {
        AnnotatedError {
            plan: self.plan,
            variant: self.plan.jfyi_part()[self.place as int],
            inner: self.inner,
        }
    }

    /// The index, among the enum's variants, of the value's variant.
    pub fn variant_index(&self) -> (r: usize)
        ensures
            r == self.plan().jfyi_part()[self.place() as int],
    {
        proof {
            use_type_invariant(self);
        }
        self.plan.jfyi_variants()[self.place]
    }

    /// The inner error the value holds.
    pub fn inner_error(&self) -> (r: &Option<I>)
        ensures
            *r == self.inner(),
    {
        &self.inner
    }
}

impl<'p, I: Fatality> Fatality for AnnotatedError<'p, I> {
    /// The answers follow the plan, and for a forwarding variant the inner
    /// error's answer.
    open spec fn obeys_fatality() -> bool {
        I::obeys_fatality()
    }

    closed spec fn fatal(&self) -> bool {
        match self.plan.verdicts()[self.variant as int] {
            Verdict::Jfyi => false,
            Verdict::Fatal => true,
            Verdict::Forward(_) => match self.inner {
                Some(i) => i.fatal(),
                None => false,
            },
        }
    }

    /// A variant that does not forward answers by its annotation alone.
    fn is_fatal(&self) -> (r: bool)
        ensures
            !(self.verdict() is Forward) ==> r == self.fatal(),
    {
        proof {
            use_type_invariant(self);
        }
        match self.plan.verdict(self.variant) {
            Verdict::Jfyi => false,
            Verdict::Fatal => true,
            Verdict::Forward(_) => match &self.inner {
                Some(i) => i.is_fatal(),
                None => false,
            },
        }
    }
}

impl<'p, I: Fatality> Split for AnnotatedError<'p, I> {
    type Jfyi = JfyiError<'p, I>;

    type Fatal = FatalError<'p, I>;

    /// A split goes by `is_fatal`.
    open spec fn obeys_split() -> bool {
        I::obeys_fatality()
    }

    closed spec fn split_outcome(self) -> Result<JfyiError<'p, I>, FatalError<'p, I>> {
        if self.fatal() {
            Err(
                FatalError {
                    plan: self.plan,
                    place: self.plan.fatal_places()[self.variant as int].unwrap(),
                    inner: self.inner,
                },
            )
        } else {
            Ok(
                JfyiError {
                    plan: self.plan,
                    place: self.plan.jfyi_places()[self.variant as int].unwrap(),
                    inner: self.inner,
                },
            )
        }
    }

    /// A variant that does not forward splits by its annotation alone.
    fn split(self) -> (r: Result<JfyiError<'p, I>, FatalError<'p, I>>)
        ensures
            !(self.verdict() is Forward) ==> r == self.split_outcome(),
    {
        proof {
            use_type_invariant(&self);
            use_type_invariant(self.plan);
            self.plan.lemma_well_formed();
        }
        let fatal = self.is_fatal();
        let plan = self.plan;
        let variant = self.variant;
        let inner = self.inner;
        if fatal {
            let place = plan.fatal_place(variant).unwrap();
            Err(FatalError { plan, place, inner })
        } else {
            let place = plan.jfyi_place(variant).unwrap();
            Ok(JfyiError { plan, place, inner })
        }
    }
}

impl<'p, I> From<FatalError<'p, I>> for AnnotatedError<'p, I> {
    fn from(f: FatalError<'p, I>) -> (r: AnnotatedError<'p, I>) {
        proof {
            use_type_invariant(&f);
            use_type_invariant(f.plan);
            f.plan.lemma_well_formed();
        }
        let variant = f.plan.fatal_variants()[f.place];
        AnnotatedError { plan: f.plan, variant, inner: f.inner }
    }
}

impl<'p, I> vstd::std_specs::convert::FromSpecImpl<FatalError<'p, I>> for AnnotatedError<'p, I> {
    open spec fn obeys_from_spec() -> bool {
        true
    }

    open spec fn from_spec(f: FatalError<'p, I>) -> Self {
        f.rejoined()
    }
}

impl<'p, I> From<JfyiError<'p, I>> for AnnotatedError<'p, I> {
    fn from(j: JfyiError<'p, I>) -> (r: AnnotatedError<'p, I>) {
        proof {
            use_type_invariant(&j);
            use_type_invariant(j.plan);
            j.plan.lemma_well_formed();
        }
        let variant = j.plan.jfyi_variants()[j.place];
        AnnotatedError { plan: j.plan, variant, inner: j.inner }
    }
}

impl<'p, I> vstd::std_specs::convert::FromSpecImpl<JfyiError<'p, I>> for AnnotatedError<'p, I> {
    open spec fn obeys_from_spec() -> bool {
        true
    }

    open spec fn from_spec(j: JfyiError<'p, I>) -> Self {
        j.rejoined()
    }
}

} // verus!

verus! {

/// A value of an annotated enum is fatal exactly when its variant is
/// annotated fatal, or when it forwards and the inner error it holds is
/// fatal.
pub proof fn lemma_fatality_follows_annotation<'p, I: Fatality>(e: AnnotatedError<'p, I>)
    requires
        e.well_formed(),
    ensures
        e.verdict() is Fatal ==> e.fatal(),
        e.verdict() is Jfyi ==> !e.fatal(),
        e.verdict() is Forward ==> e.inner() is Some && e.fatal() == e.inner().unwrap().fatal(),
{
}

/// Splitting hands back the fatal part exactly for a fatal value, and the
/// informational part exactly for the others.
pub proof fn lemma_split_follows_fatality<'p, I: Fatality>(e: AnnotatedError<'p, I>)
    requires
        e.well_formed(),
    ensures
        e.split_outcome() is Err <==> e.fatal(),
{
}

/// Converting the part that a split hands back into the whole enum gives
/// back the value that was split; the part is a valid value of its kind,
/// and the variant it stands for belongs to that part.
pub proof fn lemma_split_rejoins<'p, I: Fatality>(e: AnnotatedError<'p, I>)
    requires
        e.well_formed(),
        e.plan().well_formed(),
    ensures
        match e.split_outcome() {
            Err(f) => f.well_formed() && f.rejoined() == e && goes_fatal(e.verdict()),
            Ok(j) => j.well_formed() && j.rejoined() == e && goes_jfyi(e.verdict()),
        },
{
    e.plan().lemma_well_formed();
    let n = e.plan().verdicts().len();
    let i = e.variant() as int;
    assert(0 <= i < n);
    if e.fatal() {
        assert(e.verdict() is Fatal || e.verdict() is Forward);
        assert(e.plan().fatal_places()[i] is Some);
    } else {
        assert(e.verdict() is Jfyi || e.verdict() is Forward);
        assert(e.plan().jfyi_places()[i] is Some);
    }
}

/// A value of the fatal part stands for a value of the whole enum that
/// splits back into it.
pub proof fn lemma_fatal_part_splits_back<'p, I: Fatality>(f: FatalError<'p, I>)
    requires
        f.well_formed(),
        f.plan().well_formed(),
        f.rejoined().verdict() is Forward ==> f.inner().unwrap().fatal(),
    ensures
        f.rejoined().well_formed(),
        f.rejoined().fatal(),
        f.rejoined().split_outcome() == Err::<JfyiError<'p, I>, FatalError<'p, I>>(f),
{
    f.plan().lemma_well_formed();
    let k = f.place() as int;
    assert(0 <= k < f.plan().fatal_part().len());
}

/// A value of the informational part stands for a value of the whole enum
/// that splits back into it.
pub proof fn lemma_jfyi_part_splits_back<'p, I: Fatality>(j: JfyiError<'p, I>)
    requires
        j.well_formed(),
        j.plan().well_formed(),
        j.rejoined().verdict() is Forward ==> !j.inner().unwrap().fatal(),
    ensures
        j.rejoined().well_formed(),
        !j.rejoined().fatal(),
        j.rejoined().split_outcome() == Ok::<JfyiError<'p, I>, FatalError<'p, I>>(j),
{
    j.plan().lemma_well_formed();
    let k = j.place() as int;
    assert(0 <= k < j.plan().jfyi_part().len());
}

/// Nesting a result: success stays a success inside `Ok(Ok(..))`; an error
/// ends up in the outer `Err` exactly when it is fatal, and otherwise in
/// `Ok(Err(..))`, in either case as a part that converts back into it.
pub proof fn lemma_nested<'p, T, I: Fatality>(r: Result<T, AnnotatedError<'p, I>>)
    requires
        r matches Err(e) ==> e.well_formed() && e.plan().well_formed(),
    ensures
        match r {
            Ok(t) => crate::nested_of(r) == Ok::<Result<T, JfyiError<'p, I>>, FatalError<'p, I>>(
                Ok(t),
            ),
            Err(e) => (crate::nested_of(r) is Err <==> e.fatal()) && match crate::nested_of(r) {
                Err(f) => f.rejoined() == e,
                Ok(Err(j)) => j.rejoined() == e,
                Ok(Ok(_)) => false,
            },
        },
{
    if let Err(e) = r {
        lemma_split_rejoins(e);
    }
}

} // verus!

verus! {

/// A value of an annotated struct, holding the inner error in the field
/// that its fatality is forwarded from.
pub struct AnnotatedStruct<'p, I> {
    plan: &'p StructPlan,
    inner: Option<I>,
}

/// A part of a split struct: the struct with its inner error replaced by
/// the part that the inner error split into (`None` where the struct does
/// not forward).
pub struct StructPart<'p, P> {
    plan: &'p StructPlan,
    inner: Option<P>,
}

impl<'p, I> AnnotatedStruct<'p, I> {
    /// A forwarding struct holds an inner error, and a `splitable` struct
    /// forwards.
    #[verifier::type_invariant]
    pub closed spec fn well_formed(self) -> bool {
        &&& (self.plan.verdict is Forward ==> self.inner is Some)
        &&& (self.plan.splitable ==> self.plan.verdict is Forward)
    }

    pub closed spec fn plan(self) -> StructPlan {
        *self.plan
    }

    pub closed spec fn inner(self) -> Option<I> {
        self.inner
    }

    /// The struct planned by `plan`, holding `inner`; `None` where it
    /// forwards and `inner` is `None`, or where it is `splitable` without
    /// forwarding.
    pub fn new(plan: &'p StructPlan, inner: Option<I>) -> (r: Option<Self>)
        ensures
            r is Some <==> ((plan.verdict is Forward ==> inner is Some) && (plan.splitable
                ==> plan.verdict is Forward)),
            r matches Some(s) ==> s.plan() == *plan && s.inner() == inner,
    {
        let forwards = match plan.verdict {
            Verdict::Forward(_) => true,
            _ => false,
        };
        if forwards && inner.is_none() {
            return None;
        }
        if plan.splitable && !forwards {
            return None;
        }
        Some(AnnotatedStruct { plan, inner })
    }

    /// The inner error the value holds.
    pub fn inner_error(&self) -> (r: &Option<I>)
        ensures
            *r == self.inner(),
    {
        &self.inner
    }
}

impl<'p, P> StructPart<'p, P> {
    pub closed spec fn plan(self) -> StructPlan {
        *self.plan
    }

    pub closed spec fn inner(self) -> Option<P> {
        self.inner
    }

    /// The part of the inner error this part holds.
    pub fn inner_part(&self) -> (r: &Option<P>)
        ensures
            *r == self.inner(),
    {
        &self.inner
    }
}

impl<'p, I: Fatality> Fatality for AnnotatedStruct<'p, I> {
    /// The answer follows the plan, and where the struct forwards, the inner
    /// error's answer.
    open spec fn obeys_fatality() -> bool {
        I::obeys_fatality()
    }

    closed spec fn fatal(&self) -> bool {
        match self.plan.verdict {
            Verdict::Jfyi => false,
            Verdict::Fatal => true,
            Verdict::Forward(_) => match self.inner {
                Some(i) => i.fatal(),
                None => false,
            },
        }
    }

    /// A struct that does not forward answers by its annotation alone.
    fn is_fatal(&self) -> (r: bool)
        ensures
            !(self.plan().verdict is Forward) ==> r == self.fatal(),
    {
        match self.plan.verdict {
            Verdict::Jfyi => false,
            Verdict::Fatal => true,
            Verdict::Forward(_) => match &self.inner {
                Some(i) => i.is_fatal(),
                None => false,
            },
        }
    }
}

impl<'p, I: Fatality + Split> Split for AnnotatedStruct<'p, I> {
    type Jfyi = StructPart<'p, I::Jfyi>;

    type Fatal = StructPart<'p, I::Fatal>;

    /// A split follows the inner error's split.
    open spec fn obeys_split() -> bool {
        I::obeys_split()
    }

    closed spec fn split_outcome(self) -> Result<StructPart<'p, I::Jfyi>, StructPart<'p, I::Fatal>> {
        match self.plan.verdict {
            Verdict::Jfyi => Ok(StructPart { plan: self.plan, inner: None }),
            Verdict::Fatal => Err(StructPart { plan: self.plan, inner: None }),
            Verdict::Forward(_) => match self.inner {
                Some(i) => match i.split_outcome() {
                    Ok(j) => Ok(StructPart { plan: self.plan, inner: Some(j) }),
                    Err(f) => Err(StructPart { plan: self.plan, inner: Some(f) }),
                },
                None => Ok(StructPart { plan: self.plan, inner: None }),
            },
        }
    }

    /// A struct that does not forward splits by its annotation alone.
    fn split(self) -> (r: Result<StructPart<'p, I::Jfyi>, StructPart<'p, I::Fatal>>)
        ensures
            !(self.plan().verdict is Forward) ==> r == self.split_outcome(),
    {
        let plan = self.plan;
        let inner = self.inner;
        match plan.verdict {
            Verdict::Jfyi => Ok(StructPart { plan, inner: None }),
            Verdict::Fatal => Err(StructPart { plan, inner: None }),
            Verdict::Forward(_) => match inner {
                Some(i) => match i.split() {
                    Ok(j) => Ok(StructPart { plan, inner: Some(j) }),
                    Err(f) => Err(StructPart { plan, inner: Some(f) }),
                },
                None => Ok(StructPart { plan, inner: None }),
            },
        }
    }
}

/// A struct that forwards is exactly as fatal as its inner error, and its
/// split is the split of the inner error: where the inner error splits into
/// the fatal part exactly when it is fatal, so does the struct.
pub proof fn lemma_struct_forwards<'p, I: Fatality + Split>(s: AnnotatedStruct<'p, I>)
    requires
        s.well_formed(),
        s.plan().verdict is Forward,
    ensures
        s.inner() is Some,
        s.fatal() == s.inner().unwrap().fatal(),
        match s.split_outcome() {
            Ok(j) => j.inner() matches Some(p) && s.inner().unwrap().split_outcome() == Ok::<
                I::Jfyi,
                I::Fatal,
            >(p),
            Err(f) => f.inner() matches Some(p) && s.inner().unwrap().split_outcome() == Err::<
                I::Jfyi,
                I::Fatal,
            >(p),
        },
        (s.inner().unwrap().split_outcome() is Err <==> s.inner().unwrap().fatal()) ==> (
        s.split_outcome() is Err <==> s.fatal()),
{
}

/// A struct that does not forward is fatal exactly when annotated fatal,
/// and splits into the fatal part exactly when it is fatal.
pub proof fn lemma_struct_constant<'p, I: Fatality + Split>(s: AnnotatedStruct<'p, I>)
    requires
        s.well_formed(),
        !(s.plan().verdict is Forward),
    ensures
        s.fatal() == (s.plan().verdict is Fatal),
        s.split_outcome() is Err <==> s.fatal(),
{
}

} // verus!

verus! {

/// A value of the fatal part stands for the value of the whole enum at the
/// variant in its place of the part, holding the same inner error, under
/// the same plan.
pub proof fn lemma_fatal_part_rejoined<'p, I>(f: FatalError<'p, I>)
    ensures
        f.rejoined().variant() == f.plan().fatal_part()[f.place() as int],
        f.rejoined().inner() == f.inner(),
        f.rejoined().plan() == f.plan(),
{
}

/// A value of the informational part stands for the value of the whole
/// enum at the variant in its place of the part, holding the same inner
/// error, under the same plan.
pub proof fn lemma_jfyi_part_rejoined<'p, I>(j: JfyiError<'p, I>)
    ensures
        j.rejoined().variant() == j.plan().jfyi_part()[j.place() as int],
        j.rejoined().inner() == j.inner(),
        j.rejoined().plan() == j.plan(),
{
}

} // verus!
