use fatality::expand::{Failure, ItemPlan, StructPlan};
use fatality::generate::expand_text;
use fatality::plan::EnumPlan;
use fatality::value::{AnnotatedError, AnnotatedStruct, FatalError, JfyiError};
use fatality::{Fatality, Nested, Split};

#[derive(Debug)]
struct X;

impl Fatality for X {
    fn is_fatal(&self) -> bool {
        false
    }
}

#[derive(Debug)]
struct Y;

impl Fatality for Y {
    fn is_fatal(&self) -> bool {
        true
    }
}

#[derive(Debug)]
enum Payload {
    X(X),
    Y(Y),
}

impl Fatality for Payload {
    fn is_fatal(&self) -> bool {
        match self {
            Payload::X(x) => x.is_fatal(),
            Payload::Y(y) => y.is_fatal(),
        }
    }
}

fn struct_plan(attr: &str, text: &str) -> StructPlan {
    match expand_text(attr, text) {
        Ok(ItemPlan::Struct(p)) => p,
        Ok(ItemPlan::Enum(_)) => panic!("a struct plans as a struct"),
        Err(Failure::Rejected(r)) => panic!("rejected: {}", r.message()),
        Err(Failure::Unparsed(e)) => panic!("unparsed: {}", e),
    }
}

fn enum_plan(attr: &str, text: &str) -> EnumPlan {
    match expand_text(attr, text) {
        Ok(ItemPlan::Enum(p)) => p,
        Ok(ItemPlan::Struct(_)) => panic!("an enum plans as an enum"),
        Err(Failure::Rejected(r)) => panic!("rejected: {}", r.message()),
        Err(Failure::Unparsed(e)) => panic!("unparsed: {}", e),
    }
}

fn acc() -> EnumPlan {
    enum_plan(
        "",
        r#"
        enum Acc {
            #[error("0")]
            Zero,

            #[error("X={0}")]
            A(#[source] X),

            #[fatal]
            #[error(transparent)]
            B(Y),

            #[fatal(forward)]
            #[error("X={0}")]
            Aaaaa(#[source] X),

            #[fatal(forward)]
            #[error(transparent)]
            Bbbbbb(Y),
        }
        "#,
    )
}

#[test]
fn all_in_one() {
    let plan = acc();
    let a = AnnotatedError::new(&plan, 1, Some(Payload::X(X))).unwrap();
    let b = AnnotatedError::new(&plan, 2, Some(Payload::Y(Y))).unwrap();
    let aaaaa = AnnotatedError::new(&plan, 3, Some(Payload::X(X))).unwrap();
    let bbbbbb = AnnotatedError::new(&plan, 4, Some(Payload::Y(Y))).unwrap();
    let zero = AnnotatedError::<Payload>::new(&plan, 0, None).unwrap();
    assert_eq!(false, Fatality::is_fatal(&a));
    assert_eq!(true, Fatality::is_fatal(&b));
    assert_eq!(false, Fatality::is_fatal(&aaaaa));
    assert_eq!(true, Fatality::is_fatal(&bbbbbb));
    assert_eq!(false, Fatality::is_fatal(&zero));
}

/// Holds nothing; stands in for the inner error of an enum that does not forward.
#[derive(Debug)]
struct Nothing;

impl Fatality for Nothing {
    fn is_fatal(&self) -> bool {
        false
    }
}

fn inner_plan() -> EnumPlan {
    enum_plan(
        "splitable",
        r#"
        enum Inner {
            #[fatal]
            #[error("That's it.")]
            GameOver,

            #[error("Chuckle")]
            ChuckleOn,
        }
        "#,
    )
}

fn kaboom_plan() -> EnumPlan {
    enum_plan(
        "splitable",
        r#"
        enum Kaboom {
            #[fatal(forward)]
            #[error(transparent)]
            Iffy(Inner),

            #[error("Bobo")]
            Bobo,
        }
        "#,
    )
}

type Inner<'p> = AnnotatedError<'p, Nothing>;
type Kaboom<'p, 'q> = AnnotatedError<'p, Inner<'q>>;

const GAME_OVER: usize = 0;
const CHUCKLE_ON: usize = 1;
const IFFY: usize = 0;

fn inner<'q>(plan: &'q EnumPlan, v: usize) -> Inner<'q> {
    AnnotatedError::new(plan, v, None).unwrap()
}

fn game_over<'p, 'q>(k: &'p EnumPlan, i: &'q EnumPlan) -> Result<(), Kaboom<'p, 'q>> {
    Err(AnnotatedError::new(k, IFFY, Some(inner(i, GAME_OVER))).unwrap())
}

fn laughable<'p, 'q>(k: &'p EnumPlan, i: &'q EnumPlan) -> Result<(), Kaboom<'p, 'q>> {
    Err(AnnotatedError::new(k, IFFY, Some(inner(i, CHUCKLE_ON))).unwrap())
}

fn is_fatal_iffy_game_over(f: &FatalError<Inner>) -> bool {
    f.variant_index() == IFFY && matches!(f.inner_error(), Some(i) if i.variant_index() == GAME_OVER)
}

fn is_jfyi_iffy_chuckle_on(j: &JfyiError<Inner>) -> bool {
    j.variant_index() == IFFY && matches!(j.inner_error(), Some(i) if i.variant_index() == CHUCKLE_ON)
}

#[test]
fn main() {
    let k = kaboom_plan();
    let i = inner_plan();

    assert!(game_over(&k, &i).unwrap_err().is_fatal());
    assert!(matches!(game_over(&k, &i).unwrap_err().split(), Err(f) if is_fatal_iffy_game_over(&f)));

    assert!(!laughable(&k, &i).unwrap_err().is_fatal());
    assert!(matches!(laughable(&k, &i).unwrap_err().split(), Ok(j) if is_jfyi_iffy_chuckle_on(&j)));

    // a transparent struct wrapper: `#[from] source: Kaboom`
    let transparent = struct_plan(
        "splitable",
        "#[error(transparent)] struct TransparentStructWrapper { #[from] source: Kaboom }",
    );
    // a struct wrapper: `source: Kaboom, other_field: ()`
    let wrapper = struct_plan(
        "splitable",
        r#"#[error("Struct wrapper")] struct StructWrapper { source: Kaboom, other_field: () }"#,
    );
    // a transparent tuple struct wrapper: `(Kaboom)`
    let transparent_tuple = struct_plan(
        "splitable",
        "#[error(transparent)] struct TransparentTupleStructWrapper(Kaboom);",
    );
    // a tuple struct wrapper: `(#[source] Kaboom, ())`
    let tuple = struct_plan(
        "splitable",
        r#"#[error("Tuple struct wrapper")] struct TupleStructWrapper(#[source] Kaboom, ());"#,
    );
    for plan in [&transparent, &wrapper, &transparent_tuple, &tuple] {
        let w = AnnotatedStruct::new(plan, Some(game_over(&k, &i).unwrap_err())).unwrap();
        assert!(w.is_fatal());
        let w = AnnotatedStruct::new(plan, Some(game_over(&k, &i).unwrap_err())).unwrap();
        assert!(matches!(w.split(), Err(p) if matches!(p.inner_part(), Some(f) if is_fatal_iffy_game_over(f))));

        let w = AnnotatedStruct::new(plan, Some(laughable(&k, &i).unwrap_err())).unwrap();
        assert!(!w.is_fatal());
        let w = AnnotatedStruct::new(plan, Some(laughable(&k, &i).unwrap_err())).unwrap();
        assert!(matches!(w.split(), Ok(p) if matches!(p.inner_part(), Some(j) if is_jfyi_iffy_chuckle_on(j))));
    }

    // a forwarding wrapper that does not split: `#[fatal(forward)] (Kaboom)`
    let forward = struct_plan(
        "",
        "#[error(transparent)] #[fatal(forward)] struct ForwardWrapper(Kaboom);",
    );
    assert!(AnnotatedStruct::new(&forward, Some(game_over(&k, &i).unwrap_err())).unwrap().is_fatal());
    assert!(!AnnotatedStruct::new(&forward, Some(laughable(&k, &i).unwrap_err())).unwrap().is_fatal());
}

#[test]
fn parts_convert_back() {
    let k = kaboom_plan();
    let i = inner_plan();
    let bobo = AnnotatedError::<Inner>::new(&k, 1, None).unwrap();
    let j = match bobo.split() {
        Ok(j) => j,
        Err(_) => panic!("Bobo is informational"),
    };
    assert_eq!(j.variant_index(), 1);
    let back: Kaboom = Kaboom::from(j);
    assert_eq!(back.variant_index(), 1);

    let f = match game_over(&k, &i).unwrap_err().split() {
        Err(f) => f,
        Ok(_) => panic!("game over is fatal"),
    };
    let back: Kaboom = Kaboom::from(f);
    assert_eq!(back.variant_index(), IFFY);
    assert!(back.is_fatal());
    assert_eq!(back.inner_error().as_ref().map(|i| i.variant_index()), Some(GAME_OVER));
}

#[test]
fn into_nested_sorts_results() {
    let k = kaboom_plan();
    let i = inner_plan();
    let ok: Result<u8, Kaboom> = Ok(3);
    assert!(matches!(ok.into_nested(), Ok(Ok(3))));
    assert!(matches!(laughable(&k, &i).into_nested(), Ok(Err(j)) if is_jfyi_iffy_chuckle_on(&j)));
    assert!(matches!(game_over(&k, &i).into_nested(), Err(f) if is_fatal_iffy_game_over(&f)));
}

#[test]
fn values_need_a_variant_and_a_forwarded_error() {
    let k = kaboom_plan();
    assert!(AnnotatedError::<Inner>::new(&k, 2, None).is_none());
    assert!(AnnotatedError::<Inner>::new(&k, IFFY, None).is_none());
    assert!(AnnotatedError::<Inner>::new(&k, 1, None).is_some());
    let forward = struct_plan(
        "",
        "#[error(transparent)] #[fatal(forward)] struct ForwardWrapper(Kaboom);",
    );
    assert!(AnnotatedStruct::<Kaboom>::new(&forward, None).is_none());
    let fatal = struct_plan("", r#"#[fatal] #[error("Cancelled")] struct Cancelled;"#);
    let s = AnnotatedStruct::<Kaboom>::new(&fatal, None).unwrap();
    assert!(s.is_fatal());
    let s = AnnotatedStruct::<Kaboom>::new(&fatal, None).unwrap();
    assert!(matches!(s.split(), Err(p) if p.inner_part().is_none()));
}
