use fatality::decl::{FieldsShape, ItemBody};
use fatality::expand::{expand, Failure, ItemPlan, StructPlan};
use fatality::generate::{expand_text, fatality_text, render_expansion};
use fatality::plan::{EnumPlan, Rejection, Verdict};
use fatality::read::{enum_decl, fields_shape, read_item, struct_decl, EnumSyntax, StructSyntax};

/// The text as the token stream the attribute receives hands it over.
fn token_text(s: &str) -> String {
    s.parse::<proc_macro2::TokenStream>().unwrap().to_string()
}

fn run_test(attr: &str, input: &str, expected: &str) {
    let output = fatality_text(&token_text(attr), &token_text(input));
    println!(">>>>>>>>>>>>>>>>>>>\n{}\n>>>>>>>>>>>>>>>>>>>", output);
    assert_eq!(token_text(&output), token_text(expected));
}

fn enum_plan(attr: &str, text: &str) -> EnumPlan {
    match expand_text(attr, text) {
        Ok(ItemPlan::Enum(p)) => p,
        Ok(ItemPlan::Struct(_)) => panic!("an enum is planned as an enum"),
        Err(Failure::Rejected(r)) => panic!("rejected: {}", r.message()),
        Err(Failure::Unparsed(e)) => panic!("not an item: {}", e),
    }
}

fn struct_plan(attr: &str, text: &str) -> StructPlan {
    match expand_text(attr, text) {
        Ok(ItemPlan::Struct(p)) => p,
        Ok(ItemPlan::Enum(_)) => panic!("a struct is planned as a struct"),
        Err(Failure::Rejected(r)) => panic!("rejected: {}", r.message()),
        Err(Failure::Unparsed(e)) => panic!("not an item: {}", e),
    }
}

fn rejection(attr: &str, text: &str) -> Rejection {
    match expand_text(attr, text) {
        Err(Failure::Rejected(r)) => r,
        _ => panic!("expected a rejection"),
    }
}

fn verdicts(p: &EnumPlan) -> Vec<Verdict> {
    (0..p.len()).map(|i| p.verdict(i)).collect()
}

#[test]
fn visibility_pub_crate_is_retained() {
    run_test(
        "",
        r#"
            pub(crate) enum Q {
                #[fatal]
                #[error(transparent)]
                V(I),
            }
        "#,
        r#"
            #[derive(crate::thiserror::Error, Debug)]
            pub(crate) enum Q {
                #[error(transparent)]
                V(I),
            }


            impl crate::Fatality for Q {
                fn is_fatal(&self) -> bool {
                    match self {
                        Self::V(..) => true,
                    }
                }
            }
        "#,
    );
}

#[test]
fn transparent_fatal_implicit() {
    run_test(
        "",
        r#"
            enum Q {
                #[fatal]
                #[error(transparent)]
                V(I),
            }
        "#,
        r#"
            #[derive(crate::thiserror::Error, Debug)]
            enum Q {
                #[error(transparent)]
                V(I),
            }


            impl crate::Fatality for Q {
                fn is_fatal(&self) -> bool {
                    match self {
                        Self::V(..) => true,
                    }
                }
            }
        "#,
    );
}

#[test]
fn transparent_fatal_fwd() {
    run_test(
        "",
        r#"
            enum Q {
                #[fatal(forward)]
                #[error(transparent)]
                V(I),
            }
        "#,
        r#"
            #[derive(crate::thiserror::Error, Debug)]

            enum Q {
                #[error(transparent)]
                V(I),
            }


            impl crate::Fatality for Q {
                fn is_fatal(&self) -> bool {
                    match self {
                        Self::V(ref arg_0, ..) => <_ as crate::Fatality>::is_fatal(arg_0),
                    }
                }
            }
        "#,
    );
}

#[test]
fn transparent_fatal_true() {
    run_test(
        "",
        r#"
            enum Q {
                #[fatal(true)]
                #[error(transparent)]
                V(I),
            }
        "#,
        r#"
            #[derive(crate::thiserror::Error, Debug)]
            enum Q {
                #[error(transparent)]
                V(I),
            }


            impl crate::Fatality for Q {
                fn is_fatal(&self) -> bool {
                    match self {
                        Self::V(..) => true,
                    }
                }
            }
        "#,
    );
}

#[test]
fn source_fatal() {
    run_test(
        "",
        r#"
            enum Q {
                #[fatal(forward)]
                #[error("DDDDDDDDDDDD")]
                V(first, #[source] I),
            }
        "#,
        r#"
            #[derive(crate::thiserror::Error, Debug)]

            enum Q {
                #[error("DDDDDDDDDDDD")]
                V(first, #[source] I),
            }


            impl crate::Fatality for Q {
                fn is_fatal(&self) -> bool {
                    match self {
                        Self::V(_, ref arg_1, ..) => <_ as crate::Fatality>::is_fatal(arg_1),
                    }
                }
            }
        "#,
    );
}

#[test]
fn full() {
    run_test(
        "",
        r#"
            enum Kaboom {
                #[fatal(forward)]
                #[error(transparent)]
                // only one arg, that's ok, the first will be used
                A(X),

                #[fatal(forward)]
                #[error("Bar")]
                B(#[source] Y),

                #[fatal(forward)]
                #[error("zzzZZzZ")]
                C {#[source] z: Z },

                #[error("What?")]
                What,


                #[fatal]
                #[error(transparent)]
                O(P),
            }
        "#,
        r#"
            #[derive(crate::thiserror::Error, Debug)]
            enum Kaboom {
                #[error(transparent)]
                A(X),
                #[error("Bar")]
                B(#[source] Y),
                #[error("zzzZZzZ")]
                C {#[source] z: Z },
                #[error("What?")]
                What,
                #[error(transparent)]
                O(P),
            }

            impl crate::Fatality for Kaboom {
                fn is_fatal(&self) -> bool {
                    match self {
                        Self::A(ref arg_0, ..) => <_ as crate::Fatality>::is_fatal(arg_0),
                        Self::B(ref arg_0, ..) => <_ as crate::Fatality>::is_fatal(arg_0),
                        Self::C{ref z, ..} => <_ as crate::Fatality>::is_fatal(z),
                        Self::What => false,
                        Self::O(..) => true,
                    }
                }
            }
        "#,
    );
}

#[test]
fn strukt_01_forward() {
    run_test(
        "",
        r#"
            #[fatal(forward)]
            #[error("Mission abort. Maybe?")]
            pub struct X {
                #[source]
                inner: InnerError,
            }
        "#,
        r#"
            #[derive(crate::thiserror::Error, Debug)]
            #[error("Mission abort. Maybe?")]
            pub struct X {
                #[source]
                inner: InnerError,
            }

            impl crate :: Fatality for X {
                fn is_fatal (& self) -> bool {
                    crate::Fatality::is_fatal(&self.inner)
                }
            }
        "#,
    );
}

#[test]
fn strukt_02_explicit_fatal() {
    run_test(
        "",
        r#"
            #[fatal(true)]
            #[error("Mission abort. Maybe?")]
            pub struct X {
                #[source]
                inner: InnerError,
            }
        "#,
        r#"
            #[derive(crate::thiserror::Error, Debug)]
            #[error("Mission abort. Maybe?")]
            pub struct X {
                #[source]
                inner: InnerError,
            }

            impl crate :: Fatality for X {
                fn is_fatal (& self) -> bool {
                    true
                }
            }
        "#,
    );
}

#[test]
fn strukt_03_implicit_fatal() {
    run_test(
        "",
        r#"
            #[fatal]
            #[error("Mission abort. Maybe?")]
            pub struct X {
                #[source]
                inner: InnerError,
            }
        "#,
        r#"
            #[derive(crate::thiserror::Error, Debug)]
            #[error("Mission abort. Maybe?")]
            pub struct X {
                #[source]
                inner: InnerError,
            }

            impl crate :: Fatality for X {
                fn is_fatal (& self) -> bool {
                    true
                }
            }
        "#,
    );
}

#[test]
fn strukt_03_explicit_jfyi() {
    run_test(
        "",
        r#"
            #[fatal(false)]
            #[error("Mission abort. Maybe?")]
            pub struct X {
                #[source]
                inner: InnerError,
            }
        "#,
        r#"
            #[derive(crate::thiserror::Error, Debug)]
            #[error("Mission abort. Maybe?")]
            pub struct X {
                #[source]
                inner: InnerError,
            }

            impl crate :: Fatality for X {
                fn is_fatal (& self) -> bool {
                    false
                }
            }
        "#,
    );
}

#[test]
fn simple() {
    run_test(
        "splitable",
        r#"
            enum Kaboom {
                #[error("Eh?")]
                Eh,

                #[fatal]
                #[error("Explosion")]
                Explosion,
            }
        "#,
        r#"
            #[derive(crate::thiserror::Error, Debug)]
            enum Kaboom {
                #[error("Eh?")]
                Eh,
                #[error("Explosion")]
                Explosion,
            }

            impl crate::Fatality for Kaboom {
                fn is_fatal(&self) -> bool {
                    match self {
                        Self::Eh => false,
                        Self::Explosion => true,
                    }
                }
            }

            impl ::std::convert::From<FatalKaboom> for Kaboom {
                fn from(fatal: FatalKaboom) -> Self {
                    match fatal {
                        FatalKaboom::Explosion => Self::Explosion,
                    }
                }
            }

            impl ::std::convert::From<JfyiKaboom> for Kaboom {
                fn from(jfyi: JfyiKaboom) -> Self {
                    match jfyi {
                        JfyiKaboom::Eh => Self::Eh,
                    }
                }
            }


            #[derive(crate::thiserror::Error, Debug)]
            enum FatalKaboom {
                #[error("Explosion")]
                Explosion
            }

            #[derive(crate::thiserror::Error, Debug)]
            enum JfyiKaboom {
                #[error("Eh?")]
                Eh
            }

            impl crate::Split for Kaboom {
                type Fatal = FatalKaboom;
                type Jfyi = JfyiKaboom;

                fn split(self) -> ::std::result::Result<Self::Jfyi, Self::Fatal> {
                    match self {
                        // Fatal
                        Self::Explosion => Err(FatalKaboom::Explosion),
                        // JFYI
                        Self::Eh => Ok(JfyiKaboom::Eh),
                    }
                }
            }
        "#,
    );
}

#[test]
fn strukt_cannot_split() {
    run_test(
        "splitable",
        r#"
            #[fatal]
            #[error("Cancelled")]
            pub struct X;
        "#,
        r#"
            #[fatal]
            #[error("Cancelled")]
            pub struct X;
            ::core::compile_error! { "Cannot use `splitable` on a `struct`" }
        "#,
    );
}

#[test]
fn regression() {
    run_test(
        "splitable",
        r#"
            pub enum X {
                #[fatal]
                #[error("Cancelled")]
                Inner(Foo),
            }
        "#,
        r#"
            #[derive(crate::thiserror::Error, Debug)]
            pub enum X {
                #[error("Cancelled")]
                Inner(Foo),
            }

            impl crate :: Fatality for X {
                fn is_fatal (& self) -> bool {
                    match self {
                        Self :: Inner (..) => true ,
                    }
                }
            }

            impl :: std :: convert :: From < FatalX > for X {
                fn from (fatal : FatalX) -> Self {
                    match fatal {
                        FatalX :: Inner(arg_0) => Self :: Inner(arg_0),
                    }
                }
            }

            impl :: std :: convert :: From < JfyiX > for X {
                fn from (jfyi : JfyiX) -> Self {
                    match jfyi {

                    }
                }
            }

            # [derive (crate :: thiserror :: Error , Debug)]
            pub enum FatalX {
                #[error("Cancelled")]
                Inner (Foo) }
                #[derive (crate :: thiserror :: Error , Debug)]
                pub enum JfyiX { }
                impl crate :: Split for X {
                    type Fatal = FatalX ;
                    type Jfyi = JfyiX ;
                    fn split (self) -> :: std :: result :: Result < Self :: Jfyi , Self :: Fatal > {
                        match self {
                            Self::Inner(arg_0) => Err (FatalX :: Inner(arg_0)) ,
                        }
                    }
                }
        "#,
    );
}

#[test]
fn forward_variants_split_by_their_inner_error() {
    run_test(
        "splitable",
        r#"
            pub enum Kaboom {
                #[error("Bobo")]
                Bobo,
                #[fatal(forward)]
                #[error(transparent)]
                Iffy(Inner),
                #[fatal]
                #[error("Boom {code}")]
                Boom { code: u8 },
            }
        "#,
        r#"
            #[derive(crate::thiserror::Error, Debug)]
            pub enum Kaboom {
                #[error("Bobo")]
                Bobo,
                #[error(transparent)]
                Iffy(Inner),
                #[error("Boom {code}")]
                Boom { code: u8 },
            }
            impl crate::Fatality for Kaboom {
                fn is_fatal(&self) -> bool {
                    match self {
                        Self::Bobo => false,
                        Self::Iffy(ref arg_0, ..) => <_ as crate::Fatality>::is_fatal(arg_0),
                        Self::Boom{..} => true,
                    }
                }
            }
            impl ::std::convert::From<FatalKaboom> for Kaboom {
                fn from(fatal: FatalKaboom) -> Self {
                    match fatal {
                        FatalKaboom::Iffy(arg_0) => Self::Iffy(arg_0),
                        FatalKaboom::Boom{code} => Self::Boom{code},
                    }
                }
            }
            impl ::std::convert::From<JfyiKaboom> for Kaboom {
                fn from(jfyi: JfyiKaboom) -> Self {
                    match jfyi {
                        JfyiKaboom::Bobo => Self::Bobo,
                        JfyiKaboom::Iffy(arg_0) => Self::Iffy(arg_0),
                    }
                }
            }
            #[derive(crate::thiserror::Error, Debug)]
            pub enum FatalKaboom {
                #[error(transparent)]
                Iffy(Inner),
                #[error("Boom {code}")]
                Boom { code: u8 }
            }
            #[derive(crate::thiserror::Error, Debug)]
            pub enum JfyiKaboom {
                #[error("Bobo")]
                Bobo,
                #[error(transparent)]
                Iffy(Inner)
            }
            impl crate::Split for Kaboom {
                type Fatal = FatalKaboom;
                type Jfyi = JfyiKaboom;
                fn split(self) -> ::std::result::Result<Self::Jfyi, Self::Fatal> {
                    match self {
                        Self::Boom{code} => Err(FatalKaboom::Boom{code}),
                        Self::Iffy(arg_0) => if <_ as crate::Fatality>::is_fatal(&arg_0) {
                            Err(FatalKaboom::Iffy(arg_0))
                        } else {
                            Ok(JfyiKaboom::Iffy(arg_0))
                        },
                        Self::Bobo => Ok(JfyiKaboom::Bobo),
                    }
                }
            }
        "#,
    );
}

#[test]
fn splitable_struct_splits_its_inner_error() {
    run_test(
        "splitable",
        r#"
            #[error("Struct wrapper")]
            pub struct StructWrapper {
                source: Kaboom,
                other_field: (),
            }
        "#,
        r#"
            #[derive(crate::thiserror::Error, Debug)]
            #[error("Struct wrapper")]
            pub struct StructWrapper {
                source: Kaboom,
                other_field: (),
            }
            impl crate::Fatality for StructWrapper {
                fn is_fatal(&self) -> bool {
                    crate::Fatality::is_fatal(&self.source)
                }
            }
            #[derive(crate::thiserror::Error, Debug)]
            #[error("Struct wrapper")]
            pub struct FatalStructWrapper {
                source: <Kaboom as crate::Split>::Fatal,
                other_field: (),
            }
            #[derive(crate::thiserror::Error, Debug)]
            #[error("Struct wrapper")]
            pub struct JfyiStructWrapper {
                source: <Kaboom as crate::Split>::Jfyi,
                other_field: (),
            }
            impl crate::Split for StructWrapper {
                type Fatal = FatalStructWrapper;
                type Jfyi = JfyiStructWrapper;
                fn split(self) -> ::std::result::Result<Self::Jfyi, Self::Fatal> {
                    let Self{source, other_field} = self;
                    match crate::Split::split(source) {
                        Ok(part) => Ok(JfyiStructWrapper { source: part, other_field: other_field }),
                        Err(part) => Err(FatalStructWrapper { source: part, other_field: other_field }),
                    }
                }
            }
        "#,
    );
}

#[test]
fn splitable_tuple_struct_splits_its_inner_error() {
    run_test(
        "splitable",
        r#"
            #[error("Tuple struct wrapper")]
            struct TupleStructWrapper(#[source] Kaboom, ());
        "#,
        r#"
            #[derive(crate::thiserror::Error, Debug)]
            #[error("Tuple struct wrapper")]
            struct TupleStructWrapper(#[source] Kaboom, ());
            impl crate::Fatality for TupleStructWrapper {
                fn is_fatal(&self) -> bool {
                    crate::Fatality::is_fatal(&self.0)
                }
            }
            #[derive(crate::thiserror::Error, Debug)]
            #[error("Tuple struct wrapper")]
            struct FatalTupleStructWrapper(#[source] <Kaboom as crate::Split>::Fatal, ());
            #[derive(crate::thiserror::Error, Debug)]
            #[error("Tuple struct wrapper")]
            struct JfyiTupleStructWrapper(#[source] <Kaboom as crate::Split>::Jfyi, ());
            impl crate::Split for TupleStructWrapper {
                type Fatal = FatalTupleStructWrapper;
                type Jfyi = JfyiTupleStructWrapper;
                fn split(self) -> ::std::result::Result<Self::Jfyi, Self::Fatal> {
                    let Self(arg_0, arg_1) = self;
                    match crate::Split::split(arg_0) {
                        Ok(part) => Ok(JfyiTupleStructWrapper(part, arg_1)),
                        Err(part) => Err(FatalTupleStructWrapper(part, arg_1)),
                    }
                }
            }
        "#,
    );
}

#[test]
fn unreadable_items_keep_the_input_and_report() {
    let output = fatality_text("", "enum {");
    assert!(output.starts_with("enum {"));
    assert!(output.contains("compile_error"));
    let output = fatality_text("xyz", "enum E { A }");
    assert_eq!(
        token_text(&output),
        token_text("enum E { A } ::core::compile_error! { \"unexpected token\" }")
    );
    let output = fatality_text("", "fn f() {}");
    assert_eq!(
        token_text(&output),
        token_text("fn f() {} ::core::compile_error! { \"Only `enum` and `struct` types are supported\" }")
    );
}

#[test]
fn discriminants_are_kept() {
    run_test(
        "",
        "enum E { #[fatal] #[error(\"a\")] A = 1, #[error(\"b\")] B = 2 }",
        r#"
            #[derive(crate::thiserror::Error, Debug)]
            enum E { #[error("a")] A = 1, #[error("b")] B = 2 }
            impl crate::Fatality for E {
                fn is_fatal(&self) -> bool {
                    match self {
                        Self::A => true,
                        Self::B => false,
                    }
                }
            }
        "#,
    );
}

#[test]
fn read_item_reads_every_level() {
    let d = read_item("pub(crate) enum Q { #[fatal] V(#[source] pub I, u8,), W { z: Z } }").unwrap();
    assert_eq!(d.name, "Q");
    assert_eq!(token_text(&d.vis), token_text("pub(crate)"));
    assert!(!d.has_generics);
    let e = match d.body {
        ItemBody::Enum(e) => e,
        _ => panic!("an enum"),
    };
    assert!(!e.trailing_comma);
    assert_eq!(e.variants.len(), 2);
    let v = &e.variants[0];
    assert_eq!(v.name, "V");
    assert_eq!(v.shape, FieldsShape::Tuple);
    assert!(v.trailing_comma);
    assert_eq!(v.fields.len(), 2);
    assert_eq!(v.fields[0].attrs.len(), 1);
    assert_eq!(token_text(&v.fields[0].vis), "pub");
    assert_eq!(v.fields[1].ty, "u8");
    assert_eq!(e.variants[1].shape, FieldsShape::Named);
    assert_eq!(e.variants[1].fields[0].name, "z");
    assert!(read_item("struct S<T>(T);").unwrap().has_generics);
    assert!(matches!(read_item("fn f() {}").unwrap().body, ItemBody::Other));
    assert!(read_item("enum {").is_err());
}

#[test]
fn full_plan() {
    let p = enum_plan(
        "",
        r#"enum Kaboom {
            #[fatal(forward)] #[error(transparent)] A(X),
            #[fatal(forward)] #[error("Bar")] B(#[source] Y),
            #[fatal(forward)] #[error("zzzZZzZ")] C { #[source] z: Z },
            #[error("What?")] What,
            #[fatal] #[error(transparent)] O(P),
        }"#,
    );
    assert_eq!(
        verdicts(&p),
        vec![Verdict::Forward(0), Verdict::Forward(0), Verdict::Forward(0), Verdict::Jfyi, Verdict::Fatal]
    );
    assert_eq!(p.kept_attrs(0), &vec![false, true]);
    assert_eq!(p.kept_attrs(3), &vec![true]);
    assert!(!p.splitable());
}

#[test]
fn simple_plan() {
    let p = enum_plan("splitable", r#"enum Kaboom { #[error("Eh?")] Eh, #[fatal] #[error("Explosion")] Explosion }"#);
    assert!(p.splitable());
    assert_eq!(verdicts(&p), vec![Verdict::Jfyi, Verdict::Fatal]);
    assert_eq!(p.fatal_variants(), &vec![1]);
    assert_eq!(p.jfyi_variants(), &vec![0]);
    assert_eq!(p.fatal_place(1), Some(0));
    assert_eq!(p.jfyi_place(0), Some(0));
    assert_eq!(p.fatal_place(0), None);
    assert_eq!(p.jfyi_place(1), None);
}

#[test]
fn forward_variants_belong_to_both_parts() {
    let p = enum_plan(
        "splitable",
        r#"enum Kaboom {
            #[fatal(forward)] #[error(transparent)] Iffy(Inner),
            #[error("Bobo")] Bobo,
            #[fatal] #[error("Boom")] Boom,
        }"#,
    );
    assert_eq!(p.fatal_variants(), &vec![0, 2]);
    assert_eq!(p.jfyi_variants(), &vec![0, 1]);
    assert_eq!(p.fatal_place(2), Some(1));
    assert_eq!(p.jfyi_place(1), Some(1));
}

#[test]
fn forward_field_choice() {
    // a field named `source`
    let p = struct_plan("splitable", r#"#[error("w")] struct W { other_field: (), source: Kaboom }"#);
    assert_eq!(p.verdict, Verdict::Forward(1));
    assert!(p.splitable);
    // `#[from]` comes before a field named `source`
    let p = struct_plan("", r#"#[fatal(forward)] #[error("w")] struct W { source: A, #[from] inner: B }"#);
    assert_eq!(p.verdict, Verdict::Forward(1));
    // otherwise the first field
    let p = struct_plan("splitable", "#[error(transparent)] struct T(Kaboom);");
    assert_eq!(p.verdict, Verdict::Forward(0));
    let p = struct_plan("", r#"#[fatal(forward)] #[error("t")] struct T(A, B);"#);
    assert_eq!(p.verdict, Verdict::Forward(0));
    // no annotation and not splitable: informational
    let p = struct_plan("", "#[error(transparent)] struct T(Kaboom);");
    assert_eq!(p.verdict, Verdict::Jfyi);
    assert_eq!(p.keep, vec![true]);
}

#[test]
fn rejections() {
    assert_eq!(rejection("xyz", "enum E {}"), Rejection::UnexpectedToken);
    // the attribute is read before the item
    assert_eq!(rejection("xyz", "enum {"), Rejection::UnexpectedToken);
    assert_eq!(rejection("", "enum G<T> { A(T) }"), Rejection::GenericsUnsupported);
    assert_eq!(rejection("", "struct G<T>(T);"), Rejection::GenericsUnsupported);
    assert_eq!(rejection("", "fn f() {}"), Rejection::UnsupportedItem);
    assert_eq!(rejection("", "enum E { #[fatal(perhaps)] V }"), Rejection::ExpectedResolutionMode);
    // the first variant without a verdict decides
    assert_eq!(
        rejection("", "enum E { #[fatal(sometimes)] A, #[fatal(forward)] V }"),
        Rejection::ExpectedResolutionMode
    );
    assert_eq!(rejection("", "enum E { #[fatal(forward)] V }"), Rejection::NothingToForward);
    assert_eq!(
        rejection("splitable", "#[fatal(false)] #[error(transparent)] struct S(A);"),
        Rejection::SplitableStruct
    );
    assert_eq!(Rejection::GenericsUnsupported.message(), "Generics  `enum`-types are currently supported");
    assert_eq!(Rejection::UnsupportedItem.message(), "Only `enum` and `struct` types are supported");
}

#[test]
fn unparsed_items_pass_their_error_through() {
    match expand("splitable", &Err("reader's error".to_string())) {
        Err(Failure::Unparsed(e)) => assert_eq!(e, "reader's error"),
        _ => panic!("expected the reader's error"),
    }
    assert!(matches!(expand_text("", "enum {"), Err(Failure::Unparsed(_))));
}

#[test]
fn where_clauses_are_kept() {
    let d = read_item("struct S where String: Clone { a: u8 }").unwrap();
    assert_eq!(token_text(&d.where_clause), token_text("where String: Clone"));
    assert!(!d.has_generics);
    assert_eq!(read_item("enum E { A }").unwrap().where_clause, "");
    run_test(
        "",
        r#"#[fatal] #[error("s")] struct S where String: Clone { a: u8 }"#,
        r#"
            #[derive(crate::thiserror::Error, Debug)]
            #[error("s")]
            struct S where String: Clone { a: u8 }
            impl crate::Fatality for S {
                fn is_fatal(&self) -> bool { true }
            }
        "#,
    );
    run_test(
        "",
        r#"#[error("s")] struct T(u8) where String: Clone;"#,
        r#"
            #[derive(crate::thiserror::Error, Debug)]
            #[error("s")]
            struct T(u8) where String: Clone;
            impl crate::Fatality for T {
                fn is_fatal(&self) -> bool { false }
            }
        "#,
    );
    run_test(
        "",
        r#"enum E where String: Clone { #[error("a")] A }"#,
        r#"
            #[derive(crate::thiserror::Error, Debug)]
            enum E where String: Clone { #[error("a")] A }
            impl crate::Fatality for E {
                fn is_fatal(&self) -> bool {
                    match self {
                        Self::A => false,
                    }
                }
            }
        "#,
    );
}

#[test]
fn items_are_built_from_their_syntax() {
    let d = enum_decl(
        EnumSyntax {
            attrs: vec![],
            vis: "pub".to_string(),
            name: "E".to_string(),
            generic_params: 2,
            where_clause: String::new(),
            variants: vec![],
            trailing_comma: true,
        },
        vec![],
    );
    assert!(d.has_generics);
    assert_eq!(d.name, "E");
    let d = struct_decl(
        StructSyntax {
            attrs: vec!["#[fatal]".to_string()],
            vis: String::new(),
            name: "S".to_string(),
            generic_params: 0,
            where_clause: "where u8: Copy".to_string(),
            fields: String::new(),
        },
        FieldsShape::Unit,
        vec![],
        false,
    );
    assert!(!d.has_generics);
    assert_eq!(d.where_clause, "where u8: Copy");
    match d.body {
        ItemBody::Struct(v) => {
            assert_eq!(v.name, "S");
            assert_eq!(v.attrs, vec!["#[fatal]".to_string()]);
            assert_eq!(v.discriminant, "");
        },
        _ => panic!("a struct"),
    }
    assert_eq!(fields_shape(" ( u8 )"), Some(FieldsShape::Tuple));
    assert_eq!(fields_shape("{ a : u8 }"), Some(FieldsShape::Named));
    assert_eq!(fields_shape("  "), Some(FieldsShape::Unit));
    assert_eq!(fields_shape("[u8]"), None);
}

#[test]
fn expansions_report_their_message() {
    let item = read_item("enum G<T> { A(T) }");
    assert_eq!(
        render_expansion("", &item),
        Err("Generics  `enum`-types are currently supported".to_string())
    );
    assert_eq!(render_expansion("xyz", &item), Err("unexpected token".to_string()));
    assert_eq!(
        render_expansion("", &Err("reader's error".to_string())),
        Err("reader's error".to_string())
    );
    let code = render_expansion("", &read_item("enum E { #[fatal] #[error(\"a\")] A }")).unwrap();
    assert_eq!(
        token_text(&code),
        token_text(
            r#"
            #[derive(crate::thiserror::Error, Debug)]
            enum E { #[error("a")] A }
            impl crate::Fatality for E {
                fn is_fatal(&self) -> bool {
                    match self {
                        Self::A => true,
                    }
                }
            }
            "#
        )
    );
    // where the expansion fails, the item is kept as it was written
    let output = fatality_text("", "enum G<T> { #[fatal] A(T) }");
    assert!(output.starts_with("enum G<T> { #[fatal] A(T) } "));
}
